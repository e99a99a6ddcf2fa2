use storage_ui::volume_tree::{
    aggregate_children_usage, collect_mounted_descendants_leaf_first, detect_btrfs_for_volume,
    detect_btrfs_in_node, find_btrfs_child, find_volume_for_partition, find_volume_in_ui_tree,
    UiVolume, VolumeInfo, VolumeKind,
};

fn info(device: Option<&str>, id_type: &str, mounted: bool) -> VolumeInfo {
    VolumeInfo {
        kind: if id_type == "crypto_LUKS" { VolumeKind::CryptoContainer } else { VolumeKind::Filesystem },
        label: String::new(),
        device_path: device.map(|d| d.to_string()),
        id_type: id_type.to_string(),
        has_filesystem: id_type != "crypto_LUKS",
        locked: false,
        mount_points: if mounted { vec![format!("/mnt{}", device.unwrap_or(""))] } else { vec![] },
        can_mount: id_type != "crypto_LUKS",
        mounted,
        size: 0,
        used_bytes: None,
    }
}

fn node(volume: VolumeInfo, children: Vec<UiVolume>) -> UiVolume {
    UiVolume { volume, children }
}

fn tree() -> Vec<UiVolume> {
    vec![
        node(info(Some("/dev/sda1"), "vfat", true), vec![]),
        node(
            info(Some("/dev/sda2"), "crypto_LUKS", false),
            vec![node(info(Some("/dev/dm-0"), "BTRFS", true), vec![])],
        ),
        node(
            info(Some("/dev/sda3"), "LVM2_member", false),
            vec![
                node(info(Some("/dev/vg/a"), "ext4", true), vec![]),
                node(info(None, "ext4", true), vec![]),
                node(info(Some("/dev/vg/b"), "xfs", false), vec![]),
            ],
        ),
    ]
}

#[test]
fn volumes_are_found_by_device_path() {
    let t = tree();
    assert_eq!(find_volume_in_ui_tree(&t, "/dev/dm-0").unwrap().volume.id_type, "BTRFS");
    assert_eq!(find_volume_in_ui_tree(&t, "/dev/vg/b").unwrap().volume.id_type, "xfs");
    assert!(find_volume_in_ui_tree(&t, "/dev/sdz").is_none());
    let part = info(Some("/dev/sda3"), "LVM2_member", false);
    assert_eq!(find_volume_for_partition(&t, &part).unwrap().children.len(), 3);
    assert!(find_volume_for_partition(&t, &info(None, "ext4", false)).is_none());
    assert_eq!(t[1].device(), Some("/dev/sda2"));
}

#[test]
fn btrfs_is_found_inside_encrypted_containers() {
    let t = tree();
    assert_eq!(detect_btrfs_in_node(&t[1]), Some(Some("/mnt/dev/dm-0".to_string())));
    assert_eq!(detect_btrfs_in_node(&t[0]), None);
    assert_eq!(detect_btrfs_in_node(&t[2]), None, "an LVM member is not looked into");
    assert_eq!(find_btrfs_child(&t[1]).unwrap().device(), Some("/dev/dm-0"));
    assert!(find_btrfs_child(&t[2]).is_none());
    let luks = info(Some("/dev/sda2"), "crypto_LUKS", false);
    assert_eq!(
        detect_btrfs_for_volume(&t, &luks),
        Some((Some("/mnt/dev/dm-0".to_string()), "/dev/dm-0".to_string()))
    );
    let plain = info(Some("/dev/sdb1"), "btrfs", false);
    assert_eq!(detect_btrfs_for_volume(&t, &plain), Some((None, "/dev/sdb1".to_string())));
    assert_eq!(detect_btrfs_for_volume(&t, &info(None, "btrfs", false)), None);
    assert_eq!(detect_btrfs_for_volume(&t, &info(Some("/dev/sda1"), "vfat", true)), None);
}

#[test]
fn mounted_descendants_come_leaf_first() {
    let t = tree();
    let root = node(info(Some("/dev/sda"), "ext4", true), t);
    assert_eq!(
        collect_mounted_descendants_leaf_first(&root),
        vec!["/dev/sda1", "/dev/dm-0", "/dev/vg/a", "/dev/sda"]
    );
}

#[test]
fn children_usage_is_summed() {
    let mut a = info(Some("/dev/a"), "ext4", true);
    a.used_bytes = Some(100);
    let mut b = info(Some("/dev/b"), "ext4", true);
    b.used_bytes = Some(23);
    let c = info(Some("/dev/c"), "ext4", true);
    let parent = node(info(None, "", false), vec![node(a, vec![]), node(b, vec![]), node(c, vec![])]);
    assert_eq!(aggregate_children_usage(&parent), 123);
    assert_eq!(aggregate_children_usage(&node(info(None, "", false), vec![])), 0);
}
