use storage_ui::logical::{LogicalEntity, LogicalEntityId, LogicalEntityKind};
use storage_ui::logical_sidebar::{
    candidate_kind_label, logical_candidate_kind, logical_candidates,
    logical_entity_matches_candidate, logical_section, LogicalCandidate, LogicalCandidateKind,
    LogicalRow,
};
use storage_ui::volume_tree::{UiVolume, VolumeInfo, VolumeKind};
use storage_ui::volumes_control::{DiskFacts, UiDrive};

fn info(kind: VolumeKind, device: Option<&str>, id_type: &str) -> VolumeInfo {
    VolumeInfo {
        kind,
        label: String::new(),
        device_path: device.map(|d| d.to_string()),
        id_type: id_type.to_string(),
        has_filesystem: true,
        locked: false,
        mount_points: vec![],
        can_mount: true,
        mounted: false,
        size: 0,
        used_bytes: None,
    }
}

fn node(volume: VolumeInfo, children: Vec<UiVolume>) -> UiVolume {
    UiVolume { volume, children }
}

fn drive(device: &str, volumes: Vec<UiVolume>) -> UiDrive {
    UiDrive {
        device: device.to_string(),
        disk: DiskFacts {
            removable: false,
            ejectable: false,
            is_loop: false,
            backing_file: None,
            vendor: String::new(),
            model: String::new(),
            display_name: device.to_string(),
        },
        size: 1 << 30,
        partition_table_type: Some("gpt".to_string()),
        gpt_usable_range: None,
        partitions: vec![],
        volumes,
    }
}

fn entity(id: &str, kind: LogicalEntityKind, parent: Option<&str>, name: &str, members: &[&str]) -> LogicalEntity {
    LogicalEntity {
        id: LogicalEntityId(id.to_string()),
        kind,
        parent_id: parent.map(|p| LogicalEntityId(p.to_string())),
        device_path: None,
        name: name.to_string(),
        member_paths: members.iter().map(|m| m.to_string()).collect(),
    }
}

fn cand(path: &str, kind: LogicalCandidateKind) -> LogicalCandidate {
    LogicalCandidate { device_path: path.to_string(), kind }
}

#[test]
fn candidate_kinds_by_content_type() {
    assert_eq!(logical_candidate_kind(&info(VolumeKind::Filesystem, None, " BTRFS ")), Some(LogicalCandidateKind::Btrfs));
    assert_eq!(logical_candidate_kind(&info(VolumeKind::Partition, None, "LVM2_member")), Some(LogicalCandidateKind::LvmPhysicalVolume));
    assert_eq!(logical_candidate_kind(&info(VolumeKind::LvmPhysicalVolume, None, "")), Some(LogicalCandidateKind::LvmPhysicalVolume));
    assert_eq!(logical_candidate_kind(&info(VolumeKind::Partition, None, "linux_raid_member")), Some(LogicalCandidateKind::RaidMember));
    assert_eq!(logical_candidate_kind(&info(VolumeKind::Filesystem, None, "ext4")), None);
    assert_eq!(candidate_kind_label(LogicalCandidateKind::RaidMember), "RAID member");
}

#[test]
fn candidates_are_sorted_and_unique_by_device() {
    let drives = vec![
        drive("/dev/sdb", vec![
            node(info(VolumeKind::Partition, Some("/dev/sdb2"), "linux_raid_member"), vec![]),
            node(info(VolumeKind::CryptoContainer, Some("/dev/sdb1"), "crypto_LUKS"), vec![
                node(info(VolumeKind::Filesystem, Some("/dev/dm-1"), "btrfs"), vec![]),
            ]),
        ]),
        drive("/dev/sda", vec![
            node(info(VolumeKind::Partition, Some("/dev/sdb2"), "btrfs"), vec![]),
            node(info(VolumeKind::Partition, None, "btrfs"), vec![]),
            node(info(VolumeKind::Partition, Some("/dev/sda3"), "lvm2_member"), vec![]),
        ]),
    ];
    assert_eq!(
        logical_candidates(&drives),
        vec![
            cand("/dev/dm-1", LogicalCandidateKind::Btrfs),
            cand("/dev/sda3", LogicalCandidateKind::LvmPhysicalVolume),
            cand("/dev/sdb2", LogicalCandidateKind::RaidMember),
        ]
    );
}

#[test]
fn entities_match_candidates_of_their_kind() {
    let fs = entity("fs1", LogicalEntityKind::BtrfsFilesystem, None, "pool", &["/dev/sda1", "/dev/sdb1"]);
    assert!(logical_entity_matches_candidate(&fs, &cand("/dev/sdb1", LogicalCandidateKind::Btrfs)));
    assert!(!logical_entity_matches_candidate(&fs, &cand("/dev/sdb1", LogicalCandidateKind::RaidMember)));
    assert!(!logical_entity_matches_candidate(&fs, &cand("/dev/sdc1", LogicalCandidateKind::Btrfs)));
    let vg = entity("vg1", LogicalEntityKind::LvmVolumeGroup, None, "vg", &["/dev/sda3"]);
    assert!(logical_entity_matches_candidate(&vg, &cand("/dev/sda3", LogicalCandidateKind::LvmPhysicalVolume)));
}

#[test]
fn section_shows_each_root_once_and_unresolved_candidates() {
    let entities = vec![
        entity("fs1", LogicalEntityKind::BtrfsFilesystem, None, "pool", &["/dev/sda1", "/dev/sdb1"]),
        entity("sub", LogicalEntityKind::BtrfsSubvolume, Some("fs1"), "home", &["/dev/sda1"]),
        entity("vg2", LogicalEntityKind::LvmVolumeGroup, None, "zeta", &["/dev/sdc1"]),
        entity("vg1", LogicalEntityKind::LvmVolumeGroup, None, "alpha", &["/dev/sdc1"]),
    ];
    let candidates = vec![
        cand("/dev/sda1", LogicalCandidateKind::Btrfs),
        cand("/dev/sdb1", LogicalCandidateKind::Btrfs),
        cand("/dev/sdc1", LogicalCandidateKind::LvmPhysicalVolume),
        cand("/dev/sdd1", LogicalCandidateKind::RaidMember),
    ];
    let selected = Some(LogicalEntityId("vg1".to_string()));
    let rows = logical_section(&candidates, &entities, &selected, &None);
    assert_eq!(
        rows,
        vec![
            LogicalRow::Entity { index: 0, title: "/dev/sda1 — Btrfs".to_string(), selected: false },
            LogicalRow::Entity { index: 3, title: "alpha".to_string(), selected: true },
            LogicalRow::Entity { index: 2, title: "zeta".to_string(), selected: false },
            LogicalRow::Candidate { device_path: "/dev/sdd1".to_string(), kind: LogicalCandidateKind::RaidMember, selected: false },
        ]
    );
    let rows = logical_section(&candidates[3..].to_vec(), &entities, &None, &Some("/dev/sdd1".to_string()));
    assert_eq!(
        rows,
        vec![LogicalRow::Candidate { device_path: "/dev/sdd1".to_string(), kind: LogicalCandidateKind::RaidMember, selected: true }]
    );
}
