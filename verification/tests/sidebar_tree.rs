use storage_ui::btrfs_state::BtrfsState;
use storage_ui::nav::{activated_drive, closes_on_reload, nav_selection, BtrfsLoad, DialogKind};
use storage_ui::ordering::{stable_order_text, stable_order_u64};
use storage_ui::sidebar::{ExpandedNodes, SidebarNodeKey, SidebarState};
use storage_ui::sidebar_tree::{
    drive_title, section_for_drive, section_label, section_rows, shows_section, volume_title,
    Section, SidebarRow,
};
use storage_ui::volume_tree::{UiVolume, VolumeInfo, VolumeKind};
use storage_ui::volumes_control::{DiskFacts, DrivePartition, UiDrive, VolumesControl};

fn disk(vendor: &str, model: &str) -> DiskFacts {
    DiskFacts {
        removable: false,
        ejectable: false,
        is_loop: false,
        backing_file: None,
        vendor: vendor.to_string(),
        model: model.to_string(),
        display_name: "500 GB Disk".to_string(),
    }
}

fn vol(device: Option<&str>, label: &str, mounted: bool, children: Vec<UiVolume>) -> UiVolume {
    UiVolume {
        volume: VolumeInfo {
            kind: VolumeKind::Filesystem,
            label: label.to_string(),
            device_path: device.map(|d| d.to_string()),
            id_type: "ext4".to_string(),
            has_filesystem: true,
            locked: false,
            mount_points: vec![],
            can_mount: true,
            mounted,
            size: 0,
            used_bytes: None,
        },
        children,
    }
}

fn part(device: &str, offset: u64) -> DrivePartition {
    DrivePartition {
        device: device.to_string(),
        name: String::new(),
        type_label: String::new(),
        offset,
        size: 1,
        table_type: "gpt".to_string(),
    }
}

fn drive(device: &str, facts: DiskFacts, volumes: Vec<UiVolume>, partitions: Vec<DrivePartition>) -> UiDrive {
    UiDrive {
        device: device.to_string(),
        disk: facts,
        size: 1 << 30,
        partition_table_type: Some("gpt".to_string()),
        gpt_usable_range: None,
        partitions,
        volumes,
    }
}

fn keys(rows: &[SidebarRow]) -> Vec<(SidebarNodeKey, u16)> {
    rows.iter().map(|r| (r.key.clone(), r.depth)).collect()
}

#[test]
fn drives_fall_into_sections() {
    let mut d = disk("ACME", "X");
    assert_eq!(section_for_drive(&d), Section::Internal);
    d.removable = true;
    assert_eq!(section_for_drive(&d), Section::External);
    d.backing_file = Some("/tmp/a.img".to_string());
    assert_eq!(section_for_drive(&d), Section::Images);
    d.backing_file = None;
    d.is_loop = true;
    assert_eq!(section_for_drive(&d), Section::Images);
    assert_eq!(section_label(Section::External), "External");
    assert!(shows_section(Section::Images, 0));
    assert!(!shows_section(Section::Internal, 0));
    assert!(shows_section(Section::Internal, 2));
}

#[test]
fn drive_titles() {
    assert_eq!(drive_title(&disk(" Samsung ", "SAMSUNG SSD 980")), "SAMSUNG SSD 980");
    assert_eq!(drive_title(&disk("WDC", "Blue SN570")), "WDC Blue SN570");
    assert_eq!(drive_title(&disk("", " Model Z ")), "Model Z");
    assert_eq!(drive_title(&disk("Vendor", "  ")), "Vendor");
    assert_eq!(drive_title(&disk(" ", "")), "500 GB Disk");
    let mut image = disk("", "");
    image.backing_file = Some("/home/me/images/disk.img".to_string());
    assert_eq!(drive_title(&image), "disk.img");
    image.backing_file = Some("/home/me/images/".to_string());
    assert_eq!(drive_title(&image), "500 GB Disk");
}

#[test]
fn volume_titles_fall_back_to_the_device() {
    let v = vol(Some("/dev/sda1"), "  ", false, vec![]);
    assert_eq!(volume_title(&v.volume), "/dev/sda1");
    let v = vol(None, "", false, vec![]);
    assert_eq!(volume_title(&v.volume), "");
    let v = vol(Some("/dev/sda1"), "Data", false, vec![]);
    assert_eq!(volume_title(&v.volume), "Data");
}

#[test]
fn expanded_drive_lists_volumes_in_disk_order_and_children_by_path() {
    let inner = vec![
        vol(Some("/dev/vg/b"), "", false, vec![]),
        vol(Some("/dev/vg/a"), "", true, vec![]),
    ];
    let volumes = vec![
        vol(Some("/dev/sda2"), "second", false, inner),
        vol(Some("/dev/sda1"), "first", true, vec![]),
        vol(None, "loose", false, vec![]),
    ];
    let d = drive("/dev/sda", disk("ACME", "Disk"), volumes, vec![part("/dev/sda1", 1024), part("/dev/sda2", 4096)]);
    let mut usb = disk("Kingston", "DataTraveler");
    usb.removable = true;
    let u = drive("/dev/sdb", usb, vec![vol(Some("/dev/sdb1"), "", false, vec![])], vec![part("/dev/sdb1", 0)]);
    let drives = vec![d, u];

    let mut expanded = ExpandedNodes::new();
    let collapsed = section_rows(&drives, Section::Internal, &expanded, &None, Some("/dev/sda"));
    assert_eq!(collapsed.len(), 1);
    assert!(collapsed[0].selected);
    assert!(collapsed[0].has_children);
    assert!(!collapsed[0].action);
    assert_eq!(collapsed[0].title, "ACME Disk");

    expanded.toggle(SidebarNodeKey::Drive("/dev/sda".to_string()));
    let selected = Some(SidebarNodeKey::Volume("/dev/sda1".to_string()));
    let rows = section_rows(&drives, Section::Internal, &expanded, &selected, None);
    assert_eq!(
        keys(&rows),
        vec![
            (SidebarNodeKey::Drive("/dev/sda".to_string()), 0),
            (SidebarNodeKey::Volume(String::new()), 1),
            (SidebarNodeKey::Volume("/dev/sda1".to_string()), 1),
            (SidebarNodeKey::Volume("/dev/sda2".to_string()), 1),
        ]
    );
    assert!(!rows[0].selected);
    assert!(rows[2].selected);
    assert!(rows[2].action);
    assert!(rows[3].has_children);

    expanded.toggle(SidebarNodeKey::Volume("/dev/sda2".to_string()));
    let rows = section_rows(&drives, Section::Internal, &expanded, &selected, None);
    assert_eq!(rows.len(), 6);
    assert_eq!(rows[4].key, SidebarNodeKey::Volume("/dev/vg/a".to_string()));
    assert_eq!(rows[4].depth, 2);
    assert_eq!(rows[4].title, "/dev/vg/a");
    assert_eq!(rows[5].key, SidebarNodeKey::Volume("/dev/vg/b".to_string()));

    let external = section_rows(&drives, Section::External, &expanded, &selected, None);
    assert_eq!(external.len(), 1);
    assert!(external[0].action);
    assert_eq!(external[0].title, "Kingston DataTraveler");
    assert!(section_rows(&drives, Section::Images, &expanded, &selected, None).is_empty());
}

#[test]
fn stable_orders() {
    assert_eq!(stable_order_u64(&vec![30, 10, 20, 10]), vec![1, 3, 2, 0]);
    assert_eq!(stable_order_u64(&vec![]), Vec::<usize>::new());
    let texts = vec!["b".to_string(), "a".to_string(), "b".to_string(), "".to_string(), "ab".to_string()];
    assert_eq!(stable_order_text(&texts), vec![3, 1, 4, 0, 2]);
}

#[test]
fn reload_closes_running_dialogs_of_the_reloading_kinds() {
    assert!(closes_on_reload(DialogKind::FormatPartition, true));
    assert!(!closes_on_reload(DialogKind::FormatPartition, false));
    assert!(closes_on_reload(DialogKind::BtrfsCreateSnapshot, true));
    assert!(!closes_on_reload(DialogKind::ImageOperation, true));
    assert!(!closes_on_reload(DialogKind::Info, true));
}

#[test]
fn reload_keeps_or_picks_the_shown_drive() {
    let devices = vec!["/dev/sda".to_string(), "/dev/sdb".to_string(), "/dev/sda".to_string()];
    assert_eq!(nav_selection(Some("/dev/sdb".to_string()), Some("/dev/sda".to_string()), &devices).as_deref(), Some("/dev/sdb"));
    assert_eq!(nav_selection(None, Some("/dev/sdz".to_string()), &devices).as_deref(), Some("/dev/sdz"));
    assert_eq!(nav_selection(None, None, &devices).as_deref(), Some("/dev/sda"));
    assert_eq!(nav_selection(None, None, &vec![]), None);
    assert_eq!(activated_drive(&devices, &Some("/dev/sda".to_string())), Some(2));
    assert_eq!(activated_drive(&devices, &Some("/dev/sdb".to_string())), Some(1));
    assert_eq!(activated_drive(&devices, &Some("/dev/sdz".to_string())), None);
    assert_eq!(activated_drive(&devices, &None), None);
}

#[test]
fn btrfs_page_asks_for_what_it_lacks() {
    let mut page: BtrfsState<(), ()> = BtrfsState::new(Some("/home".to_string()), Some("/dev/dm-0".to_string()));
    assert_eq!(
        page.pending_loads(),
        vec![
            BtrfsLoad::Subvolumes { block_path: "/dev/dm-0".to_string(), mount_point: "/home".to_string() },
            BtrfsLoad::Usage { block_path: "/dev/dm-0".to_string(), mount_point: "/home".to_string() },
        ]
    );
    page.loading = true;
    assert_eq!(
        page.pending_loads(),
        vec![BtrfsLoad::Usage { block_path: "/dev/dm-0".to_string(), mount_point: "/home".to_string() }]
    );
    let unmounted: BtrfsState<(), ()> = BtrfsState::new(None, Some("/dev/dm-0".to_string()));
    assert!(unmounted.pending_loads().is_empty());
}

#[test]
fn rebuilt_view_follows_btrfs_of_the_first_segment() {
    let btrfs = UiVolume {
        volume: VolumeInfo {
            kind: VolumeKind::Filesystem,
            label: String::new(),
            device_path: Some("/dev/sdc1".to_string()),
            id_type: "btrfs".to_string(),
            has_filesystem: true,
            locked: false,
            mount_points: vec!["/data".to_string()],
            can_mount: true,
            mounted: true,
            size: 0,
            used_bytes: None,
        },
        children: vec![],
    };
    let mut d = drive("/dev/sdc", disk("", ""), vec![btrfs], vec![DrivePartition {
        device: "/dev/sdc1".to_string(),
        name: String::new(),
        type_label: "Linux filesystem".to_string(),
        offset: 1 << 20,
        size: 512 << 20,
        table_type: "gpt".to_string(),
    }]);
    d.gpt_usable_range = Some((17408, (1 << 30) - 17408));
    let c: VolumesControl<(), (), u8> = VolumesControl::for_nav(d, false, vec![], vec![], 0);
    let page = c.btrfs_state.as_ref().expect("btrfs page");
    assert_eq!(page.mount_point.as_deref(), Some("/data"));
    assert_eq!(page.block_path.as_deref(), Some("/dev/sdc1"));
}

#[test]
fn pending_drives_come_out_by_device_then_name() {
    let mut state = SidebarState::new();
    let named = |device: &str, name: &str| {
        let mut facts = disk("", "");
        facts.display_name = name.to_string();
        drive(device, facts, vec![], vec![])
    };
    state.pending_drives.push(named("/dev/sdb", "b"));
    state.pending_drives.push(named("/dev/sda", "z"));
    state.pending_drives.push(named("/dev/sdb", "a"));
    state.pending_drives.push(named("/dev/sda", "z"));
    state.pending_drives.push(named("/dev/nvme0n1", "n"));
    let drives = state.take_pending_drives();
    let got: Vec<(String, String)> = drives.iter().map(|d| (d.device.clone(), d.disk.display_name.clone())).collect();
    assert_eq!(
        got,
        vec![
            ("/dev/nvme0n1".to_string(), "n".to_string()),
            ("/dev/sda".to_string(), "z".to_string()),
            ("/dev/sda".to_string(), "z".to_string()),
            ("/dev/sdb".to_string(), "a".to_string()),
            ("/dev/sdb".to_string(), "b".to_string()),
        ]
    );
    assert!(state.pending_drives.is_empty());
    assert!(state.take_pending_drives().is_empty());
}
