use storage_ui::smart_dialog::{self_test_kind, SmartDataDialog, SmartRequest};
use storage_ui::logical_display::{btrfs_default_subvolume_display, status_label, DefaultSubvolume};
use storage_ui::network::MountStatus;
use storage_ui::btrfs_dialogs::{
    check_subvolume_name, BtrfsCreateSnapshotDialog, BtrfsCreateSubvolumeDialog, NameProblem,
    NameTexts, SnapshotRequest, SubvolumeRequest,
};
use storage_ui::btrfs_state::BtrfsState;
use storage_ui::filesystem_dialogs::{
    filesystem_target_for, ConfirmActionDialog, EditFilesystemLabelDialog, FilesystemCheck,
    FilesystemTarget, LabelRequest, TakeOwnershipDialog,
};
use storage_ui::image_dialog::{image_plan, ImageOperationKind, ImagePlan};
use storage_ui::volume_tree::{UiVolume, VolumeInfo, VolumeKind};
use storage_ui::volumes_control::TargetSource;

type Page = BtrfsState<String, u64>;

fn texts() -> NameTexts {
    NameTexts { required: "Name required".to_string(), invalid_chars: "No slashes".to_string() }
}

fn page() -> Page {
    BtrfsState::new(Some("/mnt/data".to_string()), Some("/dev/sdb1".to_string()))
}

#[test]
fn subvolume_names_are_checked() {
    assert_eq!(check_subvolume_name("  home  "), Ok("home"));
    assert_eq!(check_subvolume_name("   "), Err(NameProblem::Required));
    assert_eq!(check_subvolume_name("a/b"), Err(NameProblem::InvalidChars));
    let long = "x".repeat(256);
    assert_eq!(check_subvolume_name(&long), Err(NameProblem::TooLong));
    let fits = "x".repeat(255);
    assert_eq!(check_subvolume_name(&fits), Ok(fits.as_str()));
    // 128 two-byte characters take 256 bytes.
    let wide = "é".repeat(128);
    assert_eq!(check_subvolume_name(&wide), Err(NameProblem::TooLong));
    let wide_fits = "é".repeat(127);
    assert!(check_subvolume_name(&wide_fits).is_ok());
}

#[test]
fn create_subvolume_dialog() {
    let mut unmounted: Page = BtrfsState::new(None, Some("/dev/sdb1".to_string()));
    assert!(BtrfsCreateSubvolumeDialog::open(&unmounted).is_none());
    unmounted.mount_point = Some("/mnt/data".to_string());
    let mut d = BtrfsCreateSubvolumeDialog::open(&unmounted).expect("dialog");
    assert_eq!(d.create(&texts()), None);
    assert_eq!(d.error.as_deref(), Some("Name required"));
    assert!(!d.running);
    d.set_name("x/y".to_string());
    assert_eq!(d.error, None);
    assert_eq!(d.create(&texts()), None);
    assert_eq!(d.error.as_deref(), Some("No slashes"));
    d.set_name("x".repeat(300));
    assert_eq!(d.create(&texts()), None);
    assert_eq!(d.error.as_deref(), Some("Subvolume name too long"));
    d.set_name(" @home ".to_string());
    assert_eq!(
        d.create(&texts()),
        Some(SubvolumeRequest {
            mount_point: "/mnt/data".to_string(),
            name: "@home".to_string(),
            keep_selected: "/dev/sdb1".to_string(),
        })
    );
    assert!(d.running);
    assert_eq!(d.create(&texts()), None);
}

#[test]
fn create_snapshot_dialog() {
    let mut p = page();
    assert!(BtrfsCreateSnapshotDialog::open(&p, vec!["@".to_string()]).is_none());
    p.subvolumes = Some(Ok(vec![]));
    assert!(BtrfsCreateSnapshotDialog::open(&p, vec!["@".to_string()]).is_none());
    p.subvolumes = Some(Ok(vec![(256, "@".to_string()), (257, "@home".to_string())]));
    let mut d = BtrfsCreateSnapshotDialog::open(&p, vec!["@".to_string(), "@home".to_string()]).expect("dialog");
    assert!(d.read_only);
    assert_eq!(d.selected_source_index, 0);
    d.set_source(5);
    assert_eq!(d.selected_source_index, 0);
    d.set_source(1);
    assert_eq!(d.selected_source_index, 1);
    d.set_name("x".repeat(256));
    assert_eq!(d.create(&texts()), None);
    assert_eq!(d.error.as_deref(), Some("Snapshot name too long"));
    d.set_name("home-snap".to_string());
    d.set_read_only(false);
    assert_eq!(
        d.create(&texts()),
        Some(SnapshotRequest {
            mount_point: "/mnt/data".to_string(),
            source: "@home".to_string(),
            dest: "home-snap".to_string(),
            read_only: false,
            keep_selected: "/dev/sdb1".to_string(),
        })
    );
    assert!(d.running);
}

fn volume(device: Option<&str>, mounted: bool) -> VolumeInfo {
    VolumeInfo {
        kind: VolumeKind::Partition,
        label: String::new(),
        device_path: device.map(|d| d.to_string()),
        id_type: "ext4".to_string(),
        has_filesystem: true,
        locked: false,
        mount_points: vec![],
        can_mount: true,
        mounted,
        size: 0,
        used_bytes: None,
    }
}

#[test]
fn filesystem_dialogs_confirm_once() {
    let node = UiVolume { volume: volume(Some("/dev/sda1"), true), children: vec![] };
    let target = filesystem_target_for(TargetSource::SegmentVolume, &node);
    let mut label = EditFilesystemLabelDialog::new(target.clone());
    label.set_label("DATA".to_string());
    assert_eq!(
        label.confirm(),
        Some(Ok(LabelRequest { device: "/dev/sda1".to_string(), label: "DATA".to_string() }))
    );
    assert_eq!(label.confirm(), None);

    let orphan = FilesystemTarget { source: TargetSource::SelectedVolume, device_path: None };
    let mut check = ConfirmActionDialog {
        title: "Check".to_string(),
        body: "Check it?".to_string(),
        target: orphan.clone(),
        action: FilesystemCheck::Check,
        running: false,
    };
    assert_eq!(check.confirm(), Some(Err("Volume has no device path".to_string())));
    assert!(check.running);

    let mut own = TakeOwnershipDialog::new(orphan);
    assert!(own.recursive);
    own.set_recursive(false);
    assert_eq!(own.confirm(), Some(("/dev/unknown".to_string(), false)));
    let mut own = TakeOwnershipDialog::new(target);
    assert_eq!(own.confirm(), Some(("/dev/sda1".to_string(), true)));
}

#[test]
fn image_operation_plans() {
    let flat = vec![volume(Some("/dev/sda1"), true), volume(Some("/dev/sda2"), false), volume(Some("/dev/sda3"), true)];
    assert_eq!(
        image_plan(ImageOperationKind::RestoreToDrive, "/dev/sda", &flat, None),
        ImagePlan { unmount_first: vec!["/dev/sda1".to_string(), "/dev/sda3".to_string()], next: Ok("/dev/sda".to_string()) }
    );
    let broken = vec![volume(Some("/dev/sda1"), true), volume(None, true), volume(Some("/dev/sda3"), true)];
    assert_eq!(
        image_plan(ImageOperationKind::RestoreToDrive, "/dev/sda", &broken, None),
        ImagePlan { unmount_first: vec!["/dev/sda1".to_string()], next: Err("Partition has no device path".to_string()) }
    );
    assert_eq!(
        image_plan(ImageOperationKind::CreateFromDrive, "/dev/sda", &broken, None),
        ImagePlan { unmount_first: vec![], next: Ok("/dev/sda".to_string()) }
    );
    assert_eq!(
        image_plan(ImageOperationKind::CreateFromPartition, "/dev/sda", &flat, None),
        ImagePlan { unmount_first: vec![], next: Err("No partition selected".to_string()) }
    );
    let p = volume(Some("/dev/sda1"), true);
    assert_eq!(
        image_plan(ImageOperationKind::RestoreToPartition, "/dev/sda", &flat, Some(&p)),
        ImagePlan { unmount_first: vec!["/dev/sda1".to_string()], next: Ok("/dev/sda1".to_string()) }
    );
    assert_eq!(
        image_plan(ImageOperationKind::CreateFromPartition, "/dev/sda", &flat, Some(&p)),
        ImagePlan { unmount_first: vec![], next: Ok("/dev/sda1".to_string()) }
    );
    let q = volume(None, false);
    assert_eq!(
        image_plan(ImageOperationKind::RestoreToPartition, "/dev/sda", &flat, Some(&q)),
        ImagePlan { unmount_first: vec![], next: Err("Partition has no device path".to_string()) }
    );
}

#[test]
fn smart_dialog_flow() {
    let mut d: SmartDataDialog<String, u32> = SmartDataDialog { drive: "/dev/sda".to_string(), running: false, info: None, error: Some("old".to_string()) };
    d.begin();
    assert!(d.running);
    assert_eq!(d.error, None);
    d.loaded(Ok(42));
    assert!(!d.running);
    assert_eq!(d.info, Some(42));
    d.begin();
    d.loaded(Err("no SMART".to_string()));
    assert_eq!(d.info, Some(42));
    assert_eq!(d.error.as_deref(), Some("no SMART"));
    d.begin();
    assert!(d.action_complete(Ok(())));
    assert!(!d.action_complete(Err("busy".to_string())));
    assert_eq!(d.error.as_deref(), Some("busy"));
    assert_eq!(self_test_kind(SmartRequest::ExtendedSelfTest), Some("long"));
    assert_eq!(self_test_kind(SmartRequest::ShortSelfTest), Some("short"));
    assert_eq!(self_test_kind(SmartRequest::AbortSelfTest), Some("abort"));
    assert_eq!(self_test_kind(SmartRequest::Refresh), None);
}

#[test]
fn default_subvolume_texts() {
    let subs = vec![(256u64, "@".to_string()), (257, "@home".to_string()), (258, "a".to_string()), (258, "b".to_string())];
    assert_eq!(btrfs_default_subvolume_display(DefaultSubvolume::Id(257), &subs), "@home (ID 257)");
    assert_eq!(btrfs_default_subvolume_display(DefaultSubvolume::Id(5), &subs), "/ (ID 5)");
    assert_eq!(btrfs_default_subvolume_display(DefaultSubvolume::Id(300), &subs), "Unreported subvolume (ID 300)");
    assert_eq!(btrfs_default_subvolume_display(DefaultSubvolume::Id(258), &subs), "Ambiguous subvolume (ID 258)");
    assert_eq!(btrfs_default_subvolume_display(DefaultSubvolume::NoDefault, &subs), "None");
    assert_eq!(btrfs_default_subvolume_display(DefaultSubvolume::Unknown, &subs), "Unknown");
    assert_eq!(status_label(&MountStatus::Error("x".to_string())), "Error");
    assert_eq!(status_label(&MountStatus::Unmounting), "Unmounting");
}
