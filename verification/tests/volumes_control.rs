use storage_ui::nav::drive_holding;
use storage_ui::btrfs_state::BtrfsState;
use storage_ui::usage::UsageTabState;
use storage_ui::mount_flow::{unmount_outcome, UnmountOutcome};
use storage_ui::detail_actions::{
    partition_actions, resize_bounds, right_free_bytes, volume_actions, DetailAction,
    PartitionFacts,
};
use storage_ui::dialogs::{DeletePartitionDialog, FormatPartitionStep, ResizePartitionStep};
use storage_ui::partition_dialogs::{FilesystemToolInfo, PartitionTypeCatalog};
use storage_ui::segments::DiskSegmentKind;
use storage_ui::views::DetailTab;
use storage_ui::volume_tree::{UiVolume, VolumeInfo, VolumeKind};
use storage_ui::volumes_control::{
    DiskFacts, DrivePartition, SelectionEffect, TargetSource, UiDrive, VolumesControl,
};

const MIB: u64 = 1024 * 1024;
const DISK: u64 = 1024 * MIB;

type Control = VolumesControl<(), (), u8>;

fn volume(kind: VolumeKind, device: &str, id_type: &str, mount: Option<&str>) -> VolumeInfo {
    VolumeInfo {
        kind,
        label: String::new(),
        device_path: Some(device.to_string()),
        id_type: id_type.to_string(),
        has_filesystem: kind != VolumeKind::CryptoContainer,
        locked: false,
        mount_points: mount.map(|m| vec![m.to_string()]).unwrap_or_default(),
        can_mount: kind != VolumeKind::CryptoContainer,
        mounted: mount.is_some(),
        size: 0,
        used_bytes: None,
    }
}

fn drive() -> UiDrive {
    let mut boot = volume(VolumeKind::Partition, "/dev/sda1", "ext4", Some("/boot"));
    boot.label = "boot".to_string();
    boot.size = 100 * MIB;
    boot.used_bytes = Some(10 * MIB);
    let vault = volume(VolumeKind::CryptoContainer, "/dev/sda2", "crypto_LUKS", None);
    let home = volume(VolumeKind::Filesystem, "/dev/dm-0", "btrfs", Some("/home"));
    UiDrive {
        device: "/dev/sda".to_string(),
        disk: DiskFacts {
            removable: false,
            ejectable: false,
            is_loop: false,
            backing_file: None,
            vendor: "ACME".to_string(),
            model: "SSD 1000".to_string(),
            display_name: "1.1 GB Disk".to_string(),
        },
        size: DISK,
        partition_table_type: Some("gpt".to_string()),
        gpt_usable_range: Some((17408, DISK - 17408)),
        partitions: vec![
            DrivePartition {
                device: "/dev/sda1".to_string(),
                name: "boot".to_string(),
                type_label: "Linux filesystem".to_string(),
                offset: MIB,
                size: 100 * MIB,
                table_type: "gpt".to_string(),
            },
            DrivePartition {
                device: "/dev/sda2".to_string(),
                name: String::new(),
                type_label: "Linux filesystem".to_string(),
                offset: 105 * MIB,
                size: 800 * MIB,
                table_type: "gpt".to_string(),
            },
        ],
        volumes: vec![
            UiVolume { volume: boot, children: vec![] },
            UiVolume { volume: vault, children: vec![UiVolume { volume: home, children: vec![] }] },
        ],
    }
}

fn control() -> Control {
    let tools = vec![FilesystemToolInfo { fs_type: "ext4".to_string(), available: true }];
    VolumesControl::new(drive(), false, tools, vec![0, 1, 2], 7u8)
}

#[test]
fn new_lays_out_the_drive_and_selects_the_first_segment() {
    let c = control();
    assert_eq!(c.segments.len(), 3);
    assert_eq!(c.segments[0].device_path.as_deref(), Some("/dev/sda1"));
    assert_eq!(c.segments[1].device_path.as_deref(), Some("/dev/sda2"));
    assert_eq!(c.segments[2].segment.kind, DiskSegmentKind::FreeSpace);
    assert_eq!(c.segments[2].device_path, None);
    assert_eq!(c.segments[2].table_type, "gpt");
    assert_eq!(c.segments[0].name, "boot");
    assert_eq!(c.segments[0].partition_type, "EXT4 - Linux filesystem");
    assert_eq!(c.segments[1].name, "");
    assert_eq!(c.segments[1].partition_type, "CRYPTO_LUKS - Linux filesystem");
    assert_eq!(c.segments[2].name, "");
    assert_eq!(c.segments[2].partition_type, "");
    assert_eq!(c.selected_segment, 0);
    assert_eq!(c.selected_volume, None);
    assert!(c.btrfs_state.is_none());
    assert_eq!(c.detail_tab, DetailTab::VolumeInfo);
    assert_eq!(c.usage_state.top_files_per_category, 20);
    assert_eq!(c.usage_state.scan_parallelism_preset, 7);
}

#[test]
fn selecting_an_encrypted_segment_loads_the_btrfs_inside() {
    let mut c = control();
    let effect = c.segment_selected(1, false);
    assert_eq!(
        effect,
        SelectionEffect::LoadBtrfs {
            sidebar_child: "/dev/sda2".to_string(),
            block_path: "/dev/dm-0".to_string(),
            mount_point: "/home".to_string(),
        }
    );
    assert_eq!(c.selected_segment, 1);
    let btrfs = c.btrfs_state.as_ref().expect("btrfs page");
    assert_eq!(btrfs.mount_point.as_deref(), Some("/home"));
    assert_eq!(btrfs.block_path.as_deref(), Some("/dev/dm-0"));

    // Past the end: the last segment, free space, clears the sidebar and keeps the page.
    let effect = c.segment_selected(9, false);
    assert_eq!(effect, SelectionEffect::ClearSidebarChild);
    assert_eq!(c.selected_segment, 2);
    assert!(c.btrfs_state.is_some());

    let effect = c.segment_selected(0, false);
    assert_eq!(effect, SelectionEffect::SelectSidebarChild("/dev/sda1".to_string()));
    assert!(c.btrfs_state.is_none());

    assert_eq!(c.segment_selected(1, true), SelectionEffect::Nothing);
    assert_eq!(c.selected_segment, 0);
}

#[test]
fn selecting_a_volume_inside_a_segment() {
    let mut c = control();
    c.detail_tab = DetailTab::Usage;
    let effect = c.select_volume(1, "/dev/dm-0".to_string(), false);
    assert_eq!(
        effect,
        SelectionEffect::LoadBtrfs {
            sidebar_child: "/dev/dm-0".to_string(),
            block_path: "/dev/dm-0".to_string(),
            mount_point: "/home".to_string(),
        }
    );
    assert_eq!(c.selected_volume.as_deref(), Some("/dev/dm-0"));
    assert_eq!(c.detail_tab, DetailTab::VolumeInfo);
    let node = c.selected_volume_node().expect("selected node");
    assert_eq!(node.volume.device_path.as_deref(), Some("/dev/dm-0"));

    let effect = c.select_volume(0, "/dev/sda1".to_string(), false);
    assert_eq!(effect, SelectionEffect::SelectSidebarChild("/dev/sda1".to_string()));
}

#[test]
fn selection_on_an_empty_view() {
    let mut c = control();
    c.segments.clear();
    c.selected_segment = 2;
    c.selected_volume = Some("/dev/sda1".to_string());
    assert_eq!(c.segment_selected(3, false), SelectionEffect::ClearSidebarChild);
    assert_eq!(c.selected_segment, 0);
    assert_eq!(c.selected_volume, None);
    assert_eq!(c.select_volume(3, "/dev/sda1".to_string(), false), SelectionEffect::Nothing);
}

#[test]
fn finding_the_segment_of_a_volume() {
    let c = control();
    assert_eq!(c.find_segment_for_volume("/dev/sda1"), Some((0, false)));
    assert_eq!(c.find_segment_for_volume("/dev/sda2"), Some((1, false)));
    assert_eq!(c.find_segment_for_volume("/dev/dm-0"), Some((1, true)));
    assert_eq!(c.find_segment_for_volume("/dev/sdz9"), None);
}

#[test]
fn filesystem_target_prefers_the_selected_volume() {
    let mut c = control();
    let (source, node) = c.filesystem_target().expect("target");
    assert_eq!(source, TargetSource::SegmentVolume);
    assert_eq!(node.volume.device_path.as_deref(), Some("/dev/sda1"));
    c.select_volume(1, "/dev/dm-0".to_string(), false);
    let (source, node) = c.filesystem_target().expect("target");
    assert_eq!(source, TargetSource::SelectedVolume);
    assert_eq!(node.volume.device_path.as_deref(), Some("/dev/dm-0"));
    c.selected_volume = None;
    // The encrypted container itself holds no filesystem.
    assert!(c.filesystem_target().is_none());
    assert!(c.crypto_container_target().is_some());
}

#[test]
fn mount_lock_and_delete_plans() {
    let mut c = control();
    assert_eq!(c.mount_target().as_deref(), Some("/dev/sda1"));
    assert_eq!(c.unmount_target(), Some(("/dev/sda1".to_string(), Some("/boot".to_string()))));
    assert!(c.crypto_container_target().is_none());
    c.segment_selected(1, false);
    let lock = c.lock_plan().expect("lock plan");
    assert_eq!(lock.unmount_first, vec!["/dev/dm-0".to_string()]);
    assert_eq!(lock.device.as_deref(), Some("/dev/sda2"));
    assert_eq!(lock.keep_selected, "/dev/sda2");

    let mut dialog = DeletePartitionDialog { name: "/dev/sda2".to_string(), running: false };
    let plan = c.delete(&mut dialog).expect("delete plan");
    assert!(dialog.running);
    assert!(plan.lock_first);
    assert_eq!(plan.unmount_first, vec!["/dev/dm-0".to_string()]);
    assert_eq!(plan.device.as_deref(), Some("/dev/sda2"));
    assert_eq!(c.delete(&mut dialog), None);

    c.segment_selected(2, false);
    assert_eq!(c.mount_target(), None);
    assert!(c.lock_plan().is_none());
}

#[test]
fn resize_and_format_dialogs() {
    let mut c = control();
    let resize = c.resize_dialog().expect("resize dialog");
    assert_eq!(resize.min_size_bytes, 10 * MIB);
    assert_eq!(resize.max_size_bytes, 100 * MIB);
    assert_eq!(resize.new_size_bytes, 100 * MIB);
    assert_eq!(resize.step, ResizePartitionStep::Sizing);
    assert_eq!(resize.device_path.as_deref(), Some("/dev/sda1"));

    let catalog = PartitionTypeCatalog {
        gpt: vec!["vfat".to_string(), "EXT4".to_string()],
        dos: vec!["ext4".to_string()],
    };
    let format = c.format_dialog(&catalog).expect("format dialog");
    assert_eq!(format.info.name, "boot");
    assert_eq!(format.info.table_type, "gpt");
    assert_eq!(format.info.selected_partition_type_index, 1);
    assert_eq!(format.info.size, 100 * MIB);
    assert_eq!(format.info.offset, MIB);
    assert_eq!(format.step, FormatPartitionStep::Basics);
    assert_eq!(format.filesystem_tools.len(), 1);

    // The encrypted container is no plain partition: no resize.
    c.segment_selected(1, false);
    assert!(c.resize_dialog().is_none());
    c.segments[1].table_type = "  ".to_string();
    let format = c.format_dialog(&catalog).expect("format dialog");
    assert_eq!(format.info.table_type, "gpt");
    assert_eq!(format.info.selected_partition_type_index, 0);
}

#[test]
fn showing_reserved_space_starts_over() {
    let mut c = control();
    c.segment_selected(1, false);
    c.set_show_reserved(false, vec![], 1u8);
    assert_eq!(c.selected_segment, 1);
    c.set_show_reserved(true, vec![5], 3u8);
    assert_eq!(c.segments.len(), 6);
    assert_eq!(c.segments[0].segment.kind, DiskSegmentKind::Reserved);
    assert_eq!(c.segments[1].device_path.as_deref(), Some("/dev/sda1"));
    assert_eq!(c.selected_segment, 0);
    assert!(c.btrfs_state.is_none());
    assert_eq!(c.usage_state.selected_categories, vec![5]);
    assert_eq!(c.usage_state.wizard_parallelism_preset, 3);
}

#[test]
fn resize_needs_a_kibibyte_of_room() {
    assert_eq!(resize_bounds(100 * MIB, 0, Some(10 * MIB)), Some((10 * MIB, 100 * MIB)));
    assert_eq!(resize_bounds(1000, 0, Some(500)), None);
    assert_eq!(resize_bounds(1000, 100, None), Some((0, 1100)));
    assert_eq!(resize_bounds(u64::MAX, 10, None), Some((0, u64::MAX)));
    assert_eq!(resize_bounds(10, 0, Some(5000)), None);
    let c = control();
    assert_eq!(right_free_bytes(&c.segments, 0), 0);
    assert_eq!(right_free_bytes(&c.segments, 1), c.segments[2].segment.size);
    assert_eq!(right_free_bytes(&c.segments, 2), 0);
    assert_eq!(right_free_bytes(&c.segments, usize::MAX), 0);
}

#[test]
fn partition_action_buttons() {
    let fs = PartitionFacts { has_filesystem: true, mounted: true, can_mount: true, size: 100 * MIB, used: Some(MIB) };
    assert_eq!(
        partition_actions(&fs, None, 0),
        vec![
            DetailAction::Unmount,
            DetailAction::Format,
            DetailAction::Edit,
            DetailAction::Resize,
            DetailAction::Label,
            DetailAction::CheckFilesystem,
            DetailAction::Repair,
            DetailAction::TakeOwnership,
            DetailAction::EditMountOptions,
            DetailAction::CreateImage,
            DetailAction::RestoreImage,
            DetailAction::Delete,
        ]
    );
    let container = PartitionFacts { has_filesystem: false, mounted: false, can_mount: false, size: 2000, used: Some(1500) };
    assert_eq!(
        partition_actions(&container, Some(true), 0),
        vec![
            DetailAction::Unlock,
            DetailAction::EditEncryptionOptions,
            DetailAction::Format,
            DetailAction::Edit,
            DetailAction::Label,
            DetailAction::CreateImage,
            DetailAction::RestoreImage,
            DetailAction::Delete,
        ]
    );
    assert_eq!(
        partition_actions(&container, Some(false), 0)[..3],
        [DetailAction::Lock, DetailAction::ChangePassphrase, DetailAction::EditEncryptionOptions]
    );
}

#[test]
fn volume_action_buttons() {
    assert_eq!(
        volume_actions(VolumeKind::Filesystem, true, false),
        vec![
            DetailAction::Mount,
            DetailAction::Format,
            DetailAction::Label,
            DetailAction::Repair,
            DetailAction::EditMountOptions,
            DetailAction::CreateImage,
            DetailAction::RestoreImage,
        ]
    );
    assert_eq!(
        volume_actions(VolumeKind::LvmLogicalVolume, true, true),
        vec![
            DetailAction::Unmount,
            DetailAction::CheckFilesystem,
            DetailAction::Repair,
            DetailAction::TakeOwnership,
            DetailAction::EditMountOptions,
            DetailAction::CreateImage,
            DetailAction::RestoreImage,
        ]
    );
    assert_eq!(
        volume_actions(VolumeKind::CryptoContainer, false, false),
        vec![DetailAction::CreateImage, DetailAction::RestoreImage]
    );
}

#[test]
fn image_partition_needs_a_volume_on_the_segment() {
    let mut c = control();
    let node = c.image_partition(false).expect("volume");
    assert_eq!(node.volume.device_path.as_deref(), Some("/dev/sda1"));
    c.segment_selected(2, false);
    assert_eq!(c.image_partition(false).err(), Some("Select a partition to create an image from."));
    assert_eq!(c.image_partition(true).err(), Some("Select a partition to restore an image to."));
}

#[test]
fn child_volumes_to_mount_and_unmount() {
    let c = control();
    assert_eq!(c.child_target("/dev/dm-0"), Some(("/dev/dm-0".to_string(), Some("/home".to_string()))));
    assert_eq!(c.child_target("/dev/sda2"), Some(("/dev/sda2".to_string(), None)));
    assert_eq!(c.child_target("/dev/nope"), None);
}

#[test]
fn what_follows_an_unmount() {
    let d = || "/dev/sda1".to_string();
    assert_eq!(
        unmount_outcome::<u32>(true, vec![7], None, d(), None, d(), false),
        UnmountOutcome::Reload { keep_selected: d() }
    );
    assert_eq!(
        unmount_outcome(false, vec![7u32, 8], Some("busy".to_string()), d(), None, d(), false),
        UnmountOutcome::Busy { device: d(), mount_point: String::new(), processes: vec![7, 8], device_path: d() }
    );
    assert_eq!(
        unmount_outcome::<u32>(false, vec![], None, d(), Some("/mnt".to_string()), d(), false),
        UnmountOutcome::Failed("Unknown unmount failure".to_string())
    );
    assert_eq!(
        unmount_outcome::<u32>(false, vec![], Some("denied".to_string()), d(), None, d(), false),
        UnmountOutcome::Failed("denied".to_string())
    );
    assert_eq!(unmount_outcome::<u32>(false, vec![], Some("denied".to_string()), d(), None, d(), true), UnmountOutcome::Logged);
}

#[test]
fn sidebar_selection_reaches_the_drive_view() {
    let mut c = control();
    assert_eq!(c.select_from_sidebar("/dev/dm-0"), Some((1, true)));
    assert_eq!(c.selected_segment, 1);
    assert_eq!(c.selected_volume.as_deref(), Some("/dev/dm-0"));
    assert_eq!(c.select_from_sidebar("/dev/sda1"), Some((0, false)));
    assert_eq!(c.selected_volume, None);
    assert_eq!(c.select_from_sidebar("/dev/missing"), None);
    assert_eq!(c.selected_segment, 0);

    let drives = vec![drive()];
    assert_eq!(drive_holding(&drives, "/dev/dm-0"), Some(0));
    assert_eq!(drive_holding(&drives, "/dev/sdz"), None);
}

#[test]
fn reload_restores_the_selection_and_tabs() {
    let mut c = control();
    let page: BtrfsState<(), ()> = BtrfsState::new(Some("/home".to_string()), Some("/dev/dm-0".to_string()));
    let usage: UsageTabState<u8> = UsageTabState::new(vec![9], 2);
    let refresh = c.reselect_after_reload("/dev/dm-0", Some((DetailTab::BtrfsManagement, Some(page), usage)));
    assert_eq!(refresh, Some(("/dev/dm-0".to_string(), "/home".to_string())));
    assert_eq!(c.selected_segment, 1);
    assert_eq!(c.selected_volume.as_deref(), Some("/dev/dm-0"));
    assert_eq!(c.detail_tab, DetailTab::BtrfsManagement);
    assert_eq!(c.usage_state.selected_categories, vec![9]);

    let refresh = c.reselect_after_reload("/dev/sda1", None);
    assert_eq!(refresh, None);
    assert_eq!(c.selected_segment, 0);
    assert_eq!(c.selected_volume, None);
    assert_eq!(c.detail_tab, DetailTab::BtrfsManagement);

    let usage: UsageTabState<u8> = UsageTabState::new(vec![], 0);
    assert_eq!(c.reselect_after_reload("/dev/none", Some((DetailTab::Usage, None, usage))), None);
    assert_eq!(c.detail_tab, DetailTab::BtrfsManagement);
}
