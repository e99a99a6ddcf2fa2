use storage_ui::dialogs::{
    CreatePartitionStep, EditEncryptionOptionsStep, EditMountOptionsStep, EditPartitionStep,
    FormatDiskDialog, FormatDiskRequest, FormatPartitionStep, ResizePartitionStep,
};
use storage_ui::views::{ContextPage, DetailTab, ToggleState};

#[test]
fn dialog_steps_are_numbered_from_one() {
    assert_eq!(FormatPartitionStep::Basics.number(), 1);
    assert_eq!(FormatPartitionStep::Options.number(), 2);
    assert_eq!(EditPartitionStep::Basics.number(), 1);
    assert_eq!(EditPartitionStep::Flags.number(), 2);
    assert_eq!(EditPartitionStep::Review.number(), 3);
    assert_eq!(ResizePartitionStep::Sizing.number(), 1);
    assert_eq!(ResizePartitionStep::Review.number(), 2);
    assert_eq!(CreatePartitionStep::Basics.number(), 1);
    assert_eq!(CreatePartitionStep::Sizing.number(), 2);
    assert_eq!(CreatePartitionStep::Options.number(), 3);
    assert_eq!(EditMountOptionsStep::Behavior.number(), 1);
    assert_eq!(EditEncryptionOptionsStep::Behavior.number(), 1);
}

#[test]
fn format_disk_preselects_the_current_table() {
    assert_eq!(FormatDiskDialog::new("/dev/sda".to_string(), Some("dos")).partitioning_index, 0);
    assert_eq!(FormatDiskDialog::new("/dev/sda".to_string(), Some("gpt")).partitioning_index, 1);
    assert_eq!(FormatDiskDialog::new("/dev/sda".to_string(), Some("apm")).partitioning_index, 2);
    assert_eq!(FormatDiskDialog::new("/dev/sda".to_string(), None).partitioning_index, 2);
    let d = FormatDiskDialog::new("/dev/sda".to_string(), None);
    assert_eq!(d.erase_index, 0);
    assert!(!d.running);
}

#[test]
fn format_disk_confirms_once() {
    let mut d = FormatDiskDialog::new("/dev/sdb".to_string(), Some("dos"));
    d.partitioning_index = 1;
    assert_eq!(d.table_type(), "gpt");
    assert_eq!(
        d.confirm(),
        Some(FormatDiskRequest { block_path: "/dev/sdb".to_string(), table_type: "gpt" })
    );
    assert!(d.running);
    assert_eq!(d.confirm(), None);
    d.running = false;
    d.partitioning_index = 0;
    assert_eq!(d.confirm().unwrap().table_type, "dos");
    d.running = false;
    d.partitioning_index = 7;
    assert_eq!(d.confirm().unwrap().table_type, "empty");
}

#[test]
fn view_defaults_and_toggles() {
    assert_eq!(ContextPage::default(), ContextPage::Settings);
    assert_eq!(DetailTab::default(), DetailTab::VolumeInfo);
    assert_eq!(ToggleState::active_or(&true, ToggleState::Hovered), ToggleState::Active);
    assert_eq!(ToggleState::active_or(&false, ToggleState::Hovered), ToggleState::Hovered);
    assert_eq!(ToggleState::active_or(&false, ToggleState::Disabled), ToggleState::Disabled);
}
