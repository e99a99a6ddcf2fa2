use storage_ui::dialogs::{CreatePartitionStep, FormatPartitionStep, ResizePartitionStep};
use storage_ui::partition_dialogs::{
    common_partition_filesystem_type, common_partition_type_index_for, CreatePartitionDialog,
    CreatePartitionInfo, CreatePartitionTexts, FilesystemToolInfo, FormatPartitionDialog,
    FormatRequest, PartitionTypeCatalog, ResizePartitionDialog,
};

fn catalog() -> PartitionTypeCatalog {
    PartitionTypeCatalog {
        gpt: vec!["ext4".to_string(), "xfs".to_string(), "vfat".to_string()],
        dos: vec!["ntfs".to_string(), "ext4".to_string()],
    }
}

fn info(table_type: &str) -> CreatePartitionInfo {
    CreatePartitionInfo {
        name: String::new(),
        size: 1000,
        max_size: 2000,
        offset: 1048576,
        erase: false,
        selected_partition_type_index: 0,
        table_type: table_type.to_string(),
        size_text: "1000".to_string(),
        size_unit_index: 0,
        password_protected: false,
        password: String::new(),
        confirmed_password: String::new(),
        filesystem_type: String::new(),
    }
}

fn texts() -> CreatePartitionTexts {
    CreatePartitionTexts {
        untitled: "Untitled".to_string(),
        password_required: "A password is required".to_string(),
        password_mismatch: "The passwords differ".to_string(),
    }
}

fn create_dialog() -> CreatePartitionDialog {
    CreatePartitionDialog {
        info: info("gpt"),
        step: CreatePartitionStep::Basics,
        running: false,
        error: None,
        filesystem_tools: vec![
            FilesystemToolInfo { fs_type: "ext4".to_string(), available: true },
            FilesystemToolInfo { fs_type: "xfs".to_string(), available: false },
        ],
    }
}

#[test]
fn common_partition_types_by_table() {
    let c = catalog();
    assert_eq!(common_partition_filesystem_type(&c, "gpt", 1).as_deref(), Some("xfs"));
    assert_eq!(common_partition_filesystem_type(&c, "dos", 0).as_deref(), Some("ntfs"));
    assert_eq!(common_partition_filesystem_type(&c, "dos", 2), None);
    assert_eq!(common_partition_filesystem_type(&c, "apm", 0), None);
    assert_eq!(common_partition_type_index_for(&c, "gpt", Some("VFAT")), 2);
    assert_eq!(common_partition_type_index_for(&c, "dos", Some("ext4")), 1);
    assert_eq!(common_partition_type_index_for(&c, "dos", Some("btrfs")), 0);
    assert_eq!(common_partition_type_index_for(&c, "gpt", None), 0);
    assert_eq!(common_partition_type_index_for(&c, "loop", Some("ext4")), 0);
}

#[test]
fn create_dialog_steps_need_tools_and_sizes() {
    let c = catalog();
    let mut d = create_dialog();
    d.info.selected_partition_type_index = 1;
    assert!(!d.can_advance(&c), "no xfs tool is available");
    d.next_step(&c);
    assert_eq!(d.step, CreatePartitionStep::Basics);
    d.info.selected_partition_type_index = 0;
    d.next_step(&c);
    assert_eq!(d.step, CreatePartitionStep::Sizing);
    d.info.size = 3000;
    d.next_step(&c);
    assert_eq!(d.step, CreatePartitionStep::Sizing);
    d.info.size = 2000;
    d.next_step(&c);
    assert_eq!(d.step, CreatePartitionStep::Options);
    d.next_step(&c);
    assert_eq!(d.step, CreatePartitionStep::Options);
    d.error = Some("x".to_string());
    d.set_step(CreatePartitionStep::Basics);
    assert_eq!(d.step, CreatePartitionStep::Basics);
    assert_eq!(d.error, None);
    d.set_step(CreatePartitionStep::Options);
    assert_eq!(d.step, CreatePartitionStep::Basics, "forward jumps are refused");
    d.prev_step();
    assert_eq!(d.step, CreatePartitionStep::Basics);
}

#[test]
fn create_dialog_checks_passwords() {
    let c = catalog();
    let mut d = create_dialog();
    d.info.password_protected = true;
    assert!(d.begin_create(&c, &texts()).is_none());
    assert_eq!(d.error.as_deref(), Some("A password is required"));
    d.info.password = "secret".to_string();
    d.info.confirmed_password = "secrет".to_string();
    assert!(d.begin_create(&c, &texts()).is_none());
    assert_eq!(d.error.as_deref(), Some("The passwords differ"));
    assert!(!d.running);
    d.info.confirmed_password = "secret".to_string();
    let created = d.begin_create(&c, &texts()).expect("starts");
    assert!(d.running);
    assert_eq!(d.error, None);
    assert_eq!(created.name, "Untitled");
    assert_eq!(created.filesystem_type, "ext4");
    assert!(d.begin_create(&c, &texts()).is_none(), "already running");
}

#[test]
fn create_dialog_keeps_given_name_and_type() {
    let c = catalog();
    let mut d = create_dialog();
    d.info.name = "data".to_string();
    d.info.filesystem_type = "btrfs".to_string();
    let created = d.begin_create(&c, &texts()).unwrap();
    assert_eq!(created.name, "data");
    assert_eq!(created.filesystem_type, "btrfs");
    assert_eq!(created.size, 1000);
    assert_eq!(created.offset, 1048576);
}

#[test]
fn format_dialog_flow() {
    let c = catalog();
    let mut d = FormatPartitionDialog {
        device_path: Some("/dev/sda2".to_string()),
        info: info("dos"),
        step: FormatPartitionStep::Basics,
        running: false,
        filesystem_tools: vec![],
    };
    d.next_step();
    assert_eq!(d.step, FormatPartitionStep::Options);
    d.set_step(FormatPartitionStep::Basics);
    assert_eq!(d.step, FormatPartitionStep::Basics);
    d.info.name = "win".to_string();
    d.info.erase = true;
    assert_eq!(
        d.begin_format(&c),
        Some(Ok(FormatRequest {
            device: "/dev/sda2".to_string(),
            filesystem_type: "ntfs".to_string(),
            name: "win".to_string(),
            erase: true,
        }))
    );
    assert!(d.running);
    assert_eq!(d.begin_format(&c), None);
    d.running = false;
    d.info.selected_partition_type_index = 9;
    assert_eq!(d.begin_format(&c), Some(Err("Invalid filesystem selection".to_string())));
    d.running = false;
    d.info.selected_partition_type_index = 1;
    d.device_path = None;
    assert_eq!(d.begin_format(&c), Some(Err("Volume has no device path".to_string())));
}

#[test]
fn resize_dialog_clamps_and_needs_room() {
    let mut d = ResizePartitionDialog {
        device_path: Some("/dev/sda1".to_string()),
        step: ResizePartitionStep::Sizing,
        min_size_bytes: 1000,
        max_size_bytes: 5000,
        new_size_bytes: 1000,
        running: false,
    };
    d.set_size(10);
    assert_eq!(d.new_size_bytes, 1000);
    d.set_size(9000);
    assert_eq!(d.new_size_bytes, 5000);
    d.set_size(4000);
    assert_eq!(d.new_size_bytes, 4000);
    d.next_step();
    assert_eq!(d.step, ResizePartitionStep::Review);
    assert_eq!(d.confirm(), Some(4000));
    assert!(d.running);
    assert_eq!(d.confirm(), None);
    d.prev_step();
    assert_eq!(d.step, ResizePartitionStep::Review, "no step changes while running");
    let mut tight = ResizePartitionDialog { min_size_bytes: 1000, max_size_bytes: 2023, running: false, ..d.clone() };
    assert_eq!(tight.confirm(), None);
    tight.max_size_bytes = 2024;
    assert_eq!(tight.confirm(), Some(4000));
}
