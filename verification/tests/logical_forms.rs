use storage_ui::field_names::{field_placeholder, pretty_field_name};
use storage_ui::logical::{LogicalDevicePickerAction, LogicalEntity, LogicalEntityId, LogicalEntityKind};
use storage_ui::logical_action::{LogicalActionForm, LogicalOperation};
use storage_ui::logical_forms::{
    btrfs_subvolume_ref, btrfs_subvolume_target_is_unambiguous, form_for_operation,
    picker_for_operation, FilesystemMember, PrimaryMember, SubvolumeDetails, SubvolumeHierarchy,
    TopologyDiagnostic,
};

fn entity(id: &str, kind: LogicalEntityKind) -> LogicalEntity {
    LogicalEntity {
        id: LogicalEntityId(id.to_string()),
        kind,
        parent_id: None,
        device_path: None,
        name: id.to_string(),
        member_paths: vec![],
    }
}

fn id(s: &str) -> LogicalEntityId {
    LogicalEntityId(s.to_string())
}

#[test]
fn field_names_read_in_title_case() {
    assert_eq!(pretty_field_name("access_key_id"), "Access Key Id");
    assert_eq!(pretty_field_name("host"), "Host");
    assert_eq!(pretty_field_name("__a__b_"), "A B");
    assert_eq!(pretty_field_name(""), "");
    assert_eq!(pretty_field_name("___"), "");
    assert_eq!(pretty_field_name("ünicode_x"), "Ünicode X");
}

#[test]
fn add_member_opens_the_matching_picker() {
    let vg = entity("vg0", LogicalEntityKind::LvmVolumeGroup);
    assert_eq!(
        picker_for_operation(&vg, LogicalOperation::AddMember),
        Some(LogicalDevicePickerAction::LvmPhysicalVolume { volume_group: id("vg0") })
    );
    let md = entity("md0", LogicalEntityKind::MdRaidArray);
    assert_eq!(
        picker_for_operation(&md, LogicalOperation::AddMember),
        Some(LogicalDevicePickerAction::MdRaidMember { array: id("md0") })
    );
    let fs = entity("fs0", LogicalEntityKind::BtrfsFilesystem);
    assert_eq!(
        picker_for_operation(&fs, LogicalOperation::AddMember),
        Some(LogicalDevicePickerAction::BtrfsDevice { filesystem: id("fs0") })
    );
    assert_eq!(picker_for_operation(&fs, LogicalOperation::Delete), None);
    let lv = entity("lv0", LogicalEntityKind::LvmLogicalVolume);
    assert_eq!(picker_for_operation(&lv, LogicalOperation::AddMember), None);
}

#[test]
fn operations_open_empty_forms_but_the_label_starts_from_the_known_one() {
    let vg = entity("vg0", LogicalEntityKind::LvmVolumeGroup);
    assert_eq!(
        form_for_operation(&vg, None, LogicalOperation::Create),
        Some(LogicalActionForm::CreateLvmLogicalVolume {
            volume_group: id("vg0"),
            name: String::new(),
            size_bytes: String::new(),
        })
    );
    let lv = entity("lv0", LogicalEntityKind::LvmLogicalVolume);
    assert_eq!(
        form_for_operation(&lv, None, LogicalOperation::Resize),
        Some(LogicalActionForm::ResizeLvmLogicalVolume { logical_volume: id("lv0"), size_bytes: String::new() })
    );
    let fs = entity("fs0", LogicalEntityKind::BtrfsFilesystem);
    assert_eq!(
        form_for_operation(&fs, None, LogicalOperation::Resize),
        Some(LogicalActionForm::ResizeBtrfsFilesystem { filesystem: id("fs0"), size_bytes: String::new() })
    );
    assert_eq!(
        form_for_operation(&fs, Some("data"), LogicalOperation::SetLabel),
        Some(LogicalActionForm::SetBtrfsLabel { filesystem: id("fs0"), label: "data".to_string() })
    );
    assert_eq!(
        form_for_operation(&fs, None, LogicalOperation::SetLabel),
        Some(LogicalActionForm::SetBtrfsLabel { filesystem: id("fs0"), label: String::new() })
    );
    assert_eq!(
        form_for_operation(&fs, None, LogicalOperation::Create),
        Some(LogicalActionForm::CreateBtrfsSubvolume { filesystem: id("fs0"), name: String::new() })
    );
    assert_eq!(form_for_operation(&vg, None, LogicalOperation::Delete), None);
    assert_eq!(form_for_operation(&lv, None, LogicalOperation::Create), None);
}

fn subvolume(hierarchy: SubvolumeHierarchy) -> SubvolumeDetails {
    SubvolumeDetails {
        id: 257,
        parent_id: Some(256),
        relative_path: "home".to_string(),
        row_key: "row-257".to_string(),
        hierarchy,
    }
}

#[test]
fn a_missing_own_parent_leaves_the_subvolume_a_target() {
    assert!(btrfs_subvolume_target_is_unambiguous(&subvolume(SubvolumeHierarchy::Attached)));
    let own = TopologyDiagnostic::MissingParent { row: "row-257".to_string(), parent_id: 256 };
    assert!(btrfs_subvolume_target_is_unambiguous(&subvolume(SubvolumeHierarchy::Unparented {
        diagnostics: vec![own.clone()],
    })));
    assert!(btrfs_subvolume_target_is_unambiguous(&subvolume(SubvolumeHierarchy::Unparented {
        diagnostics: vec![],
    })));
    let other_row = TopologyDiagnostic::MissingParent { row: "row-258".to_string(), parent_id: 256 };
    assert!(!btrfs_subvolume_target_is_unambiguous(&subvolume(SubvolumeHierarchy::Unparented {
        diagnostics: vec![own.clone(), other_row],
    })));
    let other_parent = TopologyDiagnostic::MissingParent { row: "row-257".to_string(), parent_id: 5 };
    assert!(!btrfs_subvolume_target_is_unambiguous(&subvolume(SubvolumeHierarchy::Unparented {
        diagnostics: vec![other_parent],
    })));
    assert!(!btrfs_subvolume_target_is_unambiguous(&subvolume(SubvolumeHierarchy::Unparented {
        diagnostics: vec![own, TopologyDiagnostic::Conflict],
    })));
}

#[test]
fn subvolume_reference_carries_the_primary_member_epoch() {
    let members = vec![
        FilesystemMember { member_id: "a".to_string(), observed_generation: Some(7) },
        FilesystemMember { member_id: "b".to_string(), observed_generation: Some(9) },
        FilesystemMember { member_id: "b".to_string(), observed_generation: Some(11) },
        FilesystemMember { member_id: "c".to_string(), observed_generation: None },
    ];
    let sub = subvolume(SubvolumeHierarchy::Attached);
    let primary = PrimaryMember::Selected { member_id: "b".to_string() };
    let r = btrfs_subvolume_ref(&id("fs0"), &primary, &members, &sub).unwrap();
    assert_eq!(r.filesystem, id("fs0"));
    assert_eq!(r.id, 257);
    assert_eq!(r.expected_relative_path, "home");
    assert_eq!(r.expected_parent_id, Some(256));
    assert_eq!(r.observed_topology_epoch, 9);

    let no_block = PrimaryMember::Selected { member_id: "c".to_string() };
    assert!(btrfs_subvolume_ref(&id("fs0"), &no_block, &members, &sub).is_none());
    let unknown = PrimaryMember::Selected { member_id: "z".to_string() };
    assert!(btrfs_subvolume_ref(&id("fs0"), &unknown, &members, &sub).is_none());
    assert!(btrfs_subvolume_ref(&id("fs0"), &PrimaryMember::Undetermined, &members, &sub).is_none());
    let conflicted = subvolume(SubvolumeHierarchy::Unparented { diagnostics: vec![TopologyDiagnostic::Conflict] });
    assert!(btrfs_subvolume_ref(&id("fs0"), &primary, &members, &conflicted).is_none());
}

#[test]
fn placeholders_prefer_the_first_example() {
    assert_eq!(field_placeholder(&vec!["s3.example.com".to_string(), "b".to_string()], "x"), "s3.example.com");
    assert_eq!(field_placeholder(&vec![], "us-east-1"), "us-east-1");
    assert_eq!(field_placeholder(&vec![], ""), "");
}
