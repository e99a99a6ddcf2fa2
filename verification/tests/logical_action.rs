use storage_ui::logical::{
    LogicalActionKind, LogicalDevicePickerAction, LogicalEntityId, LogicalPreflight,
    LogicalPreflightAvailability, LogicalPreflightKey, LogicalState,
};
use storage_ui::logical_action::{
    action_confirmation_body, action_entity, action_kind, executes_from_single_step_form, operation_label,
    BlockDeviceRef, BtrfsResizeRequest, BtrfsSubvolumeRef, LogicalAction, LogicalActionForm,
    LogicalOperation, MdRaidSyncAction,
};

fn id(s: &str) -> LogicalEntityId {
    LogicalEntityId(s.to_string())
}

fn subvolume(filesystem: &LogicalEntityId) -> BtrfsSubvolumeRef {
    BtrfsSubvolumeRef {
        filesystem: filesystem.clone(),
        id: 256,
        expected_relative_path: "home".to_string(),
        expected_parent_id: None,
        observed_topology_epoch: 1,
    }
}

#[test]
fn non_destructive_btrfs_creations_skip_the_second_confirmation_dialog() {
    let filesystem = id("btrfs:fixture");
    assert!(executes_from_single_step_form(&LogicalAction::CreateBtrfsSubvolume {
        filesystem: filesystem.clone(),
        name: "home".into(),
    }));
    assert!(executes_from_single_step_form(&LogicalAction::CreateBtrfsSnapshot {
        filesystem: filesystem.clone(),
        source: subvolume(&filesystem),
        destination: "home-snapshot".into(),
        readonly: true,
    }));
    assert!(!executes_from_single_step_form(&LogicalAction::SetBtrfsLabel {
        filesystem,
        label: "Storage".into(),
    }));
}

#[test]
fn actions_name_their_entity() {
    assert_eq!(action_entity(&LogicalAction::CreateLvmVolumeGroup), None);
    assert_eq!(action_entity(&LogicalAction::CreateMdRaidArray), None);
    assert_eq!(action_entity(&LogicalAction::DeleteLvmVolumeGroup { volume_group: id("vg0") }), Some(id("vg0")));
    assert_eq!(
        action_entity(&LogicalAction::RequestMdRaidSync { array: id("md0"), action: MdRaidSyncAction::Check }),
        Some(id("md0"))
    );
    assert_eq!(
        action_entity(&LogicalAction::RemoveBtrfsDevice {
            filesystem: id("fs"),
            device: BlockDeviceRef { path: "/dev/sdb".to_string() },
        }),
        Some(id("fs"))
    );
    assert_eq!(action_entity(&LogicalAction::ActivateLvmLogicalVolume { logical_volume: id("lv") }), Some(id("lv")));
}

#[test]
fn confirmation_texts() {
    assert_eq!(
        action_confirmation_body(&LogicalAction::DeleteLvmVolumeGroup { volume_group: id("vg0") }, LogicalOperation::Delete),
        "Delete volume group vg0 and preserve member signatures."
    );
    assert_eq!(
        action_confirmation_body(&LogicalAction::DeleteLvmLogicalVolume { logical_volume: id("vg0/lv") }, LogicalOperation::Delete),
        "Delete logical volume vg0/lv. This cannot be undone."
    );
    assert_eq!(
        action_confirmation_body(&LogicalAction::StopMdRaidArray { array: id("md0") }, LogicalOperation::Stop),
        "Stop MD RAID array md0."
    );
    assert_eq!(
        action_confirmation_body(&LogicalAction::StartMdRaidArray { array: id("md0") }, LogicalOperation::Start),
        "Apply the start operation through UDisks."
    );
    assert_eq!(operation_label(LogicalOperation::SetDefaultSubvolume), "set default subvolume");
    assert_eq!(operation_label(LogicalOperation::RemoveMember), "remove member");
}

#[test]
fn device_pickers_build_add_actions() {
    let picker = LogicalDevicePickerAction::MdRaidMember { array: id("md0") };
    let device = BlockDeviceRef { path: "/dev/sdc".to_string() };
    assert_eq!(
        picker.action(device.clone()),
        LogicalAction::AddMdRaidMember { array: id("md0"), device }
    );
}

#[test]
fn forms_reopen_actions_and_submit_them_again() {
    let action = LogicalAction::CreateLvmLogicalVolume { volume_group: id("vg0"), name: "data".to_string(), size_bytes: 1048576 };
    let form = LogicalActionForm::from_action(&action).expect("a form");
    assert_eq!(
        form,
        LogicalActionForm::CreateLvmLogicalVolume { volume_group: id("vg0"), name: "data".to_string(), size_bytes: "1048576".to_string() }
    );
    assert_eq!(form.title(), "Create logical volume");
    assert_eq!(form.submit_label(), "Review");
    assert_eq!(form.action(), Ok(action));

    let resize = LogicalAction::ResizeBtrfsFilesystem { filesystem: id("fs"), request: BtrfsResizeRequest::AbsoluteBytes(42) };
    let form = LogicalActionForm::from_action(&resize).unwrap();
    assert_eq!(form.action(), Ok(resize));
    assert_eq!(LogicalActionForm::from_action(&LogicalAction::StopMdRaidArray { array: id("md0") }), None);
}

#[test]
fn form_sizes_must_be_positive_numbers() {
    let mut form = LogicalActionForm::ResizeLvmLogicalVolume { logical_volume: id("lv"), size_bytes: "0".to_string() };
    let message = "Enter a non-zero size in bytes.".to_string();
    assert_eq!(form.action(), Err(message.clone()));
    for bad in ["", "+", "-1", " 5", "5 ", "1_000", "18446744073709551616", "abc"] {
        form.set_size_text(bad.to_string());
        assert_eq!(form.action(), Err(message.clone()), "{bad:?}");
    }
    form.set_size_text("+18446744073709551615".to_string());
    assert_eq!(
        form.action(),
        Ok(LogicalAction::ResizeLvmLogicalVolume { logical_volume: id("lv"), size_bytes: u64::MAX })
    );
}

#[test]
fn form_fields_change_where_they_exist() {
    let filesystem = id("fs");
    let mut form = LogicalActionForm::CreateBtrfsSnapshot {
        filesystem: filesystem.clone(),
        source: subvolume(&filesystem),
        destination: "a".to_string(),
        readonly: false,
    };
    form.set_primary_text("b".to_string());
    form.set_readonly(true);
    form.set_size_text("9".to_string());
    assert_eq!(form.submit_label(), "Create");
    assert_eq!(
        form.action(),
        Ok(LogicalAction::CreateBtrfsSnapshot {
            filesystem: filesystem.clone(),
            source: subvolume(&filesystem),
            destination: "b".to_string(),
            readonly: true,
        })
    );
    let mut label = LogicalActionForm::SetBtrfsLabel { filesystem: filesystem.clone(), label: "x".to_string() };
    label.set_readonly(true);
    label.set_primary_text("Storage".to_string());
    assert_eq!(label.action(), Ok(LogicalAction::SetBtrfsLabel { filesystem, label: "Storage".to_string() }));
}

#[test]
fn cloned_actions_are_equal() {
    let a = LogicalAction::CreateBtrfsSnapshot {
        filesystem: id("fs0"),
        source: BtrfsSubvolumeRef {
            filesystem: id("fs0"),
            id: 256,
            expected_relative_path: "home".to_string(),
            expected_parent_id: Some(5),
            observed_topology_epoch: 3,
        },
        destination: "snap".to_string(),
        readonly: true,
    };
    assert_eq!(a.clone(), a);
    let b = LogicalAction::AddMdRaidMember { array: id("md0"), device: BlockDeviceRef { path: "/dev/sdb".to_string() } };
    assert_eq!(b.clone(), b);
}

#[test]
fn a_ready_review_confirms_exactly_the_drafted_action() {
    let mut s: LogicalState<LogicalAction, (), ()> = LogicalState::new();
    let action = LogicalAction::CreateBtrfsSubvolume { filesystem: id("fs0"), name: "data".to_string() };
    let key = s.begin_draft(action.clone(), Some(id("fs0")));
    assert_eq!(key.action_kind, LogicalActionKind::CreateBtrfsSubvolume);
    let review = LogicalPreflight {
        key: LogicalPreflightKey { request_key: key },
        availability: LogicalPreflightAvailability::Ready,
    };
    assert!(s.accept_preflight(review));
    let confirmed = s.confirm_draft().expect("ready review confirms");
    assert_eq!(confirmed.action, action);
    assert_eq!(s.confirmation.as_ref().map(|c| &c.action), Some(&action));
}

#[test]
fn actions_name_their_kind() {
    assert_eq!(action_kind(&LogicalAction::CreateLvmVolumeGroup), LogicalActionKind::CreateLvmVolumeGroup);
    assert_eq!(
        action_kind(&LogicalAction::RemoveBtrfsDevice { filesystem: id("fs0"), device: BlockDeviceRef { path: "/dev/sdb".to_string() } }),
        LogicalActionKind::RemoveBtrfsDevice
    );
    assert_eq!(
        action_kind(&LogicalAction::ResizeLvmLogicalVolume { logical_volume: id("lv0"), size_bytes: 1 }),
        LogicalActionKind::ResizeLvmLogicalVolume
    );
    assert_eq!(
        action_kind(&LogicalAction::RequestMdRaidSync { array: id("md0"), action: MdRaidSyncAction::Check }),
        LogicalActionKind::RequestMdRaidSync
    );
}
