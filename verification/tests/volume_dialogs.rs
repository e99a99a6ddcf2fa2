use storage_ui::dialogs::{EditEncryptionOptionsStep, EditPartitionStep};
use storage_ui::volume_dialogs::{
    ChangePassphraseDialog, ChangePassphraseRequest, EditEncryptionOptionsDialog,
    EditPartitionDialog, EditPartitionRequest, EncryptionOptionsRequest, UnlockEncryptedDialog,
    UnlockStart, EncryptionSettings,
};
use storage_ui::text::last_path_part;
use storage_ui::volume_tree::{VolumeInfo, VolumeKind};

fn edit_partition() -> EditPartitionDialog {
    EditPartitionDialog {
        device_path: Some("/dev/sda1".to_string()),
        step: EditPartitionStep::Basics,
        partition_types: vec!["0fc63daf-8483-4772-8e79-3d69d8477de4".to_string(), "c12a7328-f81f-11d2-ba4b-00a0c93ec93b".to_string()],
        selected_type_index: 1,
        name: "EFI".to_string(),
        legacy_bios_bootable: false,
        system_partition: true,
        hidden: false,
        running: false,
    }
}

#[test]
fn edit_partition_steps_and_request() {
    let mut d = edit_partition();
    d.prev_step();
    assert_eq!(d.step, EditPartitionStep::Basics);
    d.next_step();
    d.next_step();
    d.next_step();
    assert_eq!(d.step, EditPartitionStep::Review);
    d.set_step(EditPartitionStep::Flags);
    assert_eq!(d.step, EditPartitionStep::Flags);
    assert_eq!(
        d.confirm(),
        Some(Ok(EditPartitionRequest {
            device: "/dev/sda1".to_string(),
            partition_type: "c12a7328-f81f-11d2-ba4b-00a0c93ec93b".to_string(),
            name: "EFI".to_string(),
            legacy_bios_bootable: false,
            system_partition: true,
            hidden: false,
        }))
    );
    assert!(d.running);
    assert_eq!(d.confirm(), None);
}

#[test]
fn edit_partition_needs_a_listed_type_and_a_device() {
    let mut d = edit_partition();
    d.selected_type_index = 2;
    assert_eq!(d.confirm(), None);
    assert!(!d.running);
    d.selected_type_index = 0;
    d.device_path = None;
    assert_eq!(d.confirm(), Some(Err("Partition has no device path".to_string())));
    assert!(d.running);
}

#[test]
fn change_passphrase_checks_the_confirmation() {
    let mut d = ChangePassphraseDialog {
        device_path: Some("/dev/sdb2".to_string()),
        current_passphrase: "old".to_string(),
        new_passphrase: String::new(),
        confirm_passphrase: String::new(),
        error: None,
        running: false,
    };
    assert_eq!(d.confirm("Passphrases do not match"), None);
    assert_eq!(d.error.as_deref(), Some("Passphrases do not match"));
    d.new_passphrase = "new".to_string();
    d.confirm_passphrase = "neu".to_string();
    assert_eq!(d.confirm("mismatch"), None);
    assert_eq!(d.error.as_deref(), Some("mismatch"));
    d.confirm_passphrase = "new".to_string();
    assert_eq!(
        d.confirm("mismatch"),
        Some(Ok(ChangePassphraseRequest { device: "/dev/sdb2".to_string(), current: "old".to_string(), new: "new".to_string() }))
    );
    assert!(d.running);
    assert_eq!(d.confirm("mismatch"), None);
}

#[test]
fn encryption_options_requests() {
    let mut d = EditEncryptionOptionsDialog {
        device_path: None,
        step: EditEncryptionOptionsStep::Behavior,
        use_defaults: false,
        unlock_at_startup: true,
        require_auth: false,
        other_options: "discard".to_string(),
        name: "luks-data".to_string(),
        passphrase: String::new(),
        show_passphrase: false,
        error: Some("old".to_string()),
        running: false,
    };
    d.next_step();
    assert_eq!(d.step, EditEncryptionOptionsStep::Credentials);
    assert_eq!(d.error, None);
    d.error = Some("x".to_string());
    d.set_step(EditEncryptionOptionsStep::Review);
    assert_eq!(d.step, EditEncryptionOptionsStep::Credentials);
    assert_eq!(d.error.as_deref(), Some("x"));
    d.prev_step();
    assert_eq!(d.step, EditEncryptionOptionsStep::Behavior);
    assert_eq!(
        d.confirm(),
        Some(EncryptionOptionsRequest::Custom {
            device: "/dev/unknown".to_string(),
            name: "luks-data".to_string(),
            unlock_at_startup: true,
            require_auth: false,
            other_options: "discard".to_string(),
            passphrase: None,
        })
    );
    assert_eq!(d.confirm(), None);
    d.running = false;
    d.device_path = Some("/dev/sdc1".to_string());
    d.use_defaults = true;
    assert_eq!(d.confirm(), Some(EncryptionOptionsRequest::UseDefaults { device: "/dev/sdc1".to_string() }));
    d.running = false;
    d.use_defaults = false;
    d.passphrase = "pw".to_string();
    match d.confirm() {
        Some(EncryptionOptionsRequest::Custom { passphrase, .. }) => assert_eq!(passphrase.as_deref(), Some("pw")),
        other => panic!("unexpected {other:?}"),
    }
}

#[test]
fn unlock_needs_a_known_partition() {
    let mut d = UnlockEncryptedDialog {
        partition_path: "/dev/sda3".to_string(),
        partition_name: "Secret".to_string(),
        passphrase: String::new(),
        error: Some("wrong".to_string()),
        running: false,
    };
    d.set_passphrase("pw".to_string());
    assert_eq!(d.error, None);
    assert_eq!(d.confirm(&vec!["/dev/sda1".to_string()]), UnlockStart::PartitionMissing);
    assert!(d.running);
    assert_eq!(d.confirm(&vec!["/dev/sda3".to_string()]), UnlockStart::AlreadyRunning);
    d.unlock_failed("bad passphrase".to_string());
    assert!(!d.running);
    assert_eq!(d.error.as_deref(), Some("bad passphrase"));
    assert_eq!(
        d.confirm(&vec!["/dev/sda1".to_string(), "/dev/sda3".to_string()]),
        UnlockStart::Unlock { device: "/dev/sda3".to_string(), passphrase: "pw".to_string() }
    );
}

fn luks_volume(label: &str, device: Option<&str>) -> VolumeInfo {
    VolumeInfo {
        kind: VolumeKind::CryptoContainer,
        label: label.to_string(),
        device_path: device.map(|d| d.to_string()),
        id_type: "crypto_LUKS".to_string(),
        has_filesystem: false,
        locked: false,
        mount_points: vec![],
        can_mount: false,
        mounted: false,
        size: 0,
        used_bytes: None,
    }
}

#[test]
fn encryption_options_start_from_defaults() {
    let d = EditEncryptionOptionsDialog::open(&luks_volume("  ", Some("/dev/sda2")), None);
    assert!(d.use_defaults);
    assert!(d.unlock_at_startup);
    assert!(!d.require_auth);
    assert_eq!(d.other_options, "nofail");
    assert_eq!(d.name, "sda2");
    assert_eq!(d.device_path.as_deref(), Some("/dev/sda2"));
    assert!(d.passphrase.is_empty());
    assert_eq!(d.step, EditEncryptionOptionsStep::Behavior);
    let d = EditEncryptionOptionsDialog::open(&luks_volume("", None), None);
    assert_eq!(d.name, "luks");
}

#[test]
fn encryption_options_start_from_stored_settings() {
    let stored = EncryptionSettings {
        name: String::new(),
        unlock_at_startup: false,
        require_auth: true,
        other_options: "discard".to_string(),
    };
    let d = EditEncryptionOptionsDialog::open(&luks_volume("Vault", Some("/dev/sda2")), Some(stored.clone()));
    assert!(!d.use_defaults);
    assert!(!d.unlock_at_startup);
    assert!(d.require_auth);
    assert_eq!(d.other_options, "discard");
    assert_eq!(d.name, "Vault");
    let named = EncryptionSettings { name: "cryptdata".to_string(), ..stored };
    let d = EditEncryptionOptionsDialog::open(&luks_volume("Vault", Some("/dev/sda2")), Some(named));
    assert_eq!(d.name, "cryptdata");
}

#[test]
fn last_part_of_a_path() {
    assert_eq!(last_path_part("/dev/mapper/luks-1"), "luks-1");
    assert_eq!(last_path_part("/dev/"), "");
    assert_eq!(last_path_part("sdb"), "sdb");
    assert_eq!(last_path_part(""), "");
}
