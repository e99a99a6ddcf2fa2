use storage_ui::keyed_map::KeyedMap;
use storage_ui::network::{
    connection_test_dialog, MountStatus, NetworkEditorState, NetworkMountState, NetworkState,
    ProviderOption, RemoteConfig, RemoteFormError, RemoteSaveRequest, SavePlan,
};
use storage_ui::network_wizard::{quick_setup_providers, ConfigScope, WizardStep};
use storage_ui::text::trim;

fn options(pairs: &[(&str, &str)]) -> KeyedMap<String> {
    let mut m = KeyedMap::new();
    for (k, v) in pairs {
        m.insert(k.to_string(), v.to_string());
    }
    m
}

fn config(name: &str, scope: ConfigScope, remote_type: &str) -> RemoteConfig {
    RemoteConfig {
        name: name.to_string(),
        remote_type: remote_type.to_string(),
        scope,
        options: options(&[("host", "example.org")]),
        has_secrets: false,
    }
}

fn option(name: &str, required: bool, hidden: bool, secure: bool) -> ProviderOption {
    ProviderOption { name: name.to_string(), required, hidden, secure, advanced: false, section: "connection".to_string() }
}

#[test]
fn keyed_map_reads_back_what_was_written() {
    let mut m = options(&[("a", "1"), ("b", "2")]);
    m.insert("a".to_string(), "3".to_string());
    assert_eq!(m.len(), 2);
    assert_eq!(m.get("a").map(|s| s.as_str()), Some("3"));
    assert_eq!(m.get("b").map(|s| s.as_str()), Some("2"));
    assert_eq!(m.get("c"), None);
    assert_eq!(m.remove("a"), Some("3".to_string()));
    assert!(!m.contains_key("a"));
    assert_eq!(m.remove("a"), None);
    assert_eq!(m.len(), 1);
    let copy = m.clone();
    assert_eq!(copy.get("b").map(|s| s.as_str()), Some("2"));
}

#[test]
fn set_remotes_keeps_status_of_known_mounts() {
    let mut state = NetworkState::new();
    state.set_remotes(vec![config("nas", ConfigScope::User, "smb"), config("box", ConfigScope::System, "sftp")]);
    state.set_mount_status("nas", ConfigScope::User, MountStatus::Mounted);
    state.set_loading("box", ConfigScope::System, true);
    state.set_error("nas", ConfigScope::User, Some("old".to_string()));
    state.set_remotes(vec![
        config("nas", ConfigScope::User, "webdav"),
        config("cloud", ConfigScope::User, "drive"),
        config("box", ConfigScope::System, "sftp"),
    ]);
    let nas = state.get_mount("nas", ConfigScope::User).expect("nas stays");
    assert!(nas.is_mounted());
    assert_eq!(nas.config.remote_type, "webdav");
    assert_eq!(nas.error, None);
    assert!(state.get_mount("box", ConfigScope::System).expect("box stays").loading);
    let cloud = state.get_mount("cloud", ConfigScope::User).expect("cloud is new");
    assert!(!cloud.is_mounted());
    assert!(!cloud.loading);
    assert!(state.get_mount("nas", ConfigScope::System).is_none());
}

#[test]
fn set_remotes_takes_the_last_of_repeated_remotes_and_drops_the_rest() {
    let mut state = NetworkState::new();
    state.set_remotes(vec![config("old", ConfigScope::User, "ftp")]);
    state.set_remotes(vec![config("x", ConfigScope::User, "ftp"), config("x", ConfigScope::User, "s3")]);
    assert_eq!(state.get_mount("x", ConfigScope::User).unwrap().config.remote_type, "s3");
    assert!(state.get_mount("old", ConfigScope::User).is_none());
}

#[test]
fn unknown_mounts_are_left_alone() {
    let mut state = NetworkState::new();
    state.set_mount_status("ghost", ConfigScope::User, MountStatus::Mounted);
    assert!(state.get_mount("ghost", ConfigScope::User).is_none());
    let status = MountStatus::Error("boom".to_string());
    assert!(!status.is_mounted());
}

#[test]
fn remotes_loaded_reports_keys_to_refresh() {
    let mut state = NetworkState::new();
    state.loading = true;
    let refresh = state.remotes_loaded(Ok(vec![config("a", ConfigScope::User, "s3"), config("b", ConfigScope::System, "ftp")]));
    assert_eq!(refresh, vec![("a".to_string(), ConfigScope::User), ("b".to_string(), ConfigScope::System)]);
    assert!(state.rclone_available);
    assert!(!state.loading);
    let refresh = state.remotes_loaded(Err("no rclone".to_string()));
    assert!(refresh.is_empty());
    assert!(!state.rclone_available);
    assert_eq!(state.error.as_deref(), Some("no rclone"));
}

#[test]
fn selecting_a_remote_opens_its_editor() {
    let mut state = NetworkState::new();
    state.set_remotes(vec![config("nas", ConfigScope::User, "smb")]);
    assert!(state.select_remote("nas".to_string(), ConfigScope::User));
    assert!(state.is_selected("nas", ConfigScope::User));
    assert!(!state.is_selected("nas", ConfigScope::System));
    let editor = state.editor.as_ref().expect("editor open");
    assert_eq!(editor.name, "nas");
    assert_eq!(editor.remote_type, "smb");
    assert!(!editor.is_new);
    assert_eq!(editor.original_name.as_deref(), Some("nas"));
    assert_eq!(editor.options.get("host").map(|s| s.as_str()), Some("example.org"));
    assert!(editor.expanded_sections.contains_key("authentication"));
    assert!(editor.expanded_sections.contains_key("connection"));
    assert!(!state.select_remote("missing".to_string(), ConfigScope::User));
    assert!(state.editor.is_none());
}

#[test]
fn custom_options_are_checked() {
    let mut editor = NetworkEditorState::new("s3".to_string());
    editor.new_option_key = "   ".to_string();
    assert_eq!(editor.add_custom_option(), Err(RemoteFormError::EmptyOptionKey));
    assert_eq!(editor.error.as_deref(), Some("Option key cannot be empty"));
    editor.new_option_key = " TyPe ".to_string();
    assert_eq!(editor.add_custom_option(), Err(RemoteFormError::ReservedOptionKey));
    assert_eq!(editor.error.as_deref(), Some("Option key cannot be 'type'"));
    editor.new_option_key = "\tregion\n".to_string();
    editor.new_option_value = "eu-west-1".to_string();
    assert_eq!(editor.add_custom_option(), Ok(()));
    assert_eq!(editor.options.get("region").map(|s| s.as_str()), Some("eu-west-1"));
    assert_eq!(editor.new_option_key, "");
    assert_eq!(editor.new_option_value, "");
    assert_eq!(editor.error, None);
    editor.new_option_key = "REGION".to_string();
    assert_eq!(editor.add_custom_option(), Err(RemoteFormError::DuplicateOptionKey));
    assert_eq!(editor.error.as_deref(), Some("Option already exists"));
    editor.remove_option("region");
    assert!(!editor.options.contains_key("region"));
}

#[test]
fn sections_toggle() {
    let mut editor = NetworkEditorState::new("s3".to_string());
    editor.toggle_section("connection".to_string());
    assert!(!editor.expanded_sections.contains_key("connection"));
    editor.toggle_section("storage".to_string());
    assert!(editor.expanded_sections.contains_key("storage"));
    editor.toggle_section("storage".to_string());
    assert!(!editor.expanded_sections.contains_key("storage"));
}

#[test]
fn saving_checks_the_form() {
    let provider = vec![option("host", true, false, false), option("pass", false, false, true), option("token", true, true, false)];
    let mut editor = NetworkEditorState::new("sftp".to_string());
    editor.name = "  ".to_string();
    assert!(editor.begin_save(Some(&provider)).is_none());
    assert_eq!(editor.error.as_deref(), Some("Remote name cannot be empty"));
    editor.name = "box".to_string();
    assert!(editor.begin_save(None).is_none());
    assert_eq!(editor.error.as_deref(), Some("Unsupported remote type"));
    editor.set_option("host".to_string(), "  ".to_string());
    assert!(editor.begin_save(Some(&provider)).is_none());
    assert_eq!(editor.error.as_deref(), Some("Missing required field 'host'"));
    assert!(!editor.running);
}

#[test]
fn saving_keeps_values_that_are_not_blank() {
    let provider = vec![option("host", true, false, false), option("pass", false, false, true)];
    let mut editor = NetworkEditorState::new("sftp".to_string());
    editor.name = "box".to_string();
    editor.set_option("host".to_string(), "h".to_string());
    editor.set_option("pass".to_string(), " ".to_string());
    editor.set_option("port".to_string(), "22".to_string());
    let request = editor.begin_save(Some(&provider)).expect("the form is complete");
    assert!(editor.running);
    assert!(editor.operation_id.is_some());
    assert_eq!(request.config.name, "box");
    assert_eq!(request.config.options.len(), 2);
    assert!(request.config.options.contains_key("port"));
    assert!(!request.config.options.contains_key("pass"));
    assert!(!request.config.has_secrets);
    assert!(!request.is_edit);
    assert_eq!(request.plan(), SavePlan::Create);
    assert!(editor.begin_save(Some(&provider)).is_none(), "a save is already running");

    let mut with_secret = NetworkEditorState::new("sftp".to_string());
    with_secret.name = "box".to_string();
    with_secret.set_option("host".to_string(), "h".to_string());
    with_secret.set_option("pass".to_string(), "secret".to_string());
    assert!(with_secret.begin_save(Some(&provider)).unwrap().config.has_secrets);
}

#[test]
fn a_save_completion_is_taken_only_for_its_own_save() {
    let provider = vec![];
    let mut editor = NetworkEditorState::new("ftp".to_string());
    editor.name = "files".to_string();
    editor.begin_save(Some(&provider)).expect("saved");
    let id = editor.operation_id.unwrap();
    assert!(!editor.finish_save(id.wrapping_add(1), Ok(())));
    assert!(editor.running);
    assert!(editor.finish_save(id, Ok(())));
    assert!(!editor.running);
    assert!(!editor.is_new);
    assert_eq!(editor.original_name.as_deref(), Some("files"));
    assert_eq!(editor.original_scope, Some(ConfigScope::User));
    assert_eq!(editor.mount_on_boot, Some(false));
    assert!(!editor.finish_save(id, Ok(())), "the save is over");

    editor.begin_save(Some(&provider)).expect("saved again");
    let id = editor.operation_id.unwrap();
    assert!(!editor.finish_save(id, Err("denied".to_string())));
    assert_eq!(editor.error.as_deref(), Some("denied"));
    assert_eq!(editor.operation_id, None);
}

#[test]
fn save_plans() {
    let request = |is_edit: bool, original: Option<&str>, original_scope: Option<ConfigScope>| RemoteSaveRequest {
        config: config("new", ConfigScope::User, "s3"),
        is_edit,
        original_name: original.map(|s| s.to_string()),
        original_scope,
    };
    assert_eq!(request(false, Some("old"), None).plan(), SavePlan::Create);
    assert_eq!(request(true, None, None).plan(), SavePlan::Update);
    assert_eq!(request(true, Some("new"), Some(ConfigScope::User)).plan(), SavePlan::Update);
    assert_eq!(request(true, Some("new"), None).plan(), SavePlan::Update);
    assert_eq!(
        request(true, Some("old"), None).plan(),
        SavePlan::Replace { original_name: "old".to_string(), original_scope: ConfigScope::User }
    );
    assert_eq!(
        request(true, Some("new"), Some(ConfigScope::System)).plan(),
        SavePlan::Replace { original_name: "new".to_string(), original_scope: ConfigScope::System }
    );
}

#[test]
fn the_wizard_creates_a_remote() {
    let mut state = NetworkState::new();
    state.begin_create_remote();
    assert!(state.editor.is_none());
    let wizard = state.wizard.as_mut().expect("wizard open");
    assert!(!wizard.advance(), "no type yet");
    wizard.select_type("sftp".to_string());
    assert!(wizard.advance());
    wizard.set_name("bad name".to_string());
    assert!(!wizard.advance());
    wizard.set_name("box_1".to_string());
    assert!(wizard.advance());
    assert_eq!(wizard.step, WizardStep::Connection);
    wizard.set_option("host".to_string(), "h".to_string());
    let provider = vec![option("host", true, false, false)];
    let created = state.begin_wizard_create(Some(&provider)).expect("complete");
    assert_eq!(created.name, "box_1");
    let id = state.wizard.as_ref().unwrap().operation_id.unwrap();
    assert!(!state.finish_wizard_create(id.wrapping_add(1), Ok(created.clone())));
    assert!(state.finish_wizard_create(id, Ok(created)));
    assert!(state.wizard.is_none());
    assert!(state.is_selected("box_1", ConfigScope::User));
    assert_eq!(state.editor.as_ref().unwrap().name, "box_1");
    assert!(state.get_mount("box_1", ConfigScope::User).is_some());
}

#[test]
fn a_failed_wizard_creation_shows_the_error() {
    let mut state = NetworkState::new();
    state.start_wizard();
    state.wizard.as_mut().unwrap().set_name(" ".to_string());
    assert!(state.begin_wizard_create(None).is_none());
    assert_eq!(state.wizard.as_ref().unwrap().error.as_deref(), Some("Remote name cannot be empty"));
    state.wizard.as_mut().unwrap().set_name("n".to_string());
    state.begin_wizard_create(Some(&vec![])).expect("created");
    let id = state.wizard.as_ref().unwrap().operation_id.unwrap();
    assert!(!state.finish_wizard_create(id, Err("exists".to_string())));
    let wizard = state.wizard.as_ref().unwrap();
    assert!(!wizard.running);
    assert_eq!(wizard.error.as_deref(), Some("exists"));
}

#[test]
fn wizard_turns_into_the_editor() {
    let mut state = NetworkState::new();
    state.start_wizard();
    state.wizard.as_mut().unwrap().set_name("n".to_string());
    state.wizard_to_editor("alias".to_string());
    assert!(state.wizard.is_none());
    let editor = state.editor.as_ref().unwrap();
    assert_eq!(editor.remote_type, "alias");
    assert_eq!(editor.name, "n");
    assert!(editor.is_new);
}

#[test]
fn mount_on_boot_flow() {
    let mut state = NetworkState::new();
    state.set_remotes(vec![config("nas", ConfigScope::User, "smb")]);
    state.select_remote("nas".to_string(), ConfigScope::User);
    assert!(!state.mount_on_boot_loaded("nas", ConfigScope::User, Ok(true)));
    assert_eq!(state.editor.as_ref().unwrap().mount_on_boot, Some(true));
    assert!(!state.mount_on_boot_loaded("other", ConfigScope::User, Ok(false)));
    assert_eq!(state.editor.as_ref().unwrap().mount_on_boot, Some(true));
    let (name, scope, previous) = state.begin_toggle_mount_on_boot().expect("toggle starts");
    assert_eq!((name.as_str(), scope, previous), ("nas", ConfigScope::User, true));
    assert!(state.editor.as_ref().unwrap().running);
    assert!(state.mount_on_boot_updated("nas", ConfigScope::User, false, true, Err("no".to_string())));
    let editor = state.editor.as_ref().unwrap();
    assert!(!editor.running);
    assert_eq!(editor.mount_on_boot, Some(true));
    assert!(state.mount_on_boot_loaded("nas", ConfigScope::User, Err("x".to_string())));
    assert_eq!(state.editor.as_ref().unwrap().mount_on_boot, Some(false));
}

#[test]
fn deleting_a_remote() {
    let mut state = NetworkState::new();
    state.set_remotes(vec![config("nas", ConfigScope::User, "smb"), config("nas", ConfigScope::System, "smb")]);
    state.select_remote("nas".to_string(), ConfigScope::System);
    let failure = state.delete_completed("nas", Err("busy".to_string()));
    assert_eq!(failure.as_deref(), Some("Failed to delete remote 'nas': busy"));
    assert!(state.get_mount("nas", ConfigScope::User).is_some());
    assert_eq!(state.delete_completed("nas", Ok(())), None);
    assert!(state.get_mount("nas", ConfigScope::User).is_none());
    assert!(state.get_mount("nas", ConfigScope::System).is_none());
    assert!(state.selected.is_none());
    assert!(state.editor.is_none());
}

#[test]
fn connection_test_dialogs() {
    let (title, body) = connection_test_dialog(Ok("Connection successful (5ms)".to_string()));
    assert_eq!((title.as_str(), body.as_str()), ("Connection Test", "Connection successful (5ms)"));
    let (title, body) = connection_test_dialog(Err("refused".to_string()));
    assert_eq!((title.as_str(), body.as_str()), ("Connection Test Failed", "refused"));
}

#[test]
fn a_new_mount_is_unmounted() {
    let mount = NetworkMountState::new(config("a", ConfigScope::User, "s3"));
    assert!(!mount.is_mounted());
    assert!(!mount.loading);
    assert!(mount.error.is_none());
}

#[test]
fn mounts_are_listed_by_scope_then_name() {
    let mut state = NetworkState::new();
    state.set_remotes(vec![
        config("zeta", ConfigScope::User, "s3"),
        config("alpha", ConfigScope::System, "s3"),
        config("Beta", ConfigScope::User, "s3"),
        config("beta", ConfigScope::User, "s3"),
        config("gamma", ConfigScope::System, "s3"),
    ]);
    let names = |v: Vec<&NetworkMountState>| v.iter().map(|m| m.config.name.clone()).collect::<Vec<_>>();
    assert_eq!(names(state.user_mounts()), vec!["Beta", "beta", "zeta"]);
    assert_eq!(names(state.system_mounts()), vec!["alpha", "gamma"]);
    assert_eq!(names(state.sorted_mounts()), vec!["Beta", "beta", "zeta", "alpha", "gamma"]);
    assert!(NetworkState::new().sorted_mounts().is_empty());
}

#[test]
fn quick_setup_lists_ten_providers_in_order() {
    let v = quick_setup_providers();
    let got: Vec<(&str, &str, &str)> = v.iter().map(|p| (p.rclone_type, p.label, p.description)).collect();
    assert_eq!(
        got,
        vec![
            ("s3", "Amazon S3", "S3 compatible storage"),
            ("ftp", "FTP", "File Transfer Protocol"),
            ("sftp", "SSH / SFTP", "Secure file transfer"),
            ("smb", "SMB / CIFS", "Windows file sharing"),
            ("drive", "Google Drive", "Cloud storage by Google"),
            ("dropbox", "Dropbox", "Cloud storage by Dropbox"),
            ("onedrive", "OneDrive", "Cloud storage by Microsoft"),
            ("webdav", "WebDAV", "Web-based file access"),
            ("b2", "Backblaze B2", "Cloud object storage"),
            ("protondrive", "Proton Drive", "Encrypted cloud storage"),
        ]
    );
}

#[test]
fn trim_removes_unicode_white_space() {
    assert_eq!(trim(" \t\n host \r"), "host");
    assert_eq!(trim("\u{3000}\u{85}name\u{a0}\u{2009}"), "name");
    assert_eq!(trim("\u{200b}x"), "\u{200b}x");
    assert_eq!(trim("   "), "");
    for c in ['\u{9}', '\u{d}', ' ', '\u{85}', '\u{a0}', '\u{1680}', '\u{2000}', '\u{200a}', '\u{2028}', '\u{2029}', '\u{202f}', '\u{205f}', '\u{3000}'] {
        let s = format!("{c}a{c}");
        assert_eq!(trim(&s), "a");
        assert_eq!(s.trim(), "a");
    }
}

#[test]
fn mount_results_update_the_mount_and_report_failed_operations() {
    let mut state = NetworkState::new();
    state.set_remotes(vec![config("nas", ConfigScope::User, "smb")]);

    state.set_loading("nas", ConfigScope::User, true);
    assert_eq!(state.mount_result("nas", ConfigScope::User, Ok(MountStatus::Mounted)), None);
    let m = state.get_mount("nas", ConfigScope::User).unwrap();
    assert!(matches!(m.status, MountStatus::Mounted));
    assert!(!m.loading);
    assert_eq!(m.error, None);

    state.set_loading("nas", ConfigScope::User, true);
    let failure = state.mount_result("nas", ConfigScope::User, Err("busy".to_string()));
    assert_eq!(failure.as_deref(), Some("Remote 'nas': busy"));
    let m = state.get_mount("nas", ConfigScope::User).unwrap();
    assert!(matches!(&m.status, MountStatus::Error(e) if e == "busy"));
    assert!(!m.loading);
    assert_eq!(m.error.as_deref(), Some("busy"));

    // A status refresh that fails is recorded but not reported.
    assert_eq!(state.mount_result("nas", ConfigScope::User, Err("gone".to_string())), None);
    assert_eq!(state.get_mount("nas", ConfigScope::User).unwrap().error.as_deref(), Some("gone"));

    assert_eq!(state.mount_result("other", ConfigScope::User, Err("x".to_string())), None);
    assert!(state.get_mount("other", ConfigScope::User).is_none());
}
