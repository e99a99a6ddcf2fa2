use storage_ui::btrfs_state::{find_subvolume, BtrfsState};

type State = BtrfsState<String, u64>;

fn state() -> State {
    BtrfsState::new(Some("/mnt/data".to_string()), Some("/dev/sdb1".to_string()))
}

#[test]
fn a_new_state_has_nothing_loaded() {
    let s = state();
    assert!(s.subvolumes.is_none());
    assert!(!s.is_expanded(5));
    assert!(s.shows("/mnt/data"));
    assert!(!s.shows("/mnt/other"));
}

#[test]
fn results_for_another_filesystem_are_dropped() {
    let mut s = state();
    s.loading = true;
    s.subvolumes_loaded("/mnt/other", Ok(vec![(256, "home".to_string())]));
    assert!(s.loading);
    assert!(s.subvolumes.is_none());
    s.subvolumes_loaded("/mnt/data", Ok(vec![(256, "home".to_string()), (257, "var".to_string())]));
    assert!(!s.loading);
    assert_eq!(s.subvolumes.as_ref().unwrap().as_ref().unwrap().len(), 2);
    s.default_subvolume_loaded("/mnt/other", Ok(256));
    assert_eq!(s.default_subvolume_id, None);
    s.default_subvolume_loaded("/mnt/data", Err("no".to_string()));
    assert_eq!(s.default_subvolume_id, None);
    s.default_subvolume_loaded("/mnt/data", Ok(257));
    assert_eq!(s.default_subvolume_id, Some(257));
}

#[test]
fn expanding_and_properties() {
    let mut s = state();
    s.toggle_subvolume_expanded("/mnt/data", 256);
    assert!(s.is_expanded(256));
    s.toggle_subvolume_expanded("/mnt/data", 256);
    assert!(!s.is_expanded(256));
    s.toggle_subvolume_expanded("/mnt/other", 256);
    assert!(!s.is_expanded(256));
    s.show_properties(256);
    assert!(!s.show_properties_dialog, "nothing loaded yet");
    s.subvolumes_loaded("/mnt/data", Ok(vec![(256, "home".to_string())]));
    s.show_properties(300);
    assert!(!s.show_properties_dialog);
    s.show_properties(256);
    assert!(s.show_properties_dialog);
    assert_eq!(s.selected_subvolume.as_deref(), Some("home"));
    s.close_properties("/mnt/data");
    assert!(!s.show_properties_dialog);
    assert!(s.selected_subvolume.is_none());
}

#[test]
fn deleted_subvolumes_load_when_first_shown() {
    let mut s = state();
    assert!(s.toggle_show_deleted("/mnt/data"));
    assert!(s.show_deleted);
    s.deleted_subvolumes_loaded("/mnt/data", Ok(vec![300]));
    assert!(!s.toggle_show_deleted("/mnt/data"));
    assert!(!s.show_deleted);
    assert!(!s.toggle_show_deleted("/mnt/data"), "already loaded");
    assert!(!s.toggle_show_deleted("/mnt/other"));
    s.usage_loaded(Ok(4096));
    assert_eq!(s.used_space, Some(Ok(4096)));
    assert!(!s.loading_usage);
}

#[test]
fn subvolumes_are_found_by_id() {
    let list = vec![(5, "a".to_string()), (6, "b".to_string()), (6, "c".to_string())];
    assert_eq!(find_subvolume(&list, 6).map(|s| s.as_str()), Some("b"));
    assert_eq!(find_subvolume(&list, 7), None);
}
