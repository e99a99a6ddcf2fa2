use storage_ui::usage::{
    deleted_bytes_total, sorted_unique, usage_filtered_file_paths, visible_usage_categories,
    CategoryTopFiles, CategoryUsage, ScanStart, ShowAllFilesNext, UsageDeleteResult, UsageFile,
    UsageScanResult, UsageTabState, usage_row_selection_message, KeyModifiers, UsageSelectionMessage,
};

const DOCS: u32 = 0;
const VIDEO: u32 = 1;
const OTHER: u32 = 2;

fn file(path: &str, bytes: u64) -> UsageFile {
    UsageFile { path: path.to_string(), bytes }
}

fn scan() -> UsageScanResult {
    UsageScanResult {
        categories: vec![
            CategoryUsage { category: DOCS, bytes: 300 },
            CategoryUsage { category: VIDEO, bytes: 5000 },
            CategoryUsage { category: OTHER, bytes: 0 },
        ],
        top_files_by_category: vec![
            CategoryTopFiles { category: VIDEO, files: vec![file("/v/b.mkv", 3000), file("/v/a.mkv", 2000)] },
            CategoryTopFiles { category: DOCS, files: vec![file("/d/x.pdf", 200), file("/d/a.pdf", 100)] },
            CategoryTopFiles { category: OTHER, files: vec![file("/o/z", 1)] },
        ],
        total_bytes: 5300,
        total_free_bytes: 700,
    }
}

fn strings(v: &[&str]) -> Vec<String> {
    v.iter().map(|s| s.to_string()).collect()
}

fn state() -> UsageTabState<u8> {
    UsageTabState::new(vec![DOCS, VIDEO, OTHER], 1)
}

#[test]
fn visible_categories_take_bytes() {
    assert_eq!(visible_usage_categories(&scan()), vec![DOCS, VIDEO]);
}

#[test]
fn listed_files_are_ordered_by_size_then_path() {
    let s = scan();
    assert_eq!(
        usage_filtered_file_paths(&s, &vec![DOCS, VIDEO, OTHER]),
        strings(&["/v/b.mkv", "/v/a.mkv", "/d/x.pdf", "/d/a.pdf"])
    );
    assert_eq!(usage_filtered_file_paths(&s, &vec![DOCS]), strings(&["/d/x.pdf", "/d/a.pdf"]));
    let mut tie = scan();
    tie.top_files_by_category[1].files = vec![file("/d/b", 100), file("/d/a", 100)];
    assert_eq!(usage_filtered_file_paths(&tie, &vec![DOCS]), strings(&["/d/a", "/d/b"]));
}

#[test]
fn mount_points_are_sorted_once() {
    assert_eq!(sorted_unique(&strings(&["/home", "/", "/home", "/boot"])), strings(&["/", "/boot", "/home"]));
}

#[test]
fn scans_need_mount_points_and_drop_stale_results() {
    let mut st = state();
    assert_eq!(st.begin_refresh("usage-1".to_string()), ScanStart::Configure);
    assert!(st.begin_configure(3));
    assert_eq!(st.wizard_parallelism_preset, 3);
    st.wizard_mounts_loaded(Ok(strings(&["/home", "/", "/home"])));
    assert_eq!(st.wizard_mount_points, strings(&["/", "/home"]));
    assert_eq!(st.wizard_selected_mount_points, strings(&["/", "/home"]));
    st.wizard_mount_toggled("/".to_string(), false);
    st.wizard_mount_toggled("/home".to_string(), true);
    assert_eq!(st.wizard_selected_mount_points, strings(&["/home"]));
    match st.wizard_start_scan("usage-2".to_string(), "Select a mount point") {
        ScanStart::Scan { scan_id, mount_points, top_files_per_category, .. } => {
            assert_eq!(scan_id, "usage-2");
            assert_eq!(mount_points, strings(&["/home"]));
            assert_eq!(top_files_per_category, 20);
        }
        other => panic!("unexpected {other:?}"),
    }
    assert!(st.loading);
    assert!(!st.wizard_open);
    assert_eq!(st.begin_refresh("usage-3".to_string()), ScanStart::Busy);
    st.scan_progress("usage-1", 5, 10);
    assert_eq!(st.progress_processed_bytes, 0);
    st.scan_progress("usage-2", 5, 10);
    assert_eq!(st.progress_processed_bytes, 5);
    st.scan_loaded("usage-1", Ok(scan()));
    assert!(st.result.is_none());
    st.scan_loaded("usage-2", Ok(scan()));
    assert!(!st.loading);
    assert_eq!(st.selected_categories, vec![DOCS, VIDEO]);
}

#[test]
fn wizard_needs_a_mount_point_and_authorization() {
    let mut st = state();
    st.begin_configure(1);
    st.wizard_mounts_loaded(Ok(vec![]));
    assert_eq!(st.wizard_start_scan("s".to_string(), "Select a mount point"), ScanStart::NoMountPoints);
    assert_eq!(st.wizard_error.as_deref(), Some("Select a mount point"));
    st.wizard_mount_toggled("/".to_string(), true);
    st.wizard_show_all_files = true;
    assert_eq!(st.wizard_start_scan("s".to_string(), "x"), ScanStart::NeedsAuthorization);
    assert!(st.wizard_auth_completed(Ok(())));
    assert!(matches!(st.wizard_start_scan("s".to_string(), "x"), ScanStart::Scan { show_all_files: true, .. }));
    st.wizard_mounts_loaded(Err("denied".to_string()));
    assert!(st.wizard_mount_points.is_empty());
    assert_eq!(st.wizard_error.as_deref(), Some("denied"));
}

#[test]
fn show_all_files_needs_authorization_once() {
    let mut st = state();
    assert_eq!(st.show_all_files_toggled(true), ShowAllFilesNext::Authorize);
    assert!(!st.show_all_files);
    assert!(!st.show_all_files_auth_completed(Err("no".to_string())));
    assert_eq!(st.error.as_deref(), Some("no"));
    assert!(st.show_all_files_auth_completed(Ok(())));
    assert!(st.show_all_files);
    assert_eq!(st.show_all_files_toggled(false), ShowAllFilesNext::Refresh);
    assert_eq!(st.show_all_files_toggled(true), ShowAllFilesNext::Refresh);
    assert!(st.show_all_files);
}

#[test]
fn categories_toggle_but_one_stays() {
    let mut st = state();
    st.selected_categories = vec![DOCS, VIDEO];
    st.selected_paths = strings(&["/x"]);
    st.toggle_category(DOCS);
    assert_eq!(st.selected_categories, vec![VIDEO]);
    assert!(st.selected_paths.is_empty());
    st.toggle_category(VIDEO);
    assert_eq!(st.selected_categories, vec![VIDEO]);
    st.toggle_category(OTHER);
    assert_eq!(st.selected_categories, vec![VIDEO, OTHER]);
    st.set_top_files_per_category(0);
    assert_eq!(st.top_files_per_category, 1);
    st.set_top_files_per_category(5000);
    assert_eq!(st.top_files_per_category, 1000);
}

#[test]
fn selections_single_toggle_and_range() {
    let mut st = state();
    st.result = Some(scan());
    st.selected_categories = vec![DOCS, VIDEO];
    st.select_single("/v/a.mkv".to_string(), 1);
    assert_eq!(st.selected_paths, strings(&["/v/a.mkv"]));
    assert!(st.select_range(3));
    assert_eq!(st.selected_paths, strings(&["/v/a.mkv", "/d/x.pdf", "/d/a.pdf"]));
    assert_eq!(st.selection_anchor_index, Some(1));
    assert!(st.select_range(99));
    assert_eq!(st.selected_paths, strings(&["/v/a.mkv", "/d/x.pdf", "/d/a.pdf"]));
    assert!(st.select_range(0));
    assert_eq!(st.selected_paths, strings(&["/v/b.mkv", "/v/a.mkv"]));
    st.select_toggle("/v/b.mkv".to_string(), 0);
    assert_eq!(st.selected_paths, strings(&["/v/a.mkv"]));
    st.select_toggle("/d/x.pdf".to_string(), 2);
    assert_eq!(st.selected_paths, strings(&["/v/a.mkv", "/d/x.pdf"]));
    assert_eq!(st.selection_anchor_index, Some(2));
    st.clear_selection();
    assert!(st.selected_paths.is_empty());
    assert!(st.select_range(0));
    assert_eq!(st.selected_paths, strings(&["/v/b.mkv"]));
    let mut empty = state();
    assert!(!empty.select_range(0));
}

#[test]
fn deleting_files_updates_the_result_and_selection() {
    let mut st = state();
    st.result = Some(scan());
    st.selected_categories = vec![DOCS, VIDEO];
    st.selected_paths = strings(&["/v/b.mkv", "/d/a.pdf"]);
    let paths = st.begin_delete().expect("a deletion starts");
    assert_eq!(paths, strings(&["/v/b.mkv", "/d/a.pdf"]));
    assert!(st.begin_delete().is_none());
    let result = UsageDeleteResult { deleted: strings(&["/v/b.mkv"]), failed: strings(&["/d/a.pdf"]) };
    assert_eq!(deleted_bytes_total(st.result.as_ref().unwrap(), &result.deleted), Some(3000));
    st.delete_completed(Ok(result), "1 deleted, 1 failed".to_string());
    assert!(!st.deleting);
    let r = st.result.as_ref().unwrap();
    assert_eq!(r.total_bytes, 2300);
    assert_eq!(r.categories[1].bytes, 2000);
    assert_eq!(r.categories[0].bytes, 300);
    assert_eq!(r.top_files_by_category[0].files.len(), 1);
    assert_eq!(st.selected_paths, strings(&["/d/a.pdf"]));
    assert_eq!(st.selection_anchor_index, Some(2));
    assert_eq!(st.operation_status.as_deref(), Some("1 deleted, 1 failed"));
    st.deleting = true;
    st.delete_completed(Err("denied".to_string()), String::new());
    assert_eq!(st.error.as_deref(), Some("denied"));
    assert_eq!(st.operation_status, None);
}

#[test]
fn deleted_bytes_saturate_per_category() {
    let mut s = scan();
    s.top_files_by_category[0].files = vec![file("/a", u64::MAX), file("/b", 5)];
    s.categories[1].bytes = 10;
    let deleted = strings(&["/a", "/b"]);
    assert_eq!(deleted_bytes_total(&s, &deleted), Some(u64::MAX));
    let mut st = state();
    st.result = Some(s);
    st.delete_completed(Ok(UsageDeleteResult { deleted, failed: vec![] }), "done".to_string());
    let r = st.result.as_ref().unwrap();
    assert_eq!(r.categories[1].bytes, 0);
    assert_eq!(r.total_bytes, 0);
}

#[test]
fn usage_row_selection_message_defaults_to_single_click_selection() {
    let message = usage_row_selection_message("/tmp/a".to_string(), 3, KeyModifiers::empty());

    match message {
        UsageSelectionMessage::UsageSelectionSingle { path, index } => {
            assert_eq!(path, "/tmp/a");
            assert_eq!(index, 3);
        }
        other => panic!("unexpected message: {other:?}"),
    }
}

#[test]
fn usage_row_selection_message_uses_ctrl_for_toggle() {
    let ctrl = KeyModifiers { shift: false, command: true };
    let message = usage_row_selection_message("/tmp/b".to_string(), 5, ctrl);

    match message {
        UsageSelectionMessage::UsageSelectionCtrl { path, index } => {
            assert_eq!(path, "/tmp/b");
            assert_eq!(index, 5);
        }
        other => panic!("unexpected message: {other:?}"),
    }
}

#[test]
fn usage_row_selection_message_uses_shift_for_range_selection() {
    let shift = KeyModifiers { shift: true, command: false };
    let message = usage_row_selection_message("/tmp/c".to_string(), 7, shift);

    match message {
        UsageSelectionMessage::UsageSelectionShift { index } => {
            assert_eq!(index, 7);
        }
        other => panic!("unexpected message: {other:?}"),
    }
}

#[test]
fn shift_wins_over_the_command_modifier() {
    let both = KeyModifiers { shift: true, command: true };
    assert_eq!(
        usage_row_selection_message("/tmp/d".to_string(), 2, both),
        UsageSelectionMessage::UsageSelectionShift { index: 2 }
    );
}
