use storage_ui::keyed_map::KeyedMap;
use storage_ui::network::ProviderOption;
use storage_ui::network_form::{custom_option_keys, option_toggles, remote_type_index, visible_option_sections};

fn opt(name: &str, section: &str, advanced: bool, hidden: bool) -> ProviderOption {
    ProviderOption {
        name: name.to_string(),
        required: false,
        hidden,
        secure: false,
        advanced,
        section: section.to_string(),
    }
}

fn strings(v: &[&str]) -> Vec<String> {
    v.iter().map(|s| s.to_string()).collect()
}

fn provider() -> Vec<ProviderOption> {
    vec![
        opt("host", "connection", false, false),
        opt("user", "authentication", false, false),
        opt("zeta", "mystery", false, false),
        opt("port", "connection", true, false),
        opt("pass", "authentication", false, false),
        opt("token_url", "internal", false, true),
        opt("chunk", "transfers", true, true),
        opt("retries", "other", false, false),
    ]
}

#[test]
fn form_sections_follow_the_section_order() {
    let groups = visible_option_sections(&provider(), false, false);
    assert_eq!(
        groups,
        vec![
            ("authentication".to_string(), strings(&["user", "pass"])),
            ("connection".to_string(), strings(&["host"])),
            ("other".to_string(), strings(&["retries"])),
            ("mystery".to_string(), strings(&["zeta"])),
        ]
    );
}

#[test]
fn advanced_and_hidden_options_show_on_request() {
    let groups = visible_option_sections(&provider(), true, false);
    assert_eq!(groups[1], ("connection".to_string(), strings(&["host", "port"])));
    let all = visible_option_sections(&provider(), false, true);
    assert_eq!(
        all,
        vec![
            ("authentication".to_string(), strings(&["user", "pass"])),
            ("connection".to_string(), strings(&["host"])),
            ("transfers".to_string(), strings(&["chunk"])),
            ("other".to_string(), strings(&["retries"])),
            ("mystery".to_string(), strings(&["zeta", "token_url"])),
        ]
    );
    assert_eq!(option_toggles(&provider()), (true, true));
    assert_eq!(option_toggles(&vec![opt("a", "connection", false, false)]), (false, false));
    assert_eq!(option_toggles(&vec![opt("a", "connection", true, true)]), (false, true));
    assert!(visible_option_sections(&vec![], true, true).is_empty());
}

#[test]
fn additional_options_are_the_unknown_keys_sorted() {
    let mut stored = KeyedMap::new();
    stored.insert("zz".to_string(), "1".to_string());
    stored.insert("HOST".to_string(), "h".to_string());
    stored.insert("extra".to_string(), "2".to_string());
    stored.insert("Alpha".to_string(), "3".to_string());
    let p = provider();
    assert_eq!(custom_option_keys(&stored, Some(&p)), strings(&["Alpha", "extra", "zz"]));
    assert_eq!(custom_option_keys(&stored, None), strings(&["Alpha", "HOST", "extra", "zz"]));
    assert!(custom_option_keys(&KeyedMap::new(), Some(&p)).is_empty());
}

#[test]
fn the_type_list_selects_the_first_match_ignoring_case() {
    let types = strings(&["s3", "ftp", "sftp", "FTP"]);
    assert_eq!(remote_type_index(&types, "FTP"), 1);
    assert_eq!(remote_type_index(&types, "sftp"), 2);
    assert_eq!(remote_type_index(&types, "webdav"), 0);
    assert_eq!(remote_type_index(&vec![], "s3"), 0);
}
