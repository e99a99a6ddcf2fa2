use storage_ui::btrfs_tree::{subvolume_subtitle, subvolume_tree, SubvolumeEntity, SubvolumeRow};
use storage_ui::sidebar::{ExpandedNodes, SidebarNodeKey};

fn sub(id: &str, parent: Option<&str>, fs: &str, name: &str) -> SubvolumeEntity {
    SubvolumeEntity {
        id: id.to_string(),
        parent_id: parent.map(|p| p.to_string()),
        filesystem: fs.to_string(),
        name: name.to_string(),
    }
}

fn rows(list: &[SubvolumeRow]) -> Vec<(usize, u16, bool)> {
    list.iter().map(|r| (r.index, r.depth, r.has_children)).collect()
}

fn subs() -> Vec<SubvolumeEntity> {
    vec![
        sub("s-home", Some("fs"), "fs", "home"),
        sub("s-root", Some("fs"), "fs", "@"),
        sub("s-snap", Some("s-home"), "fs", "snap"),
        sub("s-x", Some("s-y"), "fs", "x"),
        sub("s-y", Some("s-x"), "fs", "y"),
        sub("other", Some("fs2"), "fs2", "a"),
        sub("s-orphan", Some("gone"), "fs", "b-orphan"),
    ]
}

#[test]
fn collapsed_tree_lists_roots_then_unreached_by_name() {
    let expanded = ExpandedNodes::new();
    let r = subvolume_tree(&subs(), "fs", &expanded);
    assert_eq!(
        rows(&r),
        vec![(1, 0, false), (0, 0, true), (6, 0, false), (3, 0, true), (4, 0, true)]
    );
}

#[test]
fn expanded_tree_nests_children_and_breaks_cycles() {
    let mut expanded = ExpandedNodes::new();
    expanded.toggle(SidebarNodeKey::LogicalEntity("s-home".to_string()));
    expanded.toggle(SidebarNodeKey::LogicalEntity("s-x".to_string()));
    expanded.toggle(SidebarNodeKey::LogicalEntity("s-y".to_string()));
    let r = subvolume_tree(&subs(), "fs", &expanded);
    assert_eq!(
        rows(&r),
        vec![(1, 0, false), (0, 0, true), (2, 1, false), (6, 0, false), (3, 0, true), (4, 1, true)]
    );
}

#[test]
fn subtitles_show_the_id() {
    assert_eq!(subvolume_subtitle(256, false), "ID 256");
    assert_eq!(subvolume_subtitle(5, true), "Default subvolume · ID 5");
}
