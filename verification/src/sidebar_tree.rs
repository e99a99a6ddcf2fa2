//! The rows of the sidebar's drive sections: each drive, then (when it is expanded) its
//! volumes in disk order, each volume followed (when expanded) by the volumes inside it in
//! the order of their device paths.
use vstd::prelude::*;
use vstd::string::StringExecFns;
use crate::ordering::{sorted_positions, stable_order_text, stable_order_u64, text_before, u64_before};
use crate::sidebar::{key_view, ExpandedNodes, SidebarNodeKey};
use crate::text::{
    after_last_slash, last_path_part, starts_with, text_starts_with, to_lowercase, trim, trimmed,
    unicode_lowercase,
};
use crate::volume_tree::{UiVolume, VolumeInfo};
use crate::volumes_control::{DiskFacts, DrivePartition, UiDrive};

verus! {

/// A section of the sidebar.
#[derive(Debug, Clone, Copy, PartialEq, Eq, Structural)]
pub enum Section {
    Logical,
    Internal,
    External,
    Images,
}

/// The section a drive is listed in: images (loop devices and disks backed by a file), then
/// removable drives, then the rest.
pub open spec fn section_of(d: DiskFacts) -> Section {
    if d.is_loop || d.backing_file is Some {
        Section::Images
    } else if d.removable {
        Section::External
    } else {
        Section::Internal
    }
}

/// See [`section_of`].
pub fn section_for_drive(disk: &DiskFacts) -> (s: Section)
    ensures
        s == section_of(*disk),
{
    if disk.is_loop || disk.backing_file.is_some() {
        Section::Images
    } else if disk.removable {
        Section::External
    } else {
        Section::Internal
    }
}

/// The heading of a section.
pub fn section_label(section: Section) -> (r: &'static str)
    ensures
        r@ == match section {
            Section::Logical => "Logical"@,
            Section::Internal => "Internal"@,
            Section::External => "External"@,
            Section::Images => "Images"@,
        },
{
    match section {
        Section::Logical => "Logical",
        Section::Internal => "Internal",
        Section::External => "External",
        Section::Images => "Images",
    }
}

/// A section is shown when it lists a drive; the images section always (it offers to add one).
pub fn shows_section(section: Section, drive_count: usize) -> (r: bool)
    ensures
        r == (section == Section::Images || drive_count > 0),
{
    section == Section::Images || drive_count > 0
}

/// The title of a drive: the file name of its backing file, when it has a non-blank one; else
/// vendor and model (trimmed), the model alone when it begins with the vendor (without regard
/// to case), either alone when the other is blank, or the disk's own name when both are.
pub open spec fn drive_title_of(d: DiskFacts) -> Seq<char> {
    let file_name = match d.backing_file {
        Some(p) => if trimmed(p@).len() > 0 && trimmed(after_last_slash(p@)).len() > 0 {
            Some(after_last_slash(p@))
        } else {
            None
        },
        None => None,
    };
    let vendor = trimmed(d.vendor@);
    let model = trimmed(d.model@);
    match file_name {
        Some(n) => n,
        None => if vendor.len() == 0 && model.len() == 0 {
            d.display_name@
        } else if vendor.len() == 0 {
            model
        } else if model.len() == 0 {
            vendor
        } else if starts_with(unicode_lowercase(model), unicode_lowercase(vendor)) {
            model
        } else {
            vendor + " "@ + model
        },
    }
}

/// See [`drive_title_of`].
pub fn drive_title(disk: &DiskFacts) -> (r: String)
    ensures
        r@ == drive_title_of(*disk),
{
    if let Some(path) = &disk.backing_file {
        let name = last_path_part(path.as_str());
        if trim(path.as_str()).unicode_len() > 0 && trim(name).unicode_len() > 0 {
            return String::from_str(name);
        }
    }
    let vendor = trim(disk.vendor.as_str());
    let model = trim(disk.model.as_str());
    if vendor.unicode_len() == 0 && model.unicode_len() == 0 {
        return disk.display_name.clone();
    }
    if vendor.unicode_len() == 0 {
        return String::from_str(model);
    }
    if model.unicode_len() == 0 {
        return String::from_str(vendor);
    }
    let model_lower = to_lowercase(model);
    let vendor_lower = to_lowercase(vendor);
    if text_starts_with(model_lower.as_str(), vendor_lower.as_str()) {
        String::from_str(model)
    } else {
        let mut title = String::from_str(vendor);
        title.append(" ");
        title.append(model);
        title
    }
}

/// A row of the sidebar tree.
#[derive(Debug, Clone)]
pub struct SidebarRow {
    pub key: SidebarNodeKey,
    /// How far the row is indented.
    pub depth: u16,
    pub title: String,
    /// The row can be expanded.
    pub has_children: bool,
    pub selected: bool,
    /// The row offers to eject its drive, or to unmount its volume.
    pub action: bool,
}

/// A row as plain values.
pub struct RowView {
    pub key: (int, Seq<char>),
    pub depth: u16,
    pub title: Seq<char>,
    pub has_children: bool,
    pub selected: bool,
    pub action: bool,
}

pub open spec fn row_view(r: SidebarRow) -> RowView {
    RowView { key: key_view(r.key), depth: r.depth, title: r.title@, has_children: r.has_children, selected: r.selected, action: r.action }
}

pub open spec fn rows_view(rows: Seq<SidebarRow>) -> Seq<RowView> {
    rows.map_values(|r: SidebarRow| row_view(r))
}

/// How the tree knows a volume: by its device path, or by nothing without one.
pub open spec fn volume_key(n: UiVolume) -> Seq<char> {
    match n.volume.device_path {
        Some(d) => d@,
        None => Seq::empty(),
    }
}

/// The title of a volume: its label, or its device path when the label is blank.
pub open spec fn volume_title_of(v: VolumeInfo) -> Seq<char> {
    if trimmed(v.label@).len() == 0 {
        match v.device_path {
            Some(d) => d@,
            None => Seq::empty(),
        }
    } else {
        v.label@
    }
}

/// The row of volume `n` at `depth`; selected when it is the selected child, with an unmount
/// action when mounted.
pub open spec fn volume_row_of(n: UiVolume, depth: u16, selected: Option<(int, Seq<char>)>) -> RowView {
    RowView {
        key: (1, volume_key(n)),
        depth,
        title: volume_title_of(n.volume),
        has_children: n.children@.len() > 0,
        selected: selected == Some((1int, volume_key(n))),
        action: n.volume.mounted,
    }
}

/// One level deeper (the depth stops at the largest `u16`).
pub open spec fn deeper(d: u16) -> u16 {
    if d < u16::MAX { (d + 1) as u16 } else { d }
}

pub open spec fn child_keys(cs: Seq<UiVolume>) -> Seq<Seq<char>> {
    cs.map_values(|c: UiVolume| volume_key(c))
}

/// The rows of volume `n` and, when it is expanded, of the volumes inside it ordered by
/// device path.
pub open spec fn tree_rows(n: UiVolume, depth: u16, expanded: Set<(int, Seq<char>)>, selected: Option<(int, Seq<char>)>) -> Seq<RowView>
    decreases n, 1int, 0int,
{
    seq![volume_row_of(n, depth, selected)] + if expanded.contains((1int, volume_key(n))) {
        proof {
            assert(decreases_to!(n => n.children));
            assert(decreases_to!(n.children => n.children@));
        }
        forest_rows(n.children@, sorted_positions(n.children@.len(), text_before(child_keys(n.children@))), 0, deeper(depth), expanded, selected)
    } else {
        Seq::empty()
    }
}

/// The rows of the volumes `cs` taken in `order`, from its `k`-th entry on.
pub open spec fn forest_rows(
    cs: Seq<UiVolume>,
    order: Seq<usize>,
    k: int,
    depth: u16,
    expanded: Set<(int, Seq<char>)>,
    selected: Option<(int, Seq<char>)>,
) -> Seq<RowView>
    decreases cs, 0int, order.len() - k,
{
    if k < 0 || k >= order.len() {
        Seq::empty()
    } else if order[k] < cs.len() {
        proof {
            assert(decreases_to!(cs => cs[order[k] as int]));
        }
        tree_rows(cs[order[k] as int], depth, expanded, selected) + forest_rows(cs, order, k + 1, depth, expanded, selected)
    } else {
        Seq::empty()
    }
}

pub open spec fn opt_key(k: Option<SidebarNodeKey>) -> Option<(int, Seq<char>)> {
    match k {
        Some(k) => Some(key_view(k)),
        None => None,
    }
}

fn device_key(v: &VolumeInfo) -> (r: String)
    ensures
        r@ == match v.device_path {
            Some(d) => d@,
            None => Seq::empty(),
        },
{
    match &v.device_path {
        Some(d) => d.clone(),
        None => String::new(),
    }
}

/// The title of a volume (see [`volume_title_of`]).
pub fn volume_title(v: &VolumeInfo) -> (r: String)
    ensures
        r@ == volume_title_of(*v),
{
    if trim(v.label.as_str()).unicode_len() == 0 {
        device_key(v)
    } else {
        v.label.clone()
    }
}

fn same_selected(selected: &Option<SidebarNodeKey>, key: &SidebarNodeKey) -> (r: bool)
    ensures
        r == (opt_key(*selected) == Some(key_view(*key))),
{
    match selected {
        Some(s) => crate::sidebar::same_key(s, key),
        None => false,
    }
}

fn push_tree(
    out: &mut Vec<SidebarRow>,
    node: &UiVolume,
    depth: u16,
    expanded: &ExpandedNodes,
    selected: &Option<SidebarNodeKey>,
)
    ensures
        rows_view(final(out)@) == rows_view(old(out)@) + tree_rows(*node, depth, expanded@, opt_key(*selected)),
    decreases node, 1int,
{
    let key = SidebarNodeKey::Volume(device_key(&node.volume));
    let is_selected = same_selected(selected, &key);
    let is_expanded = expanded.contains(&key);
    let ghost before = rows_view(out@);
    out.push(SidebarRow {
        key,
        depth,
        title: volume_title(&node.volume),
        has_children: node.children.len() > 0,
        selected: is_selected,
        action: node.volume.mounted,
    });
    assert(rows_view(out@) =~= before + seq![volume_row_of(*node, depth, opt_key(*selected))]);
    if is_expanded {
        let mut keys: Vec<String> = Vec::new();
        let mut i: usize = 0;
        while i < node.children.len()
            invariant
                i <= node.children@.len(),
                crate::ordering::texts(keys@) == child_keys(node.children@).take(i as int),
            decreases node.children.len() - i,
        {
            let k = device_key(&node.children[i].volume);
            assert(k@ == volume_key(node.children@[i as int]));
            let ghost prev = keys@;
            keys.push(k);
            assert(crate::ordering::texts(keys@) =~= crate::ordering::texts(prev).push(k@));
            assert(crate::ordering::texts(keys@) =~= child_keys(node.children@).take(i + 1));
            i = i + 1;
        }
        assert(crate::ordering::texts(keys@) =~= child_keys(node.children@));
        let order = stable_order_text(&keys);
        let next = if depth < u16::MAX { depth + 1 } else { depth };
        proof {
            assert(decreases_to!(*node => node.children));
            assert(decreases_to!(node.children => node.children@));
        }
        push_forest(out, node.children.as_slice(), &order, next, expanded, selected);
    }
    assert(rows_view(out@) =~= rows_view(old(out)@) + tree_rows(*node, depth, expanded@, opt_key(*selected)));
}

fn push_forest(
    out: &mut Vec<SidebarRow>,
    cs: &[UiVolume],
    order: &Vec<usize>,
    depth: u16,
    expanded: &ExpandedNodes,
    selected: &Option<SidebarNodeKey>,
)
    requires
        forall|k: int| 0 <= k < order@.len() ==> (#[trigger] order@[k]) < cs@.len(),
    ensures
        rows_view(final(out)@) == rows_view(old(out)@) + forest_rows(cs@, order@, 0, depth, expanded@, opt_key(*selected)),
    decreases cs@, 0int,
{
    let mut k: usize = 0;
    assert(rows_view(out@) =~= rows_view(old(out)@) + Seq::<RowView>::empty());
    while k < order.len()
        invariant
            k <= order@.len(),
            forall|j: int| 0 <= j < order@.len() ==> (#[trigger] order@[j]) < cs@.len(),
            rows_view(out@) + forest_rows(cs@, order@, k as int, depth, expanded@, opt_key(*selected))
                == rows_view(old(out)@) + forest_rows(cs@, order@, 0, depth, expanded@, opt_key(*selected)),
        decreases order.len() - k,
    {
        let ghost before = rows_view(out@);
        let i = order[k];
        proof {
            assert(decreases_to!(cs@ => cs@[i as int]));
        }
        push_tree(out, &cs[i], depth, expanded, selected);
        assert(rows_view(out@) + forest_rows(cs@, order@, k + 1, depth, expanded@, opt_key(*selected))
            =~= before + forest_rows(cs@, order@, k as int, depth, expanded@, opt_key(*selected)));
        k = k + 1;
    }
    assert(rows_view(out@) + Seq::<RowView>::empty() =~= rows_view(out@));
}

/// The offset of the first partition with device path `p`; 0 when there is none.
pub open spec fn offset_of(parts: Seq<DrivePartition>, p: Seq<char>) -> u64
    decreases parts.len(),
{
    if parts.len() == 0 {
        0
    } else if parts[0].device@ == p {
        parts[0].offset
    } else {
        offset_of(parts.subrange(1, parts.len() as int), p)
    }
}

/// Where a volume of a drive starts: the offset of its partition, 0 when it has none.
pub open spec fn volume_offset(parts: Seq<DrivePartition>, n: UiVolume) -> u64 {
    match n.volume.device_path {
        Some(d) => offset_of(parts, d@),
        None => 0,
    }
}

pub open spec fn volume_offsets(d: UiDrive) -> Seq<u64> {
    d.volumes@.map_values(|v: UiVolume| volume_offset(d.partitions@, v))
}

pub open spec fn opt_str(o: Option<&str>) -> Option<Seq<char>> {
    match o {
        Some(s) => Some(s@),
        None => None,
    }
}

/// The row of a drive: selected when it is the active drive; with an eject action for loop
/// devices and removable or ejectable drives.
pub open spec fn drive_row_of(d: UiDrive, active: Option<Seq<char>>) -> RowView {
    RowView {
        key: (0, d.device@),
        depth: 0,
        title: drive_title_of(d.disk),
        has_children: d.volumes@.len() > 0,
        selected: active == Some(d.device@),
        action: d.disk.is_loop || d.disk.removable || d.disk.ejectable,
    }
}

/// The rows of a drive: its own, then, when it is expanded, those of its volumes in the order
/// in which they start on the disk (volumes that start together in their order).
pub open spec fn drive_rows(d: UiDrive, expanded: Set<(int, Seq<char>)>, selected: Option<(int, Seq<char>)>, active: Option<Seq<char>>) -> Seq<RowView> {
    seq![drive_row_of(d, active)] + if expanded.contains((0int, d.device@)) {
        forest_rows(d.volumes@, sorted_positions(d.volumes@.len(), u64_before(volume_offsets(d))), 0, 1, expanded, selected)
    } else {
        Seq::empty()
    }
}

/// The rows of the drives of `ds` listed in section `s`, in their order.
pub open spec fn section_rows_of(
    ds: Seq<UiDrive>,
    s: Section,
    expanded: Set<(int, Seq<char>)>,
    selected: Option<(int, Seq<char>)>,
    active: Option<Seq<char>>,
) -> Seq<RowView>
    decreases ds.len(),
{
    if ds.len() == 0 {
        Seq::empty()
    } else {
        section_rows_of(ds.drop_last(), s, expanded, selected, active) + if section_of(ds.last().disk) == s {
            drive_rows(ds.last(), expanded, selected, active)
        } else {
            Seq::empty()
        }
    }
}

fn partition_offset(parts: &Vec<DrivePartition>, device: &str) -> (r: u64)
    ensures
        r == offset_of(parts@, device@),
{
    let mut i: usize = 0;
    assert(parts@.subrange(0, parts@.len() as int) =~= parts@);
    while i < parts.len()
        invariant
            i <= parts@.len(),
            offset_of(parts@, device@) == offset_of(parts@.subrange(i as int, parts@.len() as int), device@),
        decreases parts.len() - i,
    {
        let ghost rest = parts@.subrange(i as int, parts@.len() as int);
        assert(rest.subrange(1, rest.len() as int) =~= parts@.subrange(i + 1, parts@.len() as int));
        if crate::text::str_equals(parts[i].device.as_str(), device) {
            return parts[i].offset;
        }
        i = i + 1;
    }
    0
}

fn push_drive(
    out: &mut Vec<SidebarRow>,
    d: &UiDrive,
    expanded: &ExpandedNodes,
    selected: &Option<SidebarNodeKey>,
    active_drive: Option<&str>,
)
    ensures
        rows_view(final(out)@) == rows_view(old(out)@) + drive_rows(*d, expanded@, opt_key(*selected), opt_str(active_drive)),
{
    let key = SidebarNodeKey::Drive(d.device.clone());
    let is_expanded = expanded.contains(&key);
    let is_selected = match active_drive {
        Some(a) => crate::text::str_equals(a, d.device.as_str()),
        None => false,
    };
    let ghost before = rows_view(out@);
    out.push(SidebarRow {
        key,
        depth: 0,
        title: drive_title(&d.disk),
        has_children: d.volumes.len() > 0,
        selected: is_selected,
        action: d.disk.is_loop || d.disk.removable || d.disk.ejectable,
    });
    assert(rows_view(out@) =~= before + seq![drive_row_of(*d, opt_str(active_drive))]);
    if is_expanded {
        let mut offsets: Vec<u64> = Vec::new();
        let mut i: usize = 0;
        while i < d.volumes.len()
            invariant
                i <= d.volumes@.len(),
                offsets@ == volume_offsets(*d).take(i as int),
            decreases d.volumes.len() - i,
        {
            let off = match &d.volumes[i].volume.device_path {
                Some(p) => partition_offset(&d.partitions, p.as_str()),
                None => 0,
            };
            assert(off == volume_offset(d.partitions@, d.volumes@[i as int]));
            offsets.push(off);
            assert(offsets@ =~= volume_offsets(*d).take(i + 1));
            i = i + 1;
        }
        assert(offsets@ =~= volume_offsets(*d));
        let order = stable_order_u64(&offsets);
        push_forest(out, d.volumes.as_slice(), &order, 1, expanded, selected);
    }
    assert(rows_view(out@) =~= rows_view(old(out)@) + drive_rows(*d, expanded@, opt_key(*selected), opt_str(active_drive)));
}

/// The rows of the drives listed in `section` (see [`section_rows_of`]): `expanded` tells the
/// expanded nodes, `selected` the selected volume, `active_drive` the device of the drive
/// shown.
pub fn section_rows(
    drives: &Vec<UiDrive>,
    section: Section,
    expanded: &ExpandedNodes,
    selected: &Option<SidebarNodeKey>,
    active_drive: Option<&str>,
) -> (rows: Vec<SidebarRow>)
    ensures
        rows_view(rows@) == section_rows_of(drives@, section, expanded@, opt_key(*selected), opt_str(active_drive)),
{
    let mut rows: Vec<SidebarRow> = Vec::new();
    let mut i: usize = 0;
    assert(rows_view(rows@) =~= section_rows_of(drives@.take(0), section, expanded@, opt_key(*selected), opt_str(active_drive)));
    while i < drives.len()
        invariant
            i <= drives@.len(),
            rows_view(rows@) == section_rows_of(drives@.take(i as int), section, expanded@, opt_key(*selected), opt_str(active_drive)),
        decreases drives.len() - i,
    {
        assert(drives@.take(i + 1).drop_last() =~= drives@.take(i as int));
        if section_for_drive(&drives[i].disk) == section {
            push_drive(&mut rows, &drives[i], expanded, selected, active_drive);
        } else {
            assert(rows_view(rows@) =~= rows_view(rows@) + Seq::<RowView>::empty());
        }
        i = i + 1;
    }
    assert(drives@.take(drives@.len() as int) =~= drives@);
    rows
}

} // verus!
