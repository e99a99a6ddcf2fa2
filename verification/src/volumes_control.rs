//! The drive view: its segments, which segment and volume are selected, and which volume an
//! action on the selection is for.
//!
//! A segment that shows a partition carries the partition's device path; the volume on it is
//! the first volume of the drive's tree with that device path (each volume searched before what
//! it contains).
use vstd::prelude::*;
use vstd::string::StringExecFns;
use vstd::string::StrSliceExecFns;
use crate::btrfs_state::BtrfsState;
use crate::partition_dialogs::FilesystemToolInfo;
use crate::segments::{
    table_usable_range, visible_disk_segments, visible_segments_spec, DiskSegment,
    DiskSegmentKind, PartitionExtent, GPT_ALIGNMENT_BYTES,
};
use crate::usage::UsageTabState;
use crate::views::DetailTab;
use crate::text::{to_uppercase, unicode_uppercase_text};
use crate::volume_tree::{
    btrfs_for_volume, detect_btrfs_for_volume, find_in, find_volume_in_ui_tree, opt_pair_text,
    opt_text, UiVolume, VolumeInfo, VolumeKind,
};

verus! {

/// One partition of a drive.
#[derive(Debug, Clone)]
pub struct DrivePartition {
    pub device: String,
    /// The partition's own name (its label in the partition table), possibly empty.
    pub name: String,
    /// The name of the partition's type, such as `Linux filesystem`.
    pub type_label: String,
    pub offset: u64,
    pub size: u64,
    /// The partition table the partition is in, such as `gpt`.
    pub table_type: String,
}

/// What the sidebar reads of a drive's disk.
#[derive(Debug, Clone)]
pub struct DiskFacts {
    pub removable: bool,
    pub ejectable: bool,
    /// The disk is a loop device.
    pub is_loop: bool,
    /// The image file behind the disk, if any.
    pub backing_file: Option<String>,
    pub vendor: String,
    pub model: String,
    /// The name of the disk when it tells neither vendor nor model.
    pub display_name: String,
}

/// What the library reads of a drive.
#[derive(Debug)]
pub struct UiDrive {
    pub device: String,
    pub disk: DiskFacts,
    pub size: u64,
    pub partition_table_type: Option<String>,
    pub gpt_usable_range: Option<(u64, u64)>,
    pub partitions: Vec<DrivePartition>,
    pub volumes: Vec<UiVolume>,
}

/// A segment of the drive view.
#[derive(Debug, Clone)]
pub struct DriveSegment {
    pub segment: DiskSegment,
    /// The device path of the partition the segment shows, if it shows one.
    pub device_path: Option<String>,
    /// The partition table type: the partition's, or the drive's for space between partitions.
    pub table_type: String,
    /// The name of the partition the segment shows; empty for other segments (and for a
    /// partition without a name, which the view shows under a generic label).
    pub name: String,
    /// The type text of the partition the segment shows (see [`partition_type_text`]); empty
    /// for other segments.
    pub partition_type: String,
}

/// The type of the volume with the partition's device path, in upper case; empty where the
/// drive has no such volume.
pub open spec fn volume_type_text(volumes: Seq<UiVolume>, device: Seq<char>) -> Seq<char> {
    match find_in(volumes, device) {
        Some(v) => unicode_uppercase_text(v.volume.id_type@),
        None => Seq::empty(),
    }
}

/// The type text of a partition segment: the type of the volume on it in upper case, a dash,
/// and the name of the partition's type (`EXT4 - Linux filesystem`).
pub open spec fn partition_type_text(volumes: Seq<UiVolume>, p: DrivePartition) -> Seq<char> {
    volume_type_text(volumes, p.device@) + " - "@ + p.type_label@
}

/// The drive view. The Btrfs page's subvolumes are carried as `S` and its deleted subvolumes
/// as `D`; the usage scan's parallelism as `P`.
#[derive(Debug)]
pub struct VolumesControl<S, D, P> {
    pub device: String,
    pub size: u64,
    pub partition_table_type: Option<String>,
    pub gpt_usable_range: Option<(u64, u64)>,
    pub partitions: Vec<DrivePartition>,
    pub volumes: Vec<UiVolume>,
    pub segments: Vec<DriveSegment>,
    pub show_reserved: bool,
    pub selected_segment: usize,
    /// The device path of the volume selected inside the selected segment, if any.
    pub selected_volume: Option<String>,
    pub btrfs_state: Option<BtrfsState<S, D>>,
    pub detail_tab: DetailTab,
    pub filesystem_tools: Vec<FilesystemToolInfo>,
    pub usage_state: UsageTabState<P>,
}

pub open spec fn table_text(t: Option<String>) -> Seq<char> {
    match t {
        Some(s) => s@,
        None => Seq::empty(),
    }
}

/// The extents of the partitions, each with its position as id.
pub open spec fn extents(parts: Seq<DrivePartition>) -> Seq<PartitionExtent> {
    Seq::new(parts.len(), |i: int| PartitionExtent { id: i as usize, offset: parts[i].offset, size: parts[i].size })
}

/// The partition a segment shows, by position.
pub open spec fn shown_partition(seg: DiskSegment, count: nat) -> Option<int> {
    match seg.partition_id {
        Some(id) => if seg.kind == DiskSegmentKind::Partition && id < count { Some(id as int) } else { None },
        None => None,
    }
}

/// The segments can be laid out: a drive with a usable range leaves room to align in.
pub open spec fn layout_fits(size: u64, table: Option<String>, gpt_usable_range: Option<(u64, u64)>) -> bool {
    table_usable_range(size, table_text(table), gpt_usable_range) is Some ==> size <= u64::MAX - GPT_ALIGNMENT_BYTES
}

/// `segs` are the segments of a drive view of the partitions `parts`: the laid-out segments,
/// each partition segment with its partition's device path and table type.
pub open spec fn shows_layout(
    segs: Seq<DriveSegment>,
    size: u64,
    table: Option<String>,
    gpt_usable_range: Option<(u64, u64)>,
    parts: Seq<DrivePartition>,
    volumes: Seq<UiVolume>,
    show_reserved: bool,
) -> bool {
    let base = visible_segments_spec(size, table_text(table), gpt_usable_range, extents(parts), show_reserved);
    &&& segs.len() == base.len()
    &&& forall|i: int| 0 <= i < segs.len() ==> {
        &&& (#[trigger] segs[i]).segment == base[i]
        &&& match shown_partition(base[i], parts.len()) {
            Some(p) => {
                &&& opt_text(segs[i].device_path) == Some(parts[p].device@)
                &&& segs[i].table_type@ == parts[p].table_type@
                &&& segs[i].name@ == parts[p].name@
                &&& segs[i].partition_type@ == partition_type_text(volumes, parts[p])
            },
            None => {
                &&& segs[i].device_path is None
                &&& segs[i].table_type@ == table_text(table)
                &&& segs[i].name@.len() == 0
                &&& segs[i].partition_type@.len() == 0
            },
        }
    }
}

fn partition_type_of(volumes: &Vec<UiVolume>, p: &DrivePartition) -> (r: String)
    ensures
        r@ == partition_type_text(volumes@, *p),
{
    let mut r = match find_volume_in_ui_tree(volumes.as_slice(), p.device.as_str()) {
        Some(v) => to_uppercase(v.volume.id_type.as_str()),
        None => String::new(),
    };
    r.append(" - ");
    r.append(p.type_label.as_str());
    r
}

fn partition_extents(parts: &Vec<DrivePartition>) -> (r: Vec<PartitionExtent>)
    ensures
        r@ == extents(parts@),
{
    let mut r: Vec<PartitionExtent> = Vec::new();
    let mut i: usize = 0;
    while i < parts.len()
        invariant
            i <= parts@.len(),
            r@ == extents(parts@).take(i as int),
        decreases parts.len() - i,
    {
        r.push(PartitionExtent { id: i, offset: parts[i].offset, size: parts[i].size });
        assert(r@ =~= extents(parts@).take(i + 1));
        i = i + 1;
    }
    assert(r@ =~= extents(parts@));
    r
}

fn table_or_empty(t: &Option<String>) -> (r: String)
    ensures
        r@ == table_text(*t),
{
    match t {
        Some(s) => s.clone(),
        None => String::new(),
    }
}

/// The segments of a drive view.
fn layout_segments(
    size: u64,
    table: &Option<String>,
    gpt_usable_range: Option<(u64, u64)>,
    parts: &Vec<DrivePartition>,
    volumes: &Vec<UiVolume>,
    show_reserved: bool,
) -> (segs: Vec<DriveSegment>)
    requires
        layout_fits(size, *table, gpt_usable_range),
    ensures
        shows_layout(segs@, size, *table, gpt_usable_range, parts@, volumes@, show_reserved),
{
    let table_type = table_or_empty(table);
    let base = visible_disk_segments(size, table_type.as_str(), gpt_usable_range, partition_extents(parts), show_reserved);
    let mut segs: Vec<DriveSegment> = Vec::new();
    let mut i: usize = 0;
    while i < base.len()
        invariant
            i <= base@.len(),
            table_type@ == table_text(*table),
            segs@.len() == i,
            forall|k: int| 0 <= k < i ==> {
                &&& (#[trigger] segs@[k]).segment == base@[k]
                &&& match shown_partition(base@[k], parts@.len()) {
                    Some(p) => {
                        &&& opt_text(segs@[k].device_path) == Some(parts@[p].device@)
                        &&& segs@[k].table_type@ == parts@[p].table_type@
                        &&& segs@[k].name@ == parts@[p].name@
                        &&& segs@[k].partition_type@ == partition_type_text(volumes@, parts@[p])
                    },
                    None => {
                        &&& segs@[k].device_path is None
                        &&& segs@[k].table_type@ == table_text(*table)
                        &&& segs@[k].name@.len() == 0
                        &&& segs@[k].partition_type@.len() == 0
                    },
                }
            },
        decreases base.len() - i,
    {
        let seg = base[i];
        let shown = match seg.partition_id {
            Some(id) => if seg.kind == DiskSegmentKind::Partition && id < parts.len() { Some(id) } else { None },
            None => None,
        };
        let entry = match shown {
            Some(id) => DriveSegment {
                segment: seg,
                device_path: Some(parts[id].device.clone()),
                table_type: parts[id].table_type.clone(),
                name: parts[id].name.clone(),
                partition_type: partition_type_of(volumes, &parts[id]),
            },
            None => DriveSegment {
                segment: seg,
                device_path: None,
                table_type: table_type.clone(),
                name: String::new(),
                partition_type: String::new(),
            },
        };
        segs.push(entry);
        i = i + 1;
    }
    segs
}

impl<S, D, P: Copy> VolumesControl<S, D, P> {
    /// The view of `drive`, with the first segment selected, no Btrfs page and a usage tab that
    /// has not scanned yet.
    pub fn new(
        drive: UiDrive,
        show_reserved: bool,
        filesystem_tools: Vec<FilesystemToolInfo>,
        all_categories: Vec<u32>,
        preset: P,
    ) -> (c: Self)
        requires
            layout_fits(drive.size, drive.partition_table_type, drive.gpt_usable_range),
        ensures
            shows_layout(c.segments@, drive.size, drive.partition_table_type, drive.gpt_usable_range, drive.partitions@, drive.volumes@, show_reserved),
            c.device == drive.device,
            c.size == drive.size,
            c.partition_table_type == drive.partition_table_type,
            c.gpt_usable_range == drive.gpt_usable_range,
            c.partitions == drive.partitions,
            c.volumes == drive.volumes,
            c.show_reserved == show_reserved,
            c.selected_segment == 0,
            c.selected_volume is None,
            c.btrfs_state is None,
            c.detail_tab == DetailTab::VolumeInfo,
            c.filesystem_tools == filesystem_tools,
            c.usage_state.is_fresh(all_categories, preset),
    {
        let segments = layout_segments(drive.size, &drive.partition_table_type, drive.gpt_usable_range, &drive.partitions, &drive.volumes, show_reserved);
        VolumesControl {
            device: drive.device,
            size: drive.size,
            partition_table_type: drive.partition_table_type,
            gpt_usable_range: drive.gpt_usable_range,
            partitions: drive.partitions,
            volumes: drive.volumes,
            segments,
            show_reserved,
            selected_segment: 0,
            selected_volume: None,
            btrfs_state: None,
            detail_tab: DetailTab::VolumeInfo,
            filesystem_tools,
            usage_state: UsageTabState::new(all_categories, preset),
        }
    }

    /// Shows or hides reserved space. A change lays the segments out again and starts over:
    /// the first segment is selected, the Btrfs page and the usage tab are dropped.
    pub fn set_show_reserved(&mut self, show_reserved: bool, all_categories: Vec<u32>, preset: P)
        requires
            layout_fits(old(self).size, old(self).partition_table_type, old(self).gpt_usable_range),
        ensures
            old(self).show_reserved == show_reserved ==> *final(self) == *old(self),
            old(self).show_reserved != show_reserved ==> {
                &&& shows_layout(final(self).segments@, old(self).size, old(self).partition_table_type,
                    old(self).gpt_usable_range, old(self).partitions@, old(self).volumes@, show_reserved)
                &&& *final(self) == (VolumesControl {
                    show_reserved,
                    segments: final(self).segments,
                    selected_segment: 0,
                    selected_volume: None,
                    btrfs_state: None,
                    usage_state: final(self).usage_state,
                    ..*old(self)
                })
                &&& final(self).usage_state.is_fresh(all_categories, preset)
            },
    {
        if self.show_reserved == show_reserved {
            return;
        }
        self.show_reserved = show_reserved;
        self.segments = layout_segments(self.size, &self.partition_table_type, self.gpt_usable_range, &self.partitions, &self.volumes, show_reserved);
        self.selected_segment = 0;
        self.selected_volume = None;
        self.btrfs_state = None;
        self.usage_state = UsageTabState::new(all_categories, preset);
    }
}

/// What a change of the selection asks of the rest of the window.
#[derive(Debug, Clone, PartialEq, Eq)]
pub enum SelectionEffect {
    Nothing,
    /// Clear the selection of volumes in the sidebar.
    ClearSidebarChild,
    /// Select the volume with this name in the sidebar.
    SelectSidebarChild(String),
    /// Select the volume in the sidebar, and load the subvolumes and the usage of the Btrfs
    /// filesystem managed through `block_path` and mounted at `mount_point`.
    LoadBtrfs { sidebar_child: String, block_path: String, mount_point: String },
}

/// The volume on segment `i`, if it shows one.
pub open spec fn segment_node<S, D, P>(c: VolumesControl<S, D, P>, i: int) -> Option<UiVolume> {
    if 0 <= i < c.segments@.len() {
        match c.segments@[i].device_path {
            Some(d) => find_in(c.volumes@, d@),
            None => None,
        }
    } else {
        None
    }
}

/// How the sidebar names a volume: by its device path, else by its label.
pub open spec fn sidebar_name(v: VolumeInfo) -> Seq<char> {
    match v.device_path {
        Some(d) => d@,
        None => v.label@,
    }
}

/// The Btrfs page `page` is that of the Btrfs filesystem behind the volume `node` of the tree
/// `volumes`, freshly opened; none when there is none.
pub open spec fn btrfs_page_for<S, D>(volumes: Seq<UiVolume>, node: UiVolume, page: Option<BtrfsState<S, D>>) -> bool {
    match btrfs_for_volume(volumes, node.volume) {
        Some((mp, block)) => page matches Some(b) && b.fresh_for(mp, Some(block)),
        None => page is None,
    }
}

/// After selecting the segment with volume `node`, the Btrfs page of `after` follows the
/// Btrfs filesystem behind the volume, and `r` loads it when it is mounted, selecting `child`
/// in the sidebar.
pub open spec fn btrfs_followed<S, D, P>(
    before: VolumesControl<S, D, P>,
    after: VolumesControl<S, D, P>,
    node: UiVolume,
    child: Seq<char>,
    r: Option<SelectionEffect>,
) -> bool {
    &&& btrfs_page_for(before.volumes@, node, after.btrfs_state)
    &&& match btrfs_for_volume(before.volumes@, node.volume) {
        Some((mp, block)) => match mp {
            Some(m) => r matches Some(SelectionEffect::LoadBtrfs { sidebar_child, block_path, mount_point })
                && sidebar_child@ == child && block_path@ == block && mount_point@ == m,
            None => r is None,
        },
        None => r is None,
    }
}

/// The state with segment `i` selected, no volume inside it, and the volume details shown.
pub open spec fn with_segment<S, D, P>(c: VolumesControl<S, D, P>, i: usize, volume: Option<String>) -> VolumesControl<S, D, P> {
    VolumesControl { selected_segment: i, selected_volume: volume, detail_tab: DetailTab::VolumeInfo, ..c }
}

impl<S, D, P> VolumesControl<S, D, P> {
    /// The volume on segment `i`.
    pub fn segment_volume(&self, i: usize) -> (r: Option<&UiVolume>)
        ensures
            match r {
                Some(n) => segment_node(*self, i as int) == Some(*n),
                None => segment_node(*self, i as int) is None,
            },
    {
        if i >= self.segments.len() {
            return None;
        }
        match &self.segments[i].device_path {
            Some(d) => find_volume_in_ui_tree(self.volumes.as_slice(), d.as_str()),
            None => None,
        }
    }

    /// Points the Btrfs page at the filesystem behind the volume on segment `i`; gives what to
    /// load when it is mounted, selecting `sidebar_child`.
    pub(crate) fn follow_btrfs(&mut self, i: usize, sidebar_child: &str) -> (r: Option<SelectionEffect>)
        ensures
            match segment_node(*old(self), i as int) {
                None => r is None && *final(self) == *old(self),
                Some(node) => {
                    &&& btrfs_followed(*old(self), *final(self), node, sidebar_child@, r)
                    &&& *final(self) == (VolumesControl { btrfs_state: final(self).btrfs_state, ..*old(self) })
                },
            },
    {
        let found: Option<Option<(Option<String>, String)>> = match self.segment_volume(i) {
            Some(node) => Some(detect_btrfs_for_volume(self.volumes.as_slice(), &node.volume)),
            None => None,
        };
        match found {
            None => None,
            Some(None) => {
                self.btrfs_state = None;
                None
            },
            Some(Some((mount_point, block_path))) => {
                let load = match &mount_point {
                    Some(m) => Some(SelectionEffect::LoadBtrfs {
                        sidebar_child: String::from_str(sidebar_child),
                        block_path: block_path.clone(),
                        mount_point: m.clone(),
                    }),
                    None => None,
                };
                self.btrfs_state = Some(BtrfsState::new(mount_point, Some(block_path)));
                load
            },
        }
    }

    /// Selects segment `index` (the last one when past the end) unless a dialog is open: no
    /// volume inside it is selected and the volume details are shown. The Btrfs page follows
    /// the segment's volume; the sidebar selects that volume, or nothing when the segment shows
    /// none.
    pub fn segment_selected(&mut self, index: usize, dialog_open: bool) -> (r: SelectionEffect)
        ensures
            dialog_open ==> r == SelectionEffect::Nothing && *final(self) == *old(self),
            !dialog_open && old(self).segments@.len() == 0 ==> {
                &&& r == SelectionEffect::ClearSidebarChild
                &&& *final(self) == (VolumesControl { selected_segment: 0, selected_volume: None, ..*old(self) })
            },
            !dialog_open && old(self).segments@.len() > 0 ==> {
                let i = if index < old(self).segments@.len() { index } else { (old(self).segments@.len() - 1) as usize };
                let moved = with_segment(*old(self), i, None);
                match segment_node(*old(self), i as int) {
                    None => r == SelectionEffect::ClearSidebarChild && *final(self) == moved,
                    Some(node) => {
                        &&& *final(self) == (VolumesControl { btrfs_state: final(self).btrfs_state, ..moved })
                        &&& btrfs_followed(*old(self), *final(self), node, sidebar_name(node.volume),
                            if r is SelectSidebarChild { None } else { Some(r) })
                        &&& r matches SelectionEffect::SelectSidebarChild(c) ==> c@ == sidebar_name(node.volume)
                    },
                }
            },
    {
        if dialog_open {
            return SelectionEffect::Nothing;
        }
        if self.segments.len() == 0 {
            self.selected_segment = 0;
            self.selected_volume = None;
            return SelectionEffect::ClearSidebarChild;
        }
        let last = self.segments.len() - 1;
        let i = if index < self.segments.len() { index } else { last };
        self.selected_segment = i;
        self.selected_volume = None;
        self.detail_tab = DetailTab::VolumeInfo;
        let name: Option<String> = match self.segment_volume(i) {
            Some(node) => Some(match &node.volume.device_path {
                Some(d) => d.clone(),
                None => node.volume.label.clone(),
            }),
            None => None,
        };
        match name {
            None => SelectionEffect::ClearSidebarChild,
            Some(name) => match self.follow_btrfs(i, name.as_str()) {
                Some(load) => load,
                None => SelectionEffect::SelectSidebarChild(name),
            },
        }
    }

    /// Selects the volume `device_path` inside segment `segment_index` (the last segment when
    /// past the end) unless a dialog is open, and shows its details. The Btrfs page follows the
    /// segment's volume; the sidebar selects `device_path`.
    pub fn select_volume(&mut self, segment_index: usize, device_path: String, dialog_open: bool) -> (r: SelectionEffect)
        ensures
            dialog_open ==> r == SelectionEffect::Nothing && *final(self) == *old(self),
            !dialog_open && old(self).segments@.len() == 0 ==> {
                &&& r == SelectionEffect::Nothing
                &&& *final(self) == (VolumesControl { selected_segment: 0, selected_volume: None, ..*old(self) })
            },
            !dialog_open && old(self).segments@.len() > 0 ==> {
                let i = if segment_index < old(self).segments@.len() { segment_index } else { (old(self).segments@.len() - 1) as usize };
                let moved = with_segment(*old(self), i, Some(device_path));
                &&& r matches SelectionEffect::SelectSidebarChild(c) ==> c@ == device_path@
                &&& match segment_node(*old(self), i as int) {
                    None => r is SelectSidebarChild && *final(self) == moved,
                    Some(node) => {
                        &&& *final(self) == (VolumesControl { btrfs_state: final(self).btrfs_state, ..moved })
                        &&& btrfs_followed(*old(self), *final(self), node, device_path@,
                            if r is SelectSidebarChild { None } else { Some(r) })
                    },
                }
            },
    {
        if dialog_open {
            return SelectionEffect::Nothing;
        }
        if self.segments.len() == 0 {
            self.selected_segment = 0;
            self.selected_volume = None;
            return SelectionEffect::Nothing;
        }
        let last = self.segments.len() - 1;
        let i = if segment_index < self.segments.len() { segment_index } else { last };
        let name = device_path.clone();
        self.selected_segment = i;
        self.selected_volume = Some(device_path);
        self.detail_tab = DetailTab::VolumeInfo;
        match self.follow_btrfs(i, name.as_str()) {
            Some(load) => load,
            None => SelectionEffect::SelectSidebarChild(name),
        }
    }

    /// The selected volume inside the selected segment, if there is one.
    pub fn selected_volume_node(&self) -> (r: Option<&UiVolume>)
        ensures
            match self.selected_volume {
                Some(p) => match r {
                    Some(n) => find_in(self.volumes@, p@) == Some(*n),
                    None => find_in(self.volumes@, p@) is None,
                },
                None => r is None,
            },
    {
        match &self.selected_volume {
            Some(p) => find_volume_in_ui_tree(self.volumes.as_slice(), p.as_str()),
            None => None,
        }
    }
}

/// The first of the volumes `vs` themselves (not those inside them) with device path `path`.
pub open spec fn top_level(vs: Seq<UiVolume>, path: Seq<char>) -> Option<UiVolume>
    decreases vs.len(),
{
    if vs.len() == 0 {
        None
    } else if opt_text(vs[0].volume.device_path) == Some(path) {
        Some(vs[0])
    } else {
        top_level(vs.subrange(1, vs.len() as int), path)
    }
}

/// How segment `i` holds the volume `path`: as its own volume (`false`), or inside the
/// top-level volume of the segment's device (`true`).
pub open spec fn segment_holds<S, D, P>(c: VolumesControl<S, D, P>, i: int, path: Seq<char>) -> Option<bool> {
    match segment_node(c, i) {
        None => None,
        Some(n) => if opt_text(n.volume.device_path) == Some(path) {
            Some(false)
        } else {
            match n.volume.device_path {
                None => None,
                Some(d) => match top_level(c.volumes@, d@) {
                    Some(top) => if find_in(top.children@, path) is Some { Some(true) } else { None },
                    None => None,
                },
            }
        },
    }
}

/// The first segment from the `k`-th on that holds the volume `path`, and how.
pub open spec fn holding_from<S, D, P>(c: VolumesControl<S, D, P>, path: Seq<char>, k: int) -> Option<(usize, bool)>
    decreases c.segments@.len() - k,
{
    if k < 0 || k >= c.segments@.len() {
        None
    } else {
        match segment_holds(c, k, path) {
            Some(nested) => Some((k as usize, nested)),
            None => holding_from(c, path, k + 1),
        }
    }
}

impl<S, D, P> VolumesControl<S, D, P> {
    /// The first segment that holds the volume `path`, and whether inside its own volume.
    pub open spec fn find_segment_spec(self, path: Seq<char>) -> Option<(usize, bool)> {
        holding_from(self, path, 0)
    }
}

/// Which volume an action on a filesystem is for.
#[derive(Debug, Clone, Copy, PartialEq, Eq, Structural)]
pub enum TargetSource {
    /// The volume selected inside the segment.
    SelectedVolume,
    /// The volume of the selected segment.
    SegmentVolume,
}

/// The volume that an action on a filesystem (label, check, repair, ownership) is for: the
/// selected volume when one is selected, else the volume of the selected segment; it must
/// hold a filesystem.
pub open spec fn filesystem_target_of<S, D, P>(c: VolumesControl<S, D, P>) -> Option<(TargetSource, UiVolume)> {
    let selected = match c.selected_volume {
        Some(p) => find_in(c.volumes@, p@),
        None => None,
    };
    match selected {
        Some(n) => if n.volume.has_filesystem { Some((TargetSource::SelectedVolume, n)) } else { None },
        None => match segment_node(c, c.selected_segment as int) {
            Some(n) => if n.volume.has_filesystem { Some((TargetSource::SegmentVolume, n)) } else { None },
            None => None,
        },
    }
}

/// What locking the encrypted volume of the selected segment takes.
#[derive(Debug, Clone, PartialEq, Eq)]
pub struct LockPlan {
    /// The mounted volumes inside to unmount first, innermost first.
    pub unmount_first: Vec<String>,
    /// The device to lock, if the volume has a device path.
    pub device: Option<String>,
    /// The sidebar entry to keep selected after the reload.
    pub keep_selected: String,
}

/// What deleting the partition of the selected segment takes.
#[derive(Debug, Clone, PartialEq, Eq)]
pub struct DeletePlan {
    /// The partition is an unlocked encrypted container, to be locked first.
    pub lock_first: bool,
    /// The mounted volumes inside to unmount before locking, innermost first.
    pub unmount_first: Vec<String>,
    /// The device of the partition, if it has a device path.
    pub device: Option<String>,
}

/// The volume is an encrypted container that is unlocked.
pub open spec fn unlocked_crypto(v: VolumeInfo) -> bool {
    v.kind == VolumeKind::CryptoContainer && !v.locked
}

impl<S, D, P> VolumesControl<S, D, P> {
    fn top_level_volume(&self, path: &str) -> (r: Option<&UiVolume>)
        ensures
            match r {
                Some(n) => top_level(self.volumes@, path@) == Some(*n),
                None => top_level(self.volumes@, path@) is None,
            },
    {
        let mut i: usize = 0;
        assert(self.volumes@.subrange(0, self.volumes@.len() as int) =~= self.volumes@);
        while i < self.volumes.len()
            invariant
                i <= self.volumes@.len(),
                top_level(self.volumes@, path@) == top_level(self.volumes@.subrange(i as int, self.volumes@.len() as int), path@),
            decreases self.volumes.len() - i,
        {
            let ghost rest = self.volumes@.subrange(i as int, self.volumes@.len() as int);
            assert(rest.subrange(1, rest.len() as int) =~= self.volumes@.subrange(i + 1, self.volumes@.len() as int));
            if let Some(d) = self.volumes[i].device() {
                if crate::text::str_equals(d, path) {
                    return Some(&self.volumes[i]);
                }
            }
            i = i + 1;
        }
        None
    }

    /// The first segment that holds the volume `device_path`, and whether it holds it inside
    /// its own volume.
    pub fn find_segment_for_volume(&self, device_path: &str) -> (r: Option<(usize, bool)>)
        ensures
            match r {
                Some((i, nested)) => {
                    &&& i < self.segments@.len()
                    &&& segment_holds(*self, i as int, device_path@) == Some(nested)
                    &&& forall|j: int| 0 <= j < i ==> segment_holds(*self, j, device_path@) is None
                },
                None => forall|j: int| 0 <= j < self.segments@.len() ==> segment_holds(*self, j, device_path@) is None,
            },
            r == self.find_segment_spec(device_path@),
    {
        let mut i: usize = 0;
        while i < self.segments.len()
            invariant
                i <= self.segments@.len(),
                forall|j: int| 0 <= j < i ==> segment_holds(*self, j, device_path@) is None,
                self.find_segment_spec(device_path@) == holding_from(*self, device_path@, i as int),
            decreases self.segments.len() - i,
        {
            if let Some(node) = self.segment_volume(i) {
                match &node.volume.device_path {
                    Some(d) => {
                        if crate::text::str_equals(d.as_str(), device_path) {
                            return Some((i, false));
                        }
                        if let Some(top) = self.top_level_volume(d.as_str()) {
                            if find_volume_in_ui_tree(top.children.as_slice(), device_path).is_some() {
                                return Some((i, true));
                            }
                        }
                    },
                    None => {},
                }
            }
            i = i + 1;
        }
        None
    }

    /// The volume that an action on a filesystem is for, and where it was taken from.
    pub fn filesystem_target(&self) -> (r: Option<(TargetSource, &UiVolume)>)
        ensures
            match r {
                Some((source, n)) => filesystem_target_of(*self) == Some((source, *n)),
                None => filesystem_target_of(*self) is None,
            },
    {
        match self.selected_volume_node() {
            Some(n) => {
                if n.volume.has_filesystem { Some((TargetSource::SelectedVolume, n)) } else { None }
            },
            None => match self.segment_volume(self.selected_segment) {
                Some(n) => {
                    if n.volume.has_filesystem { Some((TargetSource::SegmentVolume, n)) } else { None }
                },
                None => None,
            },
        }
    }

    /// The volume of the selected segment when it is an encrypted container, for changing its
    /// passphrase or its unlock options.
    pub fn crypto_container_target(&self) -> (r: Option<&UiVolume>)
        ensures
            match segment_node(*self, self.selected_segment as int) {
                Some(n) => if n.volume.kind == VolumeKind::CryptoContainer { r == Some(&n) } else { r is None },
                None => r is None,
            },
    {
        match self.segment_volume(self.selected_segment) {
            Some(n) => if n.volume.kind == VolumeKind::CryptoContainer { Some(n) } else { None },
            None => None,
        }
    }

    /// The device to mount for the selected segment: its volume's device path, else its label.
    pub fn mount_target(&self) -> (r: Option<String>)
        ensures
            match segment_node(*self, self.selected_segment as int) {
                Some(n) => r matches Some(d) && d@ == sidebar_name(n.volume),
                None => r is None,
            },
    {
        match self.segment_volume(self.selected_segment) {
            Some(n) => Some(match &n.volume.device_path {
                Some(d) => d.clone(),
                None => n.volume.label.clone(),
            }),
            None => None,
        }
    }

    /// The device to unmount for the selected segment (as [`Self::mount_target`]) and the
    /// volume's first mount point.
    pub fn unmount_target(&self) -> (r: Option<(String, Option<String>)>)
        ensures
            match segment_node(*self, self.selected_segment as int) {
                Some(n) => r matches Some((d, mp)) && d@ == sidebar_name(n.volume)
                    && opt_text(mp) == crate::volume_tree::first_mount_point(n.volume),
                None => r is None,
            },
    {
        match self.segment_volume(self.selected_segment) {
            Some(n) => {
                let d = match &n.volume.device_path {
                    Some(d) => d.clone(),
                    None => n.volume.label.clone(),
                };
                Some((d, crate::volume_tree::first_mount(&n.volume)))
            },
            None => None,
        }
    }

    /// What locking the encrypted volume of the selected segment takes.
    pub fn lock_plan(&self) -> (r: Option<LockPlan>)
        ensures
            match segment_node(*self, self.selected_segment as int) {
                Some(n) => r matches Some(plan)
                    && crate::volume_tree::texts(plan.unmount_first@) == crate::volume_tree::unmount_order(n)
                    && opt_text(plan.device) == opt_text(n.volume.device_path)
                    && plan.keep_selected@ == sidebar_name(n.volume),
                None => r is None,
            },
    {
        match self.segment_volume(self.selected_segment) {
            Some(n) => {
                let keep_selected = match &n.volume.device_path {
                    Some(d) => d.clone(),
                    None => n.volume.label.clone(),
                };
                Some(LockPlan {
                    unmount_first: crate::volume_tree::collect_mounted_descendants_leaf_first(n),
                    device: n.volume.device_path.clone(),
                    keep_selected,
                })
            },
            None => None,
        }
    }

    /// Deletes the partition of the selected segment, unless a deletion runs: the dialog is
    /// marked running and the plan is given when the segment shows a volume. An unlocked
    /// encrypted container is locked first, after unmounting what is mounted inside it.
    pub fn delete(&self, dialog: &mut crate::dialogs::DeletePartitionDialog) -> (r: Option<DeletePlan>)
        ensures
            old(dialog).running ==> r is None && *final(dialog) == *old(dialog),
            !old(dialog).running ==> {
                &&& *final(dialog) == (crate::dialogs::DeletePartitionDialog { running: true, ..*old(dialog) })
                &&& match segment_node(*self, self.selected_segment as int) {
                    Some(n) => r matches Some(plan)
                        && plan.lock_first == unlocked_crypto(n.volume)
                        && crate::volume_tree::texts(plan.unmount_first@) == if unlocked_crypto(n.volume) {
                            crate::volume_tree::unmount_order(n)
                        } else {
                            Seq::<Seq<char>>::empty()
                        }
                        && opt_text(plan.device) == opt_text(n.volume.device_path),
                    None => r is None,
                }
            },
    {
        if dialog.running {
            return None;
        }
        dialog.running = true;
        match self.segment_volume(self.selected_segment) {
            Some(n) => {
                let lock_first = n.volume.kind == VolumeKind::CryptoContainer && !n.volume.locked;
                let unmount_first = if lock_first {
                    crate::volume_tree::collect_mounted_descendants_leaf_first(n)
                } else {
                    Vec::new()
                };
                proof {
                    if !lock_first {
                        assert(crate::volume_tree::texts(unmount_first@) =~= Seq::<Seq<char>>::empty());
                    }
                }
                Some(DeletePlan { unmount_first, device: n.volume.device_path.clone(), lock_first })
            },
            None => None,
        }
    }
}

/// The table type the format dialog starts with: the segment's, or GPT when it is blank.
pub open spec fn format_table(t: Seq<char>) -> Seq<char> {
    if crate::text::trimmed(t).len() == 0 { "gpt"@ } else { t }
}

/// The filesystem type the format dialog looks up among the common types: none when blank.
pub open spec fn id_type_query(t: Seq<char>) -> Option<Seq<char>> {
    if crate::text::trimmed(t).len() == 0 { None } else { Some(t) }
}

fn clone_tools(tools: &Vec<FilesystemToolInfo>) -> (r: Vec<FilesystemToolInfo>)
    ensures
        r@ == tools@,
{
    let mut r: Vec<FilesystemToolInfo> = Vec::new();
    let mut i: usize = 0;
    while i < tools.len()
        invariant
            i <= tools@.len(),
            r@ == tools@.take(i as int),
        decreases tools.len() - i,
    {
        r.push(FilesystemToolInfo { fs_type: tools[i].fs_type.clone(), available: tools[i].available });
        assert(r@ =~= tools@.take(i + 1));
        i = i + 1;
    }
    assert(r@ =~= tools@);
    r
}

impl<S, D, P> VolumesControl<S, D, P> {
    /// The resize dialog for the partition of the selected segment, offered when the segment's
    /// volume is a partition and the sizes it can take (see
    /// [`crate::detail_actions::resize_range`]) are far enough apart; the new size starts at
    /// the current one, held within them.
    pub fn resize_dialog(&self) -> (r: Option<crate::partition_dialogs::ResizePartitionDialog>)
        ensures
            match segment_node(*self, self.selected_segment as int) {
                Some(n) => {
                    let range = crate::detail_actions::resize_range(n.volume.size,
                        crate::detail_actions::free_after(self.segments@, self.selected_segment), n.volume.used_bytes);
                    if n.volume.kind == VolumeKind::Partition && range is Some {
                        let (min, max) = range->0;
                        r matches Some(d)
                            && opt_text(d.device_path) == opt_text(n.volume.device_path)
                            && d.step == crate::dialogs::ResizePartitionStep::Sizing
                            && d.min_size_bytes == min
                            && d.max_size_bytes == max
                            && d.new_size_bytes == (if n.volume.size < min { min } else if n.volume.size > max { max } else { n.volume.size })
                            && !d.running
                    } else {
                        r is None
                    }
                },
                None => r is None,
            },
    {
        let n = match self.segment_volume(self.selected_segment) {
            Some(n) => n,
            None => { return None; },
        };
        if n.volume.kind != VolumeKind::Partition {
            return None;
        }
        let right_free = crate::detail_actions::right_free_bytes(&self.segments, self.selected_segment);
        let (min, max) = match crate::detail_actions::resize_bounds(n.volume.size, right_free, n.volume.used_bytes) {
            Some(b) => b,
            None => { return None; },
        };
        let size = n.volume.size;
        let new_size = if size < min { min } else if size > max { max } else { size };
        Some(crate::partition_dialogs::ResizePartitionDialog {
            device_path: n.volume.device_path.clone(),
            step: crate::dialogs::ResizePartitionStep::Sizing,
            min_size_bytes: min,
            max_size_bytes: max,
            new_size_bytes: new_size,
            running: false,
        })
    }

    /// The format dialog for the volume of the selected segment: named as the volume, over the
    /// segment's extent, in the segment's table type (GPT when blank), with the common
    /// partition type of the volume's filesystem type chosen (the first when there is none).
    pub fn format_dialog(&self, catalog: &crate::partition_dialogs::PartitionTypeCatalog) -> (r: Option<crate::partition_dialogs::FormatPartitionDialog>)
        ensures
            match segment_node(*self, self.selected_segment as int) {
                Some(n) => {
                    let seg = self.segments@[self.selected_segment as int];
                    let table = format_table(seg.table_type@);
                    r matches Some(d)
                        && opt_text(d.device_path) == opt_text(n.volume.device_path)
                        && d.info.name@ == n.volume.label@
                        && d.info.size == seg.segment.size
                        && d.info.max_size == seg.segment.size
                        && d.info.offset == seg.segment.offset
                        && !d.info.erase
                        && d.info.table_type@ == table
                        && d.info.selected_partition_type_index == match (id_type_query(n.volume.id_type@), crate::partition_dialogs::catalog_list(*catalog, table)) {
                            (Some(id), Some(l)) => match crate::partition_dialogs::first_type_match(l, id) {
                                Some(i) => i as usize,
                                None => 0usize,
                            },
                            _ => 0usize,
                        }
                        && d.info.size_text@.len() == 0
                        && d.info.size_unit_index == 0
                        && !d.info.password_protected
                        && d.info.password@.len() == 0
                        && d.info.confirmed_password@.len() == 0
                        && d.info.filesystem_type@.len() == 0
                        && d.step == crate::dialogs::FormatPartitionStep::Basics
                        && !d.running
                        && d.filesystem_tools@ == self.filesystem_tools@
                },
                None => r is None,
            },
    {
        let n = match self.segment_volume(self.selected_segment) {
            Some(n) => n,
            None => { return None; },
        };
        let seg = &self.segments[self.selected_segment];
        let table_type = if crate::text::trim(seg.table_type.as_str()).unicode_len() == 0 {
            String::from_str("gpt")
        } else {
            seg.table_type.clone()
        };
        let id_type = if crate::text::trim(n.volume.id_type.as_str()).unicode_len() == 0 {
            None
        } else {
            Some(n.volume.id_type.as_str())
        };
        let index = crate::partition_dialogs::common_partition_type_index_for(catalog, table_type.as_str(), id_type);
        let info = crate::partition_dialogs::CreatePartitionInfo {
            name: n.volume.label.clone(),
            size: seg.segment.size,
            max_size: seg.segment.size,
            offset: seg.segment.offset,
            erase: false,
            selected_partition_type_index: index,
            table_type,
            size_text: String::new(),
            size_unit_index: 0,
            password_protected: false,
            password: String::new(),
            confirmed_password: String::new(),
            filesystem_type: String::new(),
        };
        Some(crate::partition_dialogs::FormatPartitionDialog {
            device_path: n.volume.device_path.clone(),
            info,
            step: crate::dialogs::FormatPartitionStep::Basics,
            running: false,
            filesystem_tools: clone_tools(&self.filesystem_tools),
        })
    }
}

impl<S, D, P> VolumesControl<S, D, P> {
    /// The volume of the selected segment, to make an image of (or, with `restore`, to restore
    /// one to); without one, the message asking to select a partition.
    pub fn image_partition(&self, restore: bool) -> (r: Result<&UiVolume, &'static str>)
        ensures
            match segment_node(*self, self.selected_segment as int) {
                Some(n) => r == Ok::<&UiVolume, &str>(&n),
                None => r matches Err(m) && m@ == if restore {
                    "Select a partition to restore an image to."@
                } else {
                    "Select a partition to create an image from."@
                },
            },
    {
        match self.segment_volume(self.selected_segment) {
            Some(n) => Ok(n),
            None => Err(if restore {
                "Select a partition to restore an image to."
            } else {
                "Select a partition to create an image from."
            }),
        }
    }
}

} // verus!
