//! Rebuilding the drive list after a reload: which dialog closes, which drive is shown, and
//! what the shown drive's Btrfs page loads.
use vstd::prelude::*;
use crate::btrfs_state::{opt_text, BtrfsState};
use crate::partition_dialogs::FilesystemToolInfo;
use crate::text::str_equals;
use crate::volumes_control::{btrfs_page_for, segment_node, segment_holds, layout_fits, shows_layout, UiDrive, VolumesControl};
use crate::volume_tree::{find_in, find_volume_in_ui_tree};
use crate::usage::UsageTabState;
use crate::views::DetailTab;

verus! {

/// The dialogs of the window.
#[derive(Debug, Clone, Copy, PartialEq, Eq, Structural)]
pub enum DialogKind {
    DeletePartition,
    AddPartition,
    FormatPartition,
    EditPartition,
    ResizePartition,
    EditFilesystemLabel,
    EditMountOptions,
    ConfirmAction,
    TakeOwnership,
    ChangePassphrase,
    EditEncryptionOptions,
    UnlockEncrypted,
    FormatDisk,
    SmartData,
    NewDiskImage,
    AttachDiskImage,
    ImageOperation,
    UnmountBusy,
    LogicalActionForm,
    LogicalDevicePicker,
    LogicalActionConfirmation,
    Info,
    ConfirmDeleteRemote,
    BtrfsCreateSubvolume,
    BtrfsCreateSnapshot,
}

/// The dialogs whose work ends in a reload of the drives (unlock, format, create, delete, and
/// the edits of partitions, filesystems and encryption).
pub open spec fn ends_in_reload(kind: DialogKind) -> bool {
    match kind {
        DialogKind::UnlockEncrypted | DialogKind::FormatDisk | DialogKind::AddPartition
        | DialogKind::FormatPartition | DialogKind::EditPartition | DialogKind::ResizePartition
        | DialogKind::EditFilesystemLabel | DialogKind::EditMountOptions | DialogKind::ConfirmAction
        | DialogKind::TakeOwnership | DialogKind::ChangePassphrase | DialogKind::EditEncryptionOptions
        | DialogKind::DeletePartition | DialogKind::BtrfsCreateSubvolume
        | DialogKind::BtrfsCreateSnapshot => true,
        _ => false,
    }
}

/// A reload closes the open dialog when its work is what ended in the reload: a running
/// dialog of that kind.
pub fn closes_on_reload(kind: DialogKind, running: bool) -> (r: bool)
    ensures
        r == (running && ends_in_reload(kind)),
        // A dialog that is not running stays open.
        !running ==> !r,
        // A running dialog whose work ends in a reload of the drives closes.
        running && (kind is UnlockEncrypted || kind is FormatDisk || kind is AddPartition
            || kind is FormatPartition || kind is EditPartition || kind is ResizePartition
            || kind is DeletePartition || kind is EditFilesystemLabel || kind is EditMountOptions
            || kind is ConfirmAction || kind is TakeOwnership || kind is ChangePassphrase
            || kind is EditEncryptionOptions || kind is BtrfsCreateSubvolume
            || kind is BtrfsCreateSnapshot) ==> r,
        // Dialogs whose work does not reload the drives stay open.
        (kind is SmartData || kind is NewDiskImage || kind is AttachDiskImage || kind is ImageOperation
            || kind is UnmountBusy || kind is LogicalActionForm || kind is LogicalDevicePicker
            || kind is LogicalActionConfirmation || kind is Info || kind is ConfirmDeleteRemote) ==> !r,
{
    running && match kind {
        DialogKind::UnlockEncrypted | DialogKind::FormatDisk | DialogKind::AddPartition
        | DialogKind::FormatPartition | DialogKind::EditPartition | DialogKind::ResizePartition
        | DialogKind::EditFilesystemLabel | DialogKind::EditMountOptions | DialogKind::ConfirmAction
        | DialogKind::TakeOwnership | DialogKind::ChangePassphrase | DialogKind::EditEncryptionOptions
        | DialogKind::DeletePartition | DialogKind::BtrfsCreateSubvolume
        | DialogKind::BtrfsCreateSnapshot => true,
        _ => false,
    }
}

/// Law: a reload closes exactly the running dialogs whose work ends in a reload of the
/// drives (unlocking, formatting a disk, creating, formatting, editing, resizing or deleting a
/// partition, editing a label or mount options, a confirmed action, taking ownership, changing
/// a passphrase or encryption options, creating a Btrfs subvolume or snapshot); every other
/// dialog, and any dialog that is not running, stays open.
pub proof fn lemma_reload_closes_finished_work(kind: DialogKind, running: bool)
    ensures
        (running && ends_in_reload(kind)) <==> (running && (kind is UnlockEncrypted || kind is FormatDisk
            || kind is AddPartition || kind is FormatPartition || kind is EditPartition
            || kind is ResizePartition || kind is DeletePartition || kind is EditFilesystemLabel
            || kind is EditMountOptions || kind is ConfirmAction || kind is TakeOwnership
            || kind is ChangePassphrase || kind is EditEncryptionOptions
            || kind is BtrfsCreateSubvolume || kind is BtrfsCreateSnapshot)),
{
}

/// The drive to show after a reload: the one asked for, else the one shown before, else the
/// first drive.
pub open spec fn shown_drive(requested: Option<Seq<char>>, active: Option<Seq<char>>, devices: Seq<Seq<char>>) -> Option<Seq<char>> {
    match requested {
        Some(r) => Some(r),
        None => match active {
            Some(a) => Some(a),
            None => if devices.len() > 0 { Some(devices[0]) } else { None },
        },
    }
}

pub open spec fn texts(v: Seq<String>) -> Seq<Seq<char>> {
    v.map_values(|s: String| s@)
}

/// See [`shown_drive`]; `devices` are the device paths of the drives, in order.
pub fn nav_selection(requested: Option<String>, active: Option<String>, devices: &Vec<String>) -> (r: Option<String>)
    ensures
        opt_text(r) == shown_drive(opt_text(requested), opt_text(active), texts(devices@)),
        // The drive asked for wins; then the one shown before; then the first drive.
        requested is Some ==> opt_text(r) == opt_text(requested),
        requested is None && active is Some ==> opt_text(r) == opt_text(active),
        requested is None && active is None && devices@.len() > 0 ==> opt_text(r) == Some(devices@[0]@),
        requested is None && active is None && devices@.len() == 0 ==> r is None,
{
    match requested {
        Some(r) => Some(r),
        None => match active {
            Some(a) => Some(a),
            None => if devices.len() > 0 { Some(devices[0].clone()) } else { None },
        },
    }
}

/// The drive that ends up active when each drive with the selected device path is activated in
/// turn: the last of them.
pub fn activated_drive(devices: &Vec<String>, selected: &Option<String>) -> (r: Option<usize>)
    ensures
        match r {
            Some(i) => {
                &&& i < devices@.len()
                &&& opt_text(*selected) == Some(devices@[i as int]@)
                &&& forall|j: int| i < j < devices@.len() ==> opt_text(*selected) != Some(#[trigger] devices@[j]@)
            },
            None => forall|j: int| 0 <= j < devices@.len() ==> opt_text(*selected) != Some(#[trigger] devices@[j]@),
        },
{
    let s = match selected {
        Some(s) => s,
        None => { return None; },
    };
    let mut k: usize = devices.len();
    while k > 0
        invariant
            k <= devices@.len(),
            *selected == Some(*s),
            forall|j: int| k <= j < devices@.len() ==> opt_text(*selected) != Some(#[trigger] devices@[j]@),
        decreases k,
    {
        if str_equals(devices[k - 1].as_str(), s.as_str()) {
            return Some(k - 1);
        }
        k = k - 1;
    }
    None
}

/// A load that the Btrfs page asks for.
#[derive(Debug, Clone, PartialEq, Eq)]
pub enum BtrfsLoad {
    Subvolumes { block_path: String, mount_point: String },
    Usage { block_path: String, mount_point: String },
}

impl<S, D> BtrfsState<S, D> {
    /// What the page of a mounted filesystem with a known device still needs: the subvolumes
    /// unless loaded or loading, then the usage unless loaded or loading.
    pub fn pending_loads(&self) -> (r: Vec<BtrfsLoad>)
        ensures
            match (self.mount_point, self.block_path) {
                (Some(m), Some(b)) => {
                    let subs = self.subvolumes is None && !self.loading;
                    let usage = self.used_space is None && !self.loading_usage;
                    &&& r@.len() == (if subs { 1int } else { 0 }) + (if usage { 1int } else { 0 })
                    &&& subs ==> (r@[0] matches BtrfsLoad::Subvolumes { block_path, mount_point }
                        && block_path@ == b@ && mount_point@ == m@)
                    &&& usage ==> (r@[r@.len() - 1] matches BtrfsLoad::Usage { block_path, mount_point }
                        && block_path@ == b@ && mount_point@ == m@)
                },
                _ => r@.len() == 0,
            },
    {
        let mut r: Vec<BtrfsLoad> = Vec::new();
        match (&self.mount_point, &self.block_path) {
            (Some(m), Some(b)) => {
                if self.subvolumes.is_none() && !self.loading {
                    r.push(BtrfsLoad::Subvolumes { block_path: b.clone(), mount_point: m.clone() });
                }
                if self.used_space.is_none() && !self.loading_usage {
                    r.push(BtrfsLoad::Usage { block_path: b.clone(), mount_point: m.clone() });
                }
            },
            _ => {},
        }
        r
    }
}

impl<S, D, P: Copy> VolumesControl<S, D, P> {
    /// The view of a drive in the rebuilt list: as [`VolumesControl::new`], with the Btrfs
    /// page following the volume of the first segment.
    pub fn for_nav(
        drive: UiDrive,
        show_reserved: bool,
        filesystem_tools: Vec<FilesystemToolInfo>,
        all_categories: Vec<u32>,
        preset: P,
    ) -> (c: Self)
        requires
            layout_fits(drive.size, drive.partition_table_type, drive.gpt_usable_range),
        ensures
            shows_layout(c.segments@, drive.size, drive.partition_table_type, drive.gpt_usable_range, drive.partitions@, drive.volumes@, show_reserved),
            c.device == drive.device,
            c.size == drive.size,
            c.partition_table_type == drive.partition_table_type,
            c.gpt_usable_range == drive.gpt_usable_range,
            c.partitions == drive.partitions,
            c.volumes == drive.volumes,
            c.show_reserved == show_reserved,
            c.selected_segment == 0,
            c.selected_volume is None,
            c.detail_tab == crate::views::DetailTab::VolumeInfo,
            c.filesystem_tools == filesystem_tools,
            c.usage_state.is_fresh(all_categories, preset),
            match segment_node(c, 0) {
                Some(node) => btrfs_page_for(c.volumes@, node, c.btrfs_state),
                None => c.btrfs_state is None,
            },
    {
        let mut c = VolumesControl::new(drive, show_reserved, filesystem_tools, all_categories, preset);
        let _ = c.follow_btrfs(0, "");
        c
    }
}

/// The first drive whose volumes hold the volume `path`.
pub fn drive_holding(drives: &Vec<UiDrive>, path: &str) -> (r: Option<usize>)
    ensures
        match r {
            Some(i) => i < drives@.len() && find_in(drives@[i as int].volumes@, path@) is Some
                && forall|j: int| 0 <= j < i ==> find_in(#[trigger] drives@[j].volumes@, path@) is None,
            None => forall|j: int| 0 <= j < drives@.len() ==> find_in(#[trigger] drives@[j].volumes@, path@) is None,
        },
{
    let mut i: usize = 0;
    while i < drives.len()
        invariant
            i <= drives@.len(),
            forall|j: int| 0 <= j < i ==> find_in(#[trigger] drives@[j].volumes@, path@) is None,
        decreases drives.len() - i,
    {
        if find_volume_in_ui_tree(drives[i].volumes.as_slice(), path).is_some() {
            return Some(i);
        }
        i = i + 1;
    }
    None
}

/// Segment `i` is the first that holds the volume `path`, inside its own volume when
/// `nested`.
pub open spec fn first_holding<S, D, P>(c: VolumesControl<S, D, P>, path: Seq<char>, i: int, nested: bool) -> bool {
    &&& 0 <= i < c.segments@.len()
    &&& segment_holds(c, i, path) == Some(nested)
    &&& forall|j: int| 0 <= j < i ==> segment_holds(c, j, path) is None
}

pub open spec fn no_segment_holds<S, D, P>(c: VolumesControl<S, D, P>, path: Seq<char>) -> bool {
    forall|j: int| 0 <= j < c.segments@.len() ==> segment_holds(c, j, path) is None
}

impl<S, D, P> VolumesControl<S, D, P> {
    /// Selects the volume `device_path` as the sidebar asks: the first segment that holds it,
    /// and the volume itself when it is inside the segment's volume. Nothing changes when the
    /// drive has no such volume or no segment holds it.
    pub fn select_from_sidebar(&mut self, device_path: &str) -> (r: Option<(usize, bool)>)
        ensures
            match r {
                Some((i, nested)) => {
                    &&& find_in(old(self).volumes@, device_path@) is Some
                    &&& first_holding(*old(self), device_path@, i as int, nested)
                    &&& opt_text(final(self).selected_volume) == if nested { Some(device_path@) } else { None }
                    &&& *final(self) == (VolumesControl {
                        selected_segment: i,
                        selected_volume: final(self).selected_volume,
                        ..*old(self)
                    })
                },
                None => {
                    &&& find_in(old(self).volumes@, device_path@) is None || no_segment_holds(*old(self), device_path@)
                    &&& *final(self) == *old(self)
                },
            },
    {
        if find_volume_in_ui_tree(self.volumes.as_slice(), device_path).is_none() {
            return None;
        }
        match self.find_segment_for_volume(device_path) {
            Some((i, nested)) => {
                self.selected_segment = i;
                self.selected_volume = if nested { Some(String::from_str(device_path)) } else { None };
                Some((i, nested))
            },
            None => None,
        }
    }
}

impl<S, D, P: Copy> VolumesControl<S, D, P> {
    /// After a reload that keeps the volume `device_path` selected: the first segment that
    /// holds it is selected (and the volume itself when inside the segment's volume), and the
    /// detail tab, the Btrfs page and the usage tab saved before the reload come back. When
    /// the Btrfs tab comes back with a mounted filesystem, its block device and mount point are
    /// given back, to load its subvolumes and usage again. Nothing changes when no segment
    /// holds the volume.
    pub fn reselect_after_reload(
        &mut self,
        device_path: &str,
        saved: Option<(DetailTab, Option<BtrfsState<S, D>>, UsageTabState<P>)>,
    ) -> (refresh: Option<(String, String)>)
        ensures
            match old(self).find_segment_spec(device_path@) {
                Some((i, nested)) => {
                    &&& opt_text(final(self).selected_volume) == if nested { Some(device_path@) } else { None }
                    &&& final(self).selected_segment == i
                    &&& match saved {
                        Some((tab, page, usage)) => {
                            &&& *final(self) == (VolumesControl {
                                selected_segment: i,
                                selected_volume: final(self).selected_volume,
                                detail_tab: tab,
                                btrfs_state: page,
                                usage_state: usage,
                                ..*old(self)
                            })
                            &&& match (tab, page) {
                                (DetailTab::BtrfsManagement, Some(b)) => match (b.mount_point, b.block_path) {
                                    (Some(m), Some(d)) => refresh matches Some((block, mount)) && block@ == d@ && mount@ == m@,
                                    _ => refresh is None,
                                },
                                _ => refresh is None,
                            }
                        },
                        None => {
                            &&& refresh is None
                            &&& *final(self) == (VolumesControl {
                                selected_segment: i,
                                selected_volume: final(self).selected_volume,
                                ..*old(self)
                            })
                        },
                    }
                },
                None => refresh is None && *final(self) == *old(self),
            },
    {
        let (i, nested) = match self.find_segment_for_volume(device_path) {
            Some(found) => found,
            None => { return None; },
        };
        self.selected_volume = if nested { Some(String::from_str(device_path)) } else { None };
        self.selected_segment = i;
        match saved {
            Some((tab, page, usage)) => {
                let refresh = match (tab, &page) {
                    (DetailTab::BtrfsManagement, Some(b)) => match (&b.mount_point, &b.block_path) {
                        (Some(m), Some(d)) => Some((d.clone(), m.clone())),
                        _ => None,
                    },
                    _ => None,
                };
                self.detail_tab = tab;
                self.btrfs_state = page;
                self.usage_state = usage;
                refresh
            },
            None => None,
        }
    }
}

} // verus!
