//! The actions offered below the details of a partition or of a volume inside one, and the
//! sizes a partition can be resized to.
use vstd::prelude::*;
use crate::partition_dialogs::MIN_RESIZE_RANGE;
use crate::segments::DiskSegmentKind;
use crate::volume_tree::VolumeKind;
use crate::volumes_control::DriveSegment;

verus! {

/// An action button of the details view.
#[derive(Debug, Clone, Copy, PartialEq, Eq, Structural)]
pub enum DetailAction {
    Unlock,
    Lock,
    ChangePassphrase,
    EditEncryptionOptions,
    Mount,
    Unmount,
    Format,
    Edit,
    Resize,
    Label,
    CheckFilesystem,
    Repair,
    TakeOwnership,
    EditMountOptions,
    CreateImage,
    RestoreImage,
    Delete,
}

/// What the actions of a partition depend on.
#[derive(Debug, Clone, Copy, PartialEq, Eq, Structural)]
pub struct PartitionFacts {
    pub has_filesystem: bool,
    pub mounted: bool,
    pub can_mount: bool,
    pub size: u64,
    /// The bytes in use, when known.
    pub used: Option<u64>,
}

pub open spec fn sat_add(a: u64, b: u64) -> u64 {
    if a + b > u64::MAX { u64::MAX } else { (a + b) as u64 }
}

/// The smallest and largest sizes a partition of `size` bytes, with `used` bytes in use and
/// `right_free` bytes free right after it, can be resized to; none when they are less than
/// `MIN_RESIZE_RANGE` apart.
pub open spec fn resize_range(size: u64, right_free: u64, used: Option<u64>) -> Option<(u64, u64)> {
    let max = sat_add(size, right_free);
    let in_use = match used { Some(u) => u, None => 0 };
    let min = if in_use < max { in_use } else { max };
    if max - min < MIN_RESIZE_RANGE { None } else { Some((min, max)) }
}

/// See [`resize_range`].
pub fn resize_bounds(size: u64, right_free: u64, used: Option<u64>) -> (r: Option<(u64, u64)>)
    ensures
        r == resize_range(size, right_free, used),
{
    let max = size.saturating_add(right_free);
    let in_use = match used {
        Some(u) => u,
        None => 0,
    };
    let min = if in_use < max { in_use } else { max };
    if max - min < MIN_RESIZE_RANGE {
        None
    } else {
        Some((min, max))
    }
}

/// The bytes free right after segment `selected`: the size of the next segment when it is free
/// space, else none.
pub open spec fn free_after(segments: Seq<DriveSegment>, selected: usize) -> u64 {
    let next = selected + 1;
    if next < segments.len() && segments[next].segment.kind == DiskSegmentKind::FreeSpace {
        segments[next].segment.size
    } else {
        0
    }
}

/// See [`free_after`].
pub fn right_free_bytes(segments: &Vec<DriveSegment>, selected: usize) -> (r: u64)
    ensures
        r == free_after(segments@, selected),
{
    let next = selected.saturating_add(1);
    if next < segments.len() && selected < next && segments[next].segment.kind == DiskSegmentKind::FreeSpace {
        segments[next].segment.size
    } else {
        0
    }
}

pub open spec fn when(c: bool, a: Seq<DetailAction>) -> Seq<DetailAction> {
    if c { a } else { Seq::empty() }
}

/// The actions of a partition, in order. `container` tells, for an encrypted container,
/// whether it is locked: a locked one can be unlocked; an unlocked one locked and given a new
/// passphrase; either has its unlock options edited. A filesystem is mounted or unmounted,
/// checked and given to the user when it is mounted and mountable, repaired and given mount
/// options. Resizing is offered when the sizes it allows are far enough apart.
pub open spec fn partition_action_list(p: PartitionFacts, container: Option<bool>, right_free: u64) -> Seq<DetailAction> {
    let crypto = crypto_action_list(container);
    let mounted_fs = p.can_mount && p.mounted;
    crypto
        + when(p.has_filesystem, seq![if p.mounted { DetailAction::Unmount } else { DetailAction::Mount }])
        + seq![DetailAction::Format, DetailAction::Edit]
        + when(resize_range(p.size, right_free, p.used) is Some, seq![DetailAction::Resize])
        + seq![DetailAction::Label]
        + when(mounted_fs, seq![DetailAction::CheckFilesystem])
        + when(p.has_filesystem, seq![DetailAction::Repair])
        + when(mounted_fs, seq![DetailAction::TakeOwnership])
        + when(p.has_filesystem, seq![DetailAction::EditMountOptions])
        + seq![DetailAction::CreateImage, DetailAction::RestoreImage, DetailAction::Delete]
}

fn push_when(v: &mut Vec<DetailAction>, c: bool, a: DetailAction)
    ensures
        final(v)@ == old(v)@ + when(c, seq![a]),
{
    if c {
        v.push(a);
    }
    assert(final(v)@ =~= old(v)@ + when(c, seq![a]));
}

fn push_all(v: &mut Vec<DetailAction>, a: &[DetailAction])
    ensures
        final(v)@ == old(v)@ + a@,
{
    let mut i: usize = 0;
    while i < a.len()
        invariant
            i <= a@.len(),
            v@ == old(v)@ + a@.take(i as int),
        decreases a.len() - i,
    {
        v.push(a[i]);
        assert(a@.take(i + 1) =~= a@.take(i as int).push(a@[i as int]));
        assert(v@ =~= old(v)@ + a@.take(i + 1));
        i = i + 1;
    }
    assert(a@.take(a@.len() as int) =~= a@);
}

pub open spec fn crypto_action_list(container: Option<bool>) -> Seq<DetailAction> {
    match container {
        Some(locked) => if locked {
            seq![DetailAction::Unlock, DetailAction::EditEncryptionOptions]
        } else {
            seq![DetailAction::Lock, DetailAction::ChangePassphrase, DetailAction::EditEncryptionOptions]
        },
        None => Seq::empty(),
    }
}

fn crypto_actions(container: Option<bool>) -> (r: Vec<DetailAction>)
    ensures
        r@ == crypto_action_list(container),
{
    match container {
        Some(locked) => if locked {
            let r = vec![DetailAction::Unlock, DetailAction::EditEncryptionOptions];
            assert(r@ =~= crypto_action_list(container));
            r
        } else {
            let r = vec![DetailAction::Lock, DetailAction::ChangePassphrase, DetailAction::EditEncryptionOptions];
            assert(r@ =~= crypto_action_list(container));
            r
        },
        None => {
            let r: Vec<DetailAction> = Vec::new();
            assert(r@ =~= crypto_action_list(container));
            r
        },
    }
}

/// See [`partition_action_list`].
pub fn partition_actions(p: &PartitionFacts, container: Option<bool>, right_free: u64) -> (r: Vec<DetailAction>)
    ensures
        r@ == partition_action_list(*p, container, right_free),
{
    let mut v = crypto_actions(container);
    let mounted_fs = p.can_mount && p.mounted;
    push_when(&mut v, p.has_filesystem, if p.mounted { DetailAction::Unmount } else { DetailAction::Mount });
    push_all(&mut v, &[DetailAction::Format, DetailAction::Edit]);
    push_when(&mut v, resize_bounds(p.size, right_free, p.used).is_some(), DetailAction::Resize);
    push_all(&mut v, &[DetailAction::Label]);
    push_when(&mut v, mounted_fs, DetailAction::CheckFilesystem);
    push_when(&mut v, p.has_filesystem, DetailAction::Repair);
    push_when(&mut v, mounted_fs, DetailAction::TakeOwnership);
    push_when(&mut v, p.has_filesystem, DetailAction::EditMountOptions);
    push_all(&mut v, &[DetailAction::CreateImage, DetailAction::RestoreImage, DetailAction::Delete]);
    v
}

/// The actions of a volume inside a partition, in order: a filesystem is mounted or
/// unmounted; a plain filesystem is formatted and labelled; a mounted volume is checked and
/// given to the user; a filesystem is repaired and given mount options; images can always be
/// made and restored.
pub open spec fn volume_action_list(kind: VolumeKind, has_filesystem: bool, mounted: bool) -> Seq<DetailAction> {
    let plain = kind == VolumeKind::Filesystem && has_filesystem;
    when(has_filesystem, seq![if mounted { DetailAction::Unmount } else { DetailAction::Mount }])
        + when(plain, seq![DetailAction::Format])
        + when(plain, seq![DetailAction::Label])
        + when(mounted, seq![DetailAction::CheckFilesystem])
        + when(has_filesystem, seq![DetailAction::Repair])
        + when(mounted, seq![DetailAction::TakeOwnership])
        + when(has_filesystem, seq![DetailAction::EditMountOptions])
        + seq![DetailAction::CreateImage, DetailAction::RestoreImage]
}

/// See [`volume_action_list`].
pub fn volume_actions(kind: VolumeKind, has_filesystem: bool, mounted: bool) -> (r: Vec<DetailAction>)
    ensures
        r@ == volume_action_list(kind, has_filesystem, mounted),
{
    let plain = kind == VolumeKind::Filesystem && has_filesystem;
    let mut v: Vec<DetailAction> = Vec::new();
    push_when(&mut v, has_filesystem, if mounted { DetailAction::Unmount } else { DetailAction::Mount });
    push_when(&mut v, plain, DetailAction::Format);
    push_when(&mut v, plain, DetailAction::Label);
    push_when(&mut v, mounted, DetailAction::CheckFilesystem);
    push_when(&mut v, has_filesystem, DetailAction::Repair);
    push_when(&mut v, mounted, DetailAction::TakeOwnership);
    push_when(&mut v, has_filesystem, DetailAction::EditMountOptions);
    push_all(&mut v, &[DetailAction::CreateImage, DetailAction::RestoreImage]);
    v
}

} // verus!
