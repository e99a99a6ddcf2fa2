//! What an operation chosen on a logical entity opens: a device picker, an input form, or
//! nothing; and the reference a Btrfs subvolume action carries.
use vstd::prelude::*;
use crate::logical::{LogicalDevicePickerAction, LogicalEntity, LogicalEntityId, LogicalEntityKind};
use crate::logical_action::{BtrfsSubvolumeRef, LogicalActionForm, LogicalOperation, SubvolumeV};
use crate::text::str_equals;

verus! {

/// The device picker that an operation on `entity` opens: adding a member to a volume
/// group, a RAID array or a Btrfs filesystem.
pub open spec fn picker_spec(entity: LogicalEntity, op: LogicalOperation) -> Option<LogicalDevicePickerAction> {
    match (entity.kind, op) {
        (LogicalEntityKind::LvmVolumeGroup, LogicalOperation::AddMember) =>
            Some(LogicalDevicePickerAction::LvmPhysicalVolume { volume_group: entity.id }),
        (LogicalEntityKind::MdRaidArray, LogicalOperation::AddMember) =>
            Some(LogicalDevicePickerAction::MdRaidMember { array: entity.id }),
        (LogicalEntityKind::BtrfsFilesystem, LogicalOperation::AddMember) =>
            Some(LogicalDevicePickerAction::BtrfsDevice { filesystem: entity.id }),
        _ => None,
    }
}

/// The device picker that `op` on `entity` opens, if it opens one.
pub fn picker_for_operation(entity: &LogicalEntity, op: LogicalOperation) -> (r: Option<LogicalDevicePickerAction>)
    ensures
        r == picker_spec(*entity, op),
{
    match (entity.kind, op) {
        (LogicalEntityKind::LvmVolumeGroup, LogicalOperation::AddMember) =>
            Some(LogicalDevicePickerAction::LvmPhysicalVolume { volume_group: entity.id.clone() }),
        (LogicalEntityKind::MdRaidArray, LogicalOperation::AddMember) =>
            Some(LogicalDevicePickerAction::MdRaidMember { array: entity.id.clone() }),
        (LogicalEntityKind::BtrfsFilesystem, LogicalOperation::AddMember) =>
            Some(LogicalDevicePickerAction::BtrfsDevice { filesystem: entity.id.clone() }),
        _ => None,
    }
}

/// The form that `op` on `entity` opens: empty fields, but for a Btrfs label, which starts
/// from the label the filesystem is known to have (`known_label`), or empty.
pub open spec fn form_spec(entity: LogicalEntity, known_label: Option<Seq<char>>, op: LogicalOperation, f: Option<LogicalActionForm>) -> bool {
    match (entity.kind, op) {
        (LogicalEntityKind::LvmVolumeGroup, LogicalOperation::Create) =>
            f matches Some(LogicalActionForm::CreateLvmLogicalVolume { volume_group, name, size_bytes })
                && volume_group == entity.id && name@.len() == 0 && size_bytes@.len() == 0,
        (LogicalEntityKind::LvmLogicalVolume, LogicalOperation::Resize) =>
            f matches Some(LogicalActionForm::ResizeLvmLogicalVolume { logical_volume, size_bytes })
                && logical_volume == entity.id && size_bytes@.len() == 0,
        (LogicalEntityKind::BtrfsFilesystem, LogicalOperation::Resize) =>
            f matches Some(LogicalActionForm::ResizeBtrfsFilesystem { filesystem, size_bytes })
                && filesystem == entity.id && size_bytes@.len() == 0,
        (LogicalEntityKind::BtrfsFilesystem, LogicalOperation::SetLabel) =>
            f matches Some(LogicalActionForm::SetBtrfsLabel { filesystem, label })
                && filesystem == entity.id
                && label@ == match known_label {
                    Some(l) => l,
                    None => Seq::empty(),
                },
        (LogicalEntityKind::BtrfsFilesystem, LogicalOperation::Create) =>
            f matches Some(LogicalActionForm::CreateBtrfsSubvolume { filesystem, name })
                && filesystem == entity.id && name@.len() == 0,
        _ => f is None,
    }
}

/// The input form that `op` on `entity` opens, if it opens one. `known_label` is the label
/// the entity is known to have, where it is a Btrfs filesystem whose label is known.
pub fn form_for_operation(entity: &LogicalEntity, known_label: Option<&str>, op: LogicalOperation) -> (r: Option<LogicalActionForm>)
    ensures
        form_spec(*entity, match known_label {
            Some(l) => Some(l@),
            None => None,
        }, op, r),
{
    match (entity.kind, op) {
        (LogicalEntityKind::LvmVolumeGroup, LogicalOperation::Create) =>
            Some(LogicalActionForm::CreateLvmLogicalVolume {
                volume_group: entity.id.clone(),
                name: String::new(),
                size_bytes: String::new(),
            }),
        (LogicalEntityKind::LvmLogicalVolume, LogicalOperation::Resize) =>
            Some(LogicalActionForm::ResizeLvmLogicalVolume {
                logical_volume: entity.id.clone(),
                size_bytes: String::new(),
            }),
        (LogicalEntityKind::BtrfsFilesystem, LogicalOperation::Resize) =>
            Some(LogicalActionForm::ResizeBtrfsFilesystem {
                filesystem: entity.id.clone(),
                size_bytes: String::new(),
            }),
        (LogicalEntityKind::BtrfsFilesystem, LogicalOperation::SetLabel) => {
            let label = match known_label {
                Some(l) => l.to_string(),
                None => String::new(),
            };
            Some(LogicalActionForm::SetBtrfsLabel { filesystem: entity.id.clone(), label })
        },
        (LogicalEntityKind::BtrfsFilesystem, LogicalOperation::Create) =>
            Some(LogicalActionForm::CreateBtrfsSubvolume {
                filesystem: entity.id.clone(),
                name: String::new(),
            }),
        _ => None,
    }
}

// ---------------------------------------------------------------------------
// Btrfs subvolume references.

/// A conflict found in the Btrfs subvolume topology.
#[derive(Debug, Clone, PartialEq, Eq)]
pub enum TopologyDiagnostic {
    /// The row `row` names a parent, `parent_id`, that no row shows.
    MissingParent { row: String, parent_id: u64 },
    /// Any other conflict.
    Conflict,
}

/// Where a subvolume stands in the tree of its filesystem.
#[derive(Debug, Clone, PartialEq, Eq)]
pub enum SubvolumeHierarchy {
    Attached,
    Unparented { diagnostics: Vec<TopologyDiagnostic> },
}

/// What a Btrfs subvolume row shows.
#[derive(Debug, Clone, PartialEq, Eq)]
pub struct SubvolumeDetails {
    pub id: u64,
    pub parent_id: Option<u64>,
    pub relative_path: String,
    pub row_key: String,
    pub hierarchy: SubvolumeHierarchy,
}

/// The member that speaks for a Btrfs filesystem, where one was chosen.
#[derive(Debug, Clone, PartialEq, Eq)]
pub enum PrimaryMember {
    Selected { member_id: String },
    Undetermined,
}

/// A member of a Btrfs filesystem, with the generation at which its block device was last
/// observed, where it has one.
#[derive(Debug, Clone, PartialEq, Eq)]
pub struct FilesystemMember {
    pub member_id: String,
    pub observed_generation: Option<u64>,
}

/// A diagnostic that leaves the subvolume a safe target: only its own parent is missing.
pub open spec fn only_parent_missing(d: TopologyDiagnostic, sub: SubvolumeDetails) -> bool {
    d matches TopologyDiagnostic::MissingParent { row, parent_id }
        && row@ == sub.row_key@ && sub.parent_id == Some(parent_id)
}

/// The subvolume can be named by an action: it is attached to its tree, or every diagnostic
/// on it says only that its own parent row is missing.
pub open spec fn target_unambiguous(sub: SubvolumeDetails) -> bool {
    match sub.hierarchy {
        SubvolumeHierarchy::Attached => true,
        SubvolumeHierarchy::Unparented { diagnostics } =>
            forall|i: int| 0 <= i < diagnostics@.len() ==> #[trigger] only_parent_missing(diagnostics@[i], sub),
    }
}

/// Whether an action may name the subvolume.
pub fn btrfs_subvolume_target_is_unambiguous(sub: &SubvolumeDetails) -> (r: bool)
    ensures
        r == target_unambiguous(*sub),
{
    match &sub.hierarchy {
        SubvolumeHierarchy::Attached => true,
        SubvolumeHierarchy::Unparented { diagnostics } => {
            let mut i: usize = 0;
            while i < diagnostics.len()
                invariant
                    0 <= i <= diagnostics@.len(),
                    sub.hierarchy == (SubvolumeHierarchy::Unparented { diagnostics: *diagnostics }),
                    forall|j: int| 0 <= j < i ==> #[trigger] only_parent_missing(diagnostics@[j], *sub),
                decreases diagnostics@.len() - i,
            {
                let ok = match &diagnostics[i] {
                    TopologyDiagnostic::MissingParent { row, parent_id } =>
                        str_equals(row.as_str(), sub.row_key.as_str()) && sub.parent_id == Some(*parent_id),
                    TopologyDiagnostic::Conflict => false,
                };
                if !ok {
                    assert(!only_parent_missing(diagnostics@[i as int], *sub));
                    assert(!target_unambiguous(*sub)) by {
                        assert(sub.hierarchy->diagnostics@[i as int] == diagnostics@[i as int]);
                    }
                    return false;
                }
                i = i + 1;
            }
            true
        },
    }
}

/// The observed generation of the first member with id `id`: `None` where no member has it.
pub open spec fn member_generation(members: Seq<FilesystemMember>, id: Seq<char>) -> Option<Option<u64>>
    decreases members.len(),
{
    if members.len() == 0 {
        None
    } else if members[0].member_id@ == id {
        Some(members[0].observed_generation)
    } else {
        member_generation(members.drop_first(), id)
    }
}

/// The epoch an action on the subvolume carries: the observed generation of the primary
/// member, where a primary member was chosen, is listed and has a block device.
pub open spec fn topology_epoch(primary: PrimaryMember, members: Seq<FilesystemMember>) -> Option<u64> {
    match primary {
        PrimaryMember::Selected { member_id } => match member_generation(members, member_id@) {
            Some(Some(g)) => Some(g),
            _ => None,
        },
        PrimaryMember::Undetermined => None,
    }
}

/// The reference an action on `sub` carries, by its view: `None` where the subvolume is not
/// an unambiguous target or the filesystem has no epoch to offer.
pub open spec fn subvolume_ref_spec(
    filesystem: Seq<char>,
    primary: PrimaryMember,
    members: Seq<FilesystemMember>,
    sub: SubvolumeDetails,
) -> Option<SubvolumeV> {
    if !target_unambiguous(sub) {
        None
    } else {
        match topology_epoch(primary, members) {
            Some(epoch) => Some((filesystem, sub.id, sub.relative_path@, sub.parent_id, epoch)),
            None => None,
        }
    }
}

fn find_member_generation(members: &Vec<FilesystemMember>, id: &str) -> (r: Option<Option<u64>>)
    ensures
        r == member_generation(members@, id@),
{
    let mut i: usize = 0;
    assert(members@.subrange(0, members@.len() as int) =~= members@);
    while i < members.len()
        invariant
            0 <= i <= members@.len(),
            member_generation(members@, id@) == member_generation(members@.subrange(i as int, members@.len() as int), id@),
        decreases members@.len() - i,
    {
        let ghost rest = members@.subrange(i as int, members@.len() as int);
        assert(rest.drop_first() =~= members@.subrange(i + 1, members@.len() as int));
        if str_equals(members[i].member_id.as_str(), id) {
            return Some(members[i].observed_generation);
        }
        i = i + 1;
    }
    assert(members@.subrange(i as int, members@.len() as int).len() == 0);
    None
}

/// The reference that an action on the subvolume row `sub` of filesystem `filesystem`
/// carries: the row's own id, path and parent, and the observed generation of the
/// filesystem's primary member. `None` where the row is not an unambiguous target, no
/// primary member was chosen, or it is not listed with a block device.
pub fn btrfs_subvolume_ref(
    filesystem: &LogicalEntityId,
    primary: &PrimaryMember,
    members: &Vec<FilesystemMember>,
    sub: &SubvolumeDetails,
) -> (r: Option<BtrfsSubvolumeRef>)
    ensures
        match r {
            Some(reference) => subvolume_ref_spec(filesystem@, *primary, members@, *sub) == Some(reference@),
            None => subvolume_ref_spec(filesystem@, *primary, members@, *sub) is None,
        },
{
    if !btrfs_subvolume_target_is_unambiguous(sub) {
        return None;
    }
    let member_id = match primary {
        PrimaryMember::Selected { member_id } => member_id,
        PrimaryMember::Undetermined => {
            return None;
        },
    };
    let epoch = match find_member_generation(members, member_id.as_str()) {
        Some(Some(g)) => g,
        _ => {
            return None;
        },
    };
    Some(BtrfsSubvolumeRef {
        filesystem: filesystem.clone(),
        id: sub.id,
        expected_relative_path: sub.relative_path.clone(),
        expected_parent_id: sub.parent_id,
        observed_topology_epoch: epoch,
    })
}

} // verus!
