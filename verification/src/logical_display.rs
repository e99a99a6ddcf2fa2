//! How values of logical devices are shown: the default subvolume of a Btrfs filesystem, and
//! the status of a network mount.
use vstd::prelude::*;
use vstd::string::StringExecFns;
use crate::decimal::{decimal_digits, decimal_text};
use crate::network::MountStatus;

verus! {

/// The default subvolume of a filesystem, as far as it is known.
#[derive(Debug, Clone, Copy, PartialEq, Eq, Structural)]
pub enum DefaultSubvolume {
    Unknown,
    NoDefault,
    Id(u64),
}

/// The subvolumes of `subs` with id `id`, in order.
pub open spec fn with_id(subs: Seq<(u64, String)>, id: u64) -> Seq<(u64, String)>
    decreases subs.len(),
{
    if subs.len() == 0 {
        Seq::empty()
    } else {
        let r = with_id(subs.drop_last(), id);
        if subs.last().0 == id { r.push(subs.last()) } else { r }
    }
}

/// The text of the default subvolume: its path and id when exactly one subvolume has the id;
/// the root `/` for id 5 when none does; else unreported or ambiguous.
pub open spec fn default_subvolume_text(default: DefaultSubvolume, subs: Seq<(u64, String)>) -> Seq<char> {
    match default {
        DefaultSubvolume::Unknown => "Unknown"@,
        DefaultSubvolume::NoDefault => "None"@,
        DefaultSubvolume::Id(id) => {
            let found = with_id(subs, id);
            let tail = " (ID "@ + decimal_digits(id as nat) + ")"@;
            if found.len() == 1 {
                found[0].1@ + tail
            } else if found.len() == 0 && id == 5 {
                "/"@ + tail
            } else if found.len() == 0 {
                "Unreported subvolume"@ + tail
            } else {
                "Ambiguous subvolume"@ + tail
            }
        },
    }
}

/// See [`default_subvolume_text`]; `subvolumes` are the ids and paths of the filesystem's
/// subvolumes.
pub fn btrfs_default_subvolume_display(default: DefaultSubvolume, subvolumes: &Vec<(u64, String)>) -> (r: String)
    ensures
        r@ == default_subvolume_text(default, subvolumes@),
{
    let id = match default {
        DefaultSubvolume::Unknown => { return String::from_str("Unknown"); },
        DefaultSubvolume::NoDefault => { return String::from_str("None"); },
        DefaultSubvolume::Id(id) => id,
    };
    let mut count: usize = 0;
    let mut first: usize = 0;
    let mut i: usize = 0;
    while i < subvolumes.len()
        invariant
            i <= subvolumes@.len(),
            count <= 2,
            count == (if with_id(subvolumes@.take(i as int), id).len() < 2 { with_id(subvolumes@.take(i as int), id).len() } else { 2 }),
            count >= 1 ==> first < i && subvolumes@[first as int] == with_id(subvolumes@.take(i as int), id)[0],
        decreases subvolumes.len() - i,
    {
        proof {
            let t = subvolumes@.take(i + 1);
            assert(t.drop_last() =~= subvolumes@.take(i as int));
        }
        if subvolumes[i].0 == id {
            if count == 0 {
                first = i;
            }
            if count < 2 {
                count = count + 1;
            }
        }
        i = i + 1;
    }
    assert(subvolumes@.take(subvolumes@.len() as int) =~= subvolumes@);
    let ghost base = if count == 1 {
        subvolumes@[first as int].1@
    } else if count == 0 && id == 5 {
        "/"@
    } else if count == 0 {
        "Unreported subvolume"@
    } else {
        "Ambiguous subvolume"@
    };
    let mut text = if count == 1 {
        subvolumes[first].1.clone()
    } else if count == 0 && id == 5 {
        String::from_str("/")
    } else if count == 0 {
        String::from_str("Unreported subvolume")
    } else {
        String::from_str("Ambiguous subvolume")
    };
    text.append(" (ID ");
    let digits = decimal_text(id);
    text.append(digits.as_str());
    text.append(")");
    assert(text@ =~= base + (" (ID "@ + decimal_digits(id as nat) + ")"@));
    text
}

/// How a network mount's status is named.
pub fn status_label(status: &MountStatus) -> (r: &'static str)
    ensures
        r@ == match status {
            MountStatus::Mounted => "Mounted"@,
            MountStatus::Unmounted => "Unmounted"@,
            MountStatus::Mounting => "Mounting"@,
            MountStatus::Unmounting => "Unmounting"@,
            MountStatus::Error(_) => "Error"@,
        },
{
    match status {
        MountStatus::Mounted => "Mounted",
        MountStatus::Unmounted => "Unmounted",
        MountStatus::Mounting => "Mounting",
        MountStatus::Unmounting => "Unmounting",
        MountStatus::Error(_) => "Error",
    }
}

} // verus!
