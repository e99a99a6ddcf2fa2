//! Dialog state that the volume views edit: wizard steps and the small dialogs.
use vstd::prelude::*;
use crate::text::str_equals;

verus! {

#[derive(Debug, Clone, Copy, PartialEq, Eq, Structural)]
pub enum FormatPartitionStep {
    Basics,
    Options,
}

impl FormatPartitionStep {
    /// The 1-based position of the step in the dialog.
    pub fn number(self) -> (n: usize)
        ensures
            n == match self {
                Self::Basics => 1usize,
                Self::Options => 2usize,
            },
    {
        match self {
            Self::Basics => 1,
            Self::Options => 2,
        }
    }
}

#[derive(Debug, Clone, Copy, PartialEq, Eq, Structural)]
pub enum EditPartitionStep {
    Basics,
    Flags,
    Review,
}

impl EditPartitionStep {
    /// The 1-based position of the step in the dialog.
    pub fn number(self) -> (n: usize)
        ensures
            n == match self {
                Self::Basics => 1usize,
                Self::Flags => 2usize,
                Self::Review => 3usize,
            },
    {
        match self {
            Self::Basics => 1,
            Self::Flags => 2,
            Self::Review => 3,
        }
    }
}

#[derive(Debug, Clone, Copy, PartialEq, Eq, Structural)]
pub enum ResizePartitionStep {
    Sizing,
    Review,
}

impl ResizePartitionStep {
    /// The 1-based position of the step in the dialog.
    pub fn number(self) -> (n: usize)
        ensures
            n == match self {
                Self::Sizing => 1usize,
                Self::Review => 2usize,
            },
    {
        match self {
            Self::Sizing => 1,
            Self::Review => 2,
        }
    }
}

#[derive(Debug, Clone, Copy, PartialEq, Eq, Structural)]
pub enum EditMountOptionsStep {
    Behavior,
    Details,
    Review,
}

impl EditMountOptionsStep {
    /// The 1-based position of the step in the dialog.
    pub fn number(self) -> (n: usize)
        ensures
            n == match self {
                Self::Behavior => 1usize,
                Self::Details => 2usize,
                Self::Review => 3usize,
            },
    {
        match self {
            Self::Behavior => 1,
            Self::Details => 2,
            Self::Review => 3,
        }
    }
}

#[derive(Debug, Clone, Copy, PartialEq, Eq, Structural)]
pub enum EditEncryptionOptionsStep {
    Behavior,
    Credentials,
    Review,
}

impl EditEncryptionOptionsStep {
    /// The 1-based position of the step in the dialog.
    pub fn number(self) -> (n: usize)
        ensures
            n == match self {
                Self::Behavior => 1usize,
                Self::Credentials => 2usize,
                Self::Review => 3usize,
            },
    {
        match self {
            Self::Behavior => 1,
            Self::Credentials => 2,
            Self::Review => 3,
        }
    }
}

#[derive(Debug, Clone, Copy, PartialEq, Eq, Structural)]
pub enum CreatePartitionStep {
    Basics,
    Sizing,
    Options,
}

impl CreatePartitionStep {
    /// The 1-based position of the step in the dialog.
    pub fn number(self) -> (n: usize)
        ensures
            n == match self {
                Self::Basics => 1usize,
                Self::Sizing => 2usize,
                Self::Options => 3usize,
            },
    {
        match self {
            Self::Basics => 1,
            Self::Sizing => 2,
            Self::Options => 3,
        }
    }
}

#[derive(Debug, Clone)]
pub struct DeletePartitionDialog {
    pub name: String,
    pub running: bool,
}

/// The partition table type chosen by an index of the format dialog: 0 is DOS (MBR), 1 is
/// GPT, and any other index leaves the disk without a table.
pub open spec fn table_type_of(index: usize) -> Seq<char> {
    if index == 0 {
        "dos"@
    } else if index == 1 {
        "gpt"@
    } else {
        "empty"@
    }
}

/// The index of the format dialog that a disk's current partition table type preselects.
pub open spec fn table_index_of(table_type: Option<Seq<char>>) -> usize {
    match table_type {
        Some(t) => if t == "dos"@ { 0 } else if t == "gpt"@ { 1 } else { 2 },
        None => 2,
    }
}

/// The dialog that formats a whole disk.
#[derive(Debug, Clone)]
pub struct FormatDiskDialog {
    /// The device path of the disk.
    pub drive: String,
    pub erase_index: usize,
    pub partitioning_index: usize,
    pub running: bool,
}

/// What confirming the format dialog asks for: a new partition table of a type on a device.
#[derive(Debug, Clone, PartialEq, Eq)]
pub struct FormatDiskRequest {
    pub block_path: String,
    pub table_type: &'static str,
}

impl FormatDiskDialog {
    /// The dialog for a disk, with the disk's current table type preselected and no erase.
    pub fn new(drive: String, partition_table_type: Option<&str>) -> (d: Self)
        ensures
            d == (FormatDiskDialog {
                drive,
                erase_index: 0,
                partitioning_index: table_index_of(match partition_table_type {
                    Some(t) => Some(t@),
                    None => None,
                }),
                running: false,
            }),
    {
        let partitioning_index = match partition_table_type {
            Some(t) => if str_equals(t, "dos") { 0 } else if str_equals(t, "gpt") { 1 } else { 2 },
            None => 2,
        };
        FormatDiskDialog { drive, erase_index: 0, partitioning_index, running: false }
    }

    /// The partition table type that the chosen index stands for.
    pub fn table_type(&self) -> (t: &'static str)
        ensures
            t@ == table_type_of(self.partitioning_index),
    {
        if self.partitioning_index == 0 {
            "dos"
        } else if self.partitioning_index == 1 {
            "gpt"
        } else {
            "empty"
        }
    }

    /// Confirms the dialog: while a format runs, nothing happens; otherwise the dialog is
    /// marked running and the request for the disk is given back.
    pub fn confirm(&mut self) -> (r: Option<FormatDiskRequest>)
        ensures
            old(self).running ==> r is None && *final(self) == *old(self),
            !old(self).running ==> {
                &&& r is Some
                &&& r->0.block_path@ == old(self).drive@
                &&& r->0.table_type@ == table_type_of(old(self).partitioning_index)
                &&& *final(self) == (FormatDiskDialog { running: true, ..*old(self) })
            },
    {
        if self.running {
            return None;
        }
        self.running = true;
        Some(FormatDiskRequest { block_path: self.drive.clone(), table_type: self.table_type() })
    }
}

} // verus!
