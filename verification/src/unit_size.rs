//! Size units for the partition size inputs: labels, dropdown indices and the default unit for
//! a size.
use vstd::prelude::*;

verus! {

/// Size units for displaying and inputting partition sizes.
#[derive(Debug, Clone, Copy, PartialEq, Eq, Structural)]
pub enum SizeUnit {
    Bytes,
    Kilobytes,
    Megabytes,
    Gigabytes,
    Terabytes,
}

/// The position of a unit in the unit dropdown.
pub open spec fn unit_index(unit: SizeUnit) -> nat {
    match unit {
        SizeUnit::Bytes => 0,
        SizeUnit::Kilobytes => 1,
        SizeUnit::Megabytes => 2,
        SizeUnit::Gigabytes => 3,
        SizeUnit::Terabytes => 4,
    }
}

/// The unit at a dropdown position; positions past the list select megabytes.
pub open spec fn unit_at(idx: int) -> SizeUnit {
    if idx == 0 {
        SizeUnit::Bytes
    } else if idx == 1 {
        SizeUnit::Kilobytes
    } else if idx == 2 {
        SizeUnit::Megabytes
    } else if idx == 3 {
        SizeUnit::Gigabytes
    } else if idx == 4 {
        SizeUnit::Terabytes
    } else {
        SizeUnit::Megabytes
    }
}

pub open spec fn unit_label(unit: SizeUnit) -> Seq<char> {
    match unit {
        SizeUnit::Bytes => "B"@,
        SizeUnit::Kilobytes => "KB"@,
        SizeUnit::Megabytes => "MB"@,
        SizeUnit::Gigabytes => "GB"@,
        SizeUnit::Terabytes => "TB"@,
    }
}

/// The number of bytes in one of the unit (powers of 1024).
pub open spec fn unit_scale(unit: SizeUnit) -> int {
    match unit {
        SizeUnit::Bytes => 1,
        SizeUnit::Kilobytes => 1024,
        SizeUnit::Megabytes => 1048576,
        SizeUnit::Gigabytes => 1073741824,
        SizeUnit::Terabytes => 1099511627776,
    }
}

/// The largest unit of which `bytes` holds at least one whole (bytes below one kilobyte).
pub open spec fn auto_unit(bytes: u64) -> SizeUnit {
    if bytes < 1024 {
        SizeUnit::Bytes
    } else if bytes < 1048576 {
        SizeUnit::Kilobytes
    } else if bytes < 1073741824 {
        SizeUnit::Megabytes
    } else if bytes < 1099511627776 {
        SizeUnit::Gigabytes
    } else {
        SizeUnit::Terabytes
    }
}

impl SizeUnit {
    /// Get the display label for this unit.
    pub fn label(&self) -> (s: &'static str)
        ensures
            s@ == unit_label(*self),
    {
        match self {
            SizeUnit::Bytes => "B",
            SizeUnit::Kilobytes => "KB",
            SizeUnit::Megabytes => "MB",
            SizeUnit::Gigabytes => "GB",
            SizeUnit::Terabytes => "TB",
        }
    }

    /// All unit labels, in dropdown order.
    pub fn labels() -> (v: Vec<&'static str>)
        ensures
            v@.len() == 5,
            forall|i: int| 0 <= i < 5 ==> (#[trigger] v@[i])@ == unit_label(unit_at(i)),
    {
        let mut v: Vec<&'static str> = Vec::new();
        v.push("B");
        v.push("KB");
        v.push("MB");
        v.push("GB");
        v.push("TB");
        v
    }

    /// Create a unit from a dropdown index (megabytes for an index past the list).
    pub fn from_index(idx: usize) -> (unit: Self)
        ensures
            unit == unit_at(idx as int),
    {
        match idx {
            0 => SizeUnit::Bytes,
            1 => SizeUnit::Kilobytes,
            2 => SizeUnit::Megabytes,
            3 => SizeUnit::Gigabytes,
            4 => SizeUnit::Terabytes,
            _ => SizeUnit::Megabytes,
        }
    }

    /// Get the dropdown index for this unit.
    pub fn to_index(self) -> (idx: usize)
        ensures
            idx == unit_index(self),
    {
        match self {
            SizeUnit::Bytes => 0,
            SizeUnit::Kilobytes => 1,
            SizeUnit::Megabytes => 2,
            SizeUnit::Gigabytes => 3,
            SizeUnit::Terabytes => 4,
        }
    }

    /// Pick an appropriate default unit for a given size in bytes: the largest unit of which
    /// the size holds at least one whole.
    pub fn auto_select(bytes: u64) -> (unit: Self)
        ensures
            unit == auto_unit(bytes),
            unit == SizeUnit::Bytes || unit_scale(unit) <= bytes,
            unit == SizeUnit::Terabytes || bytes < 1024 * unit_scale(unit),
    {
        if bytes < 1024 {
            SizeUnit::Bytes
        } else if bytes < 1024 * 1024 {
            SizeUnit::Kilobytes
        } else if bytes < 1024 * 1024 * 1024 {
            SizeUnit::Megabytes
        } else if bytes < 1024u64 * 1024 * 1024 * 1024 {
            SizeUnit::Gigabytes
        } else {
            SizeUnit::Terabytes
        }
    }
}

/// A unit and its dropdown index determine each other: reading back the index of a unit gives
/// the unit, and every index in the list gives back itself.
pub proof fn lemma_unit_index_roundtrip(unit: SizeUnit, idx: int)
    ensures
        unit_at(unit_index(unit) as int) == unit,
        0 <= idx < 5 ==> unit_index(unit_at(idx)) == idx,
{
}

/// The label list agrees with the label of every unit, at the unit's dropdown index.
pub proof fn lemma_labels_match_units(unit: SizeUnit)
    ensures
        unit_index(unit) < 5,
        unit_label(unit_at(unit_index(unit) as int)) == unit_label(unit),
{
}

} // verus!
