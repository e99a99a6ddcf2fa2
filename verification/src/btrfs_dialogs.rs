//! The dialogs that create a Btrfs subvolume or snapshot: when they open, how the name is
//! checked, and the request they start.
use vstd::prelude::*;
use vstd::string::{StrSliceExecFns, StringExecFns};
use crate::btrfs_state::{opt_text, BtrfsState};
use crate::text::{trim, trimmed};

verus! {

/// The bytes a character takes in UTF-8.
pub open spec fn utf8_width(c: char) -> nat {
    if (c as u32) < 0x80 {
        1
    } else if (c as u32) < 0x800 {
        2
    } else if (c as u32) < 0x10000 {
        3
    } else {
        4
    }
}

/// The bytes a text takes in UTF-8.
pub open spec fn utf8_len(s: Seq<char>) -> nat
    decreases s.len(),
{
    if s.len() == 0 {
        0
    } else {
        utf8_len(s.drop_last()) + utf8_width(s.last())
    }
}

/// The longest name of a subvolume, in bytes.
pub const MAX_SUBVOLUME_NAME_BYTES: u64 = 255;

proof fn lemma_utf8_len_grows(s: Seq<char>, i: int)
    requires
        0 <= i <= s.len(),
    ensures
        utf8_len(s.take(i)) <= utf8_len(s),
    decreases s.len() - i,
{
    if i < s.len() {
        lemma_utf8_len_grows(s, i + 1);
        assert(s.take(i + 1).drop_last() =~= s.take(i));
    } else {
        assert(s.take(i) =~= s);
    }
}

/// Whether `s` takes more than [`MAX_SUBVOLUME_NAME_BYTES`] bytes in UTF-8.
fn too_long(s: &str) -> (r: bool)
    ensures
        r == (utf8_len(s@) > MAX_SUBVOLUME_NAME_BYTES),
{
    let n = s.unicode_len();
    let mut bytes: u64 = 0;
    let mut i: usize = 0;
    while i < n
        invariant
            n == s@.len(),
            i <= n,
            bytes == utf8_len(s@.take(i as int)),
            bytes <= MAX_SUBVOLUME_NAME_BYTES,
        decreases n - i,
    {
        let c = s.get_char(i);
        let w: u64 = if (c as u32) < 0x80 {
            1
        } else if (c as u32) < 0x800 {
            2
        } else if (c as u32) < 0x10000 {
            3
        } else {
            4
        };
        assert(s@.take(i + 1).drop_last() =~= s@.take(i as int));
        bytes = bytes + w;
        i = i + 1;
        if bytes > MAX_SUBVOLUME_NAME_BYTES {
            proof { lemma_utf8_len_grows(s@, i as int); }
            return true;
        }
    }
    assert(s@.take(n as int) =~= s@);
    false
}

fn has_slash(s: &str) -> (r: bool)
    ensures
        r == s@.contains('/'),
{
    let n = s.unicode_len();
    let mut i: usize = 0;
    while i < n
        invariant
            n == s@.len(),
            i <= n,
            forall|j: int| 0 <= j < i ==> s@[j] != '/',
        decreases n - i,
    {
        if s.get_char(i) == '/' {
            assert(s@[i as int] == '/');
            return true;
        }
        i = i + 1;
    }
    false
}

/// What is wrong with the name of a new subvolume or snapshot.
#[derive(Debug, Clone, Copy, PartialEq, Eq, Structural)]
pub enum NameProblem {
    /// The name is blank.
    Required,
    /// The name holds a `/`.
    InvalidChars,
    /// The name takes more than [`MAX_SUBVOLUME_NAME_BYTES`] bytes.
    TooLong,
}

/// The problem with a name, once trimmed: blank, holding a `/`, or too long; none when it
/// can be used.
pub open spec fn name_problem(name: Seq<char>) -> Option<NameProblem> {
    let t = trimmed(name);
    if t.len() == 0 {
        Some(NameProblem::Required)
    } else if t.contains('/') {
        Some(NameProblem::InvalidChars)
    } else if utf8_len(t) > MAX_SUBVOLUME_NAME_BYTES {
        Some(NameProblem::TooLong)
    } else {
        None
    }
}

/// Checks a name (see [`name_problem`]); gives the trimmed name when it can be used.
pub fn check_subvolume_name(name: &str) -> (r: Result<&str, NameProblem>)
    ensures
        match r {
            Ok(t) => name_problem(name@) is None && t@ == trimmed(name@),
            Err(p) => name_problem(name@) == Some(p),
        },
{
    let t = trim(name);
    if t.unicode_len() == 0 {
        Err(NameProblem::Required)
    } else if has_slash(t) {
        Err(NameProblem::InvalidChars)
    } else if too_long(t) {
        Err(NameProblem::TooLong)
    } else {
        Ok(t)
    }
}

/// The messages of the name problems that the window words itself.
#[derive(Debug, Clone)]
pub struct NameTexts {
    pub required: String,
    pub invalid_chars: String,
}

/// The message shown for a name problem; a name that is too long reads "Snapshot name too
/// long" for a snapshot and "Subvolume name too long" for a subvolume.
pub open spec fn problem_text(p: NameProblem, texts: NameTexts, snapshot: bool) -> Seq<char> {
    match p {
        NameProblem::Required => texts.required@,
        NameProblem::InvalidChars => texts.invalid_chars@,
        NameProblem::TooLong => if snapshot { "Snapshot name too long"@ } else { "Subvolume name too long"@ },
    }
}

fn problem_message(p: NameProblem, texts: &NameTexts, snapshot: bool) -> (r: String)
    ensures
        r@ == problem_text(p, *texts, snapshot),
{
    match p {
        NameProblem::Required => texts.required.clone(),
        NameProblem::InvalidChars => texts.invalid_chars.clone(),
        NameProblem::TooLong => if snapshot {
            String::from_str("Snapshot name too long")
        } else {
            String::from_str("Subvolume name too long")
        },
    }
}

/// The dialog that creates a subvolume.
#[derive(Debug, Clone)]
pub struct BtrfsCreateSubvolumeDialog {
    pub mount_point: String,
    pub block_path: String,
    pub name: String,
    pub running: bool,
    pub error: Option<String>,
}

/// Create a subvolume `name` in the filesystem mounted at `mount_point`; after the reload the
/// sidebar keeps `keep_selected` selected.
#[derive(Debug, Clone, PartialEq, Eq)]
pub struct SubvolumeRequest {
    pub mount_point: String,
    pub name: String,
    pub keep_selected: String,
}

impl BtrfsCreateSubvolumeDialog {
    /// The dialog for the Btrfs page, when its filesystem is mounted and has a device.
    pub fn open<S, D>(page: &BtrfsState<S, D>) -> (r: Option<Self>)
        ensures
            match (page.mount_point, page.block_path) {
                (Some(m), Some(b)) => r matches Some(d) && d.mount_point@ == m@ && d.block_path@ == b@
                    && d.name@.len() == 0 && !d.running && d.error is None,
                _ => r is None,
            },
    {
        match (&page.mount_point, &page.block_path) {
            (Some(m), Some(b)) => Some(BtrfsCreateSubvolumeDialog {
                mount_point: m.clone(),
                block_path: b.clone(),
                name: String::new(),
                running: false,
                error: None,
            }),
            _ => None,
        }
    }

    /// Sets the name and clears the error.
    pub fn set_name(&mut self, name: String)
        ensures
            *final(self) == (BtrfsCreateSubvolumeDialog { name, error: None, ..*old(self) }),
    {
        self.name = name;
        self.error = None;
    }

    /// Starts creating, unless that runs already: a name with a problem shows it; otherwise
    /// the dialog is marked running and the request is given back, with the trimmed name.
    pub fn create(&mut self, texts: &NameTexts) -> (r: Option<SubvolumeRequest>)
        ensures
            old(self).running ==> r is None && *final(self) == *old(self),
            !old(self).running ==> match name_problem(old(self).name@) {
                Some(p) => {
                    &&& r is None
                    &&& opt_text(final(self).error) == Some(problem_text(p, *texts, false))
                    &&& *final(self) == (BtrfsCreateSubvolumeDialog { error: final(self).error, ..*old(self) })
                },
                None => {
                    &&& r matches Some(req) && req.mount_point@ == old(self).mount_point@
                        && req.name@ == trimmed(old(self).name@) && req.keep_selected@ == old(self).block_path@
                    &&& *final(self) == (BtrfsCreateSubvolumeDialog { running: true, error: None, ..*old(self) })
                },
            },
    {
        if self.running {
            return None;
        }
        let name = match check_subvolume_name(self.name.as_str()) {
            Ok(t) => String::from_str(t),
            Err(p) => {
                self.error = Some(problem_message(p, texts, false));
                return None;
            },
        };
        self.running = true;
        self.error = None;
        Some(SubvolumeRequest { mount_point: self.mount_point.clone(), name, keep_selected: self.block_path.clone() })
    }
}

/// The dialog that snapshots a subvolume.
#[derive(Debug, Clone)]
pub struct BtrfsCreateSnapshotDialog {
    pub mount_point: String,
    pub block_path: String,
    /// The paths of the subvolumes that can be snapshotted.
    pub sources: Vec<String>,
    pub selected_source_index: usize,
    pub snapshot_name: String,
    pub read_only: bool,
    pub running: bool,
    pub error: Option<String>,
}

/// Snapshot the subvolume `source` of the filesystem mounted at `mount_point` as `dest`.
#[derive(Debug, Clone, PartialEq, Eq)]
pub struct SnapshotRequest {
    pub mount_point: String,
    pub source: String,
    pub dest: String,
    pub read_only: bool,
    pub keep_selected: String,
}

impl BtrfsCreateSnapshotDialog {
    /// The dialog for the Btrfs page, when its filesystem is mounted, has a device and its
    /// subvolumes are loaded (and there are some); `sources` are their paths. The first is
    /// chosen, and the snapshot is read-only.
    pub fn open<S, D>(page: &BtrfsState<S, D>, sources: Vec<String>) -> (r: Option<Self>)
        ensures
            match (page.mount_point, page.block_path, page.subvolumes) {
                (Some(m), Some(b), Some(Ok(list))) => if list@.len() > 0 && sources@.len() > 0 {
                    r matches Some(d) && d.mount_point@ == m@ && d.block_path@ == b@ && d.sources == sources
                        && d.selected_source_index == 0 && d.snapshot_name@.len() == 0 && d.read_only
                        && !d.running && d.error is None
                } else {
                    r is None
                },
                _ => r is None,
            },
    {
        let (m, b) = match (&page.mount_point, &page.block_path) {
            (Some(m), Some(b)) => (m, b),
            _ => { return None; },
        };
        let loaded = match &page.subvolumes {
            Some(Ok(list)) => list.len() > 0,
            _ => false,
        };
        if !loaded || sources.len() == 0 {
            return None;
        }
        Some(BtrfsCreateSnapshotDialog {
            mount_point: m.clone(),
            block_path: b.clone(),
            sources,
            selected_source_index: 0,
            snapshot_name: String::new(),
            read_only: true,
            running: false,
            error: None,
        })
    }

    /// Chooses the source at `index` when there is one, and clears the error.
    pub fn set_source(&mut self, index: usize)
        ensures
            *final(self) == (BtrfsCreateSnapshotDialog {
                selected_source_index: if index < old(self).sources@.len() { index } else { old(self).selected_source_index },
                error: None,
                ..*old(self)
            }),
    {
        if index < self.sources.len() {
            self.selected_source_index = index;
        }
        self.error = None;
    }

    /// Sets the name and clears the error.
    pub fn set_name(&mut self, name: String)
        ensures
            *final(self) == (BtrfsCreateSnapshotDialog { snapshot_name: name, error: None, ..*old(self) }),
    {
        self.snapshot_name = name;
        self.error = None;
    }

    pub fn set_read_only(&mut self, read_only: bool)
        ensures
            *final(self) == (BtrfsCreateSnapshotDialog { read_only, ..*old(self) }),
    {
        self.read_only = read_only;
    }

    /// Starts the snapshot, unless it runs already: a name with a problem shows it; otherwise
    /// the dialog is marked running and the request is given back, with the trimmed name.
    pub fn create(&mut self, texts: &NameTexts) -> (r: Option<SnapshotRequest>)
        requires
            old(self).selected_source_index < old(self).sources@.len(),
        ensures
            old(self).running ==> r is None && *final(self) == *old(self),
            !old(self).running ==> match name_problem(old(self).snapshot_name@) {
                Some(p) => {
                    &&& r is None
                    &&& opt_text(final(self).error) == Some(problem_text(p, *texts, true))
                    &&& *final(self) == (BtrfsCreateSnapshotDialog { error: final(self).error, ..*old(self) })
                },
                None => {
                    &&& r matches Some(req) && req.mount_point@ == old(self).mount_point@
                        && req.source@ == old(self).sources@[old(self).selected_source_index as int]@
                        && req.dest@ == trimmed(old(self).snapshot_name@)
                        && req.read_only == old(self).read_only
                        && req.keep_selected@ == old(self).block_path@
                    &&& *final(self) == (BtrfsCreateSnapshotDialog { running: true, error: None, ..*old(self) })
                },
            },
    {
        if self.running {
            return None;
        }
        let dest = match check_subvolume_name(self.snapshot_name.as_str()) {
            Ok(t) => String::from_str(t),
            Err(p) => {
                self.error = Some(problem_message(p, texts, true));
                return None;
            },
        };
        self.running = true;
        self.error = None;
        Some(SnapshotRequest {
            mount_point: self.mount_point.clone(),
            source: self.sources[self.selected_source_index].clone(),
            dest,
            read_only: self.read_only,
            keep_selected: self.block_path.clone(),
        })
    }
}

} // verus!
