//! The dialogs that create, format and resize partitions: their steps, fields and checks.
use vstd::prelude::*;
use vstd::string::StrSliceExecFns;
use crate::dialogs::{CreatePartitionStep, FormatPartitionStep, ResizePartitionStep};
use crate::text::{str_equals, str_eq_ignore_ascii_case, eq_ignoring_ascii_case};

verus! {

/// The filesystem types of the common partition types of each partition table, in the order
/// the dialogs list them.
#[derive(Debug, Clone)]
pub struct PartitionTypeCatalog {
    pub gpt: Vec<String>,
    pub dos: Vec<String>,
}

pub open spec fn texts(v: Seq<String>) -> Seq<Seq<char>> {
    v.map_values(|s: String| s@)
}

/// The filesystem types listed for a table type: GPT and DOS have lists, other tables none.
pub open spec fn catalog_list(c: PartitionTypeCatalog, table_type: Seq<char>) -> Option<Seq<Seq<char>>> {
    if table_type == "gpt"@ {
        Some(texts(c.gpt@))
    } else if table_type == "dos"@ {
        Some(texts(c.dos@))
    } else {
        None
    }
}

/// The filesystem type of the common partition type at `index` for a table type.
pub open spec fn common_fs_type(c: PartitionTypeCatalog, table_type: Seq<char>, index: int) -> Option<Seq<char>> {
    match catalog_list(c, table_type) {
        Some(l) => if 0 <= index < l.len() { Some(l[index]) } else { None },
        None => None,
    }
}

pub open spec fn opt_text(o: Option<String>) -> Option<Seq<char>> {
    match o {
        Some(s) => Some(s@),
        None => None,
    }
}

fn list_for<'a>(catalog: &'a PartitionTypeCatalog, table_type: &str) -> (r: Option<&'a Vec<String>>)
    ensures
        match r {
            Some(v) => catalog_list(*catalog, table_type@) == Some(texts(v@)),
            None => catalog_list(*catalog, table_type@) is None,
        },
{
    if str_equals(table_type, "gpt") {
        Some(&catalog.gpt)
    } else if str_equals(table_type, "dos") {
        Some(&catalog.dos)
    } else {
        None
    }
}

/// The filesystem type of the common partition type at `index` for a table type.
pub fn common_partition_filesystem_type(catalog: &PartitionTypeCatalog, table_type: &str, index: usize) -> (r: Option<String>)
    ensures
        opt_text(r) == common_fs_type(*catalog, table_type@, index as int),
{
    match list_for(catalog, table_type) {
        Some(list) => if index < list.len() {
            Some(list[index].clone())
        } else {
            None
        },
        None => None,
    }
}

/// The first position in `l` of a filesystem type equal to `id` without regard to ASCII
/// case, if any.
pub open spec fn first_type_match(l: Seq<Seq<char>>, id: Seq<char>) -> Option<int> {
    if exists|i: int| 0 <= i < l.len() && eq_ignoring_ascii_case(#[trigger] l[i], id) {
        Some(choose|i: int| 0 <= i < l.len() && eq_ignoring_ascii_case(#[trigger] l[i], id)
            && forall|j: int| 0 <= j < i ==> !eq_ignoring_ascii_case(#[trigger] l[j], id))
    } else {
        None
    }
}

/// The index of the common partition type whose filesystem type is `id_type`, without regard
/// to ASCII case; 0 when there is none, no type is given, or the table has no list.
pub fn common_partition_type_index_for(catalog: &PartitionTypeCatalog, table_type: &str, id_type: Option<&str>) -> (r: usize)
    ensures
        match (id_type, catalog_list(*catalog, table_type@)) {
            (Some(id), Some(l)) => match first_type_match(l, id@) {
                Some(i) => r == i,
                None => r == 0,
            },
            _ => r == 0,
        },
{
    let id = match id_type {
        Some(id) => id,
        None => { return 0; },
    };
    let list = match list_for(catalog, table_type) {
        Some(l) => l,
        None => { return 0; },
    };
    let ghost l = texts(list@);
    let mut i: usize = 0;
    while i < list.len()
        invariant
            l == texts(list@),
            l.len() == list@.len(),
            id_type == Some(id),
            catalog_list(*catalog, table_type@) == Some(l),
            i <= list@.len(),
            forall|j: int| 0 <= j < i ==> !eq_ignoring_ascii_case(#[trigger] l[j], id@),
        decreases list.len() - i,
    {
        if str_eq_ignore_ascii_case(list[i].as_str(), id) {
            proof {
                assert(eq_ignoring_ascii_case(l[i as int], id@));
                let ii = i as int;
                assert(0 <= ii < l.len() && eq_ignoring_ascii_case(l[ii], id@)
                    && forall|j: int| 0 <= j < ii ==> !eq_ignoring_ascii_case(#[trigger] l[j], id@));
                assert(exists|x: int| 0 <= x < l.len() && eq_ignoring_ascii_case(#[trigger] l[x], id@)
                    && forall|j: int| 0 <= j < x ==> !eq_ignoring_ascii_case(#[trigger] l[j], id@));
                let k = first_type_match(l, id@)->0;
                assert(first_type_match(l, id@) is Some);
                if k < i {
                    assert(!eq_ignoring_ascii_case(l[k], id@));
                } else if k > i {
                    assert(!eq_ignoring_ascii_case(l[i as int], id@));
                }
            }
            return i;
        }
        i = i + 1;
    }
    assert(first_type_match(l, id@) is None);
    0
}

/// What the partition dialogs read of a filesystem tool.
#[derive(Debug, Clone)]
pub struct FilesystemToolInfo {
    pub fs_type: String,
    pub available: bool,
}

/// Some available tool makes filesystems of type `fs_type`.
pub open spec fn tool_available(tools: Seq<FilesystemToolInfo>, fs_type: Seq<char>) -> bool {
    exists|i: int| 0 <= i < tools.len() && (#[trigger] tools[i]).fs_type@ == fs_type && tools[i].available
}

fn has_available_tool(tools: &Vec<FilesystemToolInfo>, fs_type: &str) -> (r: bool)
    ensures
        r == tool_available(tools@, fs_type@),
{
    let mut i: usize = 0;
    while i < tools.len()
        invariant
            i <= tools@.len(),
            forall|j: int| 0 <= j < i ==> !((#[trigger] tools@[j]).fs_type@ == fs_type@ && tools@[j].available),
        decreases tools.len() - i,
    {
        if tools[i].available && str_equals(tools[i].fs_type.as_str(), fs_type) {
            return true;
        }
        i = i + 1;
    }
    false
}

/// The values of a partition to create or format.
#[derive(Debug, Clone)]
pub struct CreatePartitionInfo {
    pub name: String,
    pub size: u64,
    pub max_size: u64,
    pub offset: u64,
    pub erase: bool,
    pub selected_partition_type_index: usize,
    pub table_type: String,
    pub size_text: String,
    pub size_unit_index: usize,
    pub password_protected: bool,
    pub password: String,
    pub confirmed_password: String,
    pub filesystem_type: String,
}

/// The dialog that creates a partition in free space.
#[derive(Debug, Clone)]
pub struct CreatePartitionDialog {
    pub info: CreatePartitionInfo,
    pub step: CreatePartitionStep,
    pub running: bool,
    pub error: Option<String>,
    pub filesystem_tools: Vec<FilesystemToolInfo>,
}

/// Whether the create dialog may leave its step for the next one: the chosen partition type
/// must have a filesystem type whose tool is available, and the size must be positive and
/// fit the free space.
pub open spec fn create_can_advance(d: CreatePartitionDialog, c: PartitionTypeCatalog) -> bool {
    match d.step {
        CreatePartitionStep::Basics => match common_fs_type(c, d.info.table_type@, d.info.selected_partition_type_index as int) {
            Some(fs) => tool_available(d.filesystem_tools@, fs),
            None => false,
        },
        CreatePartitionStep::Sizing => d.info.size > 0 && d.info.size <= d.info.max_size,
        CreatePartitionStep::Options => true,
    }
}

pub open spec fn create_step_after(s: CreatePartitionStep) -> CreatePartitionStep {
    match s {
        CreatePartitionStep::Basics => CreatePartitionStep::Sizing,
        CreatePartitionStep::Sizing => CreatePartitionStep::Options,
        CreatePartitionStep::Options => CreatePartitionStep::Options,
    }
}

pub open spec fn create_step_before(s: CreatePartitionStep) -> CreatePartitionStep {
    match s {
        CreatePartitionStep::Basics => CreatePartitionStep::Basics,
        CreatePartitionStep::Sizing => CreatePartitionStep::Basics,
        CreatePartitionStep::Options => CreatePartitionStep::Sizing,
    }
}

pub open spec fn create_step_number(s: CreatePartitionStep) -> int {
    match s {
        CreatePartitionStep::Basics => 1,
        CreatePartitionStep::Sizing => 2,
        CreatePartitionStep::Options => 3,
    }
}

/// The texts that the create dialog shows or fills in, in the user's language.
#[derive(Debug, Clone)]
pub struct CreatePartitionTexts {
    /// The name of a partition created without one.
    pub untitled: String,
    /// The error when protection is chosen without a password.
    pub password_required: String,
    /// The error when the confirmation differs from the password.
    pub password_mismatch: String,
}

impl CreatePartitionDialog {
    pub fn can_advance(&self, catalog: &PartitionTypeCatalog) -> (r: bool)
        ensures
            r == create_can_advance(*self, *catalog),
    {
        match self.step {
            CreatePartitionStep::Basics => {
                match common_partition_filesystem_type(catalog, self.info.table_type.as_str(), self.info.selected_partition_type_index) {
                    Some(fs) => has_available_tool(&self.filesystem_tools, fs.as_str()),
                    None => false,
                }
            },
            CreatePartitionStep::Sizing => self.info.size > 0 && self.info.size <= self.info.max_size,
            CreatePartitionStep::Options => true,
        }
    }

    /// Goes back one step, unless a creation runs.
    pub fn prev_step(&mut self)
        ensures
            *final(self) == if old(self).running {
                *old(self)
            } else {
                CreatePartitionDialog { step: create_step_before(old(self).step), ..*old(self) }
            },
    {
        if self.running {
            return;
        }
        self.step = match self.step {
            CreatePartitionStep::Basics => CreatePartitionStep::Basics,
            CreatePartitionStep::Sizing => CreatePartitionStep::Basics,
            CreatePartitionStep::Options => CreatePartitionStep::Sizing,
        };
    }

    /// Goes forward one step when no creation runs and the step allows it.
    pub fn next_step(&mut self, catalog: &PartitionTypeCatalog)
        ensures
            *final(self) == if old(self).running || !create_can_advance(*old(self), *catalog) {
                *old(self)
            } else {
                CreatePartitionDialog { step: create_step_after(old(self).step), ..*old(self) }
            },
    {
        if self.running {
            return;
        }
        if !self.can_advance(catalog) {
            return;
        }
        self.step = match self.step {
            CreatePartitionStep::Basics => CreatePartitionStep::Sizing,
            CreatePartitionStep::Sizing => CreatePartitionStep::Options,
            CreatePartitionStep::Options => CreatePartitionStep::Options,
        };
    }

    /// Jumps back to an earlier step (or stays), clearing the error; later steps are reached
    /// only through `next_step`.
    pub fn set_step(&mut self, step: CreatePartitionStep)
        ensures
            *final(self) == if !old(self).running && create_step_number(step) <= create_step_number(old(self).step) {
                CreatePartitionDialog { step, error: None, ..*old(self) }
            } else {
                *old(self)
            },
    {
        if self.running {
            return;
        }
        if step.number() <= self.step.number() {
            self.step = step;
            self.error = None;
        }
    }

    /// Starts the creation, unless one runs already. A protected partition needs a password,
    /// confirmed by the same text; otherwise the error is shown and nothing starts. The values
    /// handed on get the untitled name when the name is empty, and the filesystem type of the
    /// chosen partition type when none is set.
    pub fn begin_create(&mut self, catalog: &PartitionTypeCatalog, texts: &CreatePartitionTexts) -> (r: Option<CreatePartitionInfo>)
        ensures
            old(self).running ==> r is None && *final(self) == *old(self),
            !old(self).running && old(self).info.password_protected && old(self).info.password@.len() == 0 ==> {
                &&& r is None
                &&& *final(self) == (CreatePartitionDialog { error: final(self).error, ..*old(self) })
                &&& opt_text(final(self).error) == Some(texts.password_required@)
            },
            !old(self).running && old(self).info.password_protected && old(self).info.password@.len() > 0
                && old(self).info.password@ != old(self).info.confirmed_password@ ==> {
                &&& r is None
                &&& *final(self) == (CreatePartitionDialog { error: final(self).error, ..*old(self) })
                &&& opt_text(final(self).error) == Some(texts.password_mismatch@)
            },
            !old(self).running && (!old(self).info.password_protected
                || (old(self).info.password@.len() > 0 && old(self).info.password@ == old(self).info.confirmed_password@)) ==> {
                let old_info = old(self).info;
                let info = r->0;
                &&& r is Some
                &&& *final(self) == (CreatePartitionDialog { running: true, error: None, ..*old(self) })
                &&& info.name@ == if old_info.name@.len() == 0 { texts.untitled@ } else { old_info.name@ }
                &&& info.filesystem_type@ == if old_info.filesystem_type@.len() == 0 {
                    match common_fs_type(*catalog, old_info.table_type@, old_info.selected_partition_type_index as int) {
                        Some(fs) => fs,
                        None => Seq::<char>::empty(),
                    }
                } else {
                    old_info.filesystem_type@
                }
                &&& info.size == old_info.size
                &&& info.max_size == old_info.max_size
                &&& info.offset == old_info.offset
                &&& info.erase == old_info.erase
                &&& info.selected_partition_type_index == old_info.selected_partition_type_index
                &&& info.table_type@ == old_info.table_type@
                &&& info.size_text@ == old_info.size_text@
                &&& info.size_unit_index == old_info.size_unit_index
                &&& info.password_protected == old_info.password_protected
                &&& info.password@ == old_info.password@
                &&& info.confirmed_password@ == old_info.confirmed_password@
            },
    {
        if self.running {
            return None;
        }
        if self.info.password_protected {
            if self.info.password.as_str().unicode_len() == 0 {
                self.error = Some(texts.password_required.clone());
                return None;
            }
            if !str_equals(self.info.password.as_str(), self.info.confirmed_password.as_str()) {
                self.error = Some(texts.password_mismatch.clone());
                return None;
            }
        }
        self.running = true;
        self.error = None;
        let name = if self.info.name.as_str().unicode_len() == 0 {
            texts.untitled.clone()
        } else {
            self.info.name.clone()
        };
        let filesystem_type = if self.info.filesystem_type.as_str().unicode_len() == 0 {
            match common_partition_filesystem_type(catalog, self.info.table_type.as_str(), self.info.selected_partition_type_index) {
                Some(fs) => fs,
                None => String::new(),
            }
        } else {
            self.info.filesystem_type.clone()
        };
        Some(CreatePartitionInfo {
            name,
            size: self.info.size,
            max_size: self.info.max_size,
            offset: self.info.offset,
            erase: self.info.erase,
            selected_partition_type_index: self.info.selected_partition_type_index,
            table_type: self.info.table_type.clone(),
            size_text: self.info.size_text.clone(),
            size_unit_index: self.info.size_unit_index,
            password_protected: self.info.password_protected,
            password: self.info.password.clone(),
            confirmed_password: self.info.confirmed_password.clone(),
            filesystem_type,
        })
    }
}

/// The dialog that formats an existing partition.
#[derive(Debug, Clone)]
pub struct FormatPartitionDialog {
    /// The device path of the partition, if it has one.
    pub device_path: Option<String>,
    pub info: CreatePartitionInfo,
    pub step: FormatPartitionStep,
    pub running: bool,
    pub filesystem_tools: Vec<FilesystemToolInfo>,
}

/// What formatting a partition asks for.
#[derive(Debug, Clone, PartialEq, Eq)]
pub struct FormatRequest {
    pub device: String,
    pub filesystem_type: String,
    pub name: String,
    pub erase: bool,
}

pub open spec fn format_step_number(s: FormatPartitionStep) -> int {
    match s {
        FormatPartitionStep::Basics => 1,
        FormatPartitionStep::Options => 2,
    }
}

impl FormatPartitionDialog {
    /// Goes back to the first step, unless a format runs.
    pub fn prev_step(&mut self)
        ensures
            *final(self) == if old(self).running {
                *old(self)
            } else {
                FormatPartitionDialog { step: FormatPartitionStep::Basics, ..*old(self) }
            },
    {
        if self.running {
            return;
        }
        self.step = FormatPartitionStep::Basics;
    }

    /// Goes on to the options, unless a format runs.
    pub fn next_step(&mut self)
        ensures
            *final(self) == if old(self).running {
                *old(self)
            } else {
                FormatPartitionDialog { step: FormatPartitionStep::Options, ..*old(self) }
            },
    {
        if self.running {
            return;
        }
        self.step = FormatPartitionStep::Options;
    }

    /// Jumps back to an earlier step (or stays).
    pub fn set_step(&mut self, step: FormatPartitionStep)
        ensures
            *final(self) == if !old(self).running && format_step_number(step) <= format_step_number(old(self).step) {
                FormatPartitionDialog { step, ..*old(self) }
            } else {
                *old(self)
            },
    {
        if self.running {
            return;
        }
        if step.number() <= self.step.number() {
            self.step = step;
        }
    }

    /// Starts formatting, unless a format runs: the dialog is marked running, and the request
    /// is given back, or the reason it cannot be made (no filesystem type for the chosen
    /// partition type, or no device path).
    pub fn begin_format(&mut self, catalog: &PartitionTypeCatalog) -> (r: Option<Result<FormatRequest, String>>)
        ensures
            old(self).running ==> r is None && *final(self) == *old(self),
            !old(self).running ==> {
                let info = old(self).info;
                let fs = common_fs_type(*catalog, info.table_type@, info.selected_partition_type_index as int);
                &&& *final(self) == (FormatPartitionDialog { running: true, ..*old(self) })
                &&& r is Some
                &&& match r->0 {
                    Ok(req) => {
                        &&& fs == Some(req.filesystem_type@)
                        &&& opt_text(old(self).device_path) == Some(req.device@)
                        &&& req.name@ == info.name@
                        &&& req.erase == info.erase
                    },
                    Err(e) => if fs is None {
                        e@ == "Invalid filesystem selection"@
                    } else {
                        old(self).device_path is None && e@ == "Volume has no device path"@
                    },
                }
            },
    {
        if self.running {
            return None;
        }
        self.running = true;
        let fs = match common_partition_filesystem_type(catalog, self.info.table_type.as_str(), self.info.selected_partition_type_index) {
            Some(fs) => fs,
            None => { return Some(Err(String::from_str("Invalid filesystem selection"))); },
        };
        let device = match &self.device_path {
            Some(d) => d.clone(),
            None => { return Some(Err(String::from_str("Volume has no device path"))); },
        };
        Some(Ok(FormatRequest { device, filesystem_type: fs, name: self.info.name.clone(), erase: self.info.erase }))
    }
}

/// The dialog that resizes a partition within the sizes it can take.
#[derive(Debug, Clone)]
pub struct ResizePartitionDialog {
    /// The device path of the partition, if it has one.
    pub device_path: Option<String>,
    pub step: ResizePartitionStep,
    pub min_size_bytes: u64,
    pub max_size_bytes: u64,
    pub new_size_bytes: u64,
    pub running: bool,
}

pub open spec fn resize_step_number(s: ResizePartitionStep) -> int {
    match s {
        ResizePartitionStep::Sizing => 1,
        ResizePartitionStep::Review => 2,
    }
}

/// The smallest range of sizes in which a resize is offered, in bytes.
pub const MIN_RESIZE_RANGE: u64 = 1024;

impl ResizePartitionDialog {
    /// Goes back to the sizing step, unless a resize runs.
    pub fn prev_step(&mut self)
        ensures
            *final(self) == if old(self).running {
                *old(self)
            } else {
                ResizePartitionDialog { step: ResizePartitionStep::Sizing, ..*old(self) }
            },
    {
        if self.running {
            return;
        }
        self.step = ResizePartitionStep::Sizing;
    }

    /// Goes on to the review, unless a resize runs.
    pub fn next_step(&mut self)
        ensures
            *final(self) == if old(self).running {
                *old(self)
            } else {
                ResizePartitionDialog { step: ResizePartitionStep::Review, ..*old(self) }
            },
    {
        if self.running {
            return;
        }
        self.step = ResizePartitionStep::Review;
    }

    /// Jumps back to an earlier step (or stays).
    pub fn set_step(&mut self, step: ResizePartitionStep)
        ensures
            *final(self) == if !old(self).running && resize_step_number(step) <= resize_step_number(old(self).step) {
                ResizePartitionDialog { step, ..*old(self) }
            } else {
                *old(self)
            },
    {
        if self.running {
            return;
        }
        if step.number() <= self.step.number() {
            self.step = step;
        }
    }

    /// Sets the new size, held within the smallest and largest sizes.
    pub fn set_size(&mut self, size: u64)
        requires
            old(self).min_size_bytes <= old(self).max_size_bytes,
        ensures
            *final(self) == (ResizePartitionDialog {
                new_size_bytes: if size < old(self).min_size_bytes {
                    old(self).min_size_bytes
                } else if size > old(self).max_size_bytes {
                    old(self).max_size_bytes
                } else {
                    size
                },
                ..*old(self)
            }),
    {
        self.new_size_bytes = if size < self.min_size_bytes {
            self.min_size_bytes
        } else if size > self.max_size_bytes {
            self.max_size_bytes
        } else {
            size
        };
    }

    /// Starts the resize, unless one runs or the range of sizes is under `MIN_RESIZE_RANGE`:
    /// the dialog is marked running and the new size is given back.
    pub fn confirm(&mut self) -> (r: Option<u64>)
        ensures
            (old(self).running || old(self).max_size_bytes - old(self).min_size_bytes < MIN_RESIZE_RANGE)
                ==> r is None && *final(self) == *old(self),
            !(old(self).running || old(self).max_size_bytes - old(self).min_size_bytes < MIN_RESIZE_RANGE) ==> {
                &&& r == Some(old(self).new_size_bytes)
                &&& *final(self) == (ResizePartitionDialog { running: true, ..*old(self) })
            },
    {
        if self.running {
            return None;
        }
        if self.max_size_bytes.saturating_sub(self.min_size_bytes) < MIN_RESIZE_RANGE {
            return None;
        }
        self.running = true;
        Some(self.new_size_bytes)
    }
}

} // verus!
