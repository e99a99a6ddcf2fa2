//! State of the Btrfs management page of one filesystem. Subvolumes are carried with their ids
//! (type parameter `S` for the rest), deleted subvolumes as they come (`D`).
use vstd::prelude::*;
use std::collections::HashMap;
use crate::text::str_equals;

verus! {

broadcast use vstd::std_specs::hash::group_hash_axioms;

/// The first subvolume with id `id`, by its position.
pub open spec fn first_with_id<S>(list: Seq<(u64, S)>, id: u64) -> Option<int> {
    if exists|i: int| 0 <= i < list.len() && (#[trigger] list[i]).0 == id {
        Some(choose|i: int| 0 <= i < list.len() && (#[trigger] list[i]).0 == id
            && forall|j: int| 0 <= j < i ==> (#[trigger] list[j]).0 != id)
    } else {
        None
    }
}

/// The first subvolume with id `id`.
pub fn find_subvolume<S>(list: &Vec<(u64, S)>, id: u64) -> (r: Option<&S>)
    ensures
        match r {
            Some(s) => first_with_id(list@, id) matches Some(i) && *s == list@[i].1,
            None => first_with_id(list@, id) is None,
        },
{
    let mut i: usize = 0;
    while i < list.len()
        invariant
            i <= list@.len(),
            forall|j: int| 0 <= j < i ==> (#[trigger] list@[j]).0 != id,
        decreases list.len() - i,
    {
        if list[i].0 == id {
            proof {
                let ii = i as int;
                assert(0 <= ii < list@.len() && list@[ii].0 == id && forall|j: int| 0 <= j < ii ==> (#[trigger] list@[j]).0 != id);
                let k = first_with_id(list@, id)->0;
                if k < ii {
                    assert(list@[k].0 != id);
                } else if k > ii {
                    assert(list@[ii].0 != id);
                }
            }
            return Some(&list[i].1);
        }
        i = i + 1;
    }
    None
}

pub open spec fn opt_text(o: Option<String>) -> Option<Seq<char>> {
    match o {
        Some(s) => Some(s@),
        None => None,
    }
}

/// State of the Btrfs management page.
#[derive(Debug)]
pub struct BtrfsState<S, D> {
    /// The subvolumes are being loaded.
    pub loading: bool,
    /// The subvolumes with their ids: not loaded yet, loaded, or the load error.
    pub subvolumes: Option<Result<Vec<(u64, S)>, String>>,
    /// Where the filesystem is mounted.
    pub mount_point: Option<String>,
    /// The block device the filesystem is managed through.
    pub block_path: Option<String>,
    /// The bytes in use, or the error of reading them.
    pub used_space: Option<Result<u64, String>>,
    /// The usage is being loaded.
    pub loading_usage: bool,
    /// Which subvolumes show their snapshots, by id.
    pub expanded_subvolumes: HashMap<u64, bool>,
    pub default_subvolume_id: Option<u64>,
    /// Deleted subvolumes that await cleanup, once loaded.
    pub deleted_subvolumes: Option<Vec<D>>,
    pub show_deleted: bool,
    /// The subvolume whose properties are shown.
    pub selected_subvolume: Option<S>,
    pub show_properties_dialog: bool,
}

impl<S, D> BtrfsState<S, D> {
    /// The state is that of a filesystem mounted at `mount_point` and managed through
    /// `block_path`, with nothing loaded.
    pub open spec fn fresh_for(self, mount_point: Option<Seq<char>>, block_path: Option<Seq<char>>) -> bool {
        &&& !self.loading
        &&& self.subvolumes is None
        &&& opt_text(self.mount_point) == mount_point
        &&& opt_text(self.block_path) == block_path
        &&& self.used_space is None
        &&& !self.loading_usage
        &&& self.expanded_subvolumes@ == Map::<u64, bool>::empty()
        &&& self.default_subvolume_id is None
        &&& self.deleted_subvolumes is None
        &&& !self.show_deleted
        &&& self.selected_subvolume is None
        &&& !self.show_properties_dialog
    }

    /// The state of a filesystem mounted at `mount_point` and managed through `block_path`, with
    /// nothing loaded.
    pub fn new(mount_point: Option<String>, block_path: Option<String>) -> (s: Self)
        ensures
            !s.loading,
            s.subvolumes is None,
            s.mount_point == mount_point,
            s.block_path == block_path,
            s.used_space is None,
            !s.loading_usage,
            s.expanded_subvolumes@ == Map::<u64, bool>::empty(),
            s.default_subvolume_id is None,
            s.deleted_subvolumes is None,
            !s.show_deleted,
            s.selected_subvolume is None,
            !s.show_properties_dialog,
            s.fresh_for(opt_text(mount_point), opt_text(block_path)),
    {
        BtrfsState {
            loading: false,
            subvolumes: None,
            mount_point,
            block_path,
            used_space: None,
            loading_usage: false,
            expanded_subvolumes: HashMap::new(),
            default_subvolume_id: None,
            deleted_subvolumes: None,
            show_deleted: false,
            selected_subvolume: None,
            show_properties_dialog: false,
        }
    }

    /// Whether this state is that of the filesystem mounted at `mount_point`; results for another
    /// filesystem are dropped.
    pub fn shows(&self, mount_point: &str) -> (r: bool)
        ensures
            r == (opt_text(self.mount_point) == Some(mount_point@)),
    {
        match &self.mount_point {
            Some(m) => str_equals(m.as_str(), mount_point),
            None => false,
        }
    }

    /// Stores the loaded subvolumes of the filesystem at `mount_point`.
    pub fn subvolumes_loaded(&mut self, mount_point: &str, result: Result<Vec<(u64, S)>, String>)
        ensures
            *final(self) == if opt_text(old(self).mount_point) == Some(mount_point@) {
                BtrfsState { loading: false, subvolumes: Some(result), ..*old(self) }
            } else {
                *old(self)
            },
    {
        if self.shows(mount_point) {
            self.loading = false;
            self.subvolumes = Some(result);
        }
    }

    /// Stores the loaded usage.
    pub fn usage_loaded(&mut self, used_space: Result<u64, String>)
        ensures
            *final(self) == (BtrfsState { loading_usage: false, used_space: Some(used_space), ..*old(self) }),
    {
        self.loading_usage = false;
        self.used_space = Some(used_space);
    }

    /// Whether the snapshots of a subvolume are shown; subvolumes start collapsed.
    pub fn is_expanded(&self, subvolume_id: u64) -> (r: bool)
        ensures
            r == (self.expanded_subvolumes@.contains_key(subvolume_id) && self.expanded_subvolumes@[subvolume_id]),
    {
        match self.expanded_subvolumes.get(&subvolume_id) {
            Some(e) => *e,
            None => false,
        }
    }

    /// Shows or hides the snapshots of a subvolume of the filesystem at `mount_point`.
    pub fn toggle_subvolume_expanded(&mut self, mount_point: &str, subvolume_id: u64)
        ensures
            opt_text(old(self).mount_point) == Some(mount_point@) ==> {
                &&& final(self).expanded_subvolumes@ == old(self).expanded_subvolumes@.insert(
                    subvolume_id,
                    !(old(self).expanded_subvolumes@.contains_key(subvolume_id) && old(self).expanded_subvolumes@[subvolume_id]),
                )
                &&& *final(self) == (BtrfsState { expanded_subvolumes: final(self).expanded_subvolumes, ..*old(self) })
            },
            opt_text(old(self).mount_point) != Some(mount_point@) ==> *final(self) == *old(self),
    {
        if self.shows(mount_point) {
            let expanded = self.is_expanded(subvolume_id);
            self.expanded_subvolumes.insert(subvolume_id, !expanded);
        }
    }

    /// Stores the id of the default subvolume of the filesystem at `mount_point`; a failure to
    /// read it changes nothing.
    pub fn default_subvolume_loaded(&mut self, mount_point: &str, result: Result<u64, String>)
        ensures
            *final(self) == match result {
                Ok(id) => if opt_text(old(self).mount_point) == Some(mount_point@) {
                    BtrfsState { default_subvolume_id: Some(id), ..*old(self) }
                } else {
                    *old(self)
                },
                Err(_) => *old(self),
            },
    {
        if self.shows(mount_point) {
            if let Ok(id) = result {
                self.default_subvolume_id = Some(id);
            }
        }
    }

    /// Closes the properties of the filesystem at `mount_point`.
    pub fn close_properties(&mut self, mount_point: &str)
        ensures
            *final(self) == if opt_text(old(self).mount_point) == Some(mount_point@) {
                BtrfsState { show_properties_dialog: false, selected_subvolume: None, ..*old(self) }
            } else {
                *old(self)
            },
    {
        if self.shows(mount_point) {
            self.show_properties_dialog = false;
            self.selected_subvolume = None;
        }
    }

    /// Stores the loaded deleted subvolumes of the filesystem at `mount_point`; a failure to
    /// load them changes nothing.
    pub fn deleted_subvolumes_loaded(&mut self, mount_point: &str, result: Result<Vec<D>, String>)
        ensures
            *final(self) == match result {
                Ok(deleted) => if opt_text(old(self).mount_point) == Some(mount_point@) {
                    BtrfsState { deleted_subvolumes: Some(deleted), ..*old(self) }
                } else {
                    *old(self)
                },
                Err(_) => *old(self),
            },
    {
        if self.shows(mount_point) {
            if let Ok(deleted) = result {
                self.deleted_subvolumes = Some(deleted);
            }
        }
    }

    /// Shows or hides the deleted subvolumes of the filesystem at `mount_point`; gives whether
    /// they are now shown without having been loaded, so that they are to be loaded.
    pub fn toggle_show_deleted(&mut self, mount_point: &str) -> (load: bool)
        ensures
            opt_text(old(self).mount_point) == Some(mount_point@) ==> {
                &&& *final(self) == (BtrfsState { show_deleted: !old(self).show_deleted, ..*old(self) })
                &&& load == (!old(self).show_deleted && old(self).deleted_subvolumes is None)
            },
            opt_text(old(self).mount_point) != Some(mount_point@) ==> !load && *final(self) == *old(self),
    {
        if self.shows(mount_point) {
            self.show_deleted = !self.show_deleted;
            self.show_deleted && self.deleted_subvolumes.is_none()
        } else {
            false
        }
    }
}

impl<S: Clone, D> BtrfsState<S, D> {
    /// Shows the properties of the loaded subvolume with id `subvolume_id`; without such a
    /// subvolume nothing changes.
    pub fn show_properties(&mut self, subvolume_id: u64)
        ensures
            match old(self).subvolumes {
                Some(Ok(list)) => match first_with_id(list@, subvolume_id) {
                    Some(i) => {
                        &&& final(self).show_properties_dialog
                        &&& final(self).selected_subvolume matches Some(s) && cloned(list@[i].1, s)
                        &&& *final(self) == (BtrfsState {
                            show_properties_dialog: true,
                            selected_subvolume: final(self).selected_subvolume,
                            ..*old(self)
                        })
                    },
                    None => *final(self) == *old(self),
                },
                _ => *final(self) == *old(self),
            },
    {
        let selected = match &self.subvolumes {
            Some(Ok(list)) => match find_subvolume(list, subvolume_id) {
                Some(s) => Some(s.clone()),
                None => None,
            },
            _ => None,
        };
        if let Some(s) = selected {
            self.selected_subvolume = Some(s);
            self.show_properties_dialog = true;
        }
    }
}

} // verus!
