//! The dialogs that act on a filesystem: its label, a check or repair, and taking ownership.
use vstd::prelude::*;
use vstd::string::StringExecFns;
use crate::volume_tree::{opt_text, UiVolume};
use crate::volumes_control::TargetSource;

verus! {

/// The volume a filesystem dialog acts on, and where it was taken from.
#[derive(Debug, Clone)]
pub struct FilesystemTarget {
    pub source: TargetSource,
    pub device_path: Option<String>,
}

/// The target for the volume `node` taken from `source`.
pub fn filesystem_target_for(source: TargetSource, node: &UiVolume) -> (t: FilesystemTarget)
    ensures
        t.source == source,
        opt_text(t.device_path) == opt_text(node.volume.device_path),
{
    FilesystemTarget { source, device_path: node.volume.device_path.clone() }
}

/// The device of a target, or why there is none.
pub open spec fn target_device(t: FilesystemTarget) -> Result<Seq<char>, Seq<char>> {
    match t.device_path {
        Some(d) => Ok(d@),
        None => Err("Volume has no device path"@),
    }
}

fn device_or_error(t: &FilesystemTarget) -> (r: Result<String, String>)
    ensures
        match r {
            Ok(d) => target_device(*t) == Ok::<Seq<char>, Seq<char>>(d@),
            Err(e) => target_device(*t) == Err::<Seq<char>, Seq<char>>(e@),
        },
{
    match &t.device_path {
        Some(d) => Ok(d.clone()),
        None => Err(String::from_str("Volume has no device path")),
    }
}

pub open spec fn result_view(r: Result<String, String>) -> Result<Seq<char>, Seq<char>> {
    match r {
        Ok(d) => Ok(d@),
        Err(e) => Err(e@),
    }
}

/// The dialog that sets a filesystem's label.
#[derive(Debug, Clone)]
pub struct EditFilesystemLabelDialog {
    pub target: FilesystemTarget,
    pub label: String,
    pub running: bool,
}

/// Set the label of the filesystem on `device`.
#[derive(Debug, Clone, PartialEq, Eq)]
pub struct LabelRequest {
    pub device: String,
    pub label: String,
}

impl EditFilesystemLabelDialog {
    /// The dialog for a target, with an empty label.
    pub fn new(target: FilesystemTarget) -> (d: Self)
        ensures
            d.target == target,
            d.label@.len() == 0,
            !d.running,
    {
        EditFilesystemLabelDialog { target, label: String::new(), running: false }
    }

    pub fn set_label(&mut self, label: String)
        ensures
            *final(self) == (EditFilesystemLabelDialog { label, ..*old(self) }),
    {
        self.label = label;
    }

    /// Starts setting the label, unless that runs already: the dialog is marked running, and
    /// the request is given back, or the error when the volume has no device path.
    pub fn confirm(&mut self) -> (r: Option<Result<LabelRequest, String>>)
        ensures
            old(self).running ==> r is None && *final(self) == *old(self),
            !old(self).running ==> {
                &&& *final(self) == (EditFilesystemLabelDialog { running: true, ..*old(self) })
                &&& r is Some
                &&& match (r->0, target_device(old(self).target)) {
                    (Ok(req), Ok(d)) => req.device@ == d && req.label@ == old(self).label@,
                    (Err(e), Err(msg)) => e@ == msg,
                    _ => false,
                }
            },
    {
        if self.running {
            return None;
        }
        self.running = true;
        match device_or_error(&self.target) {
            Ok(device) => Some(Ok(LabelRequest { device, label: self.label.clone() })),
            Err(e) => Some(Err(e)),
        }
    }
}

/// What a confirmed filesystem action does.
#[derive(Debug, Clone, Copy, PartialEq, Eq, Structural)]
pub enum FilesystemCheck {
    Check,
    Repair,
}

/// The dialog that confirms a check or a repair of a filesystem.
#[derive(Debug, Clone)]
pub struct ConfirmActionDialog {
    pub title: String,
    pub body: String,
    pub target: FilesystemTarget,
    pub action: FilesystemCheck,
    pub running: bool,
}

impl ConfirmActionDialog {
    /// Starts the action, unless it runs already: the dialog is marked running, and the device
    /// to act on is given back, or the error when the volume has no device path.
    pub fn confirm(&mut self) -> (r: Option<Result<String, String>>)
        ensures
            old(self).running ==> r is None && *final(self) == *old(self),
            !old(self).running ==> {
                &&& *final(self) == (ConfirmActionDialog { running: true, ..*old(self) })
                &&& r matches Some(res) && result_view(res) == target_device(old(self).target)
            },
    {
        if self.running {
            return None;
        }
        self.running = true;
        Some(device_or_error(&self.target))
    }
}

/// The dialog that gives a filesystem to the user.
#[derive(Debug, Clone)]
pub struct TakeOwnershipDialog {
    pub target: FilesystemTarget,
    pub recursive: bool,
    pub running: bool,
}

impl TakeOwnershipDialog {
    /// The dialog for a target; ownership is taken of everything inside too.
    pub fn new(target: FilesystemTarget) -> (d: Self)
        ensures
            d.target == target,
            d.recursive,
            !d.running,
    {
        TakeOwnershipDialog { target, recursive: true, running: false }
    }

    pub fn set_recursive(&mut self, recursive: bool)
        ensures
            *final(self) == (TakeOwnershipDialog { recursive, ..*old(self) }),
    {
        self.recursive = recursive;
    }

    /// Starts taking ownership, unless that runs already: the dialog is marked running and
    /// the device (a placeholder path without one) and whether to recurse are given back.
    pub fn confirm(&mut self) -> (r: Option<(String, bool)>)
        ensures
            old(self).running ==> r is None && *final(self) == *old(self),
            !old(self).running ==> {
                &&& *final(self) == (TakeOwnershipDialog { running: true, ..*old(self) })
                &&& r matches Some((device, recursive)) && recursive == old(self).recursive
                    && device@ == match old(self).target.device_path {
                        Some(d) => d@,
                        None => "/dev/unknown"@,
                    }
            },
    {
        if self.running {
            return None;
        }
        self.running = true;
        let device = match &self.target.device_path {
            Some(d) => d.clone(),
            None => String::from_str("/dev/unknown"),
        };
        Some((device, self.recursive))
    }
}

} // verus!
