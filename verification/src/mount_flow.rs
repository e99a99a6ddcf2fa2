//! Mounting and unmounting volumes inside a segment, and what follows an unmount: a reload,
//! the dialog of the processes that keep the device busy, or the error.
use vstd::prelude::*;
use vstd::string::StringExecFns;
use crate::volume_tree::{find_in, find_volume_in_ui_tree, first_mount, first_mount_point, opt_text, UiVolume};
use crate::volumes_control::VolumesControl;

verus! {

impl<S, D, P> VolumesControl<S, D, P> {
    /// The volume `device_path` of the drive, to mount or unmount it: its device (the path
    /// itself when the volume has none) and its first mount point.
    pub fn child_target(&self, device_path: &str) -> (r: Option<(String, Option<String>)>)
        ensures
            match find_in(self.volumes@, device_path@) {
                Some(n) => r matches Some((d, mp))
                    && d@ == match n.volume.device_path {
                        Some(p) => p@,
                        None => device_path@,
                    }
                    && opt_text(mp) == first_mount_point(n.volume),
                None => r is None,
            },
    {
        match find_volume_in_ui_tree(self.volumes.as_slice(), device_path) {
            Some(n) => {
                let device = match &n.volume.device_path {
                    Some(p) => p.clone(),
                    None => String::from_str(device_path),
                };
                Some((device, first_mount(&n.volume)))
            },
            None => None,
        }
    }
}

/// What follows an unmount.
#[derive(Debug, Clone, PartialEq, Eq)]
pub enum UnmountOutcome<Proc> {
    /// Reload the drives, keeping the volume selected.
    Reload { keep_selected: String },
    /// The device is busy: show the processes that hold it; retrying unmounts `device_path`.
    Busy { device: String, mount_point: String, processes: Vec<Proc>, device_path: String },
    /// Show the error.
    Failed(String),
    /// A retry failed for another reason: nothing is shown.
    Logged,
}

/// What follows an unmount of `device` (the volume `device_path`, first mounted at
/// `mount_point`) that reported `success`, the processes that blocked it and an error: a
/// success reloads; blocking processes show the busy dialog (with an empty mount point when
/// it is unknown); any other failure shows its error ("Unknown unmount failure" without one),
/// except on a retry, which shows nothing.
pub fn unmount_outcome<Proc>(
    success: bool,
    blocking_processes: Vec<Proc>,
    error: Option<String>,
    device: String,
    mount_point: Option<String>,
    device_path: String,
    retry: bool,
) -> (r: UnmountOutcome<Proc>)
    ensures
        success ==> (r matches UnmountOutcome::Reload { keep_selected } && keep_selected == device_path),
        !success && blocking_processes@.len() > 0 ==> (r matches UnmountOutcome::Busy { device: d, mount_point: m, processes, device_path: p }
            && d == device && p == device_path && processes == blocking_processes
            && m@ == match mount_point {
                Some(x) => x@,
                None => Seq::empty(),
            }),
        !success && blocking_processes@.len() == 0 && retry ==> r == UnmountOutcome::<Proc>::Logged,
        !success && blocking_processes@.len() == 0 && !retry ==> (r matches UnmountOutcome::Failed(e)
            && e@ == match error {
                Some(x) => x@,
                None => "Unknown unmount failure"@,
            }),
{
    if success {
        UnmountOutcome::Reload { keep_selected: device_path }
    } else if blocking_processes.len() > 0 {
        let mount_point = match mount_point {
            Some(m) => m,
            None => String::new(),
        };
        UnmountOutcome::Busy { device, mount_point, processes: blocking_processes, device_path }
    } else if retry {
        UnmountOutcome::Logged
    } else {
        UnmountOutcome::Failed(match error {
            Some(e) => e,
            None => String::from_str("Unknown unmount failure"),
        })
    }
}

} // verus!
