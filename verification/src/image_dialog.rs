//! The disk image dialogs: creating an empty image, attaching one, and the long-running
//! operations that write or restore an image, whose outcomes may arrive late.
use vstd::prelude::*;
use vstd::string::StringExecFns;
use crate::ids::new_random_id;
use crate::volume_tree::VolumeInfo;
use crate::text::{contains_text, str_equals, text_occurs, to_lowercase, trim, trimmed, unicode_lowercase};

verus! {

pub open spec fn opt_text(o: Option<String>) -> Option<Seq<char>> {
    match o {
        Some(s) => Some(s@),
        None => None,
    }
}

/// The size a new disk image starts with, in bytes.
pub const DEFAULT_IMAGE_SIZE: u64 = 16777216;

/// The dialog that creates an empty disk image file.
#[derive(Debug, Clone)]
pub struct NewDiskImageDialog {
    pub path: String,
    pub size_bytes: u64,
    pub running: bool,
    pub error: Option<String>,
}

impl NewDiskImageDialog {
    /// An empty form for an image of the default size.
    pub fn new() -> (d: Self)
        ensures
            d.path@ == Seq::<char>::empty(),
            d.size_bytes == DEFAULT_IMAGE_SIZE,
            !d.running,
            d.error is None,
    {
        NewDiskImageDialog { path: String::new(), size_bytes: DEFAULT_IMAGE_SIZE, running: false, error: None }
    }

    /// Starts creating the image, unless that runs already: the dialog is marked running and
    /// gives the path and size to create, or the error when the path is blank.
    pub fn begin_create(&mut self) -> (r: Option<Result<(String, u64), String>>)
        ensures
            old(self).running ==> r is None && *final(self) == *old(self),
            !old(self).running ==> {
                &&& *final(self) == (NewDiskImageDialog { running: true, error: None, ..*old(self) })
                &&& r is Some
                &&& if trimmed(old(self).path@).len() == 0 {
                    r->0 matches Err(e) && e@ == "Destination path is required"@
                } else {
                    r->0 matches Ok((path, size)) && path@ == old(self).path@ && size == old(self).size_bytes
                }
            },
    {
        if self.running {
            return None;
        }
        self.running = true;
        self.error = None;
        if trim(self.path.as_str()).unicode_len() == 0 {
            return Some(Err(String::from_str("Destination path is required")));
        }
        Some(Ok((self.path.clone(), self.size_bytes)))
    }

    /// Takes the outcome of creating the image; gives whether the dialog closes (on success).
    /// A failure is shown in the dialog.
    pub fn complete(&mut self, result: Result<(), String>) -> (close: bool)
        ensures
            match result {
                Ok(()) => close && *final(self) == (NewDiskImageDialog { running: false, ..*old(self) }),
                Err(e) => !close && *final(self) == (NewDiskImageDialog { running: false, error: Some(e), ..*old(self) }),
            },
    {
        self.running = false;
        match result {
            Ok(()) => true,
            Err(e) => {
                self.error = Some(e);
                false
            },
        }
    }
}

/// The dialog that attaches a disk image file as a loop device.
#[derive(Debug, Clone)]
pub struct AttachDiskImageDialog {
    pub path: String,
    pub running: bool,
    pub error: Option<String>,
}

/// The device path of a loop device by its name.
pub fn loop_device_path(device_name: &str) -> (p: String)
    ensures
        p@ == "/dev/"@ + device_name@,
{
    let mut p = String::from_str("/dev/");
    p.append(device_name);
    p
}

/// The message after attaching an image, by whether mounting it worked.
pub fn attach_message(mounted: bool) -> (m: &'static str)
    ensures
        m@ == if mounted {
            "Attached and mounted image."@
        } else {
            "Attached image. If it contains partitions, select and mount them from the main view."@
        },
{
    if mounted {
        "Attached and mounted image."
    } else {
        "Attached image. If it contains partitions, select and mount them from the main view."
    }
}

impl AttachDiskImageDialog {
    pub fn new() -> (d: Self)
        ensures
            d.path@ == Seq::<char>::empty(),
            !d.running,
            d.error is None,
    {
        AttachDiskImageDialog { path: String::new(), running: false, error: None }
    }

    /// Starts attaching, unless that runs already: the dialog is marked running and gives the
    /// image path, or the error when the path is blank.
    pub fn begin_attach(&mut self) -> (r: Option<Result<String, String>>)
        ensures
            old(self).running ==> r is None && *final(self) == *old(self),
            !old(self).running ==> {
                &&& *final(self) == (AttachDiskImageDialog { running: true, error: None, ..*old(self) })
                &&& r is Some
                &&& if trimmed(old(self).path@).len() == 0 {
                    r->0 matches Err(e) && e@ == "Image file path is required"@
                } else {
                    r->0 matches Ok(path) && path@ == old(self).path@
                }
            },
    {
        if self.running {
            return None;
        }
        self.running = true;
        self.error = None;
        if trim(self.path.as_str()).unicode_len() == 0 {
            return Some(Err(String::from_str("Image file path is required")));
        }
        Some(Ok(self.path.clone()))
    }

    /// Takes the outcome of attaching; gives the message to show when it worked (the dialog
    /// then closes). A failure is shown in the dialog.
    pub fn complete(&mut self, result: Result<String, String>) -> (shown: Option<String>)
        ensures
            match result {
                Ok(message) => shown == Some(message) && *final(self) == (AttachDiskImageDialog { running: false, ..*old(self) }),
                Err(e) => shown is None && *final(self) == (AttachDiskImageDialog { running: false, error: Some(e), ..*old(self) }),
            },
    {
        self.running = false;
        match result {
            Ok(message) => Some(message),
            Err(e) => {
                self.error = Some(e);
                None
            },
        }
    }
}

/// What an image operation does.
#[derive(Debug, Clone, Copy, PartialEq, Eq, Structural)]
pub enum ImageOperationKind {
    CreateFromDrive,
    RestoreToDrive,
    CreateFromPartition,
    RestoreToPartition,
}

/// The dialog of an image operation on a drive (`Dr`) or a partition (`Pa`), carried as they
/// come. A start is requested under a fresh request id; the operation it creates is then known
/// by its operation id, and outcomes for other ids are stale.
#[derive(Debug, Clone)]
pub struct ImageOperationDialog<Dr, Pa> {
    pub kind: ImageOperationKind,
    pub drive: Dr,
    pub partition: Option<Pa>,
    pub image_path: String,
    pub running: bool,
    pub operation_id: Option<String>,
    pub request_id: Option<u128>,
    pub cancel_requested: bool,
    /// Bytes done, bytes in all, and speed.
    pub progress: Option<(u64, u64, u64)>,
    pub error: Option<String>,
}

/// What becomes of a started operation.
#[derive(Debug, Clone, PartialEq, Eq)]
pub enum StartedOutcome {
    /// The start is stale; an operation it created is to be cancelled and released.
    Discard(Option<String>),
    /// The operation runs; when a cancel was asked for meanwhile, it is to be cancelled.
    Running { cancel: Option<String> },
    /// The operation could not start; the error is shown.
    Failed,
}

/// What asking to cancel leads to.
#[derive(Debug, Clone, PartialEq, Eq)]
pub enum CancelOutcome {
    /// Nothing runs: the dialog closes.
    Close,
    /// Cancel the running operation.
    CancelOperation(String),
    /// The operation is not known yet; it is cancelled as soon as it starts.
    Pending,
}

/// What the end of an operation leads to.
#[derive(Debug, Clone, Copy, PartialEq, Eq, Structural)]
pub enum CompleteOutcome {
    /// The end is stale and changes nothing.
    Ignored,
    /// The operation worked; its success is shown and the drives are reloaded.
    Succeeded,
    /// The operation failed or was cancelled; the dialog shows why.
    Failed,
}

/// The message shown when an operation ends with `error`: a cancellation reads as
/// `cancelled_text`.
pub open spec fn failure_text(error: Seq<char>, cancelled_text: Seq<char>) -> Seq<char> {
    if text_occurs(unicode_lowercase(error), "cancelled"@) { cancelled_text } else { error }
}

impl<Dr, Pa> ImageOperationDialog<Dr, Pa> {
    /// A dialog for an operation, with nothing entered or running.
    pub fn new(kind: ImageOperationKind, drive: Dr, partition: Option<Pa>) -> (d: Self)
        ensures
            d.kind == kind,
            d.drive == drive,
            d.partition == partition,
            d.image_path@ == Seq::<char>::empty(),
            !d.running,
            d.operation_id is None,
            d.request_id is None,
            !d.cancel_requested,
            d.progress is None,
            d.error is None,
    {
        ImageOperationDialog {
            kind,
            drive,
            partition,
            image_path: String::new(),
            running: false,
            operation_id: None,
            request_id: None,
            cancel_requested: false,
            progress: None,
            error: None,
        }
    }

    /// Requests the start of the operation, unless it runs: an image path is required. The
    /// request gets a fresh id, which is given back.
    pub fn start(&mut self) -> (r: Option<u128>)
        ensures
            old(self).running ==> r is None && *final(self) == *old(self),
            !old(self).running && trimmed(old(self).image_path@).len() == 0 ==> {
                &&& r is None
                &&& opt_text(final(self).error) == Some("Image path is required"@)
                &&& *final(self) == (ImageOperationDialog { error: final(self).error, ..*old(self) })
            },
            !old(self).running && trimmed(old(self).image_path@).len() > 0 ==> {
                &&& r is Some
                &&& *final(self) == (ImageOperationDialog {
                    request_id: r,
                    cancel_requested: false,
                    running: true,
                    error: None,
                    ..*old(self)
                })
            },
    {
        if self.running {
            return None;
        }
        if trim(self.image_path.as_str()).unicode_len() == 0 {
            self.error = Some(String::from_str("Image path is required"));
            return None;
        }
        let id = new_random_id();
        self.request_id = Some(id);
        self.cancel_requested = false;
        self.running = true;
        self.error = None;
        Some(id)
    }

    /// Takes the outcome of the start requested under `request_id`. A start for another request,
    /// or when nothing runs, is stale. Otherwise the operation id is kept (and given back for
    /// cancelling when a cancel was asked for), or the failure is shown.
    pub fn started(&mut self, request_id: u128, result: Result<String, String>) -> (r: StartedOutcome)
        ensures
            !(old(self).running && old(self).request_id == Some(request_id)) ==> {
                &&& *final(self) == *old(self)
                &&& r == StartedOutcome::Discard(match result { Ok(op) => Some(op), Err(_) => None })
            },
            old(self).running && old(self).request_id == Some(request_id) ==> match result {
                Ok(op) => {
                    &&& opt_text(final(self).operation_id) == Some(op@)
                    &&& *final(self) == (ImageOperationDialog { operation_id: final(self).operation_id, ..*old(self) })
                    &&& r matches StartedOutcome::Running { cancel }
                        && (cancel is Some <==> old(self).cancel_requested)
                        && (cancel is Some ==> cancel->0@ == op@)
                },
                Err(e) => {
                    &&& r == StartedOutcome::Failed
                    &&& *final(self) == (ImageOperationDialog { running: false, request_id: None, error: Some(e), ..*old(self) })
                },
            },
    {
        if !(self.running && self.request_id == Some(request_id)) {
            return StartedOutcome::Discard(match result {
                Ok(op) => Some(op),
                Err(_) => None,
            });
        }
        match result {
            Ok(op) => {
                let cancel = if self.cancel_requested { Some(op.clone()) } else { None };
                self.operation_id = Some(op);
                StartedOutcome::Running { cancel }
            },
            Err(e) => {
                self.running = false;
                self.request_id = None;
                self.error = Some(e);
                StartedOutcome::Failed
            },
        }
    }

    /// Asks to cancel: without a running operation the dialog closes; otherwise the cancel is
    /// noted, and the operation is cancelled once it is known.
    pub fn request_cancel(&mut self) -> (r: CancelOutcome)
        ensures
            !old(self).running ==> r == CancelOutcome::Close && *final(self) == *old(self),
            old(self).running ==> {
                &&& *final(self) == (ImageOperationDialog { cancel_requested: true, ..*old(self) })
                &&& match old(self).operation_id {
                    Some(op) => r matches CancelOutcome::CancelOperation(id) && id@ == op@,
                    None => r == CancelOutcome::Pending,
                }
            },
    {
        if !self.running {
            return CancelOutcome::Close;
        }
        self.cancel_requested = true;
        match &self.operation_id {
            Some(op) => CancelOutcome::CancelOperation(op.clone()),
            None => CancelOutcome::Pending,
        }
    }

    fn is_operation(&self, operation_id: &str) -> (r: bool)
        ensures
            r == (opt_text(self.operation_id) == Some(operation_id@)),
    {
        match &self.operation_id {
            Some(op) => str_equals(op.as_str(), operation_id),
            None => false,
        }
    }

    /// Takes the outcome of cancelling the current operation: a failed cancel is shown and may
    /// be asked for again.
    pub fn cancel_completed(&mut self, operation_id: &str, result: Result<(), String>)
        ensures
            *final(self) == match result {
                Err(e) => if opt_text(old(self).operation_id) == Some(operation_id@) {
                    ImageOperationDialog { cancel_requested: false, error: Some(e), ..*old(self) }
                } else {
                    *old(self)
                },
                Ok(()) => *old(self),
            },
    {
        if self.is_operation(operation_id) {
            if let Err(e) = result {
                self.cancel_requested = false;
                self.error = Some(e);
            }
        }
    }

    /// Takes the progress of the running operation.
    pub fn progress_update(&mut self, operation_id: &str, bytes: u64, total: u64, speed: u64)
        ensures
            *final(self) == if old(self).running && opt_text(old(self).operation_id) == Some(operation_id@) {
                ImageOperationDialog { progress: Some((bytes, total, speed)), ..*old(self) }
            } else {
                *old(self)
            },
    {
        if self.running && self.is_operation(operation_id) {
            self.progress = Some((bytes, total, speed));
        }
    }

    /// Takes the end of the running operation: it no longer runs, and a failure is shown, a
    /// cancellation as `cancelled_text`. The end of another operation is stale.
    pub fn complete(&mut self, operation_id: &str, result: Result<(), String>, cancelled_text: &str) -> (r: CompleteOutcome)
        ensures
            !(old(self).running && opt_text(old(self).operation_id) == Some(operation_id@))
                ==> r == CompleteOutcome::Ignored && *final(self) == *old(self),
            old(self).running && opt_text(old(self).operation_id) == Some(operation_id@) ==> match result {
                Ok(()) => {
                    &&& r == CompleteOutcome::Succeeded
                    &&& *final(self) == (ImageOperationDialog {
                        running: false,
                        request_id: None,
                        operation_id: None,
                        progress: None,
                        ..*old(self)
                    })
                },
                Err(e) => {
                    &&& r == CompleteOutcome::Failed
                    &&& opt_text(final(self).error) == Some(failure_text(e@, cancelled_text@))
                    &&& *final(self) == (ImageOperationDialog {
                        running: false,
                        request_id: None,
                        operation_id: None,
                        progress: None,
                        error: final(self).error,
                        ..*old(self)
                    })
                },
            },
    {
        if !(self.running && self.is_operation(operation_id)) {
            return CompleteOutcome::Ignored;
        }
        self.running = false;
        self.request_id = None;
        self.operation_id = None;
        self.progress = None;
        match result {
            Ok(()) => CompleteOutcome::Succeeded,
            Err(e) => {
                let lower = to_lowercase(e.as_str());
                self.error = Some(if contains_text(lower.as_str(), "cancelled") {
                    String::from_str(cancelled_text)
                } else {
                    e
                });
                CompleteOutcome::Failed
            },
        }
    }
}

/// What starting an image operation takes: the devices to unmount first, in order, and next
/// the device to image or restore, or the reason it cannot go on (after those unmounts).
#[derive(Debug, PartialEq, Eq)]
pub struct ImagePlan {
    pub unmount_first: Vec<String>,
    pub next: Result<String, String>,
}

/// The mounted volumes of a drive to unmount before restoring to it, in order, and whether
/// each of them has a device path (the plan stops at the first that has none).
pub open spec fn drive_unmounts(flat: Seq<VolumeInfo>) -> (Seq<Seq<char>>, bool)
    decreases flat.len(),
{
    if flat.len() == 0 {
        (Seq::empty(), true)
    } else {
        let (u, ok) = drive_unmounts(flat.drop_last());
        if !ok || !flat.last().mounted {
            (u, ok)
        } else {
            match flat.last().device_path {
                Some(d) => (u.push(d@), true),
                None => (u, false),
            }
        }
    }
}

/// The plan of an image operation of `kind` on the drive `drive_device` with volumes `flat`
/// and the chosen `partition`: a drive is imaged as it is, and restored after unmounting its
/// mounted volumes; a partition is needed for the partition kinds, with a device path, and is
/// unmounted first when a restore finds it mounted.
pub open spec fn image_plan_of(
    kind: ImageOperationKind,
    drive_device: Seq<char>,
    flat: Seq<VolumeInfo>,
    partition: Option<VolumeInfo>,
) -> (Seq<Seq<char>>, Result<Seq<char>, Seq<char>>) {
    match kind {
        ImageOperationKind::CreateFromDrive => (Seq::empty(), Ok(drive_device)),
        ImageOperationKind::RestoreToDrive => {
            let (u, ok) = drive_unmounts(flat);
            (u, if ok { Ok(drive_device) } else { Err("Partition has no device path"@) })
        },
        ImageOperationKind::CreateFromPartition => match partition {
            None => (Seq::empty(), Err("No partition selected"@)),
            Some(p) => match p.device_path {
                Some(d) => (Seq::empty(), Ok(d@)),
                None => (Seq::empty(), Err("Partition has no device path"@)),
            },
        },
        ImageOperationKind::RestoreToPartition => match partition {
            None => (Seq::empty(), Err("No partition selected"@)),
            Some(p) => match p.device_path {
                Some(d) => (if p.mounted { seq![d@] } else { Seq::empty() }, Ok(d@)),
                None => (Seq::empty(), Err("Partition has no device path"@)),
            },
        },
    }
}

pub open spec fn texts(v: Seq<String>) -> Seq<Seq<char>> {
    v.map_values(|s: String| s@)
}

pub open spec fn plan_view(p: ImagePlan) -> (Seq<Seq<char>>, Result<Seq<char>, Seq<char>>) {
    (texts(p.unmount_first@), match p.next {
        Ok(d) => Ok(d@),
        Err(e) => Err(e@),
    })
}

/// See [`image_plan_of`].
pub fn image_plan(
    kind: ImageOperationKind,
    drive_device: &str,
    flat: &Vec<VolumeInfo>,
    partition: Option<&VolumeInfo>,
) -> (r: ImagePlan)
    ensures
        plan_view(r) == image_plan_of(kind, drive_device@, flat@, match partition { Some(p) => Some(*p), None => None }),
{
    match kind {
        ImageOperationKind::CreateFromDrive => {
            let r = ImagePlan { unmount_first: Vec::new(), next: Ok(String::from_str(drive_device)) };
            assert(texts(r.unmount_first@) =~= Seq::<Seq<char>>::empty());
            r
        },
        ImageOperationKind::RestoreToDrive => {
            let mut unmount_first: Vec<String> = Vec::new();
            let mut ok = true;
            let mut i: usize = 0;
            while i < flat.len()
                invariant
                    i <= flat@.len(),
                    (texts(unmount_first@), ok) == drive_unmounts(flat@.take(i as int)),
                decreases flat.len() - i,
            {
                assert(flat@.take(i + 1).drop_last() =~= flat@.take(i as int));
                if ok && flat[i].mounted {
                    match &flat[i].device_path {
                        Some(d) => {
                            let ghost prev = unmount_first@;
                            unmount_first.push(d.clone());
                            assert(texts(unmount_first@) =~= texts(prev).push(d@));
                        },
                        None => { ok = false; },
                    }
                }
                i = i + 1;
            }
            assert(flat@.take(flat@.len() as int) =~= flat@);
            let next = if ok { Ok(String::from_str(drive_device)) } else { Err(String::from_str("Partition has no device path")) };
            ImagePlan { unmount_first, next }
        },
        ImageOperationKind::CreateFromPartition | ImageOperationKind::RestoreToPartition => {
            let restore = kind == ImageOperationKind::RestoreToPartition;
            let mut unmount_first: Vec<String> = Vec::new();
            let next = match partition {
                None => Err(String::from_str("No partition selected")),
                Some(p) => match &p.device_path {
                    Some(d) => {
                        if restore && p.mounted {
                            unmount_first.push(d.clone());
                        }
                        Ok(d.clone())
                    },
                    None => Err(String::from_str("Partition has no device path")),
                },
            };
            let r = ImagePlan { unmount_first, next };
            assert(plan_view(r).0 =~= image_plan_of(kind, drive_device@, flat@, match partition { Some(p) => Some(*p), None => None }).0);
            r
        },
    }
}

/// Where an image operation stands.
#[derive(Debug, Clone, Copy, PartialEq, Eq, Structural)]
pub enum WorkflowState {
    Pending,
    Running,
    Completed,
    Cancelled,
    Failed,
}

/// A report on an image operation, as the operations service gives it.
#[derive(Debug, Clone, PartialEq, Eq)]
pub struct WorkflowStatus {
    pub state: WorkflowState,
    pub bytes_completed: u64,
    pub bytes_total: u64,
    pub speed_bytes_per_sec: u64,
    pub message: Option<String>,
}

/// What a report on an image operation tells the dialog.
#[derive(Debug, PartialEq, Eq)]
pub enum ImageStatusEvent {
    Progress { bytes: u64, total: u64, speed: u64 },
    Complete(Result<(), String>),
}

/// What a report (or the failure to get one) tells the dialog, and whether the operation has
/// ended: a pending or running operation reports progress; a completed one succeeds; a
/// cancelled one fails as "Operation cancelled"; a failed one with its message ("Image
/// operation failed" without one); a failure to get the report ends it with that error.
pub fn image_status_event(report: Result<WorkflowStatus, String>) -> (r: (ImageStatusEvent, bool))
    ensures
        match report {
            Ok(st) => match st.state {
                WorkflowState::Pending | WorkflowState::Running => r == (ImageStatusEvent::Progress {
                    bytes: st.bytes_completed,
                    total: st.bytes_total,
                    speed: st.speed_bytes_per_sec,
                }, false),
                WorkflowState::Completed => r == (ImageStatusEvent::Complete(Ok(())), true),
                WorkflowState::Cancelled => r.1 && (r.0 matches ImageStatusEvent::Complete(Err(e)) && e@ == "Operation cancelled"@),
                WorkflowState::Failed => r.1 && (r.0 matches ImageStatusEvent::Complete(Err(e)) && e@ == match st.message {
                    Some(m) => m@,
                    None => "Image operation failed"@,
                }),
            },
            Err(error) => r == (ImageStatusEvent::Complete(Err(error)), true),
        },
{
    match report {
        Ok(st) => match st.state {
            WorkflowState::Pending | WorkflowState::Running => (ImageStatusEvent::Progress {
                bytes: st.bytes_completed,
                total: st.bytes_total,
                speed: st.speed_bytes_per_sec,
            }, false),
            WorkflowState::Completed => (ImageStatusEvent::Complete(Ok(())), true),
            WorkflowState::Cancelled => (ImageStatusEvent::Complete(Err(String::from_str("Operation cancelled"))), true),
            WorkflowState::Failed => (ImageStatusEvent::Complete(Err(match st.message {
                Some(m) => m,
                None => String::from_str("Image operation failed"),
            })), true),
        },
        Err(error) => (ImageStatusEvent::Complete(Err(error)), true),
    }
}

} // verus!
