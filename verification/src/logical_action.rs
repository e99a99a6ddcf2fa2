//! Logical storage actions: what each names, how it is confirmed, and the forms that collect
//! the values of those that take input.
use vstd::prelude::*;
use vstd::string::StringExecFns;
use crate::decimal::{decimal_digits, decimal_text, lemma_parse_decimal, parse_u64, parse_u64_spec};
use crate::logical::{KindedAction, LogicalActionKind, LogicalDevicePickerAction, LogicalEntityId};

verus! {

/// A block device that an action adds or removes, by its device path.
#[derive(Debug, PartialEq, Eq)]
pub struct BlockDeviceRef {
    pub path: String,
}

impl View for BlockDeviceRef {
    type V = Seq<char>;

    open spec fn view(&self) -> Seq<char> {
        self.path@
    }
}

impl Clone for BlockDeviceRef {
    fn clone(&self) -> (r: Self)
        ensures
            r == *self,
    {
        BlockDeviceRef { path: self.path.clone() }
    }
}

/// A Btrfs subvolume as an action names it: its filesystem, its id, and what the topology
/// showed of it when the action was drafted.
#[derive(Debug, PartialEq, Eq)]
pub struct BtrfsSubvolumeRef {
    pub filesystem: LogicalEntityId,
    /// The subvolume id (never zero).
    pub id: u64,
    pub expected_relative_path: String,
    pub expected_parent_id: Option<u64>,
    pub observed_topology_epoch: u64,
}

pub type SubvolumeV = (Seq<char>, u64, Seq<char>, Option<u64>, u64);

impl View for BtrfsSubvolumeRef {
    type V = SubvolumeV;

    open spec fn view(&self) -> SubvolumeV {
        (self.filesystem@, self.id, self.expected_relative_path@, self.expected_parent_id, self.observed_topology_epoch)
    }
}

impl Clone for BtrfsSubvolumeRef {
    fn clone(&self) -> (r: Self)
        ensures
            r == *self,
    {
        BtrfsSubvolumeRef {
            filesystem: self.filesystem.clone(),
            id: self.id,
            expected_relative_path: self.expected_relative_path.clone(),
            expected_parent_id: self.expected_parent_id,
            observed_topology_epoch: self.observed_topology_epoch,
        }
    }
}

#[derive(Debug, Clone, Copy, PartialEq, Eq, Structural)]
pub enum MdRaidSyncAction {
    Check,
    Repair,
}

/// How a Btrfs filesystem is to be resized.
#[derive(Debug, Clone, Copy, PartialEq, Eq, Structural)]
pub enum BtrfsResizeRequest {
    /// To an absolute size in bytes.
    AbsoluteBytes(u64),
}

/// A logical storage action, with the values that the library reads of it.
#[derive(Debug, PartialEq, Eq)]
pub enum LogicalAction {
    CreateLvmVolumeGroup,
    DeleteLvmVolumeGroup { volume_group: LogicalEntityId },
    AddLvmPhysicalVolume { volume_group: LogicalEntityId, device: BlockDeviceRef },
    RemoveLvmPhysicalVolume { volume_group: LogicalEntityId, device: BlockDeviceRef },
    CreateLvmLogicalVolume { volume_group: LogicalEntityId, name: String, size_bytes: u64 },
    DeleteLvmLogicalVolume { logical_volume: LogicalEntityId },
    ResizeLvmLogicalVolume { logical_volume: LogicalEntityId, size_bytes: u64 },
    ActivateLvmLogicalVolume { logical_volume: LogicalEntityId },
    DeactivateLvmLogicalVolume { logical_volume: LogicalEntityId },
    CreateMdRaidArray,
    DeleteMdRaidArray { array: LogicalEntityId },
    StartMdRaidArray { array: LogicalEntityId },
    StopMdRaidArray { array: LogicalEntityId },
    AddMdRaidMember { array: LogicalEntityId, device: BlockDeviceRef },
    RemoveMdRaidMember { array: LogicalEntityId, device: BlockDeviceRef },
    RequestMdRaidSync { array: LogicalEntityId, action: MdRaidSyncAction },
    AddBtrfsDevice { filesystem: LogicalEntityId, device: BlockDeviceRef },
    RemoveBtrfsDevice { filesystem: LogicalEntityId, device: BlockDeviceRef },
    ResizeBtrfsFilesystem { filesystem: LogicalEntityId, request: BtrfsResizeRequest },
    SetBtrfsLabel { filesystem: LogicalEntityId, label: String },
    SetBtrfsDefaultSubvolume { filesystem: LogicalEntityId, subvolume: BtrfsSubvolumeRef },
    CreateBtrfsSubvolume { filesystem: LogicalEntityId, name: String },
    DeleteBtrfsSubvolume { filesystem: LogicalEntityId, subvolume: BtrfsSubvolumeRef },
    CreateBtrfsSnapshot { filesystem: LogicalEntityId, source: BtrfsSubvolumeRef, destination: String, readonly: bool },
}

impl Clone for LogicalAction {
    /// A copy of the action, equal to it.
    fn clone(&self) -> (r: Self)
        ensures
            r == *self,
    {
        match self {
            LogicalAction::CreateLvmVolumeGroup => LogicalAction::CreateLvmVolumeGroup,
            LogicalAction::DeleteLvmVolumeGroup { volume_group } =>
                LogicalAction::DeleteLvmVolumeGroup { volume_group: volume_group.clone() },
            LogicalAction::AddLvmPhysicalVolume { volume_group, device } =>
                LogicalAction::AddLvmPhysicalVolume { volume_group: volume_group.clone(), device: device.clone() },
            LogicalAction::RemoveLvmPhysicalVolume { volume_group, device } =>
                LogicalAction::RemoveLvmPhysicalVolume { volume_group: volume_group.clone(), device: device.clone() },
            LogicalAction::CreateLvmLogicalVolume { volume_group, name, size_bytes } =>
                LogicalAction::CreateLvmLogicalVolume {
                    volume_group: volume_group.clone(),
                    name: name.clone(),
                    size_bytes: *size_bytes,
                },
            LogicalAction::DeleteLvmLogicalVolume { logical_volume } =>
                LogicalAction::DeleteLvmLogicalVolume { logical_volume: logical_volume.clone() },
            LogicalAction::ResizeLvmLogicalVolume { logical_volume, size_bytes } =>
                LogicalAction::ResizeLvmLogicalVolume { logical_volume: logical_volume.clone(), size_bytes: *size_bytes },
            LogicalAction::ActivateLvmLogicalVolume { logical_volume } =>
                LogicalAction::ActivateLvmLogicalVolume { logical_volume: logical_volume.clone() },
            LogicalAction::DeactivateLvmLogicalVolume { logical_volume } =>
                LogicalAction::DeactivateLvmLogicalVolume { logical_volume: logical_volume.clone() },
            LogicalAction::CreateMdRaidArray => LogicalAction::CreateMdRaidArray,
            LogicalAction::DeleteMdRaidArray { array } => LogicalAction::DeleteMdRaidArray { array: array.clone() },
            LogicalAction::StartMdRaidArray { array } => LogicalAction::StartMdRaidArray { array: array.clone() },
            LogicalAction::StopMdRaidArray { array } => LogicalAction::StopMdRaidArray { array: array.clone() },
            LogicalAction::AddMdRaidMember { array, device } =>
                LogicalAction::AddMdRaidMember { array: array.clone(), device: device.clone() },
            LogicalAction::RemoveMdRaidMember { array, device } =>
                LogicalAction::RemoveMdRaidMember { array: array.clone(), device: device.clone() },
            LogicalAction::RequestMdRaidSync { array, action } =>
                LogicalAction::RequestMdRaidSync { array: array.clone(), action: *action },
            LogicalAction::AddBtrfsDevice { filesystem, device } =>
                LogicalAction::AddBtrfsDevice { filesystem: filesystem.clone(), device: device.clone() },
            LogicalAction::RemoveBtrfsDevice { filesystem, device } =>
                LogicalAction::RemoveBtrfsDevice { filesystem: filesystem.clone(), device: device.clone() },
            LogicalAction::ResizeBtrfsFilesystem { filesystem, request } =>
                LogicalAction::ResizeBtrfsFilesystem { filesystem: filesystem.clone(), request: *request },
            LogicalAction::SetBtrfsLabel { filesystem, label } =>
                LogicalAction::SetBtrfsLabel { filesystem: filesystem.clone(), label: label.clone() },
            LogicalAction::SetBtrfsDefaultSubvolume { filesystem, subvolume } =>
                LogicalAction::SetBtrfsDefaultSubvolume { filesystem: filesystem.clone(), subvolume: subvolume.clone() },
            LogicalAction::CreateBtrfsSubvolume { filesystem, name } =>
                LogicalAction::CreateBtrfsSubvolume { filesystem: filesystem.clone(), name: name.clone() },
            LogicalAction::DeleteBtrfsSubvolume { filesystem, subvolume } =>
                LogicalAction::DeleteBtrfsSubvolume { filesystem: filesystem.clone(), subvolume: subvolume.clone() },
            LogicalAction::CreateBtrfsSnapshot { filesystem, source, destination, readonly } =>
                LogicalAction::CreateBtrfsSnapshot {
                    filesystem: filesystem.clone(),
                    source: source.clone(),
                    destination: destination.clone(),
                    readonly: *readonly,
                },
        }
    }
}

/// A copy of an action made by `clone` is the action itself: a logical state over these
/// actions confirms (and keeps) exactly the draft's action.
pub proof fn lemma_cloned_action_is_equal(a: LogicalAction, b: LogicalAction)
    requires
        cloned(a, b),
    ensures
        b == a,
{
}

/// The kind of an action: the variant it is, without its values.
pub open spec fn action_kind_spec(action: LogicalAction) -> LogicalActionKind {
    match action {
        LogicalAction::CreateLvmVolumeGroup => LogicalActionKind::CreateLvmVolumeGroup,
        LogicalAction::DeleteLvmVolumeGroup { .. } => LogicalActionKind::DeleteLvmVolumeGroup,
        LogicalAction::AddLvmPhysicalVolume { .. } => LogicalActionKind::AddLvmPhysicalVolume,
        LogicalAction::RemoveLvmPhysicalVolume { .. } => LogicalActionKind::RemoveLvmPhysicalVolume,
        LogicalAction::CreateLvmLogicalVolume { .. } => LogicalActionKind::CreateLvmLogicalVolume,
        LogicalAction::DeleteLvmLogicalVolume { .. } => LogicalActionKind::DeleteLvmLogicalVolume,
        LogicalAction::ResizeLvmLogicalVolume { .. } => LogicalActionKind::ResizeLvmLogicalVolume,
        LogicalAction::ActivateLvmLogicalVolume { .. } => LogicalActionKind::ActivateLvmLogicalVolume,
        LogicalAction::DeactivateLvmLogicalVolume { .. } => LogicalActionKind::DeactivateLvmLogicalVolume,
        LogicalAction::CreateMdRaidArray => LogicalActionKind::CreateMdRaidArray,
        LogicalAction::DeleteMdRaidArray { .. } => LogicalActionKind::DeleteMdRaidArray,
        LogicalAction::StartMdRaidArray { .. } => LogicalActionKind::StartMdRaidArray,
        LogicalAction::StopMdRaidArray { .. } => LogicalActionKind::StopMdRaidArray,
        LogicalAction::AddMdRaidMember { .. } => LogicalActionKind::AddMdRaidMember,
        LogicalAction::RemoveMdRaidMember { .. } => LogicalActionKind::RemoveMdRaidMember,
        LogicalAction::RequestMdRaidSync { .. } => LogicalActionKind::RequestMdRaidSync,
        LogicalAction::AddBtrfsDevice { .. } => LogicalActionKind::AddBtrfsDevice,
        LogicalAction::RemoveBtrfsDevice { .. } => LogicalActionKind::RemoveBtrfsDevice,
        LogicalAction::ResizeBtrfsFilesystem { .. } => LogicalActionKind::ResizeBtrfsFilesystem,
        LogicalAction::SetBtrfsLabel { .. } => LogicalActionKind::SetBtrfsLabel,
        LogicalAction::SetBtrfsDefaultSubvolume { .. } => LogicalActionKind::SetBtrfsDefaultSubvolume,
        LogicalAction::CreateBtrfsSubvolume { .. } => LogicalActionKind::CreateBtrfsSubvolume,
        LogicalAction::DeleteBtrfsSubvolume { .. } => LogicalActionKind::DeleteBtrfsSubvolume,
        LogicalAction::CreateBtrfsSnapshot { .. } => LogicalActionKind::CreateBtrfsSnapshot,
    }
}

/// The kind of an action, as a review request names it.
pub fn action_kind(action: &LogicalAction) -> (k: LogicalActionKind)
    ensures
        k == action_kind_spec(*action),
{
    match action {
        LogicalAction::CreateLvmVolumeGroup => LogicalActionKind::CreateLvmVolumeGroup,
        LogicalAction::DeleteLvmVolumeGroup { .. } => LogicalActionKind::DeleteLvmVolumeGroup,
        LogicalAction::AddLvmPhysicalVolume { .. } => LogicalActionKind::AddLvmPhysicalVolume,
        LogicalAction::RemoveLvmPhysicalVolume { .. } => LogicalActionKind::RemoveLvmPhysicalVolume,
        LogicalAction::CreateLvmLogicalVolume { .. } => LogicalActionKind::CreateLvmLogicalVolume,
        LogicalAction::DeleteLvmLogicalVolume { .. } => LogicalActionKind::DeleteLvmLogicalVolume,
        LogicalAction::ResizeLvmLogicalVolume { .. } => LogicalActionKind::ResizeLvmLogicalVolume,
        LogicalAction::ActivateLvmLogicalVolume { .. } => LogicalActionKind::ActivateLvmLogicalVolume,
        LogicalAction::DeactivateLvmLogicalVolume { .. } => LogicalActionKind::DeactivateLvmLogicalVolume,
        LogicalAction::CreateMdRaidArray => LogicalActionKind::CreateMdRaidArray,
        LogicalAction::DeleteMdRaidArray { .. } => LogicalActionKind::DeleteMdRaidArray,
        LogicalAction::StartMdRaidArray { .. } => LogicalActionKind::StartMdRaidArray,
        LogicalAction::StopMdRaidArray { .. } => LogicalActionKind::StopMdRaidArray,
        LogicalAction::AddMdRaidMember { .. } => LogicalActionKind::AddMdRaidMember,
        LogicalAction::RemoveMdRaidMember { .. } => LogicalActionKind::RemoveMdRaidMember,
        LogicalAction::RequestMdRaidSync { .. } => LogicalActionKind::RequestMdRaidSync,
        LogicalAction::AddBtrfsDevice { .. } => LogicalActionKind::AddBtrfsDevice,
        LogicalAction::RemoveBtrfsDevice { .. } => LogicalActionKind::RemoveBtrfsDevice,
        LogicalAction::ResizeBtrfsFilesystem { .. } => LogicalActionKind::ResizeBtrfsFilesystem,
        LogicalAction::SetBtrfsLabel { .. } => LogicalActionKind::SetBtrfsLabel,
        LogicalAction::SetBtrfsDefaultSubvolume { .. } => LogicalActionKind::SetBtrfsDefaultSubvolume,
        LogicalAction::CreateBtrfsSubvolume { .. } => LogicalActionKind::CreateBtrfsSubvolume,
        LogicalAction::DeleteBtrfsSubvolume { .. } => LogicalActionKind::DeleteBtrfsSubvolume,
        LogicalAction::CreateBtrfsSnapshot { .. } => LogicalActionKind::CreateBtrfsSnapshot,
    }
}

impl KindedAction for LogicalAction {
    open spec fn kind_spec(&self) -> LogicalActionKind {
        action_kind_spec(*self)
    }

    fn kind(&self) -> (k: LogicalActionKind) {
        action_kind(self)
    }
}

/// The entity an action works on, by its id; creating a volume group or an array works on
/// no existing entity.
pub open spec fn action_entity_spec(action: LogicalAction) -> Option<Seq<char>> {
    match action {
        LogicalAction::CreateLvmVolumeGroup => None,
        LogicalAction::CreateMdRaidArray => None,
        LogicalAction::DeleteLvmVolumeGroup { volume_group } => Some(volume_group@),
        LogicalAction::AddLvmPhysicalVolume { volume_group, .. } => Some(volume_group@),
        LogicalAction::RemoveLvmPhysicalVolume { volume_group, .. } => Some(volume_group@),
        LogicalAction::CreateLvmLogicalVolume { volume_group, .. } => Some(volume_group@),
        LogicalAction::DeleteLvmLogicalVolume { logical_volume } => Some(logical_volume@),
        LogicalAction::ResizeLvmLogicalVolume { logical_volume, .. } => Some(logical_volume@),
        LogicalAction::ActivateLvmLogicalVolume { logical_volume } => Some(logical_volume@),
        LogicalAction::DeactivateLvmLogicalVolume { logical_volume } => Some(logical_volume@),
        LogicalAction::DeleteMdRaidArray { array } => Some(array@),
        LogicalAction::StartMdRaidArray { array } => Some(array@),
        LogicalAction::StopMdRaidArray { array } => Some(array@),
        LogicalAction::AddMdRaidMember { array, .. } => Some(array@),
        LogicalAction::RemoveMdRaidMember { array, .. } => Some(array@),
        LogicalAction::RequestMdRaidSync { array, .. } => Some(array@),
        LogicalAction::AddBtrfsDevice { filesystem, .. } => Some(filesystem@),
        LogicalAction::RemoveBtrfsDevice { filesystem, .. } => Some(filesystem@),
        LogicalAction::ResizeBtrfsFilesystem { filesystem, .. } => Some(filesystem@),
        LogicalAction::SetBtrfsLabel { filesystem, .. } => Some(filesystem@),
        LogicalAction::SetBtrfsDefaultSubvolume { filesystem, .. } => Some(filesystem@),
        LogicalAction::CreateBtrfsSubvolume { filesystem, .. } => Some(filesystem@),
        LogicalAction::DeleteBtrfsSubvolume { filesystem, .. } => Some(filesystem@),
        LogicalAction::CreateBtrfsSnapshot { filesystem, .. } => Some(filesystem@),
    }
}

pub open spec fn opt_id_view(o: Option<LogicalEntityId>) -> Option<Seq<char>> {
    match o {
        Some(id) => Some(id@),
        None => None,
    }
}

/// The entity an action works on.
pub fn action_entity(action: &LogicalAction) -> (r: Option<LogicalEntityId>)
    ensures
        opt_id_view(r) == action_entity_spec(*action),
{
    match action {
        LogicalAction::CreateLvmVolumeGroup | LogicalAction::CreateMdRaidArray => None,
        LogicalAction::DeleteLvmVolumeGroup { volume_group }
        | LogicalAction::AddLvmPhysicalVolume { volume_group, .. }
        | LogicalAction::RemoveLvmPhysicalVolume { volume_group, .. }
        | LogicalAction::CreateLvmLogicalVolume { volume_group, .. } => Some(volume_group.clone()),
        LogicalAction::DeleteLvmLogicalVolume { logical_volume }
        | LogicalAction::ResizeLvmLogicalVolume { logical_volume, .. }
        | LogicalAction::ActivateLvmLogicalVolume { logical_volume }
        | LogicalAction::DeactivateLvmLogicalVolume { logical_volume } => Some(logical_volume.clone()),
        LogicalAction::DeleteMdRaidArray { array }
        | LogicalAction::StartMdRaidArray { array }
        | LogicalAction::StopMdRaidArray { array }
        | LogicalAction::AddMdRaidMember { array, .. }
        | LogicalAction::RemoveMdRaidMember { array, .. }
        | LogicalAction::RequestMdRaidSync { array, .. } => Some(array.clone()),
        LogicalAction::AddBtrfsDevice { filesystem, .. }
        | LogicalAction::RemoveBtrfsDevice { filesystem, .. }
        | LogicalAction::ResizeBtrfsFilesystem { filesystem, .. }
        | LogicalAction::SetBtrfsLabel { filesystem, .. }
        | LogicalAction::SetBtrfsDefaultSubvolume { filesystem, .. }
        | LogicalAction::CreateBtrfsSubvolume { filesystem, .. }
        | LogicalAction::DeleteBtrfsSubvolume { filesystem, .. }
        | LogicalAction::CreateBtrfsSnapshot { filesystem, .. } => Some(filesystem.clone()),
    }
}

/// Creating a Btrfs subvolume or snapshot is a single, non-destructive interaction: the form
/// holds its only values and a fresh preflight still protects the filesystem's identity.
/// Other logical operations keep their explicit confirmation step.
pub fn executes_from_single_step_form(action: &LogicalAction) -> (r: bool)
    ensures
        r == (*action is CreateBtrfsSubvolume || *action is CreateBtrfsSnapshot),
{
    match action {
        LogicalAction::CreateBtrfsSubvolume { .. } | LogicalAction::CreateBtrfsSnapshot { .. } => true,
        _ => false,
    }
}

/// The kind of operation an action performs.
#[derive(Debug, Clone, Copy, PartialEq, Eq, Structural)]
pub enum LogicalOperation {
    Create,
    Delete,
    Resize,
    AddMember,
    RemoveMember,
    Activate,
    Deactivate,
    Start,
    Stop,
    Check,
    Repair,
    SetLabel,
    SetDefaultSubvolume,
}

pub open spec fn operation_label_spec(op: LogicalOperation) -> Seq<char> {
    match op {
        LogicalOperation::Create => "create"@,
        LogicalOperation::Delete => "delete"@,
        LogicalOperation::Resize => "resize"@,
        LogicalOperation::AddMember => "add member"@,
        LogicalOperation::RemoveMember => "remove member"@,
        LogicalOperation::Activate => "activate"@,
        LogicalOperation::Deactivate => "deactivate"@,
        LogicalOperation::Start => "start"@,
        LogicalOperation::Stop => "stop"@,
        LogicalOperation::Check => "check"@,
        LogicalOperation::Repair => "repair"@,
        LogicalOperation::SetLabel => "set label"@,
        LogicalOperation::SetDefaultSubvolume => "set default subvolume"@,
    }
}

/// The lower-case name of an operation, as confirmation texts use it.
pub fn operation_label(op: LogicalOperation) -> (s: &'static str)
    ensures
        s@ == operation_label_spec(op),
{
    match op {
        LogicalOperation::Create => "create",
        LogicalOperation::Delete => "delete",
        LogicalOperation::Resize => "resize",
        LogicalOperation::AddMember => "add member",
        LogicalOperation::RemoveMember => "remove member",
        LogicalOperation::Activate => "activate",
        LogicalOperation::Deactivate => "deactivate",
        LogicalOperation::Start => "start",
        LogicalOperation::Stop => "stop",
        LogicalOperation::Check => "check",
        LogicalOperation::Repair => "repair",
        LogicalOperation::SetLabel => "set label",
        LogicalOperation::SetDefaultSubvolume => "set default subvolume",
    }
}

/// The text that asks to confirm an action whose operation is `op`.
pub open spec fn confirmation_text(action: LogicalAction, op: LogicalOperation) -> Seq<char> {
    match action {
        LogicalAction::DeleteLvmVolumeGroup { volume_group } =>
            "Delete volume group "@ + volume_group@ + " and preserve member signatures."@,
        LogicalAction::DeleteLvmLogicalVolume { logical_volume } =>
            "Delete logical volume "@ + logical_volume@ + ". This cannot be undone."@,
        LogicalAction::DeleteMdRaidArray { array } =>
            "Delete MD RAID array "@ + array@ + " and preserve member signatures."@,
        LogicalAction::DeactivateLvmLogicalVolume { logical_volume } =>
            "Deactivate logical volume "@ + logical_volume@ + "."@,
        LogicalAction::StopMdRaidArray { array } => "Stop MD RAID array "@ + array@ + "."@,
        _ => "Apply the "@ + operation_label_spec(op) + " operation through UDisks."@,
    }
}

fn sentence(start: &str, middle: &str, end: &str) -> (s: String)
    ensures
        s@ == start@ + middle@ + end@,
{
    let mut s = String::from_str(start);
    s.append(middle);
    s.append(end);
    s
}

/// The text that asks to confirm `action`, whose operation is `op`.
pub fn action_confirmation_body(action: &LogicalAction, op: LogicalOperation) -> (s: String)
    ensures
        s@ == confirmation_text(*action, op),
{
    match action {
        LogicalAction::DeleteLvmVolumeGroup { volume_group } =>
            sentence("Delete volume group ", volume_group.0.as_str(), " and preserve member signatures."),
        LogicalAction::DeleteLvmLogicalVolume { logical_volume } =>
            sentence("Delete logical volume ", logical_volume.0.as_str(), ". This cannot be undone."),
        LogicalAction::DeleteMdRaidArray { array } =>
            sentence("Delete MD RAID array ", array.0.as_str(), " and preserve member signatures."),
        LogicalAction::DeactivateLvmLogicalVolume { logical_volume } =>
            sentence("Deactivate logical volume ", logical_volume.0.as_str(), "."),
        LogicalAction::StopMdRaidArray { array } => sentence("Stop MD RAID array ", array.0.as_str(), "."),
        _ => sentence("Apply the ", operation_label(op), " operation through UDisks."),
    }
}

impl LogicalDevicePickerAction {
    /// The action that adds the chosen device.
    pub fn action(&self, device: BlockDeviceRef) -> (a: LogicalAction)
        ensures
            a == match *self {
                LogicalDevicePickerAction::LvmPhysicalVolume { volume_group } =>
                    LogicalAction::AddLvmPhysicalVolume { volume_group, device },
                LogicalDevicePickerAction::MdRaidMember { array } =>
                    LogicalAction::AddMdRaidMember { array, device },
                LogicalDevicePickerAction::BtrfsDevice { filesystem } =>
                    LogicalAction::AddBtrfsDevice { filesystem, device },
            },
    {
        match self {
            LogicalDevicePickerAction::LvmPhysicalVolume { volume_group } =>
                LogicalAction::AddLvmPhysicalVolume { volume_group: volume_group.clone(), device },
            LogicalDevicePickerAction::MdRaidMember { array } =>
                LogicalAction::AddMdRaidMember { array: array.clone(), device },
            LogicalDevicePickerAction::BtrfsDevice { filesystem } =>
                LogicalAction::AddBtrfsDevice { filesystem: filesystem.clone(), device },
        }
    }
}

/// The input part of a logical operation that takes values from the user. Entity and
/// subvolume identities are typed values taken from the current topology; sizes are the text
/// of the size field.
#[derive(Debug, Clone, PartialEq, Eq)]
pub enum LogicalActionForm {
    CreateLvmLogicalVolume { volume_group: LogicalEntityId, name: String, size_bytes: String },
    ResizeLvmLogicalVolume { logical_volume: LogicalEntityId, size_bytes: String },
    ResizeBtrfsFilesystem { filesystem: LogicalEntityId, size_bytes: String },
    SetBtrfsLabel { filesystem: LogicalEntityId, label: String },
    CreateBtrfsSubvolume { filesystem: LogicalEntityId, name: String },
    CreateBtrfsSnapshot { filesystem: LogicalEntityId, source: BtrfsSubvolumeRef, destination: String, readonly: bool },
}

/// The action has a form: it takes values from the user.
pub open spec fn has_form(a: LogicalAction) -> bool {
    ||| a is CreateLvmLogicalVolume
    ||| a is ResizeLvmLogicalVolume
    ||| a is ResizeBtrfsFilesystem
    ||| a is SetBtrfsLabel
    ||| a is CreateBtrfsSubvolume
    ||| a is CreateBtrfsSnapshot
}

/// The form `f` holds the values of action `a`, sizes as their decimal text.
pub open spec fn form_of(a: LogicalAction, f: LogicalActionForm) -> bool {
    match (a, f) {
        (
            LogicalAction::CreateLvmLogicalVolume { volume_group, name, size_bytes },
            LogicalActionForm::CreateLvmLogicalVolume { volume_group: g, name: n, size_bytes: t },
        ) => g == volume_group && n@ == name@ && t@ == decimal_digits(size_bytes as nat),
        (
            LogicalAction::ResizeLvmLogicalVolume { logical_volume, size_bytes },
            LogicalActionForm::ResizeLvmLogicalVolume { logical_volume: v, size_bytes: t },
        ) => v == logical_volume && t@ == decimal_digits(size_bytes as nat),
        (
            LogicalAction::ResizeBtrfsFilesystem { filesystem, request: BtrfsResizeRequest::AbsoluteBytes(size) },
            LogicalActionForm::ResizeBtrfsFilesystem { filesystem: fs, size_bytes: t },
        ) => fs == filesystem && t@ == decimal_digits(size as nat),
        (
            LogicalAction::SetBtrfsLabel { filesystem, label },
            LogicalActionForm::SetBtrfsLabel { filesystem: fs, label: l },
        ) => fs == filesystem && l@ == label@,
        (
            LogicalAction::CreateBtrfsSubvolume { filesystem, name },
            LogicalActionForm::CreateBtrfsSubvolume { filesystem: fs, name: n },
        ) => fs == filesystem && n@ == name@,
        (
            LogicalAction::CreateBtrfsSnapshot { filesystem, source, destination, readonly },
            LogicalActionForm::CreateBtrfsSnapshot { filesystem: fs, source: src, destination: d, readonly: ro },
        ) => fs == filesystem && src@ == source@ && d@ == destination@ && ro == readonly,
        _ => false,
    }
}

/// A size field holds a non-zero number of bytes.
pub open spec fn size_text_ok(t: Seq<char>) -> bool {
    parse_u64_spec(t) matches Some(n) && n > 0
}

/// Every size field of the form holds a non-zero number of bytes.
pub open spec fn form_sizes_ok(f: LogicalActionForm) -> bool {
    match f {
        LogicalActionForm::CreateLvmLogicalVolume { size_bytes, .. } => size_text_ok(size_bytes@),
        LogicalActionForm::ResizeLvmLogicalVolume { size_bytes, .. } => size_text_ok(size_bytes@),
        LogicalActionForm::ResizeBtrfsFilesystem { size_bytes, .. } => size_text_ok(size_bytes@),
        _ => true,
    }
}

/// Action `a` is what form `f` asks for, sizes read from their text.
pub open spec fn action_of(f: LogicalActionForm, a: LogicalAction) -> bool {
    match (f, a) {
        (
            LogicalActionForm::CreateLvmLogicalVolume { volume_group, name, size_bytes },
            LogicalAction::CreateLvmLogicalVolume { volume_group: g, name: n, size_bytes: s },
        ) => g == volume_group && n@ == name@ && parse_u64_spec(size_bytes@) == Some(s),
        (
            LogicalActionForm::ResizeLvmLogicalVolume { logical_volume, size_bytes },
            LogicalAction::ResizeLvmLogicalVolume { logical_volume: v, size_bytes: s },
        ) => v == logical_volume && parse_u64_spec(size_bytes@) == Some(s),
        (
            LogicalActionForm::ResizeBtrfsFilesystem { filesystem, size_bytes },
            LogicalAction::ResizeBtrfsFilesystem { filesystem: fs, request: BtrfsResizeRequest::AbsoluteBytes(s) },
        ) => fs == filesystem && parse_u64_spec(size_bytes@) == Some(s),
        (
            LogicalActionForm::SetBtrfsLabel { filesystem, label },
            LogicalAction::SetBtrfsLabel { filesystem: fs, label: l },
        ) => fs == filesystem && l@ == label@,
        (
            LogicalActionForm::CreateBtrfsSubvolume { filesystem, name },
            LogicalAction::CreateBtrfsSubvolume { filesystem: fs, name: n },
        ) => fs == filesystem && n@ == name@,
        (
            LogicalActionForm::CreateBtrfsSnapshot { filesystem, source, destination, readonly },
            LogicalAction::CreateBtrfsSnapshot { filesystem: fs, source: src, destination: d, readonly: ro },
        ) => fs == filesystem && src@ == source@ && d@ == destination@ && ro == readonly,
        _ => false,
    }
}

/// Two actions are the same up to the storage of their strings.
pub open spec fn same_action(a: LogicalAction, b: LogicalAction) -> bool {
    match (a, b) {
        (
            LogicalAction::CreateLvmLogicalVolume { volume_group, name, size_bytes },
            LogicalAction::CreateLvmLogicalVolume { volume_group: g, name: n, size_bytes: s },
        ) => g == volume_group && n@ == name@ && s == size_bytes,
        (
            LogicalAction::SetBtrfsLabel { filesystem, label },
            LogicalAction::SetBtrfsLabel { filesystem: fs, label: l },
        ) => fs == filesystem && l@ == label@,
        (
            LogicalAction::CreateBtrfsSubvolume { filesystem, name },
            LogicalAction::CreateBtrfsSubvolume { filesystem: fs, name: n },
        ) => fs == filesystem && n@ == name@,
        (
            LogicalAction::CreateBtrfsSnapshot { filesystem, source, destination, readonly },
            LogicalAction::CreateBtrfsSnapshot { filesystem: fs, source: src, destination: d, readonly: ro },
        ) => fs == filesystem && src@ == source@ && d@ == destination@ && ro == readonly,
        _ => a == b,
    }
}

/// The action's sizes are not zero.
pub open spec fn sizes_nonzero(a: LogicalAction) -> bool {
    match a {
        LogicalAction::CreateLvmLogicalVolume { size_bytes, .. } => size_bytes > 0,
        LogicalAction::ResizeLvmLogicalVolume { size_bytes, .. } => size_bytes > 0,
        LogicalAction::ResizeBtrfsFilesystem { request: BtrfsResizeRequest::AbsoluteBytes(s), .. } => s > 0,
        _ => true,
    }
}

/// Reads a size field: a non-zero number of bytes, or the message that asks for one.
fn parse_size(text: &str) -> (r: Result<u64, String>)
    ensures
        match r {
            Ok(n) => parse_u64_spec(text@) == Some(n) && n > 0,
            Err(e) => !size_text_ok(text@) && e@ == "Enter a non-zero size in bytes."@,
        },
{
    match parse_u64(text) {
        Some(n) => if n > 0 {
            Ok(n)
        } else {
            Err(String::from_str("Enter a non-zero size in bytes."))
        },
        None => Err(String::from_str("Enter a non-zero size in bytes.")),
    }
}

impl LogicalActionForm {
    /// The form of an action that takes input, to reopen it with the values it had; other
    /// actions have none.
    pub fn from_action(action: &LogicalAction) -> (r: Option<Self>)
        ensures
            has_form(*action) ==> r is Some && form_of(*action, r->0),
            !has_form(*action) ==> r is None,
    {
        match action {
            LogicalAction::CreateLvmLogicalVolume { volume_group, name, size_bytes } =>
                Some(LogicalActionForm::CreateLvmLogicalVolume {
                    volume_group: volume_group.clone(),
                    name: name.clone(),
                    size_bytes: decimal_text(*size_bytes),
                }),
            LogicalAction::ResizeLvmLogicalVolume { logical_volume, size_bytes } =>
                Some(LogicalActionForm::ResizeLvmLogicalVolume {
                    logical_volume: logical_volume.clone(),
                    size_bytes: decimal_text(*size_bytes),
                }),
            LogicalAction::ResizeBtrfsFilesystem { filesystem, request: BtrfsResizeRequest::AbsoluteBytes(size_bytes) } =>
                Some(LogicalActionForm::ResizeBtrfsFilesystem {
                    filesystem: filesystem.clone(),
                    size_bytes: decimal_text(*size_bytes),
                }),
            LogicalAction::SetBtrfsLabel { filesystem, label } =>
                Some(LogicalActionForm::SetBtrfsLabel { filesystem: filesystem.clone(), label: label.clone() }),
            LogicalAction::CreateBtrfsSubvolume { filesystem, name } =>
                Some(LogicalActionForm::CreateBtrfsSubvolume { filesystem: filesystem.clone(), name: name.clone() }),
            LogicalAction::CreateBtrfsSnapshot { filesystem, source, destination, readonly } =>
                Some(LogicalActionForm::CreateBtrfsSnapshot {
                    filesystem: filesystem.clone(),
                    source: source.clone(),
                    destination: destination.clone(),
                    readonly: *readonly,
                }),
            _ => None,
        }
    }

    pub fn title(&self) -> (s: &'static str)
        ensures
            s@ == match *self {
                LogicalActionForm::CreateLvmLogicalVolume { .. } => "Create logical volume"@,
                LogicalActionForm::ResizeLvmLogicalVolume { .. } => "Resize logical volume"@,
                LogicalActionForm::ResizeBtrfsFilesystem { .. } => "Resize Btrfs filesystem"@,
                LogicalActionForm::SetBtrfsLabel { .. } => "Set Btrfs label"@,
                LogicalActionForm::CreateBtrfsSubvolume { .. } => "Create Btrfs subvolume"@,
                LogicalActionForm::CreateBtrfsSnapshot { .. } => "Create Btrfs snapshot"@,
            },
    {
        match self {
            LogicalActionForm::CreateLvmLogicalVolume { .. } => "Create logical volume",
            LogicalActionForm::ResizeLvmLogicalVolume { .. } => "Resize logical volume",
            LogicalActionForm::ResizeBtrfsFilesystem { .. } => "Resize Btrfs filesystem",
            LogicalActionForm::SetBtrfsLabel { .. } => "Set Btrfs label",
            LogicalActionForm::CreateBtrfsSubvolume { .. } => "Create Btrfs subvolume",
            LogicalActionForm::CreateBtrfsSnapshot { .. } => "Create Btrfs snapshot",
        }
    }

    /// Forms that run without a confirmation step submit with "Create"; the others go to a
    /// review first.
    pub fn submit_label(&self) -> (s: &'static str)
        ensures
            s@ == if *self is CreateBtrfsSubvolume || *self is CreateBtrfsSnapshot { "Create"@ } else { "Review"@ },
    {
        match self {
            LogicalActionForm::CreateBtrfsSubvolume { .. } | LogicalActionForm::CreateBtrfsSnapshot { .. } => "Create",
            _ => "Review",
        }
    }

    /// Sets the main text field: the name, the label or the snapshot destination. The resize
    /// forms have none.
    pub fn set_primary_text(&mut self, text: String)
        ensures
            *final(self) == match *old(self) {
                LogicalActionForm::CreateLvmLogicalVolume { volume_group, size_bytes, .. } =>
                    LogicalActionForm::CreateLvmLogicalVolume { volume_group, name: text, size_bytes },
                LogicalActionForm::SetBtrfsLabel { filesystem, .. } =>
                    LogicalActionForm::SetBtrfsLabel { filesystem, label: text },
                LogicalActionForm::CreateBtrfsSubvolume { filesystem, .. } =>
                    LogicalActionForm::CreateBtrfsSubvolume { filesystem, name: text },
                LogicalActionForm::CreateBtrfsSnapshot { filesystem, source, readonly, .. } =>
                    LogicalActionForm::CreateBtrfsSnapshot { filesystem, source, destination: text, readonly },
                other => other,
            },
    {
        match self {
            LogicalActionForm::CreateLvmLogicalVolume { name, .. } => { *name = text; },
            LogicalActionForm::SetBtrfsLabel { label, .. } => { *label = text; },
            LogicalActionForm::CreateBtrfsSubvolume { name, .. } => { *name = text; },
            LogicalActionForm::CreateBtrfsSnapshot { destination, .. } => { *destination = text; },
            LogicalActionForm::ResizeLvmLogicalVolume { .. } | LogicalActionForm::ResizeBtrfsFilesystem { .. } => {},
        }
    }

    /// Sets the size field of the forms that have one.
    pub fn set_size_text(&mut self, text: String)
        ensures
            *final(self) == match *old(self) {
                LogicalActionForm::CreateLvmLogicalVolume { volume_group, name, .. } =>
                    LogicalActionForm::CreateLvmLogicalVolume { volume_group, name, size_bytes: text },
                LogicalActionForm::ResizeLvmLogicalVolume { logical_volume, .. } =>
                    LogicalActionForm::ResizeLvmLogicalVolume { logical_volume, size_bytes: text },
                LogicalActionForm::ResizeBtrfsFilesystem { filesystem, .. } =>
                    LogicalActionForm::ResizeBtrfsFilesystem { filesystem, size_bytes: text },
                other => other,
            },
    {
        match self {
            LogicalActionForm::CreateLvmLogicalVolume { size_bytes, .. } => { *size_bytes = text; },
            LogicalActionForm::ResizeLvmLogicalVolume { size_bytes, .. } => { *size_bytes = text; },
            LogicalActionForm::ResizeBtrfsFilesystem { size_bytes, .. } => { *size_bytes = text; },
            _ => {},
        }
    }

    /// Sets whether the snapshot form makes a read-only snapshot.
    pub fn set_readonly(&mut self, readonly: bool)
        ensures
            *final(self) == match *old(self) {
                LogicalActionForm::CreateBtrfsSnapshot { filesystem, source, destination, .. } =>
                    LogicalActionForm::CreateBtrfsSnapshot { filesystem, source, destination, readonly },
                other => other,
            },
    {
        if let LogicalActionForm::CreateBtrfsSnapshot { readonly: value, .. } = self {
            *value = readonly;
        }
    }

    /// The action the form asks for; a size field without a non-zero number of bytes gives the
    /// message that asks for one.
    pub fn action(&self) -> (r: Result<LogicalAction, String>)
        ensures
            form_sizes_ok(*self) ==> r is Ok && action_of(*self, r->Ok_0),
            !form_sizes_ok(*self) ==> r is Err && r->Err_0@ == "Enter a non-zero size in bytes."@,
    {
        match self {
            LogicalActionForm::CreateLvmLogicalVolume { volume_group, name, size_bytes } => {
                let size = parse_size(size_bytes.as_str())?;
                Ok(LogicalAction::CreateLvmLogicalVolume { volume_group: volume_group.clone(), name: name.clone(), size_bytes: size })
            },
            LogicalActionForm::ResizeLvmLogicalVolume { logical_volume, size_bytes } => {
                let size = parse_size(size_bytes.as_str())?;
                Ok(LogicalAction::ResizeLvmLogicalVolume { logical_volume: logical_volume.clone(), size_bytes: size })
            },
            LogicalActionForm::ResizeBtrfsFilesystem { filesystem, size_bytes } => {
                let size = parse_size(size_bytes.as_str())?;
                Ok(LogicalAction::ResizeBtrfsFilesystem {
                    filesystem: filesystem.clone(),
                    request: BtrfsResizeRequest::AbsoluteBytes(size),
                })
            },
            LogicalActionForm::SetBtrfsLabel { filesystem, label } =>
                Ok(LogicalAction::SetBtrfsLabel { filesystem: filesystem.clone(), label: label.clone() }),
            LogicalActionForm::CreateBtrfsSubvolume { filesystem, name } =>
                Ok(LogicalAction::CreateBtrfsSubvolume { filesystem: filesystem.clone(), name: name.clone() }),
            LogicalActionForm::CreateBtrfsSnapshot { filesystem, source, destination, readonly } =>
                Ok(LogicalAction::CreateBtrfsSnapshot {
                    filesystem: filesystem.clone(),
                    source: source.clone(),
                    destination: destination.clone(),
                    readonly: *readonly,
                }),
        }
    }
}

/// Reopening an action in its form and submitting the form unchanged gives the same action
/// back, provided its sizes are not zero; a zero size is refused by the form.
pub proof fn lemma_form_round_trip(a: LogicalAction, f: LogicalActionForm)
    requires
        has_form(a),
        form_of(a, f),
    ensures
        form_sizes_ok(f) == sizes_nonzero(a),
        forall|b: LogicalAction| action_of(f, b) ==> same_action(a, b),
{
    match a {
        LogicalAction::CreateLvmLogicalVolume { size_bytes, .. } => lemma_parse_decimal(size_bytes),
        LogicalAction::ResizeLvmLogicalVolume { size_bytes, .. } => lemma_parse_decimal(size_bytes),
        LogicalAction::ResizeBtrfsFilesystem { request: BtrfsResizeRequest::AbsoluteBytes(s), .. } => lemma_parse_decimal(s),
        _ => {},
    }
}

} // verus!
