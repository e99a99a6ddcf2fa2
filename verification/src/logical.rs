//! Logical-topology selection, loading, and the generations that keep stale results out.
//!
//! Loads, drafts and actions each carry a generation or revision; a result is accepted only
//! for the generation it was started for. The values of actions, progress and source statuses
//! are carried as they come (type parameters `A`, `P`, `S`).
use vstd::prelude::*;
use crate::text::str_equals;

verus! {

/// The identity of a logical entity (a volume group, an array, a Btrfs filesystem, ...).
#[derive(Debug, PartialEq, Eq, PartialOrd, Ord, Hash)]
pub struct LogicalEntityId(pub String);

impl View for LogicalEntityId {
    type V = Seq<char>;

    open spec fn view(&self) -> Seq<char> {
        self.0@
    }
}

impl Clone for LogicalEntityId {
    fn clone(&self) -> (r: Self)
        ensures
            r == *self,
    {
        LogicalEntityId(self.0.clone())
    }
}

fn same_id(a: &LogicalEntityId, b: &LogicalEntityId) -> (r: bool)
    ensures
        r == (a@ == b@),
{
    str_equals(a.0.as_str(), b.0.as_str())
}

#[derive(Debug, Clone, Copy, PartialEq, Eq, Structural)]
pub enum LogicalEntityKind {
    LvmVolumeGroup,
    LvmLogicalVolume,
    LvmPhysicalVolume,
    MdRaidArray,
    MdRaidMember,
    BtrfsFilesystem,
    BtrfsSubvolume,
    BtrfsDevice,
}

/// What the selection logic reads of a logical entity.
#[derive(Debug, Clone)]
pub struct LogicalEntity {
    pub id: LogicalEntityId,
    pub kind: LogicalEntityKind,
    pub parent_id: Option<LogicalEntityId>,
    /// The block device the entity is shown under, if any.
    pub device_path: Option<String>,
    /// The name the entity is shown by.
    pub name: String,
    /// The known device paths of its members: the devices of a Btrfs filesystem, the
    /// physical volumes of a volume group, the members of a RAID array.
    pub member_paths: Vec<String>,
}

impl LogicalEntity {
    pub fn display_device_path(&self) -> (p: Option<&str>)
        ensures
            opt_str_view(p) == opt_string_view(self.device_path),
    {
        match &self.device_path {
            Some(path) => Some(path.as_str()),
            None => None,
        }
    }
}

pub open spec fn opt_str_view(o: Option<&str>) -> Option<Seq<char>> {
    match o {
        Some(s) => Some(s@),
        None => None,
    }
}

pub open spec fn opt_string_view(o: Option<String>) -> Option<Seq<char>> {
    match o {
        Some(s) => Some(s@),
        None => None,
    }
}

pub open spec fn opt_id_view(o: Option<LogicalEntityId>) -> Option<Seq<char>> {
    match o {
        Some(id) => Some(id@),
        None => None,
    }
}

#[derive(Debug, Clone)]
pub struct LogicalTopology<S> {
    pub entities: Vec<LogicalEntity>,
    pub sources: Vec<S>,
}

#[derive(Debug, Clone)]
pub enum LogicalCandidateResolution {
    Resolved { root_id: LogicalEntityId },
    Unavailable { reason: String },
}

#[derive(Debug, Clone)]
pub struct LogicalLoadResult<S> {
    pub topology: LogicalTopology<S>,
    pub candidate_resolution: LogicalCandidateResolution,
}

/// The sidebar entry a logical view was opened from.
#[derive(Debug, Clone, PartialEq, Eq)]
pub struct LogicalCandidateAnchor {
    pub display_path: String,
}

pub open spec fn opt_anchor_view(o: Option<LogicalCandidateAnchor>) -> Option<Seq<char>> {
    match o {
        Some(a) => Some(a.display_path@),
        None => None,
    }
}

#[derive(Debug, Clone, Copy, PartialEq, Eq, Structural)]
pub enum LogicalActionKind {
    CreateLvmVolumeGroup,
    RemoveLvmPhysicalVolume,
    CreateMdRaidArray,
    RemoveMdRaidMember,
    RemoveBtrfsDevice,
    SetBtrfsDefaultSubvolume,
    DeleteBtrfsSubvolume,
    CreateLvmLogicalVolume,
    ResizeLvmLogicalVolume,
    DeleteLvmLogicalVolume,
    ActivateLvmLogicalVolume,
    DeactivateLvmLogicalVolume,
    DeleteLvmVolumeGroup,
    AddLvmPhysicalVolume,
    AddMdRaidMember,
    DeleteMdRaidArray,
    StartMdRaidArray,
    StopMdRaidArray,
    RequestMdRaidSync,
    ResizeBtrfsFilesystem,
    SetBtrfsLabel,
    CreateBtrfsSubvolume,
    CreateBtrfsSnapshot,
    AddBtrfsDevice,
}

#[derive(Debug, Clone)]
pub enum LogicalPreflightTarget {
    Landing,
    Root(LogicalEntityId),
    Candidate(String),
}

/// The identity of one preflight request: what it is for, against which load and which draft.
#[derive(Debug, Clone)]
pub struct LogicalPreflightRequestKey {
    pub target: LogicalPreflightTarget,
    pub action_kind: LogicalActionKind,
    pub logical_load_generation: u64,
    pub draft_revision: u64,
}

/// A request key as plain values: target (0 landing, 1 root, 2 candidate, with its text),
/// action kind, load generation, draft revision.
pub type RequestKeyV = ((int, Seq<char>), LogicalActionKind, u64, u64);

pub open spec fn target_view(t: LogicalPreflightTarget) -> (int, Seq<char>) {
    match t {
        LogicalPreflightTarget::Landing => (0, Seq::empty()),
        LogicalPreflightTarget::Root(id) => (1, id@),
        LogicalPreflightTarget::Candidate(c) => (2, c@),
    }
}

impl View for LogicalPreflightRequestKey {
    type V = RequestKeyV;

    open spec fn view(&self) -> RequestKeyV {
        (target_view(self.target), self.action_kind, self.logical_load_generation, self.draft_revision)
    }
}

pub open spec fn opt_key_view(o: Option<LogicalPreflightRequestKey>) -> Option<RequestKeyV> {
    match o {
        Some(k) => Some(k@),
        None => None,
    }
}

fn same_target(a: &LogicalPreflightTarget, b: &LogicalPreflightTarget) -> (r: bool)
    ensures
        r == (target_view(*a) == target_view(*b)),
{
    match (a, b) {
        (LogicalPreflightTarget::Landing, LogicalPreflightTarget::Landing) => true,
        (LogicalPreflightTarget::Root(x), LogicalPreflightTarget::Root(y)) => same_id(x, y),
        (LogicalPreflightTarget::Candidate(x), LogicalPreflightTarget::Candidate(y)) => str_equals(x.as_str(), y.as_str()),
        _ => false,
    }
}

fn same_key(a: &LogicalPreflightRequestKey, b: &LogicalPreflightRequestKey) -> (r: bool)
    ensures
        r == (a@ == b@),
{
    same_target(&a.target, &b.target) && a.action_kind == b.action_kind
        && a.logical_load_generation == b.logical_load_generation && a.draft_revision == b.draft_revision
}

#[derive(Debug, Clone)]
pub struct LogicalPreflightKey {
    pub request_key: LogicalPreflightRequestKey,
}

#[derive(Debug, Clone)]
pub enum LogicalPreflightAvailability {
    Ready,
    Blocked { reason: String },
}

/// The backend's review of one draft.
#[derive(Debug, Clone)]
pub struct LogicalPreflight {
    pub key: LogicalPreflightKey,
    pub availability: LogicalPreflightAvailability,
}

/// A draft confirmed against the review of exactly that draft.
#[derive(Debug, Clone)]
pub struct ConfirmedLogicalAction<A> {
    pub action: A,
    pub preflight_key: LogicalPreflightKey,
}

#[derive(Debug, Clone)]
pub struct PendingLogicalAction<A> {
    pub action: A,
    pub entity: Option<LogicalEntityId>,
    pub generation: u64,
}

/// One editable logical operation. Input changes increment `revision` and invalidate the
/// preflight and confirmation that came before it.
#[derive(Debug, Clone)]
pub struct LogicalActionDraft<A> {
    pub action: A,
    pub target: Option<LogicalEntityId>,
    pub revision: u64,
    pub validation_error: Option<String>,
}

/// The root operation of a preflighted device picker.
#[derive(Debug, Clone, PartialEq, Eq)]
pub enum LogicalDevicePickerAction {
    LvmPhysicalVolume { volume_group: LogicalEntityId },
    MdRaidMember { array: LogicalEntityId },
    BtrfsDevice { filesystem: LogicalEntityId },
}

impl LogicalDevicePickerAction {
    pub fn title(&self) -> (s: &'static str)
        ensures
            s@ == match self {
                Self::LvmPhysicalVolume { .. } => "Add LVM physical volume"@,
                Self::MdRaidMember { .. } => "Add MD RAID member"@,
                Self::BtrfsDevice { .. } => "Add Btrfs device"@,
            },
    {
        match self {
            Self::LvmPhysicalVolume { .. } => "Add LVM physical volume",
            Self::MdRaidMember { .. } => "Add MD RAID member",
            Self::BtrfsDevice { .. } => "Add Btrfs device",
        }
    }
}

/// The entity a picker adds a device to, and the kind of the action it reviews.
pub open spec fn picker_target(p: LogicalDevicePickerAction) -> (LogicalEntityId, LogicalActionKind) {
    match p {
        LogicalDevicePickerAction::LvmPhysicalVolume { volume_group } => (volume_group, LogicalActionKind::AddLvmPhysicalVolume),
        LogicalDevicePickerAction::MdRaidMember { array } => (array, LogicalActionKind::AddMdRaidMember),
        LogicalDevicePickerAction::BtrfsDevice { filesystem } => (filesystem, LogicalActionKind::AddBtrfsDevice),
    }
}

// ---------------------------------------------------------------------------
// Selection after a load.

/// The index of the first entity satisfying `pred`.
pub open spec fn first_match(entities: Seq<LogicalEntity>, pred: spec_fn(LogicalEntity) -> bool) -> Option<int>
    decreases entities.len(),
{
    if entities.len() == 0 {
        None
    } else if pred(entities[0]) {
        Some(0)
    } else {
        match first_match(entities.drop_first(), pred) {
            Some(i) => Some(i + 1),
            None => None,
        }
    }
}

proof fn lemma_first_match(entities: Seq<LogicalEntity>, pred: spec_fn(LogicalEntity) -> bool, i: int)
    requires
        0 <= i <= entities.len(),
        forall|k: int| 0 <= k < i ==> !pred(#[trigger] entities[k]),
    ensures
        i < entities.len() && pred(entities[i]) ==> first_match(entities, pred) == Some(i),
        i == entities.len() ==> first_match(entities, pred) is None,
    decreases i,
{
    if i > 0 {
        lemma_first_match(entities.drop_first(), pred, i - 1);
        assert(!pred(entities[0]));
    } else if entities.len() > 0 {
    }
}

pub open spec fn btrfs_shown_at(path: Seq<char>) -> spec_fn(LogicalEntity) -> bool {
    |e: LogicalEntity| e.kind == LogicalEntityKind::BtrfsFilesystem && opt_string_view(e.device_path) == Some(path)
}

pub open spec fn root_shown_at(path: Seq<char>) -> spec_fn(LogicalEntity) -> bool {
    |e: LogicalEntity| e.parent_id is None && opt_string_view(e.device_path) == Some(path)
}

pub open spec fn is_root() -> spec_fn(LogicalEntity) -> bool {
    |e: LogicalEntity| e.parent_id is None
}

pub open spec fn has_entity(entities: Seq<LogicalEntity>, id: Seq<char>) -> bool {
    exists|i: int| 0 <= i < entities.len() && #[trigger] entities[i].id@ == id
}

pub open spec fn id_at(entities: Seq<LogicalEntity>, i: Option<int>) -> Option<Seq<char>> {
    match i {
        Some(k) => Some(entities[k].id@),
        None => None,
    }
}

/// The selection after a load: the previous selection if the entity still exists; else the
/// Btrfs filesystem, then the root entity, shown at the selected device; else the first root
/// entity; else the first entity.
pub open spec fn load_selection(
    previous: Option<Seq<char>>,
    selected_device: Option<Seq<char>>,
    entities: Seq<LogicalEntity>,
) -> Option<Seq<char>> {
    if previous matches Some(id) && has_entity(entities, id) {
        previous
    } else {
        let by_device = match selected_device {
            Some(path) => match first_match(entities, btrfs_shown_at(path)) {
                Some(i) => Some(entities[i].id@),
                None => id_at(entities, first_match(entities, root_shown_at(path))),
            },
            None => None,
        };
        if by_device is Some {
            by_device
        } else {
            match first_match(entities, is_root()) {
                Some(i) => Some(entities[i].id@),
                None => if entities.len() > 0 { Some(entities[0].id@) } else { None },
            }
        }
    }
}

fn find_btrfs_shown_at(entities: &Vec<LogicalEntity>, path: &str) -> (r: Option<usize>)
    ensures
        match r {
            Some(i) => i < entities@.len() && first_match(entities@, btrfs_shown_at(path@)) == Some(i as int),
            None => first_match(entities@, btrfs_shown_at(path@)) is None,
        },
{
    let mut i: usize = 0;
    while i < entities.len()
        invariant
            i <= entities@.len(),
            forall|k: int| 0 <= k < i ==> !(btrfs_shown_at(path@))(#[trigger] entities@[k]),
        decreases entities.len() - i,
    {
        let e = &entities[i];
        let shown = match e.display_device_path() {
            Some(p) => str_equals(p, path),
            None => false,
        };
        if e.kind == LogicalEntityKind::BtrfsFilesystem && shown {
            proof { lemma_first_match(entities@, btrfs_shown_at(path@), i as int); }
            return Some(i);
        }
        i = i + 1;
    }
    proof { lemma_first_match(entities@, btrfs_shown_at(path@), i as int); }
    None
}

fn find_root_shown_at(entities: &Vec<LogicalEntity>, path: &str) -> (r: Option<usize>)
    ensures
        match r {
            Some(i) => i < entities@.len() && first_match(entities@, root_shown_at(path@)) == Some(i as int),
            None => first_match(entities@, root_shown_at(path@)) is None,
        },
{
    let mut i: usize = 0;
    while i < entities.len()
        invariant
            i <= entities@.len(),
            forall|k: int| 0 <= k < i ==> !(root_shown_at(path@))(#[trigger] entities@[k]),
        decreases entities.len() - i,
    {
        let e = &entities[i];
        let shown = match e.display_device_path() {
            Some(p) => str_equals(p, path),
            None => false,
        };
        if e.parent_id.is_none() && shown {
            proof { lemma_first_match(entities@, root_shown_at(path@), i as int); }
            return Some(i);
        }
        i = i + 1;
    }
    proof { lemma_first_match(entities@, root_shown_at(path@), i as int); }
    None
}

fn find_root(entities: &Vec<LogicalEntity>) -> (r: Option<usize>)
    ensures
        match r {
            Some(i) => i < entities@.len() && first_match(entities@, is_root()) == Some(i as int),
            None => first_match(entities@, is_root()) is None,
        },
{
    let mut i: usize = 0;
    while i < entities.len()
        invariant
            i <= entities@.len(),
            forall|k: int| 0 <= k < i ==> !(is_root())(#[trigger] entities@[k]),
        decreases entities.len() - i,
    {
        if entities[i].parent_id.is_none() {
            proof { lemma_first_match(entities@, is_root(), i as int); }
            return Some(i);
        }
        i = i + 1;
    }
    proof { lemma_first_match(entities@, is_root(), i as int); }
    None
}

fn find_entity(entities: &Vec<LogicalEntity>, id: &LogicalEntityId) -> (r: Option<usize>)
    ensures
        match r {
            Some(i) => i < entities@.len() && entities@[i as int].id@ == id@,
            None => !has_entity(entities@, id@),
        },
{
    let mut i: usize = 0;
    while i < entities.len()
        invariant
            i <= entities@.len(),
            forall|k: int| 0 <= k < i ==> (#[trigger] entities@[k]).id@ != id@,
        decreases entities.len() - i,
    {
        if same_id(&entities[i].id, id) {
            return Some(i);
        }
        i = i + 1;
    }
    None
}


// ---------------------------------------------------------------------------
// The state.

/// Stateful logical-topology selection, loading, and action generations.
#[derive(Debug)]
pub struct LogicalState<A, P, S> {
    /// The user opened the logical view; the topology is loaded only after this.
    pub view_requested: bool,
    /// Device selected in the sidebar; it anchors the next load to the entity the user opened.
    pub selected_device: Option<String>,
    /// The sidebar entry the view was opened from.
    pub selected_candidate: Option<LogicalCandidateAnchor>,
    pub candidate_resolution: Option<LogicalCandidateResolution>,
    pub entities: Vec<LogicalEntity>,
    pub selected: Option<LogicalEntityId>,
    pub draft: Option<LogicalActionDraft<A>>,
    pub device_picker: Option<LogicalDevicePickerAction>,
    pub draft_revision: u64,
    pub preflight_request: Option<LogicalPreflightRequestKey>,
    pub preflight: Option<LogicalPreflight>,
    pub confirmation: Option<ConfirmedLogicalAction<A>>,
    pub pending: Option<PendingLogicalAction<A>>,
    pub logical_action_generation: u64,
    pub logical_load_generation: u64,
    pub loading: bool,
    pub last_refresh_error: Option<String>,
    pub action_status: Option<String>,
    pub action_progress: Option<P>,
    pub source_statuses: Vec<S>,
}

/// `s` with no draft, picker, review or confirmation.
pub open spec fn without_draft<A, P, S>(s: LogicalState<A, P, S>) -> LogicalState<A, P, S> {
    LogicalState { draft: None, device_picker: None, preflight_request: None, preflight: None, confirmation: None, ..s }
}

pub open spec fn opt_entity_id(entities: Seq<LogicalEntity>, id: Option<LogicalEntityId>) -> Option<Seq<char>> {
    match id {
        Some(i) => if has_entity(entities, i@) { Some(i@) } else { None },
        None => None,
    }
}

pub open spec fn is_resolved(r: Option<LogicalCandidateResolution>) -> bool {
    r matches Some(LogicalCandidateResolution::Resolved { .. })
}

fn copy_target(t: &LogicalPreflightTarget) -> (r: LogicalPreflightTarget)
    ensures
        target_view(r) == target_view(*t),
{
    match t {
        LogicalPreflightTarget::Landing => LogicalPreflightTarget::Landing,
        LogicalPreflightTarget::Root(id) => LogicalPreflightTarget::Root(id.clone()),
        LogicalPreflightTarget::Candidate(c) => LogicalPreflightTarget::Candidate(c.clone()),
    }
}

fn copy_key(k: &LogicalPreflightRequestKey) -> (r: LogicalPreflightRequestKey)
    ensures
        r@ == k@,
{
    LogicalPreflightRequestKey {
        target: copy_target(&k.target),
        action_kind: k.action_kind,
        logical_load_generation: k.logical_load_generation,
        draft_revision: k.draft_revision,
    }
}

fn copy_picker(p: &LogicalDevicePickerAction) -> (r: LogicalDevicePickerAction)
    ensures
        r == *p,
{
    match p {
        LogicalDevicePickerAction::LvmPhysicalVolume { volume_group } => LogicalDevicePickerAction::LvmPhysicalVolume {
            volume_group: volume_group.clone(),
        },
        LogicalDevicePickerAction::MdRaidMember { array } => LogicalDevicePickerAction::MdRaidMember { array: array.clone() },
        LogicalDevicePickerAction::BtrfsDevice { filesystem } => LogicalDevicePickerAction::BtrfsDevice {
            filesystem: filesystem.clone(),
        },
    }
}

fn copy_opt_id(o: &Option<LogicalEntityId>) -> (r: Option<LogicalEntityId>)
    ensures
        r == *o,
{
    match o {
        Some(id) => Some(id.clone()),
        None => None,
    }
}

fn same_anchor(a: &Option<LogicalCandidateAnchor>, b: &Option<LogicalCandidateAnchor>) -> (r: bool)
    ensures
        r == (opt_anchor_view(*a) == opt_anchor_view(*b)),
{
    match (a, b) {
        (Some(x), Some(y)) => str_equals(x.display_path.as_str(), y.display_path.as_str()),
        (None, None) => true,
        _ => false,
    }
}

pub open spec fn action_status_view<A, P, S>(s: LogicalState<A, P, S>) -> Option<Seq<char>> {
    opt_string_view(s.action_status)
}

impl<A, P, S> LogicalState<A, P, S> {
    /// A state before the view is opened: nothing selected, loaded, drafted or running.
    pub fn new() -> (s: Self)
        ensures
            !s.view_requested,
            s.selected_device is None && s.selected_candidate is None && s.candidate_resolution is None,
            s.entities@.len() == 0 && s.selected is None,
            s.draft is None && s.device_picker is None && s.draft_revision == 0,
            s.preflight_request is None && s.preflight is None && s.confirmation is None,
            s.pending is None && s.logical_action_generation == 0 && s.logical_load_generation == 0,
            !s.loading && s.last_refresh_error is None && s.action_status is None,
            s.action_progress is None && s.source_statuses@.len() == 0,
    {
        LogicalState {
            view_requested: false,
            selected_device: None,
            selected_candidate: None,
            candidate_resolution: None,
            entities: Vec::new(),
            selected: None,
            draft: None,
            device_picker: None,
            draft_revision: 0,
            preflight_request: None,
            preflight: None,
            confirmation: None,
            pending: None,
            logical_action_generation: 0,
            logical_load_generation: 0,
            loading: false,
            last_refresh_error: None,
            action_status: None,
            action_progress: None,
            source_statuses: Vec::new(),
        }
    }

    /// Opens the view, on the given device if one is given; a different device drops the
    /// selection.
    pub fn request_view(&mut self, device_path: Option<String>)
        ensures
            match device_path {
                Some(p) => *final(self) == (LogicalState {
                    view_requested: true,
                    selected_device: Some(p),
                    selected: if opt_string_view(old(self).selected_device) != Some(p@) { None } else { old(self).selected },
                    ..*old(self)
                }),
                None => *final(self) == (LogicalState { view_requested: true, ..*old(self) }),
            },
    {
        self.view_requested = true;
        if let Some(device_path) = device_path {
            let same = match &self.selected_device {
                Some(current) => str_equals(current.as_str(), device_path.as_str()),
                None => false,
            };
            if !same {
                self.selected = None;
            }
            self.selected_device = Some(device_path);
        }
    }

    /// Opens the view on a sidebar entry; another entry drops the selection and the draft.
    pub fn request_candidate(&mut self, anchor: Option<LogicalCandidateAnchor>)
        ensures
            final(self).view_requested,
            final(self).selected_candidate == anchor,
            opt_string_view(final(self).selected_device) == opt_anchor_view(anchor),
            opt_anchor_view(old(self).selected_candidate) != opt_anchor_view(anchor) ==> *final(self) == (LogicalState {
                view_requested: true,
                selected_device: final(self).selected_device,
                selected_candidate: anchor,
                selected: None,
                ..without_draft(*old(self))
            }),
            opt_anchor_view(old(self).selected_candidate) == opt_anchor_view(anchor) ==> *final(self) == (LogicalState {
                view_requested: true,
                selected_device: final(self).selected_device,
                selected_candidate: anchor,
                ..*old(self)
            }),
    {
        self.view_requested = true;
        if !same_anchor(&self.selected_candidate, &anchor) {
            self.selected = None;
            self.invalidate_draft();
        }
        self.selected_device = match &anchor {
            Some(a) => Some(a.display_path.clone()),
            None => None,
        };
        self.selected_candidate = anchor;
    }

    /// Closes the view: no device, entry, resolution, selection or draft.
    pub fn leave_view(&mut self)
        ensures
            *final(self) == (LogicalState {
                view_requested: false,
                selected_device: None,
                selected_candidate: None,
                candidate_resolution: None,
                selected: None,
                ..without_draft(*old(self))
            }),
    {
        self.view_requested = false;
        self.selected_device = None;
        self.selected_candidate = None;
        self.candidate_resolution = None;
        self.selected = None;
        self.invalidate_draft();
    }

    /// Starts a load: a new load generation, which is returned; any review against the
    /// previous topology is dropped.
    pub fn begin_load(&mut self) -> (generation: u64)
        ensures
            generation == old(self).logical_load_generation.saturating_add(1),
            *final(self) == (LogicalState {
                logical_load_generation: generation,
                preflight_request: None,
                preflight: None,
                confirmation: None,
                loading: true,
                last_refresh_error: None,
                ..*old(self)
            }),
    {
        self.logical_load_generation = self.logical_load_generation.saturating_add(1);
        self.preflight_request = None;
        self.preflight = None;
        self.confirmation = None;
        self.loading = true;
        self.last_refresh_error = None;
        self.logical_load_generation
    }

    /// Applies the result of a load. Only the load of the current generation is accepted; a
    /// stale result changes nothing. A topology replaces the entities and source statuses and
    /// selects as [`load_selection`] says; an error is recorded.
    pub fn finish_load(&mut self, generation: u64, result: Result<LogicalTopology<S>, String>) -> (accepted: bool)
        ensures
            accepted == (generation == old(self).logical_load_generation),
            !accepted ==> *final(self) == *old(self),
            accepted ==> match result {
                Ok(topology) => {
                    &&& *final(self) == (LogicalState {
                        loading: false,
                        entities: topology.entities,
                        source_statuses: topology.sources,
                        selected: final(self).selected,
                        last_refresh_error: None,
                        ..*old(self)
                    })
                    &&& opt_id_view(final(self).selected) == load_selection(
                        opt_id_view(old(self).selected),
                        opt_string_view(old(self).selected_device),
                        topology.entities@,
                    )
                },
                Err(error) => *final(self) == (LogicalState {
                    loading: false,
                    last_refresh_error: Some(error),
                    ..*old(self)
                }),
            },
    {
        if generation != self.logical_load_generation {
            return false;
        }
        self.loading = false;
        match result {
            Ok(topology) => {
                let selected = copy_opt_id(&self.selected);
                self.entities = topology.entities;
                self.source_statuses = topology.sources;
                let kept = match selected {
                    Some(id) => match find_entity(&self.entities, &id) {
                        Some(_) => Some(id),
                        None => None,
                    },
                    None => None,
                };
                let mut chosen = kept;
                if chosen.is_none() {
                    chosen = match &self.selected_device {
                        Some(device_path) => match find_btrfs_shown_at(&self.entities, device_path.as_str()) {
                            Some(i) => Some(self.entities[i].id.clone()),
                            None => match find_root_shown_at(&self.entities, device_path.as_str()) {
                                Some(i) => Some(self.entities[i].id.clone()),
                                None => None,
                            },
                        },
                        None => None,
                    };
                }
                if chosen.is_none() {
                    chosen = match find_root(&self.entities) {
                        Some(i) => Some(self.entities[i].id.clone()),
                        None => if self.entities.len() > 0 {
                            Some(self.entities[0].id.clone())
                        } else {
                            None
                        },
                    };
                }
                self.selected = chosen;
                self.last_refresh_error = None;
            },
            Err(error) => self.last_refresh_error = Some(error),
        }
        true
    }

    /// Applies a load result that also resolves the sidebar entry the view was opened from.
    /// The resolution is recorded in any case; if the load is accepted, a resolved entry
    /// selects its root entity (if loaded), and an unresolved entry leaves nothing selected.
    pub fn finish_load_result(&mut self, generation: u64, result: Result<LogicalLoadResult<S>, String>) -> (accepted: bool)
        ensures
            accepted == (generation == old(self).logical_load_generation),
            match result {
                Ok(loaded) => {
                    &&& final(self).candidate_resolution == Some(loaded.candidate_resolution)
                    &&& !accepted ==> *final(self) == (LogicalState {
                        candidate_resolution: Some(loaded.candidate_resolution),
                        ..*old(self)
                    })
                    &&& accepted ==> *final(self) == (LogicalState {
                        candidate_resolution: Some(loaded.candidate_resolution),
                        loading: false,
                        entities: loaded.topology.entities,
                        source_statuses: loaded.topology.sources,
                        selected: final(self).selected,
                        last_refresh_error: None,
                        ..*old(self)
                    })
                    &&& accepted ==> opt_id_view(final(self).selected) == match loaded.candidate_resolution {
                        LogicalCandidateResolution::Resolved { root_id } => opt_entity_id(
                            loaded.topology.entities@,
                            Some(root_id),
                        ),
                        _ => if old(self).selected_candidate is Some {
                            None
                        } else {
                            load_selection(
                                opt_id_view(old(self).selected),
                                opt_string_view(old(self).selected_device),
                                loaded.topology.entities@,
                            )
                        },
                    }
                },
                Err(error) => {
                    &&& !accepted ==> *final(self) == *old(self)
                    &&& accepted ==> *final(self) == (LogicalState {
                        loading: false,
                        last_refresh_error: Some(error),
                        ..*old(self)
                    })
                },
            },
    {
        match result {
            Ok(result) => {
                let resolved_root = match &result.candidate_resolution {
                    LogicalCandidateResolution::Resolved { root_id } => Some(root_id.clone()),
                    LogicalCandidateResolution::Unavailable { .. } => None,
                };
                let is_resolved_now = resolved_root.is_some();
                self.candidate_resolution = Some(result.candidate_resolution);
                let accepted = self.finish_load(generation, Ok(result.topology));
                if accepted {
                    if let Some(root_id) = resolved_root {
                        self.selected = match find_entity(&self.entities, &root_id) {
                            Some(_) => Some(root_id),
                            None => None,
                        };
                    }
                    if !is_resolved_now && self.selected_candidate.is_some() {
                        self.selected = None;
                    }
                }
                accepted
            },
            Err(error) => self.finish_load(generation, Err(error)),
        }
    }

    /// Selects an entity (nothing if it is not loaded), dropping the draft.
    pub fn select(&mut self, entity: Option<LogicalEntityId>)
        ensures
            *final(self) == (LogicalState {
                view_requested: true,
                selected: final(self).selected,
                ..without_draft(*old(self))
            }),
            opt_id_view(final(self).selected) == opt_entity_id(old(self).entities@, entity),
    {
        self.view_requested = true;
        self.invalidate_draft();
        self.selected = match entity {
            Some(id) => match find_entity(&self.entities, &id) {
                Some(_) => Some(id),
                None => None,
            },
            None => None,
        };
    }

    /// Drops the draft, the device picker, the review and the confirmation.
    pub fn invalidate_draft(&mut self)
        ensures
            *final(self) == without_draft(*old(self)),
    {
        self.draft = None;
        self.device_picker = None;
        self.preflight_request = None;
        self.preflight = None;
        self.confirmation = None;
    }

    fn next_draft_revision(&mut self) -> (revision: u64)
        ensures
            revision == old(self).draft_revision.saturating_add(1),
            *final(self) == (LogicalState { draft_revision: revision, ..*old(self) }),
    {
        self.draft_revision = self.draft_revision.saturating_add(1);
        self.draft_revision
    }

    fn begin_preflight(
        &mut self,
        target: Option<LogicalEntityId>,
        action_kind: LogicalActionKind,
        revision: u64,
    ) -> (request: LogicalPreflightRequestKey)
        ensures
            request@ == (
                match target {
                    Some(t) => (1int, t@),
                    None => (0int, Seq::<char>::empty()),
                },
                action_kind,
                old(self).logical_load_generation,
                revision,
            ),
            opt_key_view(final(self).preflight_request) == Some(request@),
            *final(self) == (LogicalState {
                preflight: None,
                confirmation: None,
                preflight_request: final(self).preflight_request,
                ..*old(self)
            }),
    {
        self.preflight = None;
        self.confirmation = None;
        let request = LogicalPreflightRequestKey {
            target: match target {
                Some(t) => LogicalPreflightTarget::Root(t),
                None => LogicalPreflightTarget::Landing,
            },
            action_kind,
            logical_load_generation: self.logical_load_generation,
            draft_revision: revision,
        };
        self.preflight_request = Some(copy_key(&request));
        request
    }

    /// Opens a device picker: the previous draft is dropped, a new draft revision starts, and
    /// the review request for the picker's root entity is returned.
    pub fn begin_device_picker(&mut self, picker: LogicalDevicePickerAction) -> (request: LogicalPreflightRequestKey)
        ensures
            ({
                let revision = old(self).draft_revision.saturating_add(1);
                let (target, kind) = picker_target(picker);
                &&& request@ == ((1int, target@), kind, old(self).logical_load_generation, revision)
                &&& opt_key_view(final(self).preflight_request) == Some(request@)
                &&& *final(self) == (LogicalState {
                    draft_revision: revision,
                    device_picker: Some(picker),
                    preflight_request: final(self).preflight_request,
                    ..without_draft(*old(self))
                })
            }),
    {
        self.invalidate_draft();
        self.device_picker = Some(copy_picker(&picker));
        let revision = self.next_draft_revision();
        let (target, action_kind) = match picker {
            LogicalDevicePickerAction::LvmPhysicalVolume { volume_group } => (volume_group, LogicalActionKind::AddLvmPhysicalVolume),
            LogicalDevicePickerAction::MdRaidMember { array } => (array, LogicalActionKind::AddMdRaidMember),
            LogicalDevicePickerAction::BtrfsDevice { filesystem } => (filesystem, LogicalActionKind::AddBtrfsDevice),
        };
        self.begin_preflight(Some(target), action_kind, revision)
    }

    /// Accepts the review that answers the current review request; any other is refused and
    /// changes nothing.
    pub fn accept_preflight(&mut self, preflight: LogicalPreflight) -> (accepted: bool)
        ensures
            accepted == (opt_key_view(old(self).preflight_request) == Some(preflight.key.request_key@)),
            accepted ==> *final(self) == (LogicalState { preflight: Some(preflight), ..*old(self) }),
            !accepted ==> *final(self) == *old(self),
    {
        let current = match &self.preflight_request {
            Some(request) => same_key(request, &preflight.key.request_key),
            None => false,
        };
        if !current {
            return false;
        }
        self.preflight = Some(preflight);
        true
    }

    /// The selected entity, if it is loaded.
    pub fn selected_entity(&self) -> (e: Option<&LogicalEntity>)
        ensures
            match e {
                Some(entity) => self.selected matches Some(id) && entity.id@ == id@ && self.entities@.contains(*entity),
                None => opt_entity_id(self.entities@, self.selected) is None,
            },
    {
        match &self.selected {
            Some(id) => match find_entity(&self.entities, id) {
                Some(i) => Some(&self.entities[i]),
                None => None,
            },
            None => None,
        }
    }

    /// Starts an action unless one is in progress; returns its generation.
    pub fn begin_action(&mut self, action: A, entity: Option<LogicalEntityId>) -> (r: Result<u64, String>)
        ensures
            old(self).pending is Some ==> r is Err && *final(self) == *old(self) && r->Err_0@
                == "Another logical operation is in progress."@,
            old(self).pending is None ==> {
                let generation = old(self).logical_action_generation.saturating_add(1);
                &&& r == Ok::<u64, String>(generation)
                &&& final(self).pending == Some(PendingLogicalAction { action, entity, generation })
                &&& action_status_view(*final(self)) == Some("Operation in progress"@)
                &&& *final(self) == (LogicalState {
                    logical_action_generation: generation,
                    pending: final(self).pending,
                    action_status: final(self).action_status,
                    action_progress: None,
                    ..*old(self)
                })
            },
    {
        if self.pending.is_some() {
            return Err("Another logical operation is in progress.".to_string());
        }
        self.logical_action_generation = self.logical_action_generation.saturating_add(1);
        let generation = self.logical_action_generation;
        self.pending = Some(PendingLogicalAction { action, entity, generation });
        self.action_status = Some("Operation in progress".to_string());
        self.action_progress = None;
        Ok(generation)
    }

    /// Records progress of the action in progress; progress of any other generation is refused.
    pub fn progress(&mut self, generation: u64, progress: P) -> (accepted: bool)
        ensures
            accepted == (old(self).pending matches Some(p) && p.generation == generation),
            accepted ==> *final(self) == (LogicalState { action_progress: Some(progress), ..*old(self) }),
            !accepted ==> *final(self) == *old(self),
    {
        let current = match &self.pending {
            Some(pending) => pending.generation == generation,
            None => false,
        };
        if current {
            self.action_progress = Some(progress);
            true
        } else {
            false
        }
    }

    /// Finishes the action in progress; the result of any other generation is refused.
    pub fn finish_action(&mut self, generation: u64, result: Result<(), String>) -> (accepted: bool)
        ensures
            accepted == (old(self).pending matches Some(p) && p.generation == generation),
            !accepted ==> *final(self) == *old(self),
            accepted ==> *final(self) == (LogicalState {
                pending: None,
                action_progress: None,
                action_status: final(self).action_status,
                ..*old(self)
            }),
            accepted ==> match result {
                Ok(()) => action_status_view(*final(self)) == Some("Operation completed"@),
                Err(error) => final(self).action_status == Some(error),
            },
    {
        let current = match &self.pending {
            Some(pending) => pending.generation == generation,
            None => false,
        };
        if !current {
            return false;
        }
        self.pending = None;
        self.action_progress = None;
        self.action_status = Some(match result {
            Ok(()) => "Operation completed".to_string(),
            Err(error) => error,
        });
        true
    }
}

/// Why a draft cannot be confirmed now, if it cannot: in the order in which it is checked.
pub open spec fn confirm_refusal<A, P, S>(s: LogicalState<A, P, S>) -> Option<Seq<char>> {
    match s.draft {
        None => Some("No logical action is being edited."@),
        Some(draft) => match draft.validation_error {
            Some(error) => Some(error@),
            None => match s.preflight {
                None => Some("Wait for the current logical action review."@),
                Some(preflight) => match s.preflight_request {
                    None => Some("The logical action review expired."@),
                    Some(request) => if preflight.key.request_key@ != request@ {
                        Some("The logical action review is stale; retry it."@)
                    } else if preflight.key.request_key.draft_revision != draft.revision {
                        Some("The logical action draft changed; review it again."@)
                    } else if (match preflight.key.request_key.target {
                        LogicalPreflightTarget::Root(t) => Some(t@),
                        _ => None,
                    }) != opt_id_view(draft.target) {
                        Some("The logical action target changed; review it again."@)
                    } else if !(preflight.availability is Ready) {
                        Some("This logical action is currently unavailable."@)
                    } else {
                        None
                    },
                },
            },
        },
    }
}

/// An action that names its kind, as a review request carries it.
pub trait KindedAction {
    /// The kind of the action.
    spec fn kind_spec(&self) -> LogicalActionKind;

    /// The kind of the action.
    fn kind(&self) -> (k: LogicalActionKind)
        ensures
            k == self.kind_spec(),
    ;
}

impl<A: KindedAction, P, S> LogicalState<A, P, S> {
    /// Starts a draft of `action` on `target`, with a new draft revision, and returns the
    /// review request for it, which names the action's kind.
    pub fn begin_draft(
        &mut self,
        action: A,
        target: Option<LogicalEntityId>,
    ) -> (request: LogicalPreflightRequestKey)
        ensures
            ({
                let revision = old(self).draft_revision.saturating_add(1);
                &&& request@ == (
                    match target {
                        Some(t) => (1int, t@),
                        None => (0int, Seq::<char>::empty()),
                    },
                    action.kind_spec(),
                    old(self).logical_load_generation,
                    revision,
                )
                &&& opt_key_view(final(self).preflight_request) == Some(request@)
                &&& final(self).draft == Some(LogicalActionDraft { action, target, revision, validation_error: None })
                &&& *final(self) == (LogicalState {
                    draft_revision: revision,
                    draft: final(self).draft,
                    device_picker: None,
                    preflight: None,
                    confirmation: None,
                    preflight_request: final(self).preflight_request,
                    ..*old(self)
                })
            }),
    {
        let revision = self.next_draft_revision();
        let action_kind = action.kind();
        self.draft = Some(LogicalActionDraft {
            action,
            target: copy_opt_id(&target),
            revision,
            validation_error: None,
        });
        self.device_picker = None;
        self.begin_preflight(target, action_kind, revision)
    }

}

impl<A: Clone, P, S> LogicalState<A, P, S> {
    /// Confirms the draft against the review of exactly that draft, target and topology, when
    /// the review found the action available; the confirmation is kept. Otherwise the reason
    /// is returned (see [`confirm_refusal`]) and nothing changes.
    pub fn confirm_draft(&mut self) -> (r: Result<ConfirmedLogicalAction<A>, String>)
        ensures
            match r {
                Ok(confirmed) => {
                    &&& confirm_refusal(*old(self)) is None
                    &&& cloned(old(self).draft->0.action, confirmed.action)
                    &&& confirmed.preflight_key.request_key@ == (old(self).preflight->0).key.request_key@
                    &&& final(self).confirmation matches Some(kept)
                        && cloned(old(self).draft->0.action, kept.action)
                        && kept.preflight_key.request_key@ == confirmed.preflight_key.request_key@
                    &&& *final(self) == (LogicalState { confirmation: final(self).confirmation, ..*old(self) })
                },
                Err(reason) => {
                    &&& confirm_refusal(*old(self)) == Some(reason@)
                    &&& *final(self) == *old(self)
                },
            },
    {
        let draft = match &self.draft {
            Some(draft) => draft,
            None => return Err("No logical action is being edited.".to_string()),
        };
        if let Some(error) = &draft.validation_error {
            return Err(error.clone());
        }
        let preflight = match &self.preflight {
            Some(preflight) => preflight,
            None => return Err("Wait for the current logical action review.".to_string()),
        };
        let request = match &self.preflight_request {
            Some(request) => request,
            None => return Err("The logical action review expired.".to_string()),
        };
        if !same_key(&preflight.key.request_key, request) {
            return Err("The logical action review is stale; retry it.".to_string());
        }
        if preflight.key.request_key.draft_revision != draft.revision {
            return Err("The logical action draft changed; review it again.".to_string());
        }
        let same_target = match (&preflight.key.request_key.target, &draft.target) {
            (LogicalPreflightTarget::Root(target), Some(draft_target)) => same_id(target, draft_target),
            (LogicalPreflightTarget::Root(_), None) => false,
            (_, Some(_)) => false,
            (_, None) => true,
        };
        if !same_target {
            return Err("The logical action target changed; review it again.".to_string());
        }
        let ready = match &preflight.availability {
            LogicalPreflightAvailability::Ready => true,
            LogicalPreflightAvailability::Blocked { .. } => false,
        };
        if !ready {
            return Err("This logical action is currently unavailable.".to_string());
        }
        let kept = ConfirmedLogicalAction {
            action: draft.action.clone(),
            preflight_key: LogicalPreflightKey { request_key: copy_key(&preflight.key.request_key) },
        };
        let confirmed = ConfirmedLogicalAction {
            action: draft.action.clone(),
            preflight_key: LogicalPreflightKey { request_key: copy_key(&preflight.key.request_key) },
        };
        self.confirmation = Some(kept);
        Ok(confirmed)
    }
}

/// A draft is confirmed only against a review that answers the current review request, for
/// the draft's own revision and target, and that found the action available.
pub proof fn lemma_confirmation_needs_current_review<A, P, S>(s: LogicalState<A, P, S>)
    requires
        confirm_refusal(s) is None,
    ensures
        s.draft matches Some(draft) && draft.validation_error is None,
        s.preflight matches Some(preflight) && s.preflight_request matches Some(request) && {
            &&& preflight.key.request_key@ == request@
            &&& request.draft_revision == s.draft->0.revision
            &&& (s.draft->0.target matches Some(t) ==> target_view(request.target) == (1int, t@))
            &&& (s.draft->0.target is None ==> !(request.target is Root))
            &&& preflight.availability is Ready
        },
{
}
} // verus!
