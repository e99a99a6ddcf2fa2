//! Refresh run allocation for the logical and physical topology views.
//!
//! The coordinator is the single authority for refresh runs. A successful action creates a
//! post-success barrier in both domains, so an older in-flight load cannot satisfy the
//! refresh that observes the action.
use vstd::prelude::*;

verus! {

pub type RefreshClock = u64;

#[derive(Debug, Clone, Copy, PartialEq, Eq, PartialOrd, Ord, Structural)]
pub enum RefreshDomain {
    Logical,
    Physical,
}

#[derive(Debug, Clone, Copy, PartialEq, Eq, PartialOrd, Ord, Structural)]
pub enum RefreshCause {
    Manual,
    DeviceEvent,
    ActionSuccess { action_generation: u64 },
}

/// The position of a cause in the order of causes: by variant, then by generation.
pub open spec fn cause_key(c: RefreshCause) -> (int, int) {
    match c {
        RefreshCause::Manual => (0, 0),
        RefreshCause::DeviceEvent => (1, 0),
        RefreshCause::ActionSuccess { action_generation } => (2, action_generation as int),
    }
}

pub open spec fn cause_lt(a: RefreshCause, b: RefreshCause) -> bool {
    cause_key(a).0 < cause_key(b).0 || (cause_key(a).0 == cause_key(b).0 && cause_key(a).1 < cause_key(b).1)
}

fn cause_less(a: RefreshCause, b: RefreshCause) -> (r: bool)
    ensures
        r == cause_lt(a, b),
{
    let ka: (u8, u64) = match a {
        RefreshCause::Manual => (0, 0),
        RefreshCause::DeviceEvent => (1, 0),
        RefreshCause::ActionSuccess { action_generation } => (2, action_generation),
    };
    let kb: (u8, u64) = match b {
        RefreshCause::Manual => (0, 0),
        RefreshCause::DeviceEvent => (1, 0),
        RefreshCause::ActionSuccess { action_generation } => (2, action_generation),
    };
    ka.0 < kb.0 || (ka.0 == kb.0 && ka.1 < kb.1)
}

proof fn lemma_cause_lt_facts()
    ensures
        forall|a: RefreshCause, b: RefreshCause| #[trigger] cause_lt(a, b) ==> a != b,
        forall|a: RefreshCause, b: RefreshCause| !cause_lt(a, b) && !cause_lt(b, a) ==> a == b,
        forall|a: RefreshCause, b: RefreshCause, c: RefreshCause|
            #[trigger] cause_lt(a, b) && #[trigger] cause_lt(b, c) ==> cause_lt(a, c),
{
}

pub open spec fn strictly_ordered(s: Seq<RefreshCause>) -> bool {
    forall|i: int, j: int| 0 <= i < j < s.len() ==> cause_lt(#[trigger] s[i], #[trigger] s[j])
}

/// A set of refresh causes, kept in cause order without repetition.
#[derive(Debug, PartialEq, Eq)]
pub struct CauseSet {
    items: Vec<RefreshCause>,
}

impl View for CauseSet {
    type V = Set<RefreshCause>;

    closed spec fn view(&self) -> Set<RefreshCause> {
        self.items@.to_set()
    }
}

impl Clone for CauseSet {
    fn clone(&self) -> (s: Self)
        ensures
            s@ == self@,
            s.members() == self.members(),
    {
        proof { use_type_invariant(self); }
        let v = self.to_vec();
        CauseSet { items: v }
    }
}

impl CauseSet {
    #[verifier::type_invariant]
    closed spec fn ordered(self) -> bool {
        strictly_ordered(self.items@)
    }

    /// The members in cause order.
    pub closed spec fn members(self) -> Seq<RefreshCause> {
        self.items@
    }

    pub fn new() -> (s: Self)
        ensures
            s@ == Set::<RefreshCause>::empty(),
    {
        let s = CauseSet { items: Vec::new() };
        assert(s@ =~= Set::<RefreshCause>::empty());
        s
    }

    pub fn single(cause: RefreshCause) -> (s: Self)
        ensures
            s@ == set![cause],
    {
        let mut items = Vec::new();
        items.push(cause);
        let s = CauseSet { items };
        assert(s.items@ =~= seq![cause]);
        assert forall|c: RefreshCause| s@.contains(c) <==> set![cause].contains(c) by {
            if c == cause {
                assert(s.items@[0] == c);
            }
        }
        assert(s@ =~= set![cause]);
        s
    }

    pub fn contains(&self, cause: RefreshCause) -> (r: bool)
        ensures
            r == self@.contains(cause),
    {
        let mut i: usize = 0;
        while i < self.items.len()
            invariant
                i <= self.items@.len(),
                forall|k: int| 0 <= k < i ==> self.items@[k] != cause,
            decreases self.items.len() - i,
        {
            if self.items[i] == cause {
                assert(self.items@.contains(cause));
                return true;
            }
            i = i + 1;
        }
        false
    }

    pub fn len(&self) -> (n: usize)
        ensures
            n == self@.len(),
    {
        proof {
            use_type_invariant(self);
            lemma_cause_lt_facts();
            assert(self.items@.no_duplicates());
            self.items@.unique_seq_to_set();
        }
        self.items.len()
    }

    /// The members in cause order.
    pub fn to_vec(&self) -> (v: Vec<RefreshCause>)
        ensures
            v@ == self.members(),
            strictly_ordered(v@),
            v@.to_set() == self@,
    {
        proof { use_type_invariant(self); }
        let mut v: Vec<RefreshCause> = Vec::new();
        let mut i: usize = 0;
        while i < self.items.len()
            invariant
                i <= self.items@.len(),
                v@ == self.items@.take(i as int),
            decreases self.items.len() - i,
        {
            v.push(self.items[i]);
            i = i + 1;
            assert(v@ =~= self.items@.take(i as int));
        }
        assert(self.items@.take(self.items.len() as int) =~= self.items@);
        v
    }


    pub fn insert(&mut self, cause: RefreshCause)
        ensures
            final(self)@ == old(self)@.insert(cause),
    {
        proof {
            use_type_invariant(&*self);
            lemma_cause_lt_facts();
        }
        let ghost old_items = self.items@;
        let mut j: usize = 0;
        while j < self.items.len() && cause_less(self.items[j], cause)
            invariant
                j <= self.items@.len(),
                self.items@ == old_items,
                strictly_ordered(old_items),
                forall|k: int| 0 <= k < j ==> cause_lt(#[trigger] old_items[k], cause),
            decreases self.items.len() - j,
        {
            j = j + 1;
        }
        if j < self.items.len() && self.items[j] == cause {
            assert(old_items.to_set() =~= old_items.to_set().insert(cause));
            return;
        }
        let mut items = Vec::new();
        std::mem::swap(&mut items, &mut self.items);
        items.insert(j, cause);
        let ghost new_items = items@;
        assert(new_items =~= old_items.take(j as int).push(cause) + old_items.skip(j as int));
        assert forall|k: int| 0 <= k < old_items.len() - j implies !cause_lt(#[trigger] old_items[j + k], cause)
            && old_items[j + k] != cause by {
            if k > 0 {
                assert(cause_lt(old_items[j as int], old_items[j + k]));
            }
        }
        assert forall|a: int, b: int| 0 <= a < b < new_items.len() implies cause_lt(
            #[trigger] new_items[a],
            #[trigger] new_items[b],
        ) by {
            if a < j && b < j {
            } else if a < j && b == j {
            } else if a < j {
                assert(new_items[b] == old_items[b - 1]);
                assert(cause_lt(old_items[a], old_items[b - 1]));
            } else if a == j {
                assert(new_items[b] == old_items[b - 1]);
                assert(!cause_lt(old_items[b - 1], cause) && old_items[b - 1] != cause);
            } else {
                assert(new_items[a] == old_items[a - 1]);
                assert(new_items[b] == old_items[b - 1]);
            }
        }
        assert forall|c: RefreshCause| new_items.contains(c) <==> old_items.contains(c) || c == cause by {
            if new_items.contains(c) {
                let k = choose|k: int| 0 <= k < new_items.len() && new_items[k] == c;
                if k < j {
                    assert(old_items[k] == c);
                } else if k > j {
                    assert(old_items[k - 1] == c);
                }
            }
            if old_items.contains(c) {
                let k = choose|k: int| 0 <= k < old_items.len() && old_items[k] == c;
                if k < j {
                    assert(new_items[k] == c);
                } else {
                    assert(new_items[k + 1] == c);
                }
            }
            if c == cause {
                assert(new_items[j as int] == c);
            }
        }
        self.items = items;
        assert(final(self)@ =~= old(self)@.insert(cause));
    }

    pub fn extend(&mut self, other: CauseSet)
        ensures
            final(self)@ == old(self)@.union(other@),
    {
        proof { use_type_invariant(&other); }
        let items = other.to_vec();
        let mut i: usize = 0;
        while i < items.len()
            invariant
                i <= items@.len(),
                items@ == other.members(),
                other@ == other.members().to_set(),
                self@ == old(self)@.union(items@.take(i as int).to_set()),
            decreases items.len() - i,
        {
            let ghost before = self@;
            self.insert(items[i]);
            assert(items@.take(i + 1).to_set() =~= items@.take(i as int).to_set().insert(items@[i as int])) by {
                let t = items@.take(i as int);
                assert(items@.take(i + 1) =~= t.push(items@[i as int]));
                assert forall|c: RefreshCause| #[trigger] t.push(items@[i as int]).contains(c) <==> t.contains(c) || c == items@[i as int] by {
                    vstd::seq_lib::lemma_seq_contains_after_push(t, items@[i as int], c);
                }
            }
            assert(self@ =~= old(self)@.union(items@.take(i + 1).to_set()));
            i = i + 1;
        }
        assert(items@.take(items.len() as int) =~= items@);
    }
}


/// A requested refresh that has not started yet.
#[derive(Debug, Clone, PartialEq, Eq)]
pub struct RefreshRequest {
    pub requested_at: RefreshClock,
    pub must_start_after: Option<RefreshClock>,
    pub causes: CauseSet,
}

/// A refresh in flight.
#[derive(Debug, Clone, PartialEq, Eq)]
pub struct RefreshRun {
    pub run_id: u64,
    pub started_at: RefreshClock,
    pub causes: CauseSet,
}

#[derive(Debug, Clone, PartialEq, Eq)]
pub struct DomainRefreshState {
    pub running: Option<RefreshRun>,
    pub queued: Option<RefreshRequest>,
    pub next_run_id: u64,
}

#[derive(Debug, Clone, PartialEq, Eq)]
pub struct RefreshCoordinator {
    pub clock: RefreshClock,
    pub logical: DomainRefreshState,
    pub physical: DomainRefreshState,
}

/// A run: id, start time, causes.
pub type RunV = (u64, u64, Set<RefreshCause>);

/// A request: request time, barrier, causes.
pub type RequestV = (u64, Option<u64>, Set<RefreshCause>);

/// A domain: running run, queued request, last run id handed out.
pub type DomainV = (Option<RunV>, Option<RequestV>, u64);

/// The coordinator: clock, logical domain, physical domain.
pub type CoordinatorV = (u64, DomainV, DomainV);

impl View for RefreshRun {
    type V = RunV;

    open spec fn view(&self) -> RunV {
        (self.run_id, self.started_at, self.causes@)
    }
}

impl View for RefreshRequest {
    type V = RequestV;

    open spec fn view(&self) -> RequestV {
        (self.requested_at, self.must_start_after, self.causes@)
    }
}

pub open spec fn opt_run_view(r: Option<RefreshRun>) -> Option<RunV> {
    match r {
        Some(run) => Some(run@),
        None => None,
    }
}

pub open spec fn opt_request_view(r: Option<RefreshRequest>) -> Option<RequestV> {
    match r {
        Some(req) => Some(req@),
        None => None,
    }
}

impl View for DomainRefreshState {
    type V = DomainV;

    open spec fn view(&self) -> DomainV {
        (opt_run_view(self.running), opt_request_view(self.queued), self.next_run_id)
    }
}

impl View for RefreshCoordinator {
    type V = CoordinatorV;

    open spec fn view(&self) -> CoordinatorV {
        (self.clock, self.logical@, self.physical@)
    }
}

impl Default for DomainRefreshState {
    fn default() -> (s: Self)
        ensures
            s@ == (None::<RunV>, None::<RequestV>, 0u64),
    {
        DomainRefreshState { running: None, queued: None, next_run_id: 0 }
    }
}

impl Default for RefreshCoordinator {
    fn default() -> (s: Self)
        ensures
            s@ == initial_coordinator(),
    {
        RefreshCoordinator {
            clock: 0,
            logical: DomainRefreshState::default(),
            physical: DomainRefreshState::default(),
        }
    }
}

pub open spec fn initial_coordinator() -> CoordinatorV {
    (0, (None, None, 0), (None, None, 0))
}

pub open spec fn tick_v(clock: u64) -> u64 {
    clock.saturating_add(1)
}

pub open spec fn dom_v(c: CoordinatorV, d: RefreshDomain) -> DomainV {
    match d {
        RefreshDomain::Logical => c.1,
        RefreshDomain::Physical => c.2,
    }
}

pub open spec fn with_dom(c: CoordinatorV, d: RefreshDomain, s: DomainV) -> CoordinatorV {
    match d {
        RefreshDomain::Logical => (c.0, s, c.2),
        RefreshDomain::Physical => (c.0, c.1, s),
    }
}

/// The later of two optional barriers.
pub open spec fn merge_barrier(a: Option<u64>, b: Option<u64>) -> Option<u64> {
    match (a, b) {
        (Some(x), Some(y)) => Some(if x > y { x } else { y }),
        (Some(x), None) => Some(x),
        (None, Some(y)) => Some(y),
        (None, None) => None,
    }
}

/// Starting the queued request of a domain when nothing runs there: the clock ticks, the run
/// gets the next id and the request's causes.
pub open spec fn start_next_v(c: CoordinatorV, d: RefreshDomain) -> (CoordinatorV, Option<RunV>) {
    let st = dom_v(c, d);
    if st.0 is Some || st.1 is None {
        (c, None)
    } else {
        let started_at = tick_v(c.0);
        let id = st.2.saturating_add(1);
        let run: RunV = (id, started_at, (st.1->0).2);
        (with_dom((started_at, c.1, c.2), d, (Some(run), None, id)), Some(run))
    }
}

/// Whether a request joins the run in flight: nothing is queued and the run started after the
/// request's barrier, if it has one.
pub open spec fn can_join(st: DomainV, req: RequestV) -> bool {
    &&& st.1 is None
    &&& st.0 is Some
    &&& (req.1 matches Some(b) ==> (st.0->0).1 > b)
}

/// Adding a request to a domain: it joins the run in flight when it can; otherwise it is
/// merged into the queued request (earliest request time, latest barrier, all causes) and the
/// queue is started if nothing runs.
pub open spec fn enqueue_v(c: CoordinatorV, d: RefreshDomain, req: RequestV) -> (CoordinatorV, Option<RunV>) {
    let st = dom_v(c, d);
    if can_join(st, req) {
        let run = st.0->0;
        (with_dom(c, d, (Some((run.0, run.1, run.2.union(req.2))), None, st.2)), None)
    } else {
        let merged: RequestV = match st.1 {
            Some(q) => (
                if q.0 < req.0 { q.0 } else { req.0 },
                merge_barrier(q.1, req.1),
                q.2.union(req.2),
            ),
            None => req,
        };
        start_next_v(with_dom(c, d, (st.0, Some(merged), st.2)), d)
    }
}

pub open spec fn request_v(c: CoordinatorV, d: RefreshDomain, cause: RefreshCause) -> (CoordinatorV, Option<RunV>) {
    let now = tick_v(c.0);
    enqueue_v((now, c.1, c.2), d, (now, None, set![cause]))
}

pub open spec fn action_request(barrier: u64, action_generation: u64) -> RequestV {
    (barrier, Some(barrier), set![RefreshCause::ActionSuccess { action_generation }])
}

pub open spec fn action_succeeded_v(c: CoordinatorV, action_generation: u64) -> (
    CoordinatorV,
    Option<RunV>,
    Option<RunV>,
) {
    let barrier = tick_v(c.0);
    let (c1, r1) = enqueue_v(
        (barrier, c.1, c.2),
        RefreshDomain::Logical,
        action_request(barrier, action_generation),
    );
    let (c2, r2) = enqueue_v(c1, RefreshDomain::Physical, action_request(barrier, action_generation));
    (c2, r1, r2)
}

pub open spec fn complete_v(c: CoordinatorV, d: RefreshDomain, run_id: u64) -> (CoordinatorV, Option<RunV>) {
    let st = dom_v(c, d);
    if st.0 matches Some(run) && run.0 == run_id {
        start_next_v(with_dom(c, d, (None, st.1, st.2)), d)
    } else {
        (c, None)
    }
}

impl RefreshCoordinator {
    /// Requests a refresh of `domain`; returns the run that starts because of it, if any.
    pub fn request(&mut self, domain: RefreshDomain, cause: RefreshCause) -> (r: Option<RefreshRun>)
        ensures
            (final(self)@, opt_run_view(r)) == request_v(old(self)@, domain, cause),
    {
        let requested_at = self.tick();
        self.enqueue(
            domain,
            RefreshRequest { requested_at, must_start_after: None, causes: CauseSet::single(cause) },
        )
    }

    /// Records a successful action: both domains get a refresh that must start after a fresh
    /// barrier. Returns the runs that start, logical first.
    pub fn action_succeeded(&mut self, action_generation: u64) -> (r: [Option<RefreshRun>; 2])
        ensures
            (final(self)@, opt_run_view(r[0]), opt_run_view(r[1])) == action_succeeded_v(
                old(self)@,
                action_generation,
            ),
    {
        let barrier = self.tick();
        let logical = self.enqueue(
            RefreshDomain::Logical,
            RefreshRequest {
                requested_at: barrier,
                must_start_after: Some(barrier),
                causes: CauseSet::single(RefreshCause::ActionSuccess { action_generation }),
            },
        );
        let physical = self.enqueue(
            RefreshDomain::Physical,
            RefreshRequest {
                requested_at: barrier,
                must_start_after: Some(barrier),
                causes: CauseSet::single(RefreshCause::ActionSuccess { action_generation }),
            },
        );
        [logical, physical]
    }

    /// Starts the queued refresh of `domain` when none is running.
    pub fn start_next(&mut self, domain: RefreshDomain) -> (r: Option<RefreshRun>)
        ensures
            (final(self)@, opt_run_view(r)) == start_next_v(old(self)@, domain),
    {
        if self.domain(domain).running.is_some() {
            return None;
        }
        let request = match self.domain_mut(domain).queued.take() {
            Some(request) => request,
            None => return None,
        };
        let started_at = self.tick();
        let state = self.domain_mut(domain);
        state.next_run_id = state.next_run_id.saturating_add(1);
        let running = RefreshRun {
            run_id: state.next_run_id,
            started_at,
            causes: request.causes.clone(),
        };
        state.running = Some(running);
        Some(RefreshRun { run_id: state.next_run_id, started_at, causes: request.causes })
    }

    /// Marks run `run_id` of `domain` finished and starts the queued refresh; a stale id
    /// changes nothing.
    pub fn complete(&mut self, domain: RefreshDomain, run_id: u64) -> (r: Option<RefreshRun>)
        ensures
            (final(self)@, opt_run_view(r)) == complete_v(old(self)@, domain, run_id),
    {
        let is_current = match &self.domain(domain).running {
            Some(run) => run.run_id == run_id,
            None => false,
        };
        if !is_current {
            return None;
        }
        self.domain_mut(domain).running = None;
        self.start_next(domain)
    }

    fn enqueue(&mut self, domain: RefreshDomain, request: RefreshRequest) -> (r: Option<RefreshRun>)
        ensures
            (final(self)@, opt_run_view(r)) == enqueue_v(old(self)@, domain, request@),
    {
        let can_join_running = {
            let state = self.domain(domain);
            state.queued.is_none() && match &state.running {
                Some(run) => match request.must_start_after {
                    Some(barrier) => run.started_at > barrier,
                    None => true,
                },
                None => false,
            }
        };
        if can_join_running {
            let state = self.domain_mut(domain);
            if let Some(run) = &mut state.running {
                run.causes.extend(request.causes);
            }
            return None;
        }
        let state = self.domain_mut(domain);
        match &mut state.queued {
            Some(queued) => {
                if request.requested_at < queued.requested_at {
                    queued.requested_at = request.requested_at;
                }
                queued.must_start_after = match (queued.must_start_after, request.must_start_after) {
                    (Some(left), Some(right)) => Some(if left > right { left } else { right }),
                    (Some(left), None) => Some(left),
                    (None, Some(right)) => Some(right),
                    (None, None) => None,
                };
                queued.causes.extend(request.causes);
            },
            None => state.queued = Some(request),
        }
        self.start_next(domain)
    }

    fn domain(&self, domain: RefreshDomain) -> (s: &DomainRefreshState)
        ensures
            s@ == dom_v(self@, domain),
    {
        match domain {
            RefreshDomain::Logical => &self.logical,
            RefreshDomain::Physical => &self.physical,
        }
    }

    fn domain_mut(&mut self, domain: RefreshDomain) -> (s: &mut DomainRefreshState)
        ensures
            s@ == dom_v(old(self)@, domain),
            final(self)@ == with_dom(old(self)@, domain, final(s)@),
    {
        match domain {
            RefreshDomain::Logical => &mut self.logical,
            RefreshDomain::Physical => &mut self.physical,
        }
    }

    fn tick(&mut self) -> (now: RefreshClock)
        ensures
            now == tick_v(old(self).clock),
            final(self)@ == (now, old(self)@.1, old(self)@.2),
    {
        self.clock = self.clock.saturating_add(1);
        self.clock
    }
}

// ---------------------------------------------------------------------------
// Laws of the coordinator.

/// A domain is consistent with the clock: a request waits only while a run is in flight, the
/// run in flight carries the last id handed out, and no time stamp lies in the future.
pub open spec fn domain_wf(st: DomainV, clock: u64) -> bool {
    &&& st.1 is Some ==> st.0 is Some
    &&& domain_times_ok(st, clock)
}

/// The run in flight carries the last id handed out, and no time stamp lies in the future.
pub open spec fn domain_times_ok(st: DomainV, clock: u64) -> bool {
    &&& st.0 matches Some(r) ==> r.1 <= clock && r.0 == st.2
    &&& st.1 matches Some(q) ==> q.0 <= clock && (q.1 matches Some(b) ==> b <= clock)
}

pub open spec fn other_domain(d: RefreshDomain) -> RefreshDomain {
    match d {
        RefreshDomain::Logical => RefreshDomain::Physical,
        RefreshDomain::Physical => RefreshDomain::Logical,
    }
}

pub open spec fn coordinator_wf(c: CoordinatorV) -> bool {
    domain_wf(c.1, c.0) && domain_wf(c.2, c.0)
}

/// `cause` will be observed by a refresh of the domain: the run in flight or the queued
/// request holds it.
pub open spec fn holds_cause(st: DomainV, cause: RefreshCause) -> bool {
    (st.0 matches Some(r) && r.2.contains(cause)) || (st.1 matches Some(q) && q.2.contains(cause))
}

proof fn lemma_domain_wf_later(st: DomainV, clock: u64, later: u64)
    requires
        domain_wf(st, clock),
        clock <= later,
    ensures
        domain_wf(st, later),
{
}

proof fn lemma_start_next_wf(c: CoordinatorV, d: RefreshDomain)
    requires
        domain_times_ok(dom_v(c, d), c.0),
        domain_wf(dom_v(c, other_domain(d)), c.0),
    ensures
        coordinator_wf(start_next_v(c, d).0),
        start_next_v(c, d).0.0 >= c.0,
{
}

proof fn lemma_enqueue_wf(c: CoordinatorV, d: RefreshDomain, req: RequestV)
    requires
        coordinator_wf(c),
        req.0 <= c.0,
        req.1 matches Some(b) ==> b <= c.0,
    ensures
        coordinator_wf(enqueue_v(c, d, req).0),
        enqueue_v(c, d, req).0.0 >= c.0,
        holds_cause(dom_v(enqueue_v(c, d, req).0, d), req.2.choose()) || req.2.is_empty(),
{
    let st = dom_v(c, d);
    if !can_join(st, req) {
        let merged: RequestV = match st.1 {
            Some(q) => (
                if q.0 < req.0 { q.0 } else { req.0 },
                merge_barrier(q.1, req.1),
                q.2.union(req.2),
            ),
            None => req,
        };
        let c1 = with_dom(c, d, (st.0, Some(merged), st.2));
        if st.0 is Some {
            assert(coordinator_wf(c1));
        }
        lemma_start_next_wf(c1, d);
        if !req.2.is_empty() {
            assert(merged.2.contains(req.2.choose()));
        }
    } else if !req.2.is_empty() {
        assert(req.2.contains(req.2.choose()));
    }
}

/// Every operation keeps the coordinator consistent (see [`coordinator_wf`]) and never turns
/// the clock back; the initial coordinator is consistent.
pub proof fn lemma_coordinator_wf_preserved(
    c: CoordinatorV,
    d: RefreshDomain,
    cause: RefreshCause,
    action_generation: u64,
    run_id: u64,
)
    requires
        coordinator_wf(c),
    ensures
        coordinator_wf(initial_coordinator()),
        coordinator_wf(request_v(c, d, cause).0) && request_v(c, d, cause).0.0 >= c.0,
        coordinator_wf(action_succeeded_v(c, action_generation).0)
            && action_succeeded_v(c, action_generation).0.0 >= c.0,
        coordinator_wf(start_next_v(c, d).0) && start_next_v(c, d).0.0 >= c.0,
        coordinator_wf(complete_v(c, d, run_id).0) && complete_v(c, d, run_id).0.0 >= c.0,
{
    let now = tick_v(c.0);
    lemma_domain_wf_later(c.1, c.0, now);
    lemma_domain_wf_later(c.2, c.0, now);
    lemma_enqueue_wf((now, c.1, c.2), d, (now, None, set![cause]));
    let (c1, r1) = enqueue_v((now, c.1, c.2), RefreshDomain::Logical, action_request(now, action_generation));
    lemma_enqueue_wf((now, c.1, c.2), RefreshDomain::Logical, action_request(now, action_generation));
    lemma_enqueue_wf(c1, RefreshDomain::Physical, action_request(now, action_generation));
    lemma_start_next_wf(c, d);
    let st = dom_v(c, d);
    if st.0 matches Some(run) && run.0 == run_id {
        let c2 = with_dom(c, d, (None, st.1, st.2));
        if st.1 is Some {
            // A queued request starts at once.
        }
        lemma_start_next_wf(c2, d);
    }
}

/// A refresh never starts at or before the barrier of the request it serves (while the clock
/// has not saturated), and its id is the one after the domain's last id.
pub proof fn lemma_start_after_barrier(c: CoordinatorV, d: RefreshDomain)
    requires
        coordinator_wf(c),
        c.0 < u64::MAX,
    ensures
        start_next_v(c, d).1 matches Some(run) ==> {
            &&& run.0 == dom_v(c, d).2.saturating_add(1)
            &&& run.1 > c.0
            &&& (dom_v(c, d).1->0).1 matches Some(b) ==> run.1 > b
        },
{
}

/// A successful action is observed only by refreshes that start after it: in both domains its
/// cause is held by a run that started after the action's barrier or by a queued request whose
/// barrier is not earlier than it.
pub proof fn lemma_action_success_observed_after_barrier(c: CoordinatorV, action_generation: u64)
    requires
        coordinator_wf(c),
        c.0 < u64::MAX - 2,
    ensures
        ({
            let barrier = tick_v(c.0);
            let after = action_succeeded_v(c, action_generation).0;
            let cause = RefreshCause::ActionSuccess { action_generation };
            forall|d: RefreshDomain|
                {
                    let st = #[trigger] dom_v(after, d);
                    ||| (st.0 matches Some(r) && r.2.contains(cause) && r.1 > barrier)
                    ||| (st.1 matches Some(q) && q.2.contains(cause) && (q.1 matches Some(b) && b >= barrier))
                }
        }),
{
    let barrier = tick_v(c.0);
    let cause = RefreshCause::ActionSuccess { action_generation };
    let req = action_request(barrier, action_generation);
    assert(req.2.contains(cause));
    let c0 = (barrier, c.1, c.2);
    lemma_domain_wf_later(c.1, c.0, barrier);
    lemma_domain_wf_later(c.2, c.0, barrier);
    let (c1, r1) = enqueue_v(c0, RefreshDomain::Logical, req);
    lemma_enqueue_wf(c0, RefreshDomain::Logical, req);
    let (c2, r2) = enqueue_v(c1, RefreshDomain::Physical, req);
    assert(c1.0 <= barrier + 1);
    assert(dom_v(c2, RefreshDomain::Logical) == dom_v(c1, RefreshDomain::Logical));
}

/// Completing a run that is not the one in flight changes nothing.
pub proof fn lemma_stale_completion_ignored(c: CoordinatorV, d: RefreshDomain, run_id: u64)
    requires
        !(dom_v(c, d).0 matches Some(run) && run.0 == run_id),
    ensures
        complete_v(c, d, run_id) == (c, None::<RunV>),
{
}

/// A requested refresh is never lost: afterwards the domain's run in flight or its queued
/// request holds the cause.
pub proof fn lemma_request_held(c: CoordinatorV, d: RefreshDomain, cause: RefreshCause)
    ensures
        holds_cause(dom_v(request_v(c, d, cause).0, d), cause),
{
    let now = tick_v(c.0);
    let req: RequestV = (now, None, set![cause]);
    let c0 = (now, c.1, c.2);
    let st = dom_v(c0, d);
    assert(req.2.contains(cause));
    if !can_join(st, req) {
        let merged: RequestV = match st.1 {
            Some(q) => (
                if q.0 < req.0 { q.0 } else { req.0 },
                merge_barrier(q.1, req.1),
                q.2.union(req.2),
            ),
            None => req,
        };
        assert(merged.2.contains(cause));
    }
}
} // verus!
