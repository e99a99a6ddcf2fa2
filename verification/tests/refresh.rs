use storage_ui::refresh::{CauseSet, RefreshCause, RefreshCoordinator, RefreshDomain};

#[test]
fn cause_set_is_ordered_and_without_repeats() {
    let mut set = CauseSet::single(RefreshCause::ActionSuccess { action_generation: 7 });
    set.insert(RefreshCause::Manual);
    set.insert(RefreshCause::ActionSuccess { action_generation: 3 });
    set.insert(RefreshCause::Manual);
    set.insert(RefreshCause::DeviceEvent);
    assert_eq!(set.len(), 4);
    assert_eq!(
        set.to_vec(),
        vec![
            RefreshCause::Manual,
            RefreshCause::DeviceEvent,
            RefreshCause::ActionSuccess { action_generation: 3 },
            RefreshCause::ActionSuccess { action_generation: 7 },
        ]
    );
    assert!(set.contains(RefreshCause::DeviceEvent));
    let mut other = CauseSet::new();
    other.insert(RefreshCause::DeviceEvent);
    other.extend(set.clone());
    assert_eq!(other, set);
}

#[test]
fn first_request_starts_a_run() {
    let mut c = RefreshCoordinator::default();
    let run = c.request(RefreshDomain::Logical, RefreshCause::Manual).expect("a run starts");
    assert_eq!(run.run_id, 1);
    assert_eq!(run.started_at, 2);
    assert_eq!(run.causes.to_vec(), vec![RefreshCause::Manual]);
    assert_eq!(c.clock, 2);
    assert_eq!(c.logical.running, Some(run));
    assert!(c.logical.queued.is_none());
    assert!(c.physical.running.is_none());
}

#[test]
fn request_joins_the_run_in_flight() {
    let mut c = RefreshCoordinator::default();
    c.request(RefreshDomain::Physical, RefreshCause::Manual);
    assert!(c.request(RefreshDomain::Physical, RefreshCause::DeviceEvent).is_none());
    let running = c.physical.running.clone().unwrap();
    assert_eq!(running.run_id, 1);
    assert_eq!(running.causes.to_vec(), vec![RefreshCause::Manual, RefreshCause::DeviceEvent]);
    assert!(c.physical.queued.is_none());
}

#[test]
fn action_success_waits_for_a_run_after_the_barrier() {
    let mut c = RefreshCoordinator::default();
    let first = c.request(RefreshDomain::Logical, RefreshCause::Manual).unwrap();
    let [logical, physical] = c.action_succeeded(9);
    let barrier = 3;
    // Logical is busy with an older run: the success is queued behind a barrier.
    assert!(logical.is_none());
    let queued = c.logical.queued.clone().unwrap();
    assert_eq!(queued.must_start_after, Some(barrier));
    assert_eq!(queued.causes.to_vec(), vec![RefreshCause::ActionSuccess { action_generation: 9 }]);
    // Physical was idle: a run starts at once, after the barrier.
    let physical = physical.unwrap();
    assert!(physical.started_at > barrier);
    // A stale completion changes nothing.
    let before = c.clone();
    assert!(c.complete(RefreshDomain::Logical, first.run_id + 5).is_none());
    assert_eq!(c, before);
    // Completing the older run starts the queued one after the barrier.
    let next = c.complete(RefreshDomain::Logical, first.run_id).unwrap();
    assert_eq!(next.run_id, first.run_id + 1);
    assert!(next.started_at > barrier);
    assert!(next.causes.contains(RefreshCause::ActionSuccess { action_generation: 9 }));
}

#[test]
fn queued_requests_merge() {
    let mut c = RefreshCoordinator::default();
    c.request(RefreshDomain::Logical, RefreshCause::Manual);
    c.action_succeeded(1);
    c.request(RefreshDomain::Logical, RefreshCause::DeviceEvent);
    let queued = c.logical.queued.clone().unwrap();
    assert_eq!(queued.requested_at, 3);
    assert_eq!(queued.must_start_after, Some(3));
    assert_eq!(
        queued.causes.to_vec(),
        vec![RefreshCause::DeviceEvent, RefreshCause::ActionSuccess { action_generation: 1 }]
    );
}

#[test]
fn start_next_does_nothing_while_running_or_idle() {
    let mut c = RefreshCoordinator::default();
    assert!(c.start_next(RefreshDomain::Logical).is_none());
    c.request(RefreshDomain::Logical, RefreshCause::Manual);
    assert!(c.start_next(RefreshDomain::Logical).is_none());
    assert_eq!(c.clock, 2);
}
