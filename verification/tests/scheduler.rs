use switchyard::scheduler::{JobKind, Notify, PollOutcome, Scheduler, WorkerAction};
use switchyard::task::{StoredFuture, StoredThreadLocalFuture};

fn run_id(action: WorkerAction) -> u64 {
    run(action).0
}

fn run(action: WorkerAction) -> (u64, u64) {
    match action {
        WorkerAction::Run(id, epoch) => (id, epoch),
        other => panic!("expected a job, got {:?}", other),
    }
}

#[test]
fn new_scheduler_is_empty() {
    let s = Scheduler::new(3);
    assert_eq!(s.jobs(), 0);
    assert_eq!(s.active_threads(), 3);
    assert_eq!(s.thread_count(), 3);
    assert!(!s.is_idle());
    assert!(!s.is_finished());
    assert!(s.can_spawn());
    assert!(!s.access_allowed());
}

#[test]
fn higher_priority_runs_first() {
    let mut s = Scheduler::new(1);
    let low = s.spawn(1, JobKind::Future);
    let high = s.spawn(10, JobKind::Future);
    let mid = s.spawn(5, JobKind::Future);
    assert_eq!(s.jobs(), 3);
    assert_eq!(run_id(s.next_job(0)), high);
    assert_eq!(s.finish_poll(0, true), PollOutcome::Completed(high));
    assert_eq!(run_id(s.next_job(0)), mid);
    assert_eq!(s.finish_poll(0, true), PollOutcome::Completed(mid));
    assert_eq!(run_id(s.next_job(0)), low);
    assert_eq!(s.finish_poll(0, true), PollOutcome::Completed(low));
    assert_eq!(s.jobs(), 0);
}

#[test]
fn idle_when_last_worker_sleeps() {
    let mut s = Scheduler::new(2);
    assert_eq!(s.next_job(0), WorkerAction::Sleep);
    assert!(!s.is_idle());
    assert_eq!(s.active_threads(), 1);
    assert_eq!(s.next_job(1), WorkerAction::Sleep);
    assert!(s.is_idle());
    assert!(s.access_allowed());
    // spawning clears the idle signal
    let id = s.spawn(0, JobKind::Future);
    assert!(!s.is_idle());
    assert!(s.resume(1));
    assert!(!s.access_allowed());
    assert_eq!(run_id(s.next_job(1)), id);
    assert_eq!(s.finish_poll(1, true), PollOutcome::Completed(id));
    assert_eq!(s.next_job(1), WorkerAction::Sleep);
    assert!(s.is_idle());
    assert_eq!(s.jobs(), 0);
}

#[test]
fn wait_for_idle_stalled() {
    let mut s = Scheduler::new(1);
    let id = s.spawn(0, JobKind::Future);
    assert_eq!(s.jobs(), 1);
    let (ran, epoch) = run(s.next_job(0));
    assert_eq!(ran, id);
    assert_eq!(epoch, 1);
    assert_eq!(s.finish_poll(0, false), PollOutcome::Parked(id));
    assert_eq!(s.next_job(0), WorkerAction::Sleep);
    // idle while the job waits for its wake-up
    assert!(s.is_idle());
    assert_eq!(s.jobs(), 1);
    assert_eq!(s.wake(id, epoch), Notify::AnyThread);
    assert!(s.resume(0));
    assert_eq!(run(s.next_job(0)), (id, 2));
    assert_eq!(s.finish_poll(0, true), PollOutcome::Completed(id));
    assert_eq!(s.jobs(), 0);
}

#[test]
fn waking_twice_queues_once() {
    let mut s = Scheduler::new(1);
    let id = s.spawn(7, JobKind::Future);
    let (_, epoch) = run(s.next_job(0));
    assert_eq!(s.finish_poll(0, false), PollOutcome::Parked(id));
    assert_eq!(s.wake(id, epoch), Notify::AnyThread);
    assert_eq!(s.wake(id, epoch), Notify::Nobody);
    assert_eq!(run_id(s.next_job(0)), id);
    assert_eq!(s.finish_poll(0, true), PollOutcome::Completed(id));
    assert_eq!(s.next_job(0), WorkerAction::Sleep);
    // a finished job's waker does nothing
    assert_eq!(s.wake(id, epoch), Notify::Nobody);
}

#[test]
fn stale_waker_does_nothing() {
    let mut s = Scheduler::new(1);
    let id = s.spawn(0, JobKind::Future);
    let (_, first) = run(s.next_job(0));
    assert_eq!(s.finish_poll(0, false), PollOutcome::Parked(id));
    assert_eq!(s.wake(id, first), Notify::AnyThread);
    let (_, second) = run(s.next_job(0));
    assert_ne!(first, second);
    assert_eq!(s.finish_poll(0, false), PollOutcome::Parked(id));
    // the waker of the first poll was already used up
    assert_eq!(s.wake(id, first), Notify::Nobody);
    assert!(!s.waker_dropped(id, first));
    assert_eq!(s.jobs(), 1);
    assert_eq!(s.wake(id, second), Notify::AnyThread);
}

#[test]
fn dropped_waker_drops_waiting_job() {
    let mut s = Scheduler::new(1);
    let id = s.spawn(0, JobKind::Future);
    let (_, epoch) = run(s.next_job(0));
    // dropping the waker during the poll does not drop the job
    assert!(!s.waker_dropped(id, epoch));
    assert_eq!(s.finish_poll(0, false), PollOutcome::Parked(id));
    assert_eq!(s.jobs(), 1);
    assert!(s.waker_dropped(id, epoch));
    assert_eq!(s.jobs(), 0);
    assert_eq!(s.wake(id, epoch), Notify::Nobody);
}

#[test]
fn immediate_wake() {
    let mut s = Scheduler::new(1);
    let id = s.spawn(0, JobKind::Future);
    let (_, epoch) = run(s.next_job(0));
    // the future wakes itself during its poll, then returns Ready
    assert_eq!(s.wake(id, epoch), Notify::Nobody);
    assert_eq!(s.finish_poll(0, true), PollOutcome::Completed(id));
    assert_eq!(s.next_job(0), WorkerAction::Sleep);
    assert_eq!(s.jobs(), 0);
}

#[test]
fn wake_during_pending_poll_requeues() {
    let mut s = Scheduler::new(1);
    let id = s.spawn(0, JobKind::Future);
    let (_, epoch) = run(s.next_job(0));
    assert_eq!(s.wake(id, epoch), Notify::Nobody);
    assert_eq!(s.finish_poll(0, false), PollOutcome::Requeued(id, Notify::AnyThread));
    assert_eq!(run_id(s.next_job(0)), id);
}

#[test]
fn local_job_stays_on_its_worker() {
    let mut s = Scheduler::new(2);
    let id = s.spawn(3, JobKind::Local);
    let (ran, epoch) = run(s.next_job(1));
    assert_eq!(ran, id);
    assert_eq!(s.finish_poll(1, false), PollOutcome::Parked(id));
    assert_eq!(s.wake(id, epoch), Notify::Thread(1));
    // worker 0 does not see the job tied to worker 1
    assert_eq!(s.next_job(0), WorkerAction::Sleep);
    assert_eq!(run_id(s.next_job(1)), id);
    assert_eq!(s.finish_poll(1, true), PollOutcome::Completed(id));
}

#[test]
fn local_queue_comes_first() {
    let mut s = Scheduler::new(1);
    let local = s.spawn(1, JobKind::Local);
    let (_, epoch) = run(s.next_job(0));
    assert_eq!(s.finish_poll(0, false), PollOutcome::Parked(local));
    let global = s.spawn(100, JobKind::Future);
    assert_eq!(s.wake(local, epoch), Notify::Thread(0));
    // the worker's own queue wins over a higher priority in the shared queue
    assert_eq!(run_id(s.next_job(0)), local);
    assert_eq!(s.finish_poll(0, true), PollOutcome::Completed(local));
    assert_eq!(run_id(s.next_job(0)), global);
}

#[test]
fn finish_makes_workers_exit() {
    let mut s = Scheduler::new(2);
    assert_eq!(s.next_job(0), WorkerAction::Sleep);
    s.finish();
    assert!(s.is_finished());
    assert!(!s.can_spawn());
    // a sleeping worker that is woken leaves the loop
    assert!(!s.resume(0));
    // an awake worker with nothing to do exits
    assert_eq!(s.next_job(1), WorkerAction::Exit);
    // finishing again changes nothing
    s.finish();
    assert!(s.is_finished());
    assert_eq!(s.active_threads(), 0);
}

#[test]
fn finish_lets_queued_jobs_run() {
    let mut s = Scheduler::new(1);
    let id = s.spawn(0, JobKind::Future);
    s.finish();
    assert_eq!(run_id(s.next_job(0)), id);
    assert_eq!(s.finish_poll(0, true), PollOutcome::Completed(id));
    assert_eq!(s.next_job(0), WorkerAction::Exit);
}

#[test]
fn ten_thousand() {
    let mut s = Scheduler::new(4);
    let mut ids = Vec::new();
    for _ in 0..10_000 {
        ids.push(s.spawn(0, JobKind::Future));
    }
    assert_eq!(s.jobs(), 10_000);
    let mut done = 0;
    let mut t = 0;
    while let WorkerAction::Run(_, _) = s.next_job(t) {
        assert!(matches!(s.finish_poll(t, true), PollOutcome::Completed(_)));
        done += 1;
        t = (t + 1) % 4;
    }
    assert_eq!(done, 10_000);
    assert_eq!(s.jobs(), 0);
}

#[test]
fn stored_future_completion() {
    let mut f = StoredFuture::new(5u32);
    assert!(f.should_poll());
    f.record_poll(false);
    assert!(f.should_poll());
    f.record_poll(true);
    assert!(!f.should_poll());
    f.record_poll(false);
    assert!(f.completed);
    assert_eq!(f.inner, 5);
    let mut l = StoredThreadLocalFuture::new("x");
    assert!(!l.completed);
    l.record_poll(true);
    assert!(!l.should_poll());
}

#[test]
fn multi_tasks() {
    let mut s = Scheduler::new(1);
    let one = s.spawn(0, JobKind::Future);
    let two = s.spawn(0, JobKind::Future);
    let first = run_id(s.next_job(0));
    assert!(first == one || first == two);
    assert_eq!(s.finish_poll(0, true), PollOutcome::Completed(first));
    let second = run_id(s.next_job(0));
    assert_ne!(first, second);
    assert_eq!(s.finish_poll(0, true), PollOutcome::Completed(second));
    assert_eq!(s.next_job(0), WorkerAction::Sleep);
    assert_eq!(s.jobs(), 0);
}

#[test]
fn single_local_waiting_task() {
    let mut s = Scheduler::new(1);
    let id = s.spawn(0, JobKind::Local);
    let (_, epoch) = run(s.next_job(0));
    assert_eq!(s.finish_poll(0, false), PollOutcome::Parked(id));
    assert_eq!(s.jobs(), 1);
    assert_eq!(s.wake(id, epoch), Notify::Thread(0));
    assert_eq!(run_id(s.next_job(0)), id);
    assert_eq!(s.finish_poll(0, true), PollOutcome::Completed(id));
    assert_eq!(s.jobs(), 0);
}

#[test]
fn access_per_thread_data() {
    let mut s = Scheduler::new(1);
    assert_eq!(s.next_job(0), WorkerAction::Sleep);
    assert!(s.access_allowed());
    let id = s.spawn(0, JobKind::Local);
    assert_eq!(s.jobs(), 1);
    assert!(s.resume(0));
    let (_, epoch) = run(s.next_job(0));
    // the job is running on the worker: its data is in use
    assert!(!s.access_allowed());
    assert_eq!(s.finish_poll(0, false), PollOutcome::Parked(id));
    // the worker sleeps, but the parked job is still in flight
    assert_eq!(s.next_job(0), WorkerAction::Sleep);
    assert!(s.is_idle());
    assert_eq!(s.jobs(), 1);
    assert!(!s.access_allowed());
    assert_eq!(s.wake(id, epoch), Notify::Thread(0));
    // a job was queued but its worker has not resumed yet
    assert!(!s.access_allowed());
    assert!(s.resume(0));
    assert_eq!(run_id(s.next_job(0)), id);
    assert_eq!(s.finish_poll(0, true), PollOutcome::Completed(id));
    assert_eq!(s.next_job(0), WorkerAction::Sleep);
    assert_eq!(s.jobs(), 0);
    assert!(s.access_allowed());
}

#[test]
fn job_table_ids_are_fresh() {
    let mut s = Scheduler::new(1);
    let a = s.spawn(0, JobKind::Future);
    let b = s.spawn(0, JobKind::Future);
    assert_ne!(a, b);
    // an id that no key has is ignored
    assert_eq!(s.wake(0, 0), Notify::Nobody);
    assert!(!s.waker_dropped(0, 0));
    assert_eq!(s.jobs(), 2);
}

#[test]
fn each_sleeper_is_picked_once() {
    let mut s = Scheduler::new(3);
    assert_eq!(s.claim_sleeper(), None);
    assert_eq!(s.next_job(0), WorkerAction::Sleep);
    assert_eq!(s.next_job(2), WorkerAction::Sleep);
    // two jobs entering the shared queue wake two different workers
    assert_eq!(s.claim_sleeper(), Some(0));
    assert_eq!(s.claim_sleeper(), Some(2));
    assert_eq!(s.claim_sleeper(), None);
    // once woken, a worker can be picked again after it sleeps anew
    assert!(s.resume(0));
    assert_eq!(s.next_job(0), WorkerAction::Sleep);
    assert_eq!(s.claim_sleeper(), Some(0));
}

#[test]
fn jobs_count_spawned_minus_ended() {
    let mut s = Scheduler::new(1);
    let a = s.spawn(3, JobKind::Future);
    let b = s.spawn(2, JobKind::Future);
    let c = s.spawn(1, JobKind::Future);
    assert_eq!(s.jobs(), 3);
    let (ra, _) = run(s.next_job(0));
    assert_eq!(ra, a);
    assert_eq!(s.finish_poll(0, true), PollOutcome::Completed(a));
    assert_eq!(s.jobs(), 2);
    let (rb, eb) = run(s.next_job(0));
    assert_eq!(rb, b);
    assert_eq!(s.finish_poll(0, false), PollOutcome::Parked(b));
    let (rc, ec) = run(s.next_job(0));
    assert_eq!(rc, c);
    assert_eq!(s.finish_poll(0, false), PollOutcome::Parked(c));
    assert_eq!(s.jobs(), 2);
    assert!(s.waker_dropped(b, eb));
    assert_eq!(s.jobs(), 1);
    assert_eq!(s.wake(c, ec), Notify::AnyThread);
    assert_eq!(s.jobs(), 1);
}
