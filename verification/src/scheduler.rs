//! The decisions of the yard: which job a worker runs next, when a worker
//! sleeps or exits, what a wake-up does to a waiting job, and the bookkeeping
//! of jobs in flight, awake workers and the idle and death signals.
//!
//! The scheduler holds jobs by id. The futures themselves, the threads, the
//! locks and the condition variables stay with the caller, which performs the
//! actions that the scheduler returns and reports what happened.
use vstd::prelude::*;
use crate::table::{
    JobTable, MAX_JOBS, is_key_id, key_id_shape, table_contents, table_get, table_insert, table_new,
    table_remove, table_set,
};
use crate::queue::{
    JobQueue, queue_contents, queue_is_empty, queue_new, queue_pop, queue_push, pops_max, empty_contents,
};

verus! {

/// How a job runs.
#[derive(Clone, Copy, Debug, PartialEq, Eq, Structural)]
pub enum JobKind {
    /// A future that may migrate between worker threads.
    Future,
    /// A job created on the worker that first runs it and tied to that worker afterwards.
    Local,
}

/// Where a job is in its life.
#[derive(Clone, Copy, Debug, PartialEq, Eq, Structural)]
pub enum JobStatus {
    /// In a run queue, waiting for a worker.
    Queued,
    /// Being polled by the given worker.
    Running(usize),
    /// Polled to `Pending`; runs again once woken.
    Waiting,
}

/// What the scheduler knows of a job.
#[derive(Clone, Copy, Debug, PartialEq, Eq, Structural)]
pub struct JobInfo {
    /// A higher priority runs sooner.
    pub priority: u32,
    pub kind: JobKind,
    /// The worker a local job is tied to, once it has started.
    pub thread: Option<usize>,
    pub status: JobStatus,
    /// Woken while it was being polled: it runs again after this poll.
    pub notified: bool,
    /// Counts the polls of the job; a waker made for a poll carries it.
    pub epoch: u64,
}

/// What a worker does next.
#[derive(Clone, Copy, Debug, PartialEq, Eq, Structural)]
pub enum WorkerAction {
    /// Poll the job with this id; the wakers of this poll carry the epoch
    /// that comes with it.
    Run(u64, u64),
    /// Wait until notified, then call [`Scheduler::resume`].
    Sleep,
    /// Leave the worker loop: the yard is finishing.
    Exit,
}

/// Which worker to notify after a job became runnable.
#[derive(Clone, Copy, Debug, PartialEq, Eq, Structural)]
pub enum Notify {
    /// No job became runnable.
    Nobody,
    /// Any one worker: the job is in the shared queue.
    AnyThread,
    /// This worker: the job is tied to it.
    Thread(usize),
}

/// What became of a job after a poll.
#[derive(Clone, Copy, Debug, PartialEq, Eq, Structural)]
pub enum PollOutcome {
    /// The job returned `Ready` and is gone.
    Completed(u64),
    /// The job was woken during the poll and is queued again.
    Requeued(u64, Notify),
    /// The job waits for a wake-up.
    Parked(u64),
}

/// Number of awake workers in a table of sleeping flags.
pub open spec fn count_awake(asleep: Seq<bool>) -> nat
    decreases asleep.len(),
{
    if asleep.len() == 0 {
        0
    } else {
        count_awake(asleep.drop_last()) + if asleep.last() {
            0nat
        } else {
            1nat
        }
    }
}

/// The worker whose queue holds `j` when it is queued; `None` for the shared queue.
pub open spec fn home_of(j: JobInfo) -> Option<usize> {
    match j.kind {
        JobKind::Local => j.thread,
        JobKind::Future => None,
    }
}

/// The worker to notify once `j` is queued.
pub open spec fn notify_for(j: JobInfo) -> Notify {
    match home_of(j) {
        Some(t) => Notify::Thread(t),
        None => Notify::AnyThread,
    }
}

/// The thread field of a job that starts running on worker `t`: a local job
/// is tied to `t`, a future is tied to none.
pub open spec fn bound_thread(j: JobInfo, t: int) -> Option<usize> {
    match j.kind {
        JobKind::Local => Some(t as usize),
        JobKind::Future => None,
    }
}

/// A job's record is consistent with a yard of `n` workers.
pub open spec fn job_ok(j: JobInfo, n: nat) -> bool {
    &&& (j.kind == JobKind::Future ==> j.thread is None)
    &&& (j.thread matches Some(t) ==> t < n)
    &&& (j.notified ==> j.status is Running)
    &&& (j.status matches JobStatus::Running(t) ==> t < n)
}

/// The state of a yard's scheduling: run queues, jobs in flight, workers.
pub struct Scheduler {
    global: JobQueue,
    locals: Vec<JobQueue>,
    jobs: JobTable,
    asleep: Vec<bool>,
    signalled: Vec<bool>,
    running: Vec<Option<u64>>,
    active_threads: usize,
    job_count: usize,
    idle: bool,
    death: bool,
}

impl Scheduler {
    /// The jobs in flight, by id.
    pub closed spec fn jobs_view(&self) -> Map<u64, JobInfo> {
        table_contents(self.jobs)
    }

    /// The shared run queue: job id to priority.
    pub closed spec fn global_view(&self) -> Map<u64, u32> {
        queue_contents(self.global)
    }

    /// The run queue of each worker: job id to priority.
    pub closed spec fn locals_view(&self) -> Seq<Map<u64, u32>> {
        self.locals@.map_values(|q: JobQueue| queue_contents(q))
    }

    /// For each worker, whether it sleeps (or has exited).
    pub closed spec fn asleep_view(&self) -> Seq<bool> {
        self.asleep@
    }

    /// For each worker, whether it was picked to be notified since it last
    /// woke up.
    pub closed spec fn signalled_view(&self) -> Seq<bool> {
        self.signalled@
    }

    /// For each worker, the job it is polling.
    pub closed spec fn running_view(&self) -> Seq<Option<u64>> {
        self.running@
    }

    /// The counter of awake workers.
    pub closed spec fn awake_count(&self) -> nat {
        self.active_threads as nat
    }

    /// The counter of jobs in flight.
    pub closed spec fn job_total(&self) -> nat {
        self.job_count as nat
    }

    /// The idle signal: set when the last awake worker goes to sleep.
    pub closed spec fn idle_flag(&self) -> bool {
        self.idle
    }

    /// The death signal: set by `finish`.
    pub closed spec fn death_flag(&self) -> bool {
        self.death
    }

    /// The number of workers.
    pub open spec fn threads(&self) -> nat {
        self.asleep_view().len()
    }

    /// The run queue of worker `t`.
    pub open spec fn local_view(&self, t: int) -> Map<u64, u32> {
        self.locals_view()[t]
    }

    /// Both states agree on everything the scheduler tracks.
    pub open spec fn same_state(&self, other: Scheduler) -> bool {
        &&& self.jobs_view() == other.jobs_view()
        &&& self.global_view() == other.global_view()
        &&& self.locals_view() == other.locals_view()
        &&& self.asleep_view() == other.asleep_view()
        &&& self.signalled_view() == other.signalled_view()
        &&& self.running_view() == other.running_view()
        &&& self.awake_count() == other.awake_count()
        &&& self.job_total() == other.job_total()
        &&& self.idle_flag() == other.idle_flag()
        &&& self.death_flag() == other.death_flag()
    }

    /// Both states agree on the workers and the signals.
    pub open spec fn same_workers(&self, other: Scheduler) -> bool {
        &&& self.asleep_view() == other.asleep_view()
        &&& self.signalled_view() == other.signalled_view()
        &&& self.running_view() == other.running_view()
        &&& self.awake_count() == other.awake_count()
        &&& self.idle_flag() == other.idle_flag()
        &&& self.death_flag() == other.death_flag()
    }

    /// The internal consistency of the scheduler.
    pub closed spec fn wf(&self) -> bool {
        &&& self.shape_ok()
        &&& self.jobs_ok()
        &&& self.queues_ok()
        &&& self.running_ok()
    }

    /// The tables have one entry per worker, and the counters and the idle
    /// signal agree with what they count.
    closed spec fn shape_ok(&self) -> bool {
        let n = self.asleep@.len();
        &&& self.locals@.len() == n
        &&& self.signalled@.len() == n
        &&& self.running@.len() == n
        &&& n <= usize::MAX
        &&& table_contents(self.jobs).dom().finite()
        &&& self.job_count == table_contents(self.jobs).len()
        &&& self.active_threads == count_awake(self.asleep@)
        &&& (self.idle ==> self.active_threads == 0)
    }

    /// Job `id` of the table has a key's id, a consistent record, and sits
    /// where its status says.
    closed spec fn job_fine(&self, id: u64) -> bool {
        &&& is_key_id(id)
        &&& job_ok(table_contents(self.jobs)[id], self.asleep@.len() as nat)
        &&& self.job_placed(id)
    }

    /// Every job of the table is fine.
    closed spec fn jobs_ok(&self) -> bool {
        forall|id: u64| #[trigger] table_contents(self.jobs).contains_key(id) ==> self.job_fine(id)
    }

    /// Job `id` belongs in the shared queue.
    closed spec fn in_global_ok(&self, id: u64) -> bool {
        &&& table_contents(self.jobs).contains_key(id)
        &&& table_contents(self.jobs)[id].status == JobStatus::Queued
        &&& home_of(table_contents(self.jobs)[id]) is None
    }

    /// Job `id` belongs in the queue of worker `t`.
    closed spec fn in_local_ok(&self, t: int, id: u64) -> bool {
        &&& table_contents(self.jobs).contains_key(id)
        &&& table_contents(self.jobs)[id].status == JobStatus::Queued
        &&& home_of(table_contents(self.jobs)[id]) == Some(t as usize)
    }

    /// Every queued id belongs where it is queued.
    closed spec fn queues_ok(&self) -> bool {
        &&& forall|id: u64| #[trigger]
            queue_contents(self.global).contains_key(id) ==> self.in_global_ok(id)
        &&& forall|t: int, id: u64|
            0 <= t < self.asleep@.len() && #[trigger] queue_contents(self.locals@[t]).contains_key(id)
                ==> self.in_local_ok(t, id)
    }

    /// Worker `t` polls a job of the table that records it as its poller, and
    /// is awake.
    closed spec fn slot_ok(&self, t: int) -> bool {
        match self.running@[t] {
            Some(id) => table_contents(self.jobs).contains_key(id) && table_contents(self.jobs)[id].status
                == JobStatus::Running(t as usize) && !self.asleep@[t],
            None => true,
        }
    }

    /// Every worker's slot is fine.
    closed spec fn running_ok(&self) -> bool {
        forall|t: int| 0 <= t < self.asleep@.len() ==> #[trigger] self.slot_ok(t)
    }

    /// Job `id` is where its status says: a queued job is in the queue of its
    /// home with its priority, a running job is the one its worker polls.
    closed spec fn job_placed(&self, id: u64) -> bool {
        let j = table_contents(self.jobs)[id];
        &&& (j.status == JobStatus::Queued ==> match home_of(j) {
            None => queue_contents(self.global).contains_key(id) && queue_contents(self.global)[id]
                == j.priority,
            Some(t) => queue_contents(self.locals@[t as int]).contains_key(id) && queue_contents(
                self.locals@[t as int],
            )[id] == j.priority,
        })
        &&& (j.status matches JobStatus::Running(t) ==> self.running@[t as int] == Some(id))
    }

    /// `self` differs from `before` only in job `id`: its record, its queue
    /// entries, and the workers that poll it; a worker whose sleeping flag
    /// changed polls nothing.
    closed spec fn differs_only_in(&self, before: Scheduler, id: u64) -> bool {
        let n = before.asleep@.len();
        &&& self.asleep@.len() == n
        &&& table_contents(self.jobs).remove(id) == table_contents(before.jobs).remove(id)
        &&& queue_contents(self.global).remove(id) == queue_contents(before.global).remove(id)
        &&& forall|t: int|
            0 <= t < n ==> #[trigger] queue_contents(self.locals@[t]).remove(id) == queue_contents(
                before.locals@[t],
            ).remove(id)
        &&& forall|t: int|
            0 <= t < n && #[trigger] self.running@[t] != before.running@[t] ==> (before.running@[t]
                is None || before.running@[t] == Some(id)) && (self.running@[t] is None
                || self.running@[t] == Some(id))
        &&& forall|t: int|
            0 <= t < n && #[trigger] self.asleep@[t] != before.asleep@[t] ==> self.running@[t] is None
    }

    /// Job `id` is consistent in `self`: fine if in the table, rightly queued
    /// wherever queued, and rightly polled by any worker that polls it.
    closed spec fn id_ok(&self, id: u64) -> bool {
        let n = self.asleep@.len();
        &&& (table_contents(self.jobs).contains_key(id) ==> self.job_fine(id))
        &&& (queue_contents(self.global).contains_key(id) ==> self.in_global_ok(id))
        &&& forall|t: int|
            0 <= t < n && #[trigger] queue_contents(self.locals@[t]).contains_key(id)
                ==> self.in_local_ok(t, id)
        &&& forall|t: int| 0 <= t < n && #[trigger] self.running@[t] == Some(id) ==> self.slot_ok(t)
    }

    /// A state that differs from a consistent one only in job `id`, and in
    /// which job `id` is consistent, is consistent.
    proof fn lemma_restore_wf(&self, before: Scheduler, id: u64)
        requires
            before.wf(),
            self.shape_ok(),
            self.differs_only_in(before, id),
            self.id_ok(id),
        ensures
            self.wf(),
    {
        let n = self.asleep@.len();
        let sj = table_contents(self.jobs);
        let bj = table_contents(before.jobs);
        let sg = queue_contents(self.global);
        let bg = queue_contents(before.global);
        assert forall|k: u64| #[trigger] sj.contains_key(k) implies self.job_fine(k) by {
            if k != id {
                assert(sj.remove(id).contains_key(k));
                assert(bj.contains_key(k));
                assert(sj[k] == sj.remove(id)[k]);
                assert(bj[k] == bj.remove(id)[k]);
                assert(before.job_fine(k));
                let j = bj[k];
                if j.status == JobStatus::Queued {
                    match home_of(j) {
                        None => {
                            assert(bg.remove(id).contains_key(k));
                            assert(sg[k] == sg.remove(id)[k]);
                            assert(bg[k] == bg.remove(id)[k]);
                        },
                        Some(t) => {
                            let bl = queue_contents(before.locals@[t as int]);
                            let sl = queue_contents(self.locals@[t as int]);
                            assert(sl.remove(id) == bl.remove(id));
                            assert(bl.remove(id).contains_key(k));
                            assert(sl[k] == sl.remove(id)[k]);
                            assert(bl[k] == bl.remove(id)[k]);
                        },
                    }
                }
                if let JobStatus::Running(t) = j.status {
                    assert(before.running@[t as int] == Some(k));
                    if self.running@[t as int] != before.running@[t as int] {
                        assert(false);
                    }
                }
            }
        }
        assert forall|k: u64| #[trigger] sg.contains_key(k) implies self.in_global_ok(k) by {
            if k != id {
                assert(sg.remove(id).contains_key(k));
                assert(bg.contains_key(k));
                assert(before.in_global_ok(k));
                assert(sj.remove(id).contains_key(k));
                assert(sj[k] == sj.remove(id)[k]);
                assert(bj[k] == bj.remove(id)[k]);
            }
        }
        assert forall|t: int, k: u64|
            0 <= t < n && #[trigger] queue_contents(self.locals@[t]).contains_key(k) implies self.in_local_ok(
            t,
            k,
        ) by {
            if k != id {
                let bl = queue_contents(before.locals@[t]);
                let sl = queue_contents(self.locals@[t]);
                assert(sl.remove(id) == bl.remove(id));
                assert(sl.remove(id).contains_key(k));
                assert(bl.contains_key(k));
                assert(before.in_local_ok(t, k));
                assert(sj.remove(id).contains_key(k));
                assert(sj[k] == sj.remove(id)[k]);
                assert(bj[k] == bj.remove(id)[k]);
            }
        }
        assert forall|t: int| 0 <= t < n implies #[trigger] self.slot_ok(t) by {
            if let Some(k) = self.running@[t] {
                if k != id {
                    assert(self.running@[t] == before.running@[t]);
                    assert(before.slot_ok(t));
                    assert(self.asleep@[t] == before.asleep@[t]);
                    assert(sj.remove(id).contains_key(k));
                    assert(sj[k] == sj.remove(id)[k]);
                    assert(bj[k] == bj.remove(id)[k]);
                }
            }
        }
    }
}

/// `j` with the given status and thread, otherwise unchanged.
pub open spec fn with_status(j: JobInfo, thread: Option<usize>, status: JobStatus, notified: bool) -> JobInfo {
    JobInfo { priority: j.priority, kind: j.kind, thread, status, notified, epoch: j.epoch }
}

/// `j` queued again after a poll that found it woken.
pub open spec fn requeued(j: JobInfo) -> JobInfo {
    with_status(j, j.thread, JobStatus::Queued, false)
}

/// `j` after a poll that returned `Pending` with no wake-up.
pub open spec fn parked(j: JobInfo) -> JobInfo {
    with_status(j, j.thread, JobStatus::Waiting, false)
}

/// A freshly spawned job.
pub open spec fn fresh_job(priority: u32, kind: JobKind) -> JobInfo {
    JobInfo { priority, kind, thread: None, status: JobStatus::Queued, notified: false, epoch: 0 }
}

/// The epoch after `e`.
pub open spec fn next_epoch(e: u64) -> u64 {
    if e == u64::MAX {
        0
    } else {
        (e + 1) as u64
    }
}

/// The record of job `j` when worker `t` starts its next poll.
pub open spec fn running_record(j: JobInfo, t: int) -> JobInfo {
    JobInfo {
        priority: j.priority,
        kind: j.kind,
        thread: bound_thread(j, t),
        status: JobStatus::Running(t as usize),
        notified: j.notified,
        epoch: next_epoch(j.epoch),
    }
}

/// `b` is `a` with job `id`, whose record is `j`, added to the queue of its home.
pub open spec fn enqueued(a: Scheduler, b: Scheduler, id: u64, j: JobInfo) -> bool {
    match home_of(j) {
        None => b.global_view() == a.global_view().insert(id, j.priority) && b.locals_view()
            == a.locals_view(),
        Some(t) => b.global_view() == a.global_view() && b.locals_view() == a.locals_view().update(
            t as int,
            a.local_view(t as int).insert(id, j.priority),
        ),
    }
}

/// `b` is `a` after spawning job `id` with `priority` and `kind`.
pub open spec fn spawned(a: Scheduler, b: Scheduler, priority: u32, kind: JobKind, id: u64) -> bool {
    &&& !a.jobs_view().contains_key(id)
    &&& b.jobs_view() == a.jobs_view().insert(id, fresh_job(priority, kind))
    &&& b.global_view() == a.global_view().insert(id, priority)
    &&& b.locals_view() == a.locals_view()
    &&& b.asleep_view() == a.asleep_view()
    &&& b.signalled_view() == a.signalled_view()
    &&& b.running_view() == a.running_view()
    &&& b.awake_count() == a.awake_count()
    &&& b.job_total() == a.job_total() + 1
    &&& !b.idle_flag()
    &&& b.death_flag() == a.death_flag()
}

/// `b` is `a` after worker `t` took job `id` of greatest priority out of its
/// own queue (`from_local`) or out of the shared queue, and started polling it.
pub open spec fn started(a: Scheduler, b: Scheduler, t: int, id: u64, from_local: bool) -> bool {
    let j = a.jobs_view()[id];
    let before = if from_local {
        a.local_view(t)
    } else {
        a.global_view()
    };
    let after = if from_local {
        b.local_view(t)
    } else {
        b.global_view()
    };
    &&& a.jobs_view().contains_key(id)
    &&& pops_max(before, after, id, j.priority)
    &&& (from_local ==> b.global_view() == a.global_view() && b.locals_view()
        == a.locals_view().update(t, after))
    &&& (!from_local ==> b.locals_view() == a.locals_view())
    &&& b.jobs_view() == a.jobs_view().insert(id, running_record(j, t))
    &&& b.running_view() == a.running_view().update(t, Some(id))
    &&& b.asleep_view() == a.asleep_view()
    &&& b.signalled_view() == a.signalled_view()
    &&& b.awake_count() == a.awake_count()
    &&& b.job_total() == a.job_total()
    &&& b.idle_flag() == a.idle_flag()
    &&& b.death_flag() == a.death_flag()
}

/// `b` is `a` after worker `t` found no job and went to sleep.
pub open spec fn slept(a: Scheduler, b: Scheduler, t: int) -> bool {
    &&& b.asleep_view() == a.asleep_view().update(t, true)
    &&& b.signalled_view() == a.signalled_view()
    &&& b.awake_count() + 1 == a.awake_count()
    &&& b.idle_flag() == (a.idle_flag() || b.awake_count() == 0)
    &&& b.jobs_view() == a.jobs_view()
    &&& b.global_view() == a.global_view()
    &&& b.locals_view() == a.locals_view()
    &&& b.running_view() == a.running_view()
    &&& b.job_total() == a.job_total()
    &&& b.death_flag() == a.death_flag()
}

/// `b` is `a` after sleeping worker `t` was woken; `res` tells whether it
/// stays in the worker loop.
pub open spec fn resumed(a: Scheduler, b: Scheduler, t: int, res: bool) -> bool {
    &&& (a.death_flag() ==> !res && b.same_state(a))
    &&& (!a.death_flag() ==> {
        &&& res
        &&& b.asleep_view() == a.asleep_view().update(t, false)
        &&& b.signalled_view() == a.signalled_view().update(t, false)
        &&& b.awake_count() == a.awake_count() + 1
        &&& !b.idle_flag()
        &&& b.jobs_view() == a.jobs_view()
        &&& b.global_view() == a.global_view()
        &&& b.locals_view() == a.locals_view()
        &&& b.running_view() == a.running_view()
        &&& b.job_total() == a.job_total()
        &&& !b.death_flag()
    })
}

/// `b` is `a` after worker `t` finished polling its job, which returned
/// `Ready` when `ready` holds, and `out` is what became of the job.
pub open spec fn polled(a: Scheduler, b: Scheduler, t: int, ready: bool, out: PollOutcome) -> bool {
    let id = a.running_view()[t]->0;
    let j = a.jobs_view()[id];
    &&& b.running_view() == a.running_view().update(t, None)
    &&& b.asleep_view() == a.asleep_view()
    &&& b.signalled_view() == a.signalled_view()
    &&& b.awake_count() == a.awake_count()
    &&& b.idle_flag() == a.idle_flag()
    &&& b.death_flag() == a.death_flag()
    &&& (ready ==> {
        &&& out == PollOutcome::Completed(id)
        &&& b.jobs_view() == a.jobs_view().remove(id)
        &&& b.job_total() + 1 == a.job_total()
        &&& b.global_view() == a.global_view()
        &&& b.locals_view() == a.locals_view()
    })
    &&& (!ready && j.notified ==> {
        &&& out == PollOutcome::Requeued(id, notify_for(j))
        &&& b.jobs_view() == a.jobs_view().insert(id, requeued(j))
        &&& enqueued(a, b, id, j)
        &&& b.job_total() == a.job_total()
    })
    &&& (!ready && !j.notified ==> {
        &&& out == PollOutcome::Parked(id)
        &&& b.jobs_view() == a.jobs_view().insert(id, parked(j))
        &&& b.job_total() == a.job_total()
        &&& b.global_view() == a.global_view()
        &&& b.locals_view() == a.locals_view()
    })
}

/// The waker of job `id` made for poll `epoch` belongs to the job's latest poll.
pub open spec fn current_waker(a: Scheduler, id: u64, epoch: u64) -> bool {
    a.jobs_view().contains_key(id) && a.jobs_view()[id].epoch == epoch
}

/// `b` is `a` after the waker of job `id` made for poll `epoch` fired, and
/// `n` is the worker to notify.
pub open spec fn woken(a: Scheduler, b: Scheduler, id: u64, epoch: u64, n: Notify) -> bool {
    let j = a.jobs_view()[id];
    &&& (!current_waker(a, id, epoch) ==> n == Notify::Nobody && b.same_state(a))
    &&& (current_waker(a, id, epoch) && j.status == JobStatus::Queued ==> n == Notify::Nobody
        && b.same_state(a))
    &&& (current_waker(a, id, epoch) && j.status == JobStatus::Waiting ==> {
        &&& n == notify_for(j)
        &&& b.jobs_view() == a.jobs_view().insert(id, requeued(j))
        &&& enqueued(a, b, id, j)
        &&& b.same_workers(a)
        &&& b.job_total() == a.job_total()
    })
    &&& (current_waker(a, id, epoch) && j.status is Running ==> {
        &&& n == Notify::Nobody
        &&& b.jobs_view() == a.jobs_view().insert(id, with_status(j, j.thread, j.status, true))
        &&& b.global_view() == a.global_view()
        &&& b.locals_view() == a.locals_view()
        &&& b.same_workers(a)
        &&& b.job_total() == a.job_total()
    })
}

/// `b` is `a` after the last handle on the waker of job `id` made for poll
/// `epoch` was dropped; `dropped` tells whether the job went with it.
pub open spec fn abandoned(a: Scheduler, b: Scheduler, id: u64, epoch: u64, dropped: bool) -> bool {
    let waits = current_waker(a, id, epoch) && a.jobs_view()[id].status == JobStatus::Waiting;
    &&& dropped == waits
    &&& (waits ==> {
        &&& b.jobs_view() == a.jobs_view().remove(id)
        &&& b.job_total() + 1 == a.job_total()
        &&& b.global_view() == a.global_view()
        &&& b.locals_view() == a.locals_view()
        &&& b.same_workers(a)
    })
    &&& (!waits ==> b.same_state(a))
}

/// Worker `u` sleeps and was not picked to be notified since it last woke up.
pub open spec fn can_claim(a: Scheduler, u: int) -> bool {
    a.asleep_view()[u] && !a.signalled_view()[u]
}

/// `b` is `a` after picking a worker to notify for a job in the shared
/// queue; `r` is the worker picked.
pub open spec fn claimed(a: Scheduler, b: Scheduler, r: Option<usize>) -> bool {
    &&& (r matches Some(t) ==> {
        &&& t < a.threads()
        &&& can_claim(a, t as int)
        &&& forall|u: int| 0 <= u < t ==> !#[trigger] can_claim(a, u)
        &&& b.signalled_view() == a.signalled_view().update(t as int, true)
    })
    &&& (r is None ==> {
        &&& forall|u: int| 0 <= u < a.threads() ==> !#[trigger] can_claim(a, u)
        &&& b.signalled_view() == a.signalled_view()
    })
    &&& b.jobs_view() == a.jobs_view()
    &&& b.global_view() == a.global_view()
    &&& b.locals_view() == a.locals_view()
    &&& b.asleep_view() == a.asleep_view()
    &&& b.running_view() == a.running_view()
    &&& b.awake_count() == a.awake_count()
    &&& b.job_total() == a.job_total()
    &&& b.idle_flag() == a.idle_flag()
    &&& b.death_flag() == a.death_flag()
}

/// `b` is `a` with the death signal set.
pub open spec fn finished(a: Scheduler, b: Scheduler) -> bool {
    &&& b.death_flag()
    &&& b.jobs_view() == a.jobs_view()
    &&& b.global_view() == a.global_view()
    &&& b.locals_view() == a.locals_view()
    &&& b.asleep_view() == a.asleep_view()
    &&& b.signalled_view() == a.signalled_view()
    &&& b.running_view() == a.running_view()
    &&& b.awake_count() == a.awake_count()
    &&& b.job_total() == a.job_total()
    &&& b.idle_flag() == a.idle_flag()
}

/// One operation on the scheduler, with what it was called with and what it
/// returned.
pub enum Event {
    /// [`Scheduler::spawn`] registered job `id`.
    Spawned { priority: u32, kind: JobKind, id: u64 },
    /// [`Scheduler::next_job`] gave job `id` to worker `thread`.
    Started { thread: usize, id: u64, from_local: bool },
    /// [`Scheduler::next_job`] sent worker `thread` to sleep or out.
    Slept { thread: usize },
    /// [`Scheduler::resume`] woke worker `thread`.
    Resumed { thread: usize, res: bool },
    /// [`Scheduler::finish_poll`] recorded the end of a poll by worker `thread`.
    Polled { thread: usize, ready: bool, out: PollOutcome },
    /// [`Scheduler::wake`] handled a wake-up.
    Woken { id: u64, epoch: u64, notify: Notify },
    /// [`Scheduler::waker_dropped`] handled the loss of a waker.
    Abandoned { id: u64, epoch: u64, dropped: bool },
    /// [`Scheduler::claim_sleeper`] picked a worker to notify.
    Claimed { picked: Option<usize> },
    /// [`Scheduler::finish`] set the death signal.
    Finished,
}

/// `b` is `a` after the operation `e`.
pub open spec fn step(a: Scheduler, b: Scheduler, e: Event) -> bool {
    match e {
        Event::Spawned { priority, kind, id } => spawned(a, b, priority, kind, id),
        Event::Started { thread, id, from_local } => started(a, b, thread as int, id, from_local),
        Event::Slept { thread } => slept(a, b, thread as int),
        Event::Resumed { thread, res } => resumed(a, b, thread as int, res),
        Event::Polled { thread, ready, out } => polled(a, b, thread as int, ready, out),
        Event::Woken { id, epoch, notify } => woken(a, b, id, epoch, notify),
        Event::Abandoned { id, epoch, dropped } => abandoned(a, b, id, epoch, dropped),
        Event::Claimed { picked } => claimed(a, b, picked),
        Event::Finished => finished(a, b),
    }
}

/// The number of spawns among `events`.
pub open spec fn spawn_count(events: Seq<Event>) -> nat
    decreases events.len(),
{
    if events.len() == 0 {
        0
    } else {
        spawn_count(events.drop_last()) + if events.last() is Spawned {
            1nat
        } else {
            0nat
        }
    }
}

/// Whether `e` ends a job: a poll that returned `Ready`, or the loss of the
/// last waker of a waiting job.
pub open spec fn ends_job(e: Event) -> bool {
    ||| e matches Event::Polled { ready, .. } && ready
    ||| e matches Event::Abandoned { dropped, .. } && dropped
}

/// The number of jobs that `events` end.
pub open spec fn end_count(events: Seq<Event>) -> nat
    decreases events.len(),
{
    if events.len() == 0 {
        0
    } else {
        end_count(events.drop_last()) + if ends_job(events.last()) {
            1nat
        } else {
            0nat
        }
    }
}

/// `states` is a run of the scheduler through `events`: each state follows
/// from the one before by the event between them.
pub open spec fn is_run(states: Seq<Scheduler>, events: Seq<Event>) -> bool {
    &&& states.len() == events.len() + 1
    &&& forall|i: int| 0 <= i < events.len() ==> #[trigger] step(states[i], states[i + 1], events[i])
}

/// Putting a sleeping flag at the end of the table adds one awake worker
/// when the flag is clear.
proof fn lemma_count_awake_push(s: Seq<bool>, b: bool)
    ensures
        count_awake(s.push(b)) == count_awake(s) + if b {
            0nat
        } else {
            1nat
        },
{
    assert(s.push(b).drop_last() =~= s);
}

/// There are never more awake workers than workers.
proof fn lemma_count_awake_bound(s: Seq<bool>)
    ensures
        count_awake(s) <= s.len(),
    decreases s.len(),
{
    if s.len() > 0 {
        lemma_count_awake_bound(s.drop_last());
    }
}

/// Changing one sleeping flag changes the awake count by at most one.
proof fn lemma_count_awake_update(s: Seq<bool>, i: int, b: bool)
    requires
        0 <= i < s.len(),
    ensures
        count_awake(s.update(i, b)) + (if s[i] {
            0nat
        } else {
            1nat
        }) == count_awake(s) + (if b {
            0nat
        } else {
            1nat
        }),
    decreases s.len(),
{
    if i == s.len() - 1 {
        assert(s.update(i, b).drop_last() =~= s.drop_last());
    } else {
        lemma_count_awake_update(s.drop_last(), i, b);
        assert(s.update(i, b).drop_last() =~= s.drop_last().update(i, b));
    }
}

/// With no awake worker, every worker sleeps.
proof fn lemma_count_awake_zero(s: Seq<bool>, i: int)
    requires
        count_awake(s) == 0,
        0 <= i < s.len(),
    ensures
        s[i],
    decreases s.len(),
{
    if i < s.len() - 1 {
        lemma_count_awake_zero(s.drop_last(), i);
    }
}

impl Scheduler {
    /// A scheduler for `threads` workers, all awake, with no job.
    pub fn new(threads: usize) -> (s: Scheduler)
        ensures
            s.wf(),
            s.jobs_view() == Map::<u64, JobInfo>::empty(),
            s.global_view() == empty_contents(),
            s.locals_view() == Seq::new(threads as nat, |i: int| empty_contents()),
            s.asleep_view() == Seq::new(threads as nat, |i: int| false),
            s.signalled_view() == Seq::new(threads as nat, |i: int| false),
            s.running_view() == Seq::new(threads as nat, |i: int| None::<u64>),
            s.awake_count() == threads,
            s.job_total() == 0,
            !s.idle_flag(),
            !s.death_flag(),
    {
        let mut locals: Vec<JobQueue> = Vec::new();
        let mut asleep: Vec<bool> = Vec::new();
        let mut signalled: Vec<bool> = Vec::new();
        let mut running: Vec<Option<u64>> = Vec::new();
        let mut i: usize = 0;
        while i < threads
            invariant
                i <= threads,
                locals.len() == i,
                asleep.len() == i,
                signalled.len() == i,
                running.len() == i,
                forall|j: int| 0 <= j < i ==> #[trigger] queue_contents(locals@[j]) == empty_contents(),
                forall|j: int| 0 <= j < i ==> !#[trigger] asleep@[j],
                forall|j: int| 0 <= j < i ==> !#[trigger] signalled@[j],
                forall|j: int| 0 <= j < i ==> #[trigger] running@[j] is None,
                count_awake(asleep@) == i,
            decreases threads - i,
        {
            proof {
                lemma_count_awake_push(asleep@, false);
            }
            locals.push(queue_new());
            asleep.push(false);
            signalled.push(false);
            running.push(None);
            i = i + 1;
        }
        let s = Scheduler {
            global: queue_new(),
            locals,
            jobs: table_new(),
            asleep,
            signalled,
            running,
            active_threads: threads,
            job_count: 0,
            idle: false,
            death: false,
        };
        assert(s.locals_view() =~= Seq::new(threads as nat, |i: int| empty_contents()));
        assert(s.asleep_view() =~= Seq::new(threads as nat, |i: int| false));
        assert(s.signalled_view() =~= Seq::new(threads as nat, |i: int| false));
        assert(s.running_view() =~= Seq::new(threads as nat, |i: int| None::<u64>));
        s
    }
}


impl Scheduler {
    /// Whether a job can be spawned: the yard is not finishing and the job
    /// table is not full.
    pub open spec fn can_spawn_spec(&self) -> bool {
        &&& !self.death_flag()
        &&& self.job_total() < MAX_JOBS
    }

    /// Tells whether [`Scheduler::spawn`] may be called.
    pub fn can_spawn(&self) -> (b: bool)
        ensures
            b == self.can_spawn_spec(),
            b == (!self.death_flag() && self.job_total() < MAX_JOBS),
    {
        !self.death && self.job_count < MAX_JOBS
    }

    /// Current amount of jobs in flight.
    pub fn jobs(&self) -> (n: usize)
        ensures
            n == self.job_total(),
    {
        self.job_count
    }

    /// Number of workers that are awake.
    pub fn active_threads(&self) -> (n: usize)
        ensures
            n == self.awake_count(),
    {
        self.active_threads
    }

    /// Number of workers.
    pub fn thread_count(&self) -> (n: usize)
        requires
            self.wf(),
        ensures
            n == self.threads(),
    {
        self.asleep.len()
    }

    /// Whether the idle signal is set.
    pub fn is_idle(&self) -> (b: bool)
        ensures
            b == self.idle_flag(),
    {
        self.idle
    }

    /// Whether the death signal is set.
    pub fn is_finished(&self) -> (b: bool)
        ensures
            b == self.death_flag(),
    {
        self.death
    }

    /// Whether the per-thread data may be handed out: no worker is awake and
    /// no job is in flight.
    pub fn access_allowed(&self) -> (b: bool)
        ensures
            b == (self.awake_count() == 0 && self.job_total() == 0),
    {
        self.active_threads == 0 && self.job_count == 0
    }

    /// Picks the worker to notify when a job enters the shared queue: the
    /// first sleeping worker not yet picked since it last woke up, which is
    /// then marked as picked. `None` when there is no such worker.
    pub fn claim_sleeper(&mut self) -> (r: Option<usize>)
        requires
            old(self).wf(),
        ensures
            final(self).wf(),
            claimed(*old(self), *final(self), r),
            r is None ==> forall|u: int|
                0 <= u < old(self).threads() ==> !(#[trigger] old(self).asleep_view()[u]
                    && !old(self).signalled_view()[u]),
            r matches Some(t) ==> {
                &&& t < old(self).threads()
                &&& old(self).asleep_view()[t as int]
                &&& !old(self).signalled_view()[t as int]
                &&& forall|u: int|
                    0 <= u < t ==> !(#[trigger] old(self).asleep_view()[u]
                        && !old(self).signalled_view()[u])
            },
    {
        let ghost before = *self;
        let mut t: usize = 0;
        while t < self.asleep.len()
            invariant
                *self == before,
                before == *old(self),
                before.wf(),
                t <= self.asleep@.len(),
                forall|u: int| 0 <= u < t ==> !#[trigger] can_claim(before, u),
            decreases self.asleep@.len() - t,
        {
            if self.asleep[t] && !self.signalled[t] {
                self.signalled.set(t, true);
                proof {
                    self.lemma_workers_only(before);
                    assert forall|u: int| 0 <= u < t implies !(#[trigger] before.asleep_view()[u]
                        && !before.signalled_view()[u]) by {
                        assert(!can_claim(before, u));
                    }
                }
                return Some(t);
            }
            t = t + 1;
        }
        assert forall|u: int| 0 <= u < before.threads() implies !(#[trigger] before.asleep_view()[u]
            && !before.signalled_view()[u]) by {
            assert(!can_claim(before, u));
        }
        None
    }

    /// Registers a new job of the given priority and kind in the shared queue,
    /// and clears the idle signal. Returns the job's id.
    pub fn spawn(&mut self, priority: u32, kind: JobKind) -> (id: u64)
        requires
            old(self).wf(),
            old(self).can_spawn_spec(),
        ensures
            final(self).wf(),
            spawned(*old(self), *final(self), priority, kind, id),
    {
        let ghost before = *self;
        let info = JobInfo {
            priority,
            kind,
            thread: None,
            status: JobStatus::Queued,
            notified: false,
            epoch: 0,
        };
        let id = table_insert(&mut self.jobs, info);
        proof {
            if queue_contents(self.global).contains_key(id) {
                assert(before.in_global_ok(id));
            }
        }
        queue_push(&mut self.global, id, priority);
        self.job_count = self.job_count + 1;
        self.idle = false;
        proof {
            let n = self.asleep@.len();
            assert(table_contents(self.jobs).remove(id) =~= table_contents(before.jobs).remove(id));
            assert(queue_contents(self.global).remove(id) =~= queue_contents(before.global).remove(
                id,
            ));
            assert forall|t: int|
                0 <= t < n && #[trigger] queue_contents(self.locals@[t]).contains_key(id)
                    implies self.in_local_ok(t, id) by {
                assert(before.in_local_ok(t, id));
            }
            before.lemma_polled_only_by(id);
            self.lemma_restore_wf(before, id);
            assert(self.locals_view() =~= before.locals_view());
        }
        id
    }
}

impl Scheduler {
    /// A job that is not queued is in no queue.
    proof fn lemma_not_queued(&self, id: u64)
        requires
            self.wf(),
            table_contents(self.jobs).contains_key(id),
            table_contents(self.jobs)[id].status != JobStatus::Queued,
        ensures
            !queue_contents(self.global).contains_key(id),
            forall|t: int|
                0 <= t < self.asleep@.len() ==> !#[trigger] queue_contents(self.locals@[t]).contains_key(
                    id,
                ),
    {
        if queue_contents(self.global).contains_key(id) {
            assert(self.in_global_ok(id));
        }
        assert forall|t: int| 0 <= t < self.asleep@.len() implies !#[trigger] queue_contents(
            self.locals@[t],
        ).contains_key(id) by {
            if queue_contents(self.locals@[t]).contains_key(id) {
                assert(self.in_local_ok(t, id));
            }
        }
    }

    /// A job is polled by no worker but the one its status names.
    proof fn lemma_polled_only_by(&self, id: u64)
        requires
            self.wf(),
        ensures
            forall|t: int|
                0 <= t < self.asleep@.len() && #[trigger] self.running@[t] == Some(id) ==> table_contents(
                    self.jobs,
                ).contains_key(id) && table_contents(self.jobs)[id].status == JobStatus::Running(
                    t as usize,
                ),
    {
        assert forall|t: int|
            0 <= t < self.asleep@.len() && #[trigger] self.running@[t] == Some(id) implies table_contents(
            self.jobs,
        ).contains_key(id) && table_contents(self.jobs)[id].status == JobStatus::Running(t as usize) by {
            assert(self.slot_ok(t));
        }
    }
}

impl Scheduler {
    /// A state that differs from a consistent one only in sleeping flags of
    /// workers that poll nothing, in the counters and in the signals, and
    /// whose counters and signals agree, is consistent.
    proof fn lemma_workers_only(&self, before: Scheduler)
        requires
            before.wf(),
            self.shape_ok(),
            self.signalled@.len() == before.signalled@.len(),
            self.jobs == before.jobs,
            self.global == before.global,
            self.locals == before.locals,
            self.running == before.running,
            self.asleep@.len() == before.asleep@.len(),
            forall|t: int|
                0 <= t < self.asleep@.len() && #[trigger] self.asleep@[t] != before.asleep@[t]
                    ==> self.running@[t] is None,
        ensures
            self.wf(),
    {
        let n = self.asleep@.len();
        assert forall|t: int| 0 <= t < n implies #[trigger] self.slot_ok(t) by {
            assert(before.slot_ok(t));
        }
        assert forall|k: u64| #[trigger] table_contents(self.jobs).contains_key(k) implies self.job_fine(
            k,
        ) by {
            assert(before.job_fine(k));
        }
        assert forall|t: int, k: u64|
            0 <= t < n && #[trigger] queue_contents(self.locals@[t]).contains_key(k)
                implies self.in_local_ok(t, k) by {
            assert(before.in_local_ok(t, k));
        }
        assert forall|k: u64| #[trigger] queue_contents(self.global).contains_key(k) implies self.in_global_ok(
            k,
        ) by {
            assert(before.in_global_ok(k));
        }
    }
}

/// Replacing the value of a key a map holds keeps its domain and its size.
proof fn lemma_replace_keeps_len(m: Map<u64, JobInfo>, k: u64, v: JobInfo)
    requires
        m.dom().finite(),
        m.contains_key(k),
    ensures
        m.insert(k, v).dom().finite(),
        m.insert(k, v).len() == m.len(),
{
    assert(m.insert(k, v).dom() =~= m.dom());
}

impl Scheduler {
    /// Decides what worker `thread` does next: it polls the job of greatest
    /// priority in its own queue, else the one of greatest priority in the
    /// shared queue; with both empty it goes to sleep (setting the idle signal
    /// when it was the last awake worker) and exits instead when the yard is
    /// finishing.
    pub fn next_job(&mut self, thread: usize) -> (action: WorkerAction)
        requires
            old(self).wf(),
            thread < old(self).threads(),
            !old(self).asleep_view()[thread as int],
            old(self).running_view()[thread as int] is None,
        ensures
            final(self).wf(),
            old(self).local_view(thread as int) != empty_contents() ==> (action matches WorkerAction::Run(
                id,
                epoch,
            ) && started(*old(self), *final(self), thread as int, id, true) && epoch
                == final(self).jobs_view()[id].epoch),
            old(self).local_view(thread as int) == empty_contents() && old(self).global_view()
                != empty_contents() ==> (action matches WorkerAction::Run(id, epoch) && started(
                *old(self),
                *final(self),
                thread as int,
                id,
                false,
            ) && epoch == final(self).jobs_view()[id].epoch),
            old(self).local_view(thread as int) == empty_contents() && old(self).global_view()
                == empty_contents() ==> slept(*old(self), *final(self), thread as int) && action == (
            if old(self).death_flag() {
                WorkerAction::Exit
            } else {
                WorkerAction::Sleep
            }),
    {
        let ghost before = *self;
        let ghost n = self.asleep@.len();
        proof {
            assert(self.local_view(thread as int) == queue_contents(self.locals@[thread as int]));
        }
        let from_local = !queue_is_empty(&self.locals[thread]);
        if !from_local && queue_is_empty(&self.global) {
            proof {
                lemma_count_awake_update(self.asleep@, thread as int, true);
            }
            self.asleep.set(thread, true);
            self.active_threads = self.active_threads - 1;
            if self.active_threads == 0 {
                self.idle = true;
            }
            proof {
                self.lemma_workers_only(before);
            }
            return if self.death {
                WorkerAction::Exit
            } else {
                WorkerAction::Sleep
            };
        }
        let popped = if from_local {
            queue_pop(&mut self.locals[thread])
        } else {
            queue_pop(&mut self.global)
        };
        let id = match popped {
            Some((id, _)) => id,
            None => {
                proof {
                    assert(false);
                }
                return WorkerAction::Sleep;
            },
        };
        proof {
            if from_local {
                assert(before.in_local_ok(thread as int, id));
            } else {
                assert(before.in_global_ok(id));
            }
            assert(before.job_fine(id));
        }
        let info = table_get(&self.jobs, id).unwrap();
        let epoch = if info.epoch == u64::MAX {
            0
        } else {
            info.epoch + 1
        };
        let bound = match info.kind {
            JobKind::Local => Some(thread),
            JobKind::Future => None,
        };
        let new_info = JobInfo {
            priority: info.priority,
            kind: info.kind,
            thread: bound,
            status: JobStatus::Running(thread),
            notified: info.notified,
            epoch,
        };
        table_set(&mut self.jobs, id, new_info);
        self.running.set(thread, Some(id));
        proof {
            lemma_replace_keeps_len(table_contents(before.jobs), id, new_info);
            assert(table_contents(self.jobs).remove(id) =~= table_contents(before.jobs).remove(id));
            let bj = table_contents(before.jobs)[id];
            assert(!queue_contents(self.global).contains_key(id)) by {
                if !from_local && queue_contents(self.global).contains_key(id) {
                    assert(queue_contents(self.global) == queue_contents(before.global).remove(id));
                }
                if from_local && queue_contents(before.global).contains_key(id) {
                    assert(before.in_global_ok(id));
                }
            }
            assert(queue_contents(self.global).remove(id) =~= queue_contents(before.global).remove(
                id,
            ));
            assert forall|t: int| 0 <= t < n implies #[trigger] queue_contents(self.locals@[t]).remove(
                id,
            ) == queue_contents(before.locals@[t]).remove(id) && !queue_contents(
                self.locals@[t],
            ).contains_key(id) by {
                if from_local && t == thread {
                    assert(queue_contents(self.locals@[t]) == queue_contents(before.locals@[t]).remove(
                        id,
                    ));
                    assert(queue_contents(self.locals@[t]).remove(id) =~= queue_contents(
                        before.locals@[t],
                    ).remove(id));
                } else {
                    assert(self.locals@[t] == before.locals@[t]);
                    if queue_contents(before.locals@[t]).contains_key(id) {
                        assert(before.in_local_ok(t, id));
                        assert(home_of(bj) == Some(t as usize));
                    }
                }
            }
            assert forall|t: int| 0 <= t < n && #[trigger] self.running@[t] == Some(id) implies self.slot_ok(
                t,
            ) by {
                if t != thread {
                    assert(before.slot_ok(t));
                }
            }
            assert(self.differs_only_in(before, id));
            assert(self.id_ok(id));
            self.lemma_restore_wf(before, id);
            if from_local {
                assert(self.locals_view() =~= before.locals_view().update(
                    thread as int,
                    self.local_view(thread as int),
                ));
            } else {
                assert(self.locals_view() =~= before.locals_view());
            }
        }
        WorkerAction::Run(id, epoch)
    }
}

impl Scheduler {
    /// A sleeping worker was notified: it wakes up (clearing the idle
    /// signal) and returns `true`, or, when the yard is finishing, stays
    /// asleep and returns `false` so that it exits.
    pub fn resume(&mut self, thread: usize) -> (res: bool)
        requires
            old(self).wf(),
            thread < old(self).threads(),
            old(self).asleep_view()[thread as int],
        ensures
            final(self).wf(),
            resumed(*old(self), *final(self), thread as int, res),
    {
        if self.death {
            return false;
        }
        let ghost before = *self;
        proof {
            lemma_count_awake_update(self.asleep@, thread as int, false);
            lemma_count_awake_bound(self.asleep@.update(thread as int, false));
        }
        self.asleep.set(thread, false);
        self.signalled.set(thread, false);
        self.active_threads = self.active_threads + 1;
        self.idle = false;
        proof {
            assert(before.slot_ok(thread as int));
            self.lemma_workers_only(before);
        }
        true
    }

    /// Sets the death signal: workers exit once they run out of jobs.
    pub fn finish(&mut self)
        requires
            old(self).wf(),
        ensures
            final(self).wf(),
            finished(*old(self), *final(self)),
    {
        let ghost before = *self;
        self.death = true;
        proof {
            self.lemma_workers_only(before);
        }
    }

    /// Puts job `id`, whose new record `info` is queued, into the queue of
    /// its home, and returns the worker to notify.
    fn enqueue(&mut self, id: u64, info: JobInfo) -> (target: Notify)
        requires
            info.thread matches Some(t) ==> t < old(self).locals@.len(),
        ensures
            target == notify_for(info),
            final(self).jobs == old(self).jobs,
            final(self).asleep == old(self).asleep,
            final(self).signalled == old(self).signalled,
            final(self).running == old(self).running,
            final(self).active_threads == old(self).active_threads,
            final(self).job_count == old(self).job_count,
            final(self).idle == old(self).idle,
            final(self).death == old(self).death,
            final(self).locals@.len() == old(self).locals@.len(),
            match home_of(info) {
                None => queue_contents(final(self).global) == queue_contents(old(self).global).insert(
                    id,
                    info.priority,
                ) && final(self).locals == old(self).locals,
                Some(t) => final(self).global == old(self).global && final(self).locals@ == old(
                    self,
                ).locals@.update(t as int, final(self).locals@[t as int]) && queue_contents(
                    final(self).locals@[t as int],
                ) == queue_contents(old(self).locals@[t as int]).insert(id, info.priority),
            },
    {
        let home = match info.kind {
            JobKind::Local => info.thread,
            JobKind::Future => None,
        };
        match home {
            Some(t) => {
                queue_push(&mut self.locals[t], id, info.priority);
                Notify::Thread(t)
            },
            None => {
                queue_push(&mut self.global, id, info.priority);
                Notify::AnyThread
            },
        }
    }

    /// After job `id`, polled by no one and in no queue, got the queued
    /// record `info` and was put into the queue of its home, the scheduler
    /// is consistent again and the change is the one `enqueued` describes.
    proof fn lemma_requeued(&self, before: Scheduler, mid: Scheduler, id: u64, info: JobInfo)
        requires
            before.wf(),
            mid.shape_ok(),
            mid.asleep == before.asleep,
            mid.signalled == before.signalled,
            mid.global == before.global,
            mid.locals == before.locals,
            table_contents(mid.jobs) == table_contents(before.jobs).insert(id, info),
            table_contents(before.jobs).contains_key(id),
            info.status == JobStatus::Queued,
            job_ok(info, before.asleep@.len() as nat),
            !queue_contents(before.global).contains_key(id),
            forall|t: int|
                0 <= t < before.asleep@.len() ==> !#[trigger] queue_contents(
                    before.locals@[t],
                ).contains_key(id),
            forall|t: int| 0 <= t < before.asleep@.len() ==> #[trigger] mid.running@[t] != Some(id),
            forall|t: int|
                0 <= t < before.asleep@.len() && #[trigger] mid.running@[t] != before.running@[t]
                    ==> mid.running@[t] is None && before.running@[t] == Some(id),
            self.jobs == mid.jobs,
            self.asleep == mid.asleep,
            self.signalled == mid.signalled,
            self.running == mid.running,
            self.active_threads == mid.active_threads,
            self.job_count == mid.job_count,
            self.idle == mid.idle,
            self.locals@.len() == mid.locals@.len(),
            match home_of(info) {
                None => queue_contents(self.global) == queue_contents(mid.global).insert(
                    id,
                    info.priority,
                ) && self.locals == mid.locals,
                Some(t) => self.global == mid.global && self.locals@ == mid.locals@.update(
                    t as int,
                    self.locals@[t as int],
                ) && queue_contents(self.locals@[t as int]) == queue_contents(
                    mid.locals@[t as int],
                ).insert(id, info.priority),
            },
        ensures
            self.wf(),
            enqueued(before, *self, id, info),
    {
        let n = before.asleep@.len();
        assert(table_contents(self.jobs).remove(id) =~= table_contents(before.jobs).remove(id));
        assert(queue_contents(self.global).remove(id) =~= queue_contents(before.global).remove(id));
        assert forall|t: int| 0 <= t < n implies #[trigger] queue_contents(self.locals@[t]).remove(id)
            == queue_contents(before.locals@[t]).remove(id) by {
            assert(queue_contents(self.locals@[t]).remove(id) =~= queue_contents(
                before.locals@[t],
            ).remove(id));
        }
        assert(self.differs_only_in(before, id));
        assert(self.id_ok(id));
        self.lemma_restore_wf(before, id);
        if let Some(t) = home_of(info) {
            assert(self.locals_view() =~= before.locals_view().update(
                t as int,
                before.local_view(t as int).insert(id, info.priority),
            ));
        } else {
            assert(self.locals_view() =~= before.locals_view());
        }
    }

    /// Records the end of the poll of the job that worker `thread` was
    /// polling. A job that returned `Ready` is gone; one that was woken during
    /// the poll is queued again at its home; any other now waits for a wake-up.
    pub fn finish_poll(&mut self, thread: usize, ready: bool) -> (out: PollOutcome)
        requires
            old(self).wf(),
            thread < old(self).threads(),
            old(self).running_view()[thread as int] is Some,
        ensures
            final(self).wf(),
            polled(*old(self), *final(self), thread as int, ready, out),
    {
        let ghost before = *self;
        let id = self.running[thread].unwrap();
        proof {
            before.lemma_polled_only_by(id);
            assert(before.running@[thread as int] == Some(id));
            assert(before.job_fine(id));
            before.lemma_not_queued(id);
        }
        let info = table_get(&self.jobs, id).unwrap();
        self.running.set(thread, None);
        if ready {
            table_remove(&mut self.jobs, id);
            self.job_count = self.job_count - 1;
            proof {
                assert(table_contents(self.jobs).remove(id) =~= table_contents(before.jobs).remove(id));
                assert(self.differs_only_in(before, id));
                assert(self.id_ok(id));
                self.lemma_restore_wf(before, id);
            }
            PollOutcome::Completed(id)
        } else if info.notified {
            let new_info = JobInfo {
                priority: info.priority,
                kind: info.kind,
                thread: info.thread,
                status: JobStatus::Queued,
                notified: false,
                epoch: info.epoch,
            };
            table_set(&mut self.jobs, id, new_info);
            proof {
                lemma_replace_keeps_len(table_contents(before.jobs), id, new_info);
            }
            let ghost mid = *self;
            let target = self.enqueue(id, new_info);
            proof {
                self.lemma_requeued(before, mid, id, new_info);
            }
            PollOutcome::Requeued(id, target)
        } else {
            let new_info = JobInfo {
                priority: info.priority,
                kind: info.kind,
                thread: info.thread,
                status: JobStatus::Waiting,
                notified: false,
                epoch: info.epoch,
            };
            table_set(&mut self.jobs, id, new_info);
            proof {
                lemma_replace_keeps_len(table_contents(before.jobs), id, new_info);
                assert(table_contents(self.jobs).remove(id) =~= table_contents(before.jobs).remove(id));
                assert(self.differs_only_in(before, id));
                assert(self.id_ok(id));
                self.lemma_restore_wf(before, id);
            }
            PollOutcome::Parked(id)
        }
    }
}

impl Scheduler {
    /// The waker of job `id` made for poll `epoch` fired; a waker of an
    /// earlier poll, or of a finished job, does nothing. A waiting job is
    /// queued at its home and the worker to notify is returned; a job being
    /// polled is marked to run again after its poll; a queued job is left as
    /// it is.
    pub fn wake(&mut self, id: u64, epoch: u64) -> (n: Notify)
        requires
            old(self).wf(),
        ensures
            final(self).wf(),
            woken(*old(self), *final(self), id, epoch, n),
    {
        let ghost before = *self;
        if !key_id_shape(id) {
            proof {
                if table_contents(self.jobs).contains_key(id) {
                    assert(self.job_fine(id));
                }
            }
            return Notify::Nobody;
        }
        let info = match table_get(&self.jobs, id) {
            None => {
                return Notify::Nobody;
            },
            Some(r) => r,
        };
        if info.epoch != epoch {
            return Notify::Nobody;
        }
        proof {
            assert(before.job_fine(id));
            before.lemma_polled_only_by(id);
        }
        match info.status {
            JobStatus::Queued => Notify::Nobody,
            JobStatus::Running(_) => {
                let new_info = JobInfo {
                    priority: info.priority,
                    kind: info.kind,
                    thread: info.thread,
                    status: info.status,
                    notified: true,
                    epoch: info.epoch,
                };
                table_set(&mut self.jobs, id, new_info);
                proof {
                    lemma_replace_keeps_len(table_contents(before.jobs), id, new_info);
                    before.lemma_not_queued(id);
                    assert(table_contents(self.jobs).remove(id) =~= table_contents(before.jobs).remove(
                        id,
                    ));
                    if let JobStatus::Running(t) = info.status {
                        assert(before.running@[t as int] == Some(id));
                    }
                    assert(self.job_fine(id));
                    assert forall|t: int|
                        0 <= t < self.asleep@.len() && #[trigger] self.running@[t] == Some(id)
                            implies self.slot_ok(t) by {
                        assert(before.slot_ok(t));
                    }
                    assert(self.differs_only_in(before, id));
                    assert(self.id_ok(id));
                    self.lemma_restore_wf(before, id);
                    assert(self.locals_view() =~= before.locals_view());
                }
                Notify::Nobody
            },
            JobStatus::Waiting => {
                proof {
                    before.lemma_not_queued(id);
                }
                let new_info = JobInfo {
                    priority: info.priority,
                    kind: info.kind,
                    thread: info.thread,
                    status: JobStatus::Queued,
                    notified: false,
                    epoch: info.epoch,
                };
                table_set(&mut self.jobs, id, new_info);
                proof {
                    lemma_replace_keeps_len(table_contents(before.jobs), id, new_info);
                }
                let ghost mid = *self;
                let target = self.enqueue(id, new_info);
                proof {
                    self.lemma_requeued(before, mid, id, new_info);
                }
                target
            },
        }
    }
}

impl Scheduler {
    /// The last handle on the waker of job `id` made for poll `epoch` was
    /// dropped. A job that waits for that waker can never be woken any more:
    /// it is dropped and no longer counts as in flight. Otherwise nothing
    /// changes.
    pub fn waker_dropped(&mut self, id: u64, epoch: u64) -> (dropped: bool)
        requires
            old(self).wf(),
        ensures
            final(self).wf(),
            abandoned(*old(self), *final(self), id, epoch, dropped),
    {
        let ghost before = *self;
        if !key_id_shape(id) {
            proof {
                if table_contents(self.jobs).contains_key(id) {
                    assert(self.job_fine(id));
                }
            }
            return false;
        }
        let info = match table_get(&self.jobs, id) {
            None => {
                return false;
            },
            Some(r) => r,
        };
        if info.epoch != epoch || info.status != JobStatus::Waiting {
            return false;
        }
        proof {
            before.lemma_not_queued(id);
            before.lemma_polled_only_by(id);
        }
        table_remove(&mut self.jobs, id);
        self.job_count = self.job_count - 1;
        proof {
            assert(table_contents(self.jobs).remove(id) =~= table_contents(before.jobs).remove(id));
            assert(self.differs_only_in(before, id));
            assert(self.id_ok(id));
            self.lemma_restore_wf(before, id);
        }
        true
    }
}

/// Calling `finish` a second time changes nothing.
pub proof fn law_finish_twice(a: Scheduler, b: Scheduler, c: Scheduler)
    requires
        finished(a, b),
        finished(b, c),
    ensures
        c.same_state(b),
{
}

/// Once `finish` has been called, no job can be spawned any more.
pub proof fn law_no_spawn_after_finish(a: Scheduler, b: Scheduler)
    requires
        finished(a, b),
    ensures
        !b.can_spawn_spec(),
{
}

/// A worker never starts a job while a job of higher priority waits in the
/// queue it took the job from.
pub proof fn law_priority_order(a: Scheduler, b: Scheduler, t: int, id: u64, from_local: bool, k: u64)
    requires
        started(a, b, t, id, from_local),
    ensures
        from_local && a.local_view(t).contains_key(k) ==> a.local_view(t)[k]
            <= a.jobs_view()[id].priority,
        !from_local && a.global_view().contains_key(k) ==> a.global_view()[k]
            <= a.jobs_view()[id].priority,
{
}

/// Waking a job twice queues it at most once: the second wake-up changes
/// nothing and notifies nobody.
pub proof fn law_wake_twice(
    a: Scheduler,
    b: Scheduler,
    c: Scheduler,
    id: u64,
    epoch: u64,
    n1: Notify,
    n2: Notify,
)
    requires
        a.wf(),
        woken(a, b, id, epoch, n1),
        woken(b, c, id, epoch, n2),
    ensures
        n2 == Notify::Nobody,
        c.same_state(b),
{
    if current_waker(a, id, epoch) && a.jobs_view()[id].status is Running {
        assert(b.jobs_view().insert(id, b.jobs_view()[id]) =~= b.jobs_view());
    }
}

/// A job that is woken while it is being polled, and whose poll then returns
/// `Ready`, is gone: it is in no queue and will not be polled again.
pub proof fn law_wake_during_ready_poll(
    a: Scheduler,
    b: Scheduler,
    c: Scheduler,
    t: int,
    id: u64,
    epoch: u64,
    n: Notify,
    out: PollOutcome,
)
    requires
        a.wf(),
        0 <= t < a.threads(),
        a.running_view()[t] == Some(id),
        woken(a, b, id, epoch, n),
        polled(b, c, t, true, out),
    ensures
        n == Notify::Nobody,
        out == PollOutcome::Completed(id),
        !c.jobs_view().contains_key(id),
        !c.global_view().contains_key(id),
        forall|u: int| 0 <= u < c.threads() ==> !#[trigger] c.local_view(u).contains_key(id),
{
    assert(a.slot_ok(t));
    assert(table_contents(a.jobs)[id].status == JobStatus::Running(t as usize));
    if a.global_view().contains_key(id) {
        assert(table_contents(a.jobs)[id].status == JobStatus::Queued);
    }
    assert forall|u: int| 0 <= u < c.threads() implies !#[trigger] c.local_view(u).contains_key(
        id,
    ) by {
        if a.local_view(u).contains_key(id) {
            assert(queue_contents(a.locals@[u]).contains_key(id));
            assert(table_contents(a.jobs)[id].status == JobStatus::Queued);
        }
    }
}

/// The idle signal is only ever set while every worker sleeps and no job is
/// being polled.
pub proof fn law_idle_means_all_asleep(s: Scheduler, t: int)
    requires
        s.wf(),
        s.idle_flag(),
        0 <= t < s.threads(),
    ensures
        s.asleep_view()[t],
        s.running_view()[t] is None,
{
    lemma_count_awake_zero(s.asleep@, t);
    assert(s.slot_ok(t));
}

/// When no worker is awake, no job is being polled.
pub proof fn law_no_poll_while_all_asleep(s: Scheduler, id: u64)
    requires
        s.wf(),
        s.awake_count() == 0,
        s.jobs_view().contains_key(id),
    ensures
        !(s.jobs_view()[id].status is Running),
{
    if let JobStatus::Running(t) = table_contents(s.jobs)[id].status {
        assert(s.job_fine(id));
        lemma_count_awake_zero(s.asleep@, t as int);
        assert(s.slot_ok(t as int));
    }
}

/// When the per-thread data may be handed out, no job is in flight, every
/// worker sleeps and none is polling.
pub proof fn law_access_means_no_jobs(s: Scheduler, t: int)
    requires
        s.wf(),
        s.awake_count() == 0,
        s.job_total() == 0,
        0 <= t < s.threads(),
    ensures
        s.jobs_view() == Map::<u64, JobInfo>::empty(),
        s.asleep_view()[t],
        s.running_view()[t] is None,
{
    lemma_count_awake_zero(s.asleep@, t);
    assert(s.slot_ok(t));
    assert(table_contents(s.jobs).dom().len() == 0);
    assert(table_contents(s.jobs).dom() =~= Set::<u64>::empty());
    assert(table_contents(s.jobs) =~= Map::<u64, JobInfo>::empty());
}

/// With no job in flight, only a spawn puts one in flight: a wake-up, a
/// dropped waker, a resumed worker or the death signal leave the count at 0.
pub proof fn law_no_job_appears_without_spawn(
    a: Scheduler,
    b: Scheduler,
    id: u64,
    epoch: u64,
    n: Notify,
    dropped: bool,
    t: int,
    res: bool,
)
    requires
        a.job_total() == 0,
    ensures
        woken(a, b, id, epoch, n) ==> b.job_total() == 0,
        abandoned(a, b, id, epoch, dropped) ==> b.job_total() == 0,
        resumed(a, b, t, res) ==> b.job_total() == 0,
        finished(a, b) ==> b.job_total() == 0,
{
}

/// The job counter is the number of jobs in flight, and the awake counter the
/// number of workers that do not sleep.
pub proof fn law_counters(s: Scheduler)
    requires
        s.wf(),
    ensures
        s.job_total() == s.jobs_view().len(),
        s.awake_count() == count_awake(s.asleep_view()),
        s.awake_count() <= s.threads(),
{
    lemma_count_awake_bound(s.asleep@);
}

/// A queued job is in exactly one queue: the queue of the worker a started
/// local job is tied to, or else the shared queue. So a local job, once
/// started, only ever runs on its worker.
pub proof fn law_queued_job_in_one_queue(s: Scheduler, id: u64)
    requires
        s.wf(),
        s.jobs_view().contains_key(id),
        s.jobs_view()[id].status == JobStatus::Queued,
    ensures
        home_of(s.jobs_view()[id]) matches Some(t) ==> {
            &&& t < s.threads()
            &&& s.local_view(t as int).contains_key(id)
            &&& !s.global_view().contains_key(id)
            &&& forall|u: int|
                0 <= u < s.threads() && u != t ==> !#[trigger] s.local_view(u).contains_key(id)
        },
        home_of(s.jobs_view()[id]) is None ==> {
            &&& s.global_view().contains_key(id)
            &&& forall|u: int| 0 <= u < s.threads() ==> !#[trigger] s.local_view(u).contains_key(id)
        },
{
    assert(s.job_placed(id));
    assert(s.asleep@.len() == s.asleep.len());
    assert(job_ok(table_contents(s.jobs)[id], s.asleep@.len() as nat));
    assert forall|u: int| 0 <= u < s.threads() && Some(u as usize) != home_of(s.jobs_view()[id])
        implies !#[trigger] s.local_view(u).contains_key(id) by {
        if queue_contents(s.locals@[u]).contains_key(id) {
            assert(home_of(table_contents(s.jobs)[id]) == Some(u as usize));
        }
    }
}

/// A worker taking a job out of its own queue takes a job tied to it.
pub proof fn law_local_queue_jobs_are_tied(a: Scheduler, b: Scheduler, t: int, id: u64)
    requires
        a.wf(),
        0 <= t < a.threads(),
        started(a, b, t, id, true),
    ensures
        a.jobs_view()[id].kind == JobKind::Local,
        a.jobs_view()[id].thread == Some(t as usize),
{
    assert(queue_contents(a.locals@[t]).contains_key(id));
}


/// A future spawned with a priority above every job in the shared queue is
/// the next job a worker takes from the shared queue.
pub proof fn law_spawned_above_all_runs_next(
    a: Scheduler,
    b: Scheduler,
    c: Scheduler,
    priority: u32,
    id: u64,
    t: int,
    next: u64,
)
    requires
        spawned(a, b, priority, JobKind::Future, id),
        forall|k: u64| #[trigger] a.global_view().contains_key(k) ==> a.global_view()[k] < priority,
        started(b, c, t, next, false),
    ensures
        next == id,
{
    assert(b.global_view().contains_key(id));
    if next != id {
        assert(a.global_view().contains_key(next));
        assert(b.global_view()[id] == priority);
    }
}

/// A worker that went to sleep and is woken before the yard finishes is back
/// where it was: awake, with the same count of awake workers.
pub proof fn law_sleep_then_resume(a: Scheduler, b: Scheduler, c: Scheduler, t: int, res: bool)
    requires
        0 <= t < a.threads(),
        !a.asleep_view()[t],
        slept(a, b, t),
        resumed(b, c, t, res),
        !a.death_flag(),
    ensures
        res,
        c.asleep_view() == a.asleep_view(),
        c.awake_count() == a.awake_count(),
        !c.idle_flag(),
        c.jobs_view() == a.jobs_view(),
        c.global_view() == a.global_view(),
        c.locals_view() == a.locals_view(),
{
    assert(a.asleep_view().update(t, true).update(t, false) =~= a.asleep_view());
}

/// Spawning a job, running it and seeing it return `Ready` leaves the jobs in
/// flight and their count as they were.
pub proof fn law_spawn_run_complete(
    a: Scheduler,
    b: Scheduler,
    c: Scheduler,
    d: Scheduler,
    priority: u32,
    kind: JobKind,
    id: u64,
    t: int,
    from_local: bool,
    out: PollOutcome,
)
    requires
        a.wf(),
        spawned(a, b, priority, kind, id),
        started(b, c, t, id, from_local),
        polled(c, d, t, true, out),
        0 <= t < a.threads(),
    ensures
        out == PollOutcome::Completed(id),
        d.jobs_view() == a.jobs_view(),
        d.job_total() == a.job_total(),
{
    assert(a.running@.len() == a.asleep@.len());
    assert(c.running_view()[t] == Some(id));
    assert(d.jobs_view() =~= a.jobs_view());
}


/// Picking workers to notify twice in a row picks two different workers.
pub proof fn law_claims_differ(a: Scheduler, b: Scheduler, c: Scheduler, t1: usize, t2: usize)
    requires
        a.wf(),
        claimed(a, b, Some(t1)),
        claimed(b, c, Some(t2)),
    ensures
        t1 != t2,
{
    assert(a.signalled@.len() == a.asleep@.len());
    assert(b.signalled_view()[t1 as int]);
}

/// Over any run, the jobs in flight at the end are those in flight at the
/// start, plus the jobs spawned, minus the jobs ended: by a poll that returned
/// `Ready`, or by the loss of the last waker of a job that waited for it. From
/// a new scheduler, [`Scheduler::jobs`] is the number of jobs spawned and not
/// yet ended.
pub proof fn law_jobs_over_run(states: Seq<Scheduler>, events: Seq<Event>)
    requires
        is_run(states, events),
    ensures
        states.last().job_total() + end_count(events) == states[0].job_total() + spawn_count(events),
    decreases events.len(),
{
    if events.len() > 0 {
        let k = events.len() - 1;
        let first = states.drop_last();
        let rest = events.drop_last();
        assert forall|i: int| 0 <= i < rest.len() implies #[trigger] step(first[i], first[i + 1], rest[i]) by {
            assert(step(states[i], states[i + 1], events[i]));
        }
        law_jobs_over_run(first, rest);
        assert(step(states[k], states[k + 1], events[k]));
        assert(first.last() == states[k]);
    }
}

/// A job is polled by one worker at most, the one its status names.
pub proof fn law_polled_by_one_worker(s: Scheduler, id: u64, t: int, u: int)
    requires
        s.wf(),
        0 <= t < s.threads(),
        0 <= u < s.threads(),
        s.running_view()[t] == Some(id),
        s.running_view()[u] == Some(id),
    ensures
        t == u,
        s.jobs_view().contains_key(id),
        s.jobs_view()[id].status == JobStatus::Running(t as usize),
{
    s.lemma_polled_only_by(id);
    assert(s.running@[t] == Some(id));
    assert(s.running@[u] == Some(id));
}

/// Each worker has one run queue, one notification mark and one slot for
/// the job it polls.
pub proof fn law_one_entry_per_worker(s: Scheduler)
    requires
        s.wf(),
    ensures
        s.locals_view().len() == s.threads(),
        s.signalled_view().len() == s.threads(),
        s.running_view().len() == s.threads(),
        s.threads() <= usize::MAX,
{
}

/// A job can be spawned whenever the yard is not finishing and the job table
/// is not full, however many workers there are and however many jobs are in
/// flight below that bound.
pub proof fn law_spawn_allowed_until_finished_or_full(s: Scheduler)
    requires
        !s.death_flag(),
        s.job_total() < MAX_JOBS,
    ensures
        s.can_spawn_spec(),
{
}

/// While some worker sleeps and has not been picked since it last woke up,
/// picking a worker to notify picks one, and none after it.
pub proof fn law_sleeper_is_found(a: Scheduler, b: Scheduler, r: Option<usize>, u: int)
    requires
        claimed(a, b, r),
        0 <= u < a.threads(),
        a.asleep_view()[u],
        !a.signalled_view()[u],
    ensures
        r is Some,
        r->0 <= u,
        a.asleep_view()[r->0 as int],
        !a.signalled_view()[r->0 as int],
{
    if r is None {
        assert(!can_claim(a, u));
    } else if r->0 > u {
        assert(!can_claim(a, u));
    }
}

} // verus!
