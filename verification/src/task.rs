//! The bridge between a cooperative native job scheduler and a poll-based
//! future: capability traits for the unit of work, the status protocol of
//! the scheduler, and the task state machine that drives one job.
//!
//! The native calls themselves (starting or resuming a job, reading the
//! wait context) live outside this library; a driver performs them and
//! feeds the resulting [`JobStatus`] events into
//! [`OpensslAsyncTask::poll_status`], which makes every decision: how a
//! status is interpreted, how the descriptor delta of a pause is
//! reconciled, and what the task resolves to.

use vstd::prelude::*;

verus! {

/// Failure of the wrapped unit of work itself, as opposed to a failure of
/// the bridge that drives it.
#[derive(Clone, Debug)]
pub struct OperationError {
    pub message: String,
}

/// Failure to register or query a descriptor with the host reactor.
#[derive(Clone, Debug)]
pub struct RegistrationError {
    pub message: String,
}

/// How an awaited task can fail. Transient exhaustion of scheduler slots is
/// absorbed by the task and never appears here.
#[derive(Debug)]
pub enum OpensslAsyncTaskError {
    /// The native scheduler itself failed: a scheduling fault, never retried.
    Openssl(String),
    /// Tracking or querying descriptor readiness failed.
    Runtime(RegistrationError),
    /// The unit of work ran to completion and reported this failure.
    Operation(OperationError),
}

/// The minimal capability a unit of work must implement to be schedulable:
/// a synchronous entry point that runs the work to completion, as if it
/// were ordinary blocking code, and returns errors as data.
pub trait SyncOperation {
    /// What a completed run guarantees: relates the state before the run,
    /// the state after it, and the reported outcome.
    spec fn run_ens(&self, post: &Self, r: Result<(), OperationError>) -> bool;

    /// Execute the unit of work to completion, mutating `self` (for
    /// example, filling a result buffer). Failures are returned, never
    /// raised across a call boundary.
    fn run(&mut self) -> (r: Result<(), OperationError>)
        ensures
            old(self).run_ens(final(self), r),
    ;
}

/// Non-blocking answer of a readiness query over the watched descriptors.
#[derive(Debug)]
pub enum FdReadiness {
    /// No watched descriptor is ready; a wake has been arranged.
    Pending,
    /// At least one watched descriptor is ready.
    Ready,
    /// The query itself failed.
    Failed(RegistrationError),
}

/// The capability a unit of work needs to run under the pausing scheduler:
/// descriptor tracking and readiness polling, the seam between the
/// scheduler's pause signal and the host reactor.
///
/// The tracking calls made for one pause must exactly mirror the wait
/// context's delta for that pause; a stale registration is a protocol
/// violation. The contracts below state that discipline over the abstract
/// set of watched descriptors.
pub trait AsyncOperation: SyncOperation {
    /// The set of descriptors currently registered with the reactor.
    spec fn tracked_fds(&self) -> Set<i32>;

    /// Begin watching a descriptor for readiness. On failure nothing is
    /// registered.
    fn track_fd(&mut self, fd: i32) -> (r: Result<(), RegistrationError>)
        ensures
            r is Ok ==> final(self).tracked_fds() == old(self).tracked_fds().insert(fd),
            r is Err ==> final(self).tracked_fds() == old(self).tracked_fds(),
    ;

    /// Stop watching a descriptor that is no longer needed.
    fn untrack_fd(&mut self, fd: i32)
        ensures
            final(self).tracked_fds() == old(self).tracked_fds().remove(fd),
    ;

    /// Check whether at least one watched descriptor is ready, without
    /// blocking; on [`FdReadiness::Pending`] the implementation has
    /// arranged a future wake. The query never alters what is watched.
    fn poll_ready_fds(&mut self) -> (r: FdReadiness)
        ensures
            final(self).tracked_fds() == old(self).tracked_fds(),
    ;
}

/// One status event of the native scheduler, as observed by the driver
/// after a start-or-resume call.
#[derive(Debug)]
pub enum JobStatus {
    /// The scheduler itself failed, carrying its error text.
    Error(String),
    /// No native execution slot is available right now.
    NoSlot,
    /// The job yielded waiting on I/O; the wait context reported this
    /// descriptor delta since the previous pause.
    Paused { added: Vec<i32>, removed: Vec<i32> },
    /// The job ran to completion.
    Finished,
}

/// Where the task stands in its life cycle.
#[derive(Clone, Copy, Debug, PartialEq, Eq, Structural)]
pub enum TaskState {
    /// No job has produced a status yet.
    Idle,
    /// A resume of the native job is due.
    Running,
    /// The job is paused, waiting on descriptor readiness.
    Paused,
    /// No native execution slot was available; an immediate retry is due.
    Exhausted,
    /// The job ran to completion and the task resolved.
    Finished,
    /// The scheduler or the reactor failed; the task resolved.
    Faulted,
}

impl TaskState {
    /// A resolved task accepts no further status events.
    pub open spec fn is_terminal(self) -> bool {
        self == TaskState::Finished || self == TaskState::Faulted
    }
}

/// The captured outcome of the one run of the unit of work: written once
/// by the entry trampoline, moved out once when the task resolves.
#[derive(Debug)]
pub enum OutcomeSlot {
    /// The unit of work has not run yet.
    NotRun,
    /// The outcome of the run, not yet claimed.
    Stored(Result<(), OperationError>),
    /// The outcome has been moved out; the slot stays empty.
    Taken,
}

/// What the driver must do next after feeding one status event.
#[derive(Debug)]
pub enum PollDirective {
    /// Backpressure: arrange an immediate re-poll and report pending.
    /// Exhaustion is never surfaced as a failure.
    PendingWakeNow,
    /// Report pending and rely on the reactor to wake the task when a
    /// watched descriptor becomes ready.
    PendingWait,
    /// A watched descriptor is already ready: issue another resume call
    /// within the same poll invocation.
    ResumeAgain,
    /// The task has resolved with this result.
    Resolved(Result<(), OpensslAsyncTaskError>),
}

/// Maps the captured outcome of the unit of work to the task's resolution.
pub open spec fn resolution_of(res: Result<(), OperationError>) -> Result<(), OpensslAsyncTaskError> {
    match res {
        Ok(()) => Ok(()),
        Err(e) => Err(OpensslAsyncTaskError::Operation(e)),
    }
}

/// A completed job resolves the task with exactly what its run produced: a
/// successful run resolves to success, and a failed run resolves to an
/// operation failure wrapping that exact error — never to a scheduling
/// fault or a runtime error.
pub proof fn lemma_resolution_classifies(res: Result<(), OperationError>)
    ensures
        resolution_of(res) is Ok <==> res is Ok,
        res matches Err(e) ==> resolution_of(res) == Err::<(), OpensslAsyncTaskError>(
            OpensslAsyncTaskError::Operation(e),
        ),
        resolution_of(res) matches Err(k) ==> k is Operation,
{
}


/// Removes every occurrence of `fd` from `v`, keeping the order of the rest.
pub(crate) fn remove_fd(v: &mut Vec<i32>, fd: i32)
    ensures
        final(v)@.to_set() == old(v)@.to_set().remove(fd),
{
    let mut kept: Vec<i32> = Vec::new();
    let mut i: usize = 0;
    while i < v.len()
        invariant
            i <= v@.len(),
            kept@.to_set() == v@.take(i as int).to_set().remove(fd),
        decreases v@.len() - i,
    {
        let x = v[i];
        proof {
            broadcast use vstd::seq_lib::group_seq_properties;
            Seq::lemma_take_succ_push(v@, i as int);
            v@.take(i as int).lemma_push_to_set_commute(x);
        }
        if x != fd {
            let ghost kept0 = kept@;
            kept.push(x);
            proof {
                kept0.lemma_push_to_set_commute(x);
                assert(kept@.to_set() =~= v@.take(i as int + 1).to_set().remove(fd));
            }
        } else {
            proof {
                assert(kept@.to_set() =~= v@.take(i as int + 1).to_set().remove(fd));
            }
        }
        i += 1;
    }
    proof {
        Seq::lemma_take_len(v@);
    }
    *v = kept;
}

/// The task driving one scheduled job: the state machine that interprets
/// the scheduler's status events, reconciles descriptor tracking on every
/// pause, and resolves to the operation's outcome.
pub struct OpensslAsyncTask<T> {
    operation: T,
    state: TaskState,
    slot: OutcomeSlot,
    watched: Vec<i32>,
    job_active: bool,
}

impl<T: AsyncOperation> OpensslAsyncTask<T> {
    /// Where the task stands in its life cycle.
    pub closed spec fn state(&self) -> TaskState {
        self.state
    }

    /// The captured outcome of the one run of the operation.
    pub closed spec fn slot(&self) -> OutcomeSlot {
        self.slot
    }

    /// The wrapped unit of work, with whatever state it holds.
    pub closed spec fn operation(&self) -> T {
        self.operation
    }

    /// The descriptors the task has reconciled with the operation: every
    /// descriptor watched on a pause and not untracked since.
    pub closed spec fn tracked_set(&self) -> Set<i32> {
        self.watched@.to_set()
    }

    /// Whether a native job is currently associated with the task.
    pub closed spec fn job_active(&self) -> bool {
        self.job_active
    }

    /// The operation's registrations agree with the task's record of them.
    /// Construction establishes this, and every status event preserves it.
    pub open spec fn fds_consistent(&self) -> bool {
        self.operation().tracked_fds() == self.tracked_set()
    }

    /// Builds a task around an adapted operation. No native job is
    /// associated yet, nothing is watched, and the outcome slot is fresh.
    pub fn new(operation: T) -> (task: Self)
        ensures
            task.state() == TaskState::Idle,
            task.slot() == OutcomeSlot::NotRun,
            task.operation() == operation,
            task.tracked_set() == Set::<i32>::empty(),
            !task.job_active(),
            task.fds_consistent() == (operation.tracked_fds() == Set::<i32>::empty()),
    {
        let task = OpensslAsyncTask {
            operation,
            state: TaskState::Idle,
            slot: OutcomeSlot::NotRun,
            watched: Vec::new(),
            job_active: false,
        };
        proof {
            assert(task.watched@.to_set() =~= Set::<i32>::empty());
        }
        task
    }

    /// Recovers the operation so the caller can read its results or its
    /// captured failure.
    #[inline]
    pub fn into_op(self) -> (op: T)
        ensures
            op == self.operation(),
    {
        self.operation
    }

    /// Where the task stands, for the driver.
    pub fn current_state(&self) -> (s: TaskState)
        ensures
            s == self.state(),
    {
        self.state
    }

    /// Whether the task has resolved and accepts no further status events.
    pub fn is_resolved(&self) -> (b: bool)
        ensures
            b == self.state().is_terminal(),
    {
        match self.state {
            TaskState::Finished => true,
            TaskState::Faulted => true,
            _ => false,
        }
    }

    /// Whether the unit of work has not run yet, so the entry trampoline
    /// may still run it.
    pub fn outcome_fresh(&self) -> (b: bool)
        ensures
            b == (self.slot() is NotRun),
    {
        match self.slot {
            OutcomeSlot::NotRun => true,
            _ => false,
        }
    }

    /// Whether the outcome of the run is stored and not yet claimed.
    pub fn outcome_stored(&self) -> (b: bool)
        ensures
            b == (self.slot() is Stored),
    {
        match self.slot {
            OutcomeSlot::Stored(_) => true,
            _ => false,
        }
    }

    /// The body of the entry trampoline: runs the operation to completion
    /// and captures the outcome in the slot, exactly once. The fixed
    /// "handled" status the native scheduler expects is the driver's to
    /// report; the real result travels through the slot.
    pub fn execute(&mut self)
        requires
            old(self).slot() == OutcomeSlot::NotRun,
        ensures
            exists|res: Result<(), OperationError>|
                #![trigger old(self).operation().run_ens(&final(self).operation(), res)]
                {
                    &&& final(self).slot() == OutcomeSlot::Stored(res)
                    &&& old(self).operation().run_ens(&final(self).operation(), res)
                },
            final(self).state() == old(self).state(),
            final(self).tracked_set() == old(self).tracked_set(),
            final(self).job_active() == old(self).job_active(),
    {
        let res = self.operation.run();
        let ghost witness = res;
        self.slot = OutcomeSlot::Stored(res);
        proof {
            assert(old(self).operation().run_ens(&self.operation(), witness));
            assert(exists|res: Result<(), OperationError>|
                #![trigger old(self).operation().run_ens(&self.operation(), res)]
                {
                    &&& self.slot() == OutcomeSlot::Stored(res)
                    &&& old(self).operation().run_ens(&self.operation(), res)
                });
        }
    }

    /// Tears the task down when the future is dropped before resolving:
    /// untracks every descriptor the task had reconciled with the
    /// operation and dissociates the native job, leaving no dangling
    /// registration behind.
    pub fn cancel(&mut self)
        ensures
            final(self).tracked_set() == Set::<i32>::empty(),
            final(self).operation().tracked_fds()
                == old(self).operation().tracked_fds().difference(old(self).tracked_set()),
            old(self).fds_consistent() ==> final(self).operation().tracked_fds() == Set::<i32>::empty(),
            !final(self).job_active(),
            final(self).slot() == old(self).slot(),
            final(self).state() == old(self).state(),
    {
        let ghost pre_op = self.operation.tracked_fds();
        let ghost pre_watched = self.watched@.to_set();
        let ghost mut popped: Set<i32> = Set::empty();
        while self.watched.len() > 0
            invariant
                self.operation.tracked_fds() == pre_op.difference(popped),
                pre_watched == popped.union(self.watched@.to_set()),
                self.slot == old(self).slot,
                self.state == old(self).state,
                self.operation.tracked_fds() == old(self).operation.tracked_fds().difference(popped),
            decreases self.watched.len(),
        {
            let ghost before = self.watched@;
            let fd = self.watched.pop().unwrap();
            self.operation.untrack_fd(fd);
            proof {
                assert(before =~= before.drop_last().push(before.last()));
                before.drop_last().lemma_push_to_set_commute(before.last());
                popped = popped.insert(fd);
                assert(pre_watched =~= popped.union(self.watched@.to_set()));
                assert(self.operation.tracked_fds() =~= pre_op.difference(popped));
            }
        }
        self.job_active = false;
        proof {
            assert(self.watched@.to_set() =~= Set::<i32>::empty());
            assert(popped =~= pre_watched);
            if pre_op == pre_watched {
                assert(self.operation.tracked_fds() =~= Set::<i32>::empty());
            }
        }
    }

    /// Feeds one status event of the native scheduler into the task and
    /// decides what the driver does next.
    ///
    /// A scheduler error is fatal and resolves the task with a scheduling
    /// fault. A missing execution slot is transient backpressure: it is
    /// absorbed, never surfaced, and the driver re-polls at once. A pause
    /// has its descriptor delta reconciled with the operation — every newly
    /// reported descriptor tracked, every dropped one untracked — before
    /// readiness is queried for that same pause; a ready answer loops
    /// straight into another resume. Completion takes the captured outcome
    /// out of the slot, exactly once, and resolves the task with it.
    pub fn poll_status(&mut self, status: JobStatus) -> (d: PollDirective)
        requires
            !old(self).state().is_terminal(),
            status is Finished ==> old(self).slot() is Stored,
        ensures
            old(self).fds_consistent() ==> final(self).fds_consistent(),
            status matches JobStatus::Error(msg) ==> ({
                &&& final(self).state() == TaskState::Faulted
                &&& !final(self).job_active()
                &&& d == PollDirective::Resolved(Err::<(), OpensslAsyncTaskError>(OpensslAsyncTaskError::Openssl(msg)))
                &&& final(self).operation() == old(self).operation()
                &&& final(self).slot() == old(self).slot()
                &&& final(self).tracked_set() == old(self).tracked_set()
            }),
            status is NoSlot ==> ({
                &&& final(self).state() == TaskState::Exhausted
                &&& d == PollDirective::PendingWakeNow
                &&& final(self).operation() == old(self).operation()
                &&& final(self).slot() == old(self).slot()
                &&& final(self).tracked_set() == old(self).tracked_set()
                &&& final(self).job_active() == old(self).job_active()
            }),
            status matches JobStatus::Paused { added, removed } ==> ({
                &&& final(self).slot() == old(self).slot()
                &&& final(self).job_active()
                &&& d != PollDirective::PendingWakeNow
                &&& (d == PollDirective::PendingWait || d == PollDirective::ResumeAgain) ==> ({
                    &&& final(self).operation().tracked_fds()
                        == old(self).operation().tracked_fds().union(added@.to_set()).difference(removed@.to_set())
                    &&& final(self).tracked_set()
                        == old(self).tracked_set().union(added@.to_set()).difference(removed@.to_set())
                })
                &&& (d == PollDirective::PendingWait ==> final(self).state() == TaskState::Paused)
                &&& (d == PollDirective::ResumeAgain ==> final(self).state() == TaskState::Running)
                &&& (d matches PollDirective::Resolved(r) ==> ({
                    &&& r matches Err(OpensslAsyncTaskError::Runtime(_))
                    &&& final(self).state() == TaskState::Faulted
                }))
            }),
            status is Finished ==> ({
                &&& final(self).state() == TaskState::Finished
                &&& !final(self).job_active()
                &&& final(self).slot() == OutcomeSlot::Taken
                &&& final(self).operation() == old(self).operation()
                &&& final(self).tracked_set() == old(self).tracked_set()
                &&& (old(self).slot() matches OutcomeSlot::Stored(res)
                    ==> d == PollDirective::Resolved(resolution_of(res)))
            }),
    {
        match status {
            JobStatus::Error(msg) => {
                self.state = TaskState::Faulted;
                self.job_active = false;
                PollDirective::Resolved(Err(OpensslAsyncTaskError::Openssl(msg)))
            }
            JobStatus::NoSlot => {
                self.state = TaskState::Exhausted;
                PollDirective::PendingWakeNow
            }
            JobStatus::Paused { added, removed } => {
                self.job_active = true;
                self.state = TaskState::Paused;
                let ghost pre_op = self.operation.tracked_fds();
                let ghost pre_watched = self.watched@.to_set();
                let mut i: usize = 0;
                while i < added.len()
                    invariant
                        status matches JobStatus::Paused { added: sa, removed: sr } && sa@ == added@ && sr@ == removed@,
                        i <= added@.len(),
                        self.operation.tracked_fds() == pre_op.union(added@.take(i as int).to_set()),
                        self.watched@.to_set() == pre_watched.union(added@.take(i as int).to_set()),
                        self.slot == old(self).slot,
                        self.state == TaskState::Paused,
                        self.job_active,
                        pre_op == old(self).operation.tracked_fds(),
                        pre_watched == old(self).watched@.to_set(),
                    decreases added@.len() - i,
                {
                    let fd = added[i];
                    proof {
                        Seq::lemma_take_succ_push(added@, i as int);
                        added@.take(i as int).lemma_push_to_set_commute(fd);
                    }
                    match self.operation.track_fd(fd) {
                        Ok(_) => {}
                        Err(e) => {
                            self.state = TaskState::Faulted;
                            proof {
                                if old(self).fds_consistent() {
                                    assert(self.fds_consistent());
                                }
                            }
                            return PollDirective::Resolved(Err(OpensslAsyncTaskError::Runtime(e)));
                        }
                    }
                    let ghost watched0 = self.watched@;
                    self.watched.push(fd);
                    proof {
                        watched0.lemma_push_to_set_commute(fd);
                        assert(self.operation.tracked_fds()
                            =~= pre_op.union(added@.take(i as int + 1).to_set()));
                        assert(self.watched@.to_set()
                            =~= pre_watched.union(added@.take(i as int + 1).to_set()));
                    }
                    i += 1;
                }
                proof {
                    Seq::lemma_take_len(added@);
                }
                let ghost mid_op = self.operation.tracked_fds();
                let ghost mid_watched = self.watched@.to_set();
                let mut j: usize = 0;
                while j < removed.len()
                    invariant
                        status matches JobStatus::Paused { added: sa, removed: sr } && sa@ == added@ && sr@ == removed@,
                        j <= removed@.len(),
                        self.operation.tracked_fds() == mid_op.difference(removed@.take(j as int).to_set()),
                        self.watched@.to_set() == mid_watched.difference(removed@.take(j as int).to_set()),
                        self.slot == old(self).slot,
                        self.state == TaskState::Paused,
                        self.job_active,
                        mid_op == old(self).operation.tracked_fds().union(added@.to_set()),
                        mid_watched == old(self).watched@.to_set().union(added@.to_set()),
                    decreases removed@.len() - j,
                {
                    let fd = removed[j];
                    proof {
                        Seq::lemma_take_succ_push(removed@, j as int);
                        removed@.take(j as int).lemma_push_to_set_commute(fd);
                    }
                    self.operation.untrack_fd(fd);
                    remove_fd(&mut self.watched, fd);
                    proof {
                        assert(self.operation.tracked_fds()
                            =~= mid_op.difference(removed@.take(j as int + 1).to_set()));
                        assert(self.watched@.to_set()
                            =~= mid_watched.difference(removed@.take(j as int + 1).to_set()));
                    }
                    j += 1;
                }
                proof {
                    Seq::lemma_take_len(removed@);
                    if old(self).fds_consistent() {
                        assert(self.fds_consistent());
                    }
                }
                match self.operation.poll_ready_fds() {
                    FdReadiness::Pending => PollDirective::PendingWait,
                    FdReadiness::Ready => {
                        self.state = TaskState::Running;
                        PollDirective::ResumeAgain
                    }
                    FdReadiness::Failed(e) => {
                        self.state = TaskState::Faulted;
                        PollDirective::Resolved(Err(OpensslAsyncTaskError::Runtime(e)))
                    }
                }
            }
            JobStatus::Finished => {
                self.state = TaskState::Finished;
                self.job_active = false;
                let mut taken = OutcomeSlot::Taken;
                core::mem::swap(&mut self.slot, &mut taken);
                match taken {
                    OutcomeSlot::Stored(res) => PollDirective::Resolved(match res {
                        Ok(_) => Ok(()),
                        Err(e) => Err(OpensslAsyncTaskError::Operation(e)),
                    }),
                    _ => {
                        proof {
                            assert(false);
                        }
                        PollDirective::PendingWakeNow
                    }
                }
            }
        }
    }
}

} // verus!
