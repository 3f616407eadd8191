use openssl_async_job::ops::{LengthOperation, ReadyAdapter};
use openssl_async_job::task::{
    AsyncOperation, FdReadiness, JobStatus, OpensslAsyncTask, OpensslAsyncTaskError,
    OperationError, OutcomeSlot, PollDirective, RegistrationError, SyncOperation, TaskState,
};

/// A unit of work whose outcome and readiness answers are scripted, and
/// which counts every call made to it.
struct ScriptedOp {
    fail_message: Option<String>,
    fail_track: Option<String>,
    fail_ready: Option<String>,
    run_count: usize,
    watched: Vec<i32>,
    track_count: usize,
    untrack_count: usize,
    pending_polls: usize,
    observed_at_ready: Vec<Vec<i32>>,
}

impl ScriptedOp {
    fn succeeding() -> ScriptedOp {
        ScriptedOp {
            fail_message: None,
            fail_track: None,
            fail_ready: None,
            run_count: 0,
            watched: Vec::new(),
            track_count: 0,
            untrack_count: 0,
            pending_polls: 0,
            observed_at_ready: Vec::new(),
        }
    }

    fn failing(message: &str) -> ScriptedOp {
        let mut op = ScriptedOp::succeeding();
        op.fail_message = Some(message.to_string());
        op
    }

    fn sorted_tracked(&self) -> Vec<i32> {
        let mut snap = self.watched.clone();
        snap.sort();
        snap
    }
}

impl SyncOperation for ScriptedOp {
    // Ghost-only trait item; never called at run time.
    fn run_ens(&self, _post: &Self, _r: Result<(), OperationError>) -> bool {
        panic!()
    }

    fn run(&mut self) -> Result<(), OperationError> {
        self.run_count += 1;
        match &self.fail_message {
            None => Ok(()),
            Some(m) => Err(OperationError { message: m.clone() }),
        }
    }
}

impl AsyncOperation for ScriptedOp {
    // Ghost-only trait item; never called at run time.
    fn tracked_fds(&self) -> vstd::set::Set<i32> {
        panic!()
    }

    fn track_fd(&mut self, fd: i32) -> Result<(), RegistrationError> {
        if let Some(m) = &self.fail_track {
            return Err(RegistrationError { message: m.clone() });
        }
        self.track_count += 1;
        self.watched.push(fd);
        Ok(())
    }

    fn untrack_fd(&mut self, fd: i32) {
        self.untrack_count += 1;
        self.watched.retain(|x| *x != fd);
    }

    fn poll_ready_fds(&mut self) -> FdReadiness {
        if let Some(m) = &self.fail_ready {
            return FdReadiness::Failed(RegistrationError { message: m.clone() });
        }
        self.observed_at_ready.push(self.sorted_tracked());
        if self.pending_polls > 0 {
            self.pending_polls -= 1;
            FdReadiness::Pending
        } else {
            FdReadiness::Ready
        }
    }
}

#[test]
fn successful_run_resolves_ok_with_produced_state() {
    let input = vec![7u8; 37];
    let op = ReadyAdapter::new(LengthOperation::new(input));
    let mut task = OpensslAsyncTask::new(op);
    task.execute();
    let d = task.poll_status(JobStatus::Finished);
    match d {
        PollDirective::Resolved(Ok(())) => {}
        _ => panic!("expected a successful resolution"),
    }
    assert!(task.is_resolved());
    assert_eq!(task.current_state(), TaskState::Finished);
    let recovered = task.into_op().into_inner();
    assert_eq!(recovered.result, Some(37));
}

#[test]
fn failing_run_resolves_to_operation_failure_with_exact_error() {
    let op = ScriptedOp::failing("boom");
    let mut task = OpensslAsyncTask::new(op);
    task.execute();
    let d = task.poll_status(JobStatus::Finished);
    match d {
        PollDirective::Resolved(Err(OpensslAsyncTaskError::Operation(e))) => {
            assert_eq!(e.message, "boom");
        }
        PollDirective::Resolved(Err(OpensslAsyncTaskError::Openssl(_))) => {
            panic!("an operation failure must not surface as a scheduling fault");
        }
        _ => panic!("expected an operation failure"),
    }
    let recovered = task.into_op();
    assert_eq!(recovered.run_count, 1);
}

#[test]
fn no_slot_is_absorbed_and_never_fails() {
    let n = 5;
    let op = ScriptedOp::succeeding();
    let mut task = OpensslAsyncTask::new(op);
    let mut polls = 0;
    for _ in 0..n {
        let d = task.poll_status(JobStatus::NoSlot);
        polls += 1;
        match d {
            PollDirective::PendingWakeNow => {}
            _ => panic!("exhaustion must ask for an immediate re-poll"),
        }
        assert_eq!(task.current_state(), TaskState::Exhausted);
        assert!(!task.is_resolved());
    }
    task.execute();
    let d = task.poll_status(JobStatus::Finished);
    polls += 1;
    match d {
        PollDirective::Resolved(Ok(())) => {}
        _ => panic!("expected success after the backpressure cleared"),
    }
    assert_eq!(polls, n + 1);
}

#[test]
fn pause_reconciliation_is_exact_and_never_stale() {
    let op = ScriptedOp::succeeding();
    let mut task = OpensslAsyncTask::new(op);
    let d = task.poll_status(JobStatus::Paused { added: vec![3, 5], removed: vec![] });
    match d {
        PollDirective::ResumeAgain => {}
        _ => panic!("a ready pause must resume at once"),
    }
    let d = task.poll_status(JobStatus::Paused { added: vec![7], removed: vec![3] });
    match d {
        PollDirective::ResumeAgain => {}
        _ => panic!("a ready pause must resume at once"),
    }
    task.execute();
    let d = task.poll_status(JobStatus::Finished);
    match d {
        PollDirective::Resolved(Ok(())) => {}
        _ => panic!("expected success"),
    }
    let op = task.into_op();
    assert_eq!(op.observed_at_ready, vec![vec![3, 5], vec![5, 7]]);
}

#[test]
fn pending_pause_waits_for_the_reactor() {
    let mut op = ScriptedOp::succeeding();
    op.pending_polls = 1;
    let mut task = OpensslAsyncTask::new(op);
    let d = task.poll_status(JobStatus::Paused { added: vec![4], removed: vec![] });
    match d {
        PollDirective::PendingWait => {}
        _ => panic!("a pause with nothing ready must wait"),
    }
    assert_eq!(task.current_state(), TaskState::Paused);
    let d = task.poll_status(JobStatus::Paused { added: vec![], removed: vec![] });
    match d {
        PollDirective::ResumeAgain => {}
        _ => panic!("the re-poll must resume once a descriptor is ready"),
    }
    let op = task.into_op();
    assert_eq!(op.observed_at_ready, vec![vec![4], vec![4]]);
}

#[test]
fn cancel_mid_pause_untracks_everything() {
    let mut op = ScriptedOp::succeeding();
    op.pending_polls = 10;
    let mut task = OpensslAsyncTask::new(op);
    let d = task.poll_status(JobStatus::Paused { added: vec![3, 5], removed: vec![] });
    match d {
        PollDirective::PendingWait => {}
        _ => panic!("expected a waiting pause"),
    }
    task.cancel();
    let op = task.into_op();
    assert_eq!(op.track_count, 2);
    assert_eq!(op.untrack_count, 2);
    assert!(op.watched.is_empty());
}

#[test]
fn scheduler_error_resolves_to_fault_without_running_the_operation() {
    let op = ScriptedOp::succeeding();
    let mut task = OpensslAsyncTask::new(op);
    let d = task.poll_status(JobStatus::Error("no jobs initialised".to_string()));
    match d {
        PollDirective::Resolved(Err(OpensslAsyncTaskError::Openssl(m))) => {
            assert_eq!(m, "no jobs initialised");
        }
        _ => panic!("a scheduler error must surface as a scheduling fault"),
    }
    assert_eq!(task.current_state(), TaskState::Faulted);
    let op = task.into_op();
    assert_eq!(op.run_count, 0);
}

#[test]
fn outcome_slot_is_taken_exactly_once() {
    let op = ScriptedOp::succeeding();
    let mut task = OpensslAsyncTask::new(op);
    assert!(!task.outcome_stored());
    task.execute();
    assert!(task.outcome_stored());
    let _ = task.poll_status(JobStatus::Finished);
    assert!(!task.outcome_stored());
}

#[test]
fn outcome_slot_states_are_distinct() {
    let fresh = OutcomeSlot::NotRun;
    match fresh {
        OutcomeSlot::NotRun => {}
        _ => panic!("a fresh slot holds nothing"),
    }
    let stored = OutcomeSlot::Stored(Ok(()));
    match stored {
        OutcomeSlot::Stored(Ok(())) => {}
        _ => panic!("a stored slot holds the outcome"),
    }
}

#[test]
fn failed_tracking_surfaces_as_a_runtime_error() {
    let mut op = ScriptedOp::succeeding();
    op.fail_track = Some("registration refused".to_string());
    let mut task = OpensslAsyncTask::new(op);
    let d = task.poll_status(JobStatus::Paused { added: vec![9], removed: vec![] });
    match d {
        PollDirective::Resolved(Err(OpensslAsyncTaskError::Runtime(e))) => {
            assert_eq!(e.message, "registration refused");
        }
        _ => panic!("a tracking failure must surface as a runtime error"),
    }
    assert_eq!(task.current_state(), TaskState::Faulted);
}

#[test]
fn failed_readiness_query_surfaces_as_a_runtime_error() {
    let mut op = ScriptedOp::succeeding();
    op.fail_ready = Some("reactor gone".to_string());
    let mut task = OpensslAsyncTask::new(op);
    let d = task.poll_status(JobStatus::Paused { added: vec![9], removed: vec![] });
    match d {
        PollDirective::Resolved(Err(OpensslAsyncTaskError::Runtime(e))) => {
            assert_eq!(e.message, "reactor gone");
        }
        _ => panic!("a readiness failure must surface as a runtime error"),
    }
    assert_eq!(task.current_state(), TaskState::Faulted);
}
