//! Concrete units of work and the adapter that gives a synchronous
//! operation the capability to run under the pausing scheduler.

use vstd::prelude::*;

use crate::task::{
    remove_fd, AsyncOperation, FdReadiness, OperationError, RegistrationError, SyncOperation,
};

verus! {

/// A unit of work that measures its input: running it fills the result
/// with the length of the input buffer.
pub struct LengthOperation {
    /// The bytes handed to the operation.
    pub input: Vec<u8>,
    /// The computed length, present once the operation has run.
    pub result: Option<usize>,
}

impl LengthOperation {
    /// Builds the operation with no result yet.
    pub fn new(input: Vec<u8>) -> (op: Self)
        ensures
            op.input == input,
            op.result is None,
    {
        LengthOperation { input, result: None }
    }
}

impl SyncOperation for LengthOperation {
    open spec fn run_ens(&self, post: &Self, r: Result<(), OperationError>) -> bool {
        &&& r is Ok
        &&& post.input == self.input
        &&& post.result == Some(self.input@.len() as usize)
    }

    fn run(&mut self) -> (r: Result<(), OperationError>) {
        self.result = Some(self.input.len());
        Ok(())
    }
}

/// Gives any synchronous operation the scheduling capability for runs that
/// need no reactor: registrations are recorded, and every readiness query
/// answers ready at once.
pub struct ReadyAdapter<S> {
    /// The wrapped synchronous operation.
    pub inner: S,
    /// The descriptors registered so far; maintained by the capability calls.
    pub registered: Vec<i32>,
}

impl<S> ReadyAdapter<S> {
    /// Wraps a synchronous operation; nothing is registered yet.
    pub fn new(inner: S) -> (op: Self)
        ensures
            op.inner == inner,
            op.registered@ == Seq::<i32>::empty(),
    {
        ReadyAdapter { inner, registered: Vec::new() }
    }

    /// Unwraps the adapter to read the operation's results.
    pub fn into_inner(self) -> (inner: S)
        ensures
            inner == self.inner,
    {
        self.inner
    }
}

impl<S: SyncOperation> SyncOperation for ReadyAdapter<S> {
    open spec fn run_ens(&self, post: &Self, r: Result<(), OperationError>) -> bool {
        &&& self.inner.run_ens(&post.inner, r)
        &&& post.registered == self.registered
    }

    fn run(&mut self) -> (r: Result<(), OperationError>) {
        self.inner.run()
    }
}

impl<S: SyncOperation> AsyncOperation for ReadyAdapter<S> {
    open spec fn tracked_fds(&self) -> Set<i32> {
        self.registered@.to_set()
    }

    fn track_fd(&mut self, fd: i32) -> (r: Result<(), RegistrationError>) {
        let ghost before = self.registered@;
        self.registered.push(fd);
        proof {
            before.lemma_push_to_set_commute(fd);
        }
        Ok(())
    }

    fn untrack_fd(&mut self, fd: i32) {
        remove_fd(&mut self.registered, fd);
    }

    fn poll_ready_fds(&mut self) -> (r: FdReadiness) {
        FdReadiness::Ready
    }
}

} // verus!
