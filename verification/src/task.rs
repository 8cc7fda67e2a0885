//! The storage of a job's future, with the flag that stops a finished future
//! from being polled again.
use vstd::prelude::*;

verus! {

/// A future that may migrate between workers, with its completion flag.
pub struct StoredFuture<F> {
    pub inner: F,
    /// Future has returned `Ready` and future polls should be ignored.
    pub completed: bool,
}

impl<F> StoredFuture<F> {
    /// Stores a future that has not completed yet.
    pub fn new(future: F) -> (s: Self)
        ensures
            s.inner == future,
            !s.completed,
    {
        Self { inner: future, completed: false }
    }

    /// Whether the future may be polled: it has not returned `Ready` yet.
    pub fn should_poll(&self) -> (b: bool)
        ensures
            b == !self.completed,
    {
        !self.completed
    }

    /// Records the result of a poll: once `Ready`, the future stays completed.
    pub fn record_poll(&mut self, ready: bool)
        ensures
            final(self).completed == (old(self).completed || ready),
            final(self).inner == old(self).inner,
    {
        if ready {
            self.completed = true;
        }
    }
}

/// A future tied to the worker that created it, with its completion flag.
pub struct StoredThreadLocalFuture<F> {
    pub inner: F,
    /// Future has returned `Ready` and future polls should be ignored.
    pub completed: bool,
}

impl<F> StoredThreadLocalFuture<F> {
    /// Stores a future that has not completed yet.
    pub fn new(future: F) -> (s: Self)
        ensures
            s.inner == future,
            !s.completed,
    {
        Self { inner: future, completed: false }
    }

    /// Whether the future may be polled: it has not returned `Ready` yet.
    pub fn should_poll(&self) -> (b: bool)
        ensures
            b == !self.completed,
    {
        !self.completed
    }

    /// Records the result of a poll: once `Ready`, the future stays completed.
    pub fn record_poll(&mut self, ready: bool)
        ensures
            final(self).completed == (old(self).completed || ready),
            final(self).inner == old(self).inner,
    {
        if ready {
            self.completed = true;
        }
    }
}

} // verus!
