//! A future for functions that hand their result to a callback.
//!
//! The future itself is a small state machine. A task polls it; the first
//! poll hands out the closure that starts the work, every later poll hands
//! out the result if the callback has brought it.

use vstd::prelude::*;

verus! {

/// What a poll of a `CallbackFuture` asks of whoever polls it.
pub enum PollStep<C, R> {
    /// The first poll: call the closure, with a callback that completes the
    /// future and wakes the task, and go on waiting.
    Start(C),
    /// No result yet: go on waiting.
    Pending,
    /// The result.
    Ready(R),
}

/// A future that turns a function which hands its result to a callback into
/// something that can be awaited. The closure given to `new` is the call of
/// that function; it gets the callback to hand the result to.
pub struct CallbackFuture<C, R> {
    started: bool,
    closure: Option<C>,
    result: Option<R>,
}

impl<C, R> CallbackFuture<C, R> {
    /// Whether the future was polled.
    pub closed spec fn started(&self) -> bool {
        self.started
    }

    /// The closure, until the first poll hands it out.
    pub closed spec fn closure(&self) -> Option<C> {
        self.closure
    }

    /// The result, from the moment the callback brought it until a poll hands it out.
    pub closed spec fn result(&self) -> Option<R> {
        self.result
    }

    /// A future that was not polled yet.
    pub fn new(closure: C) -> (f: Self)
        ensures
            !f.started(),
            f.closure() == Some(closure),
            f.result() is None,
    {
        Self { started: false, closure: Some(closure), result: None }
    }

    /// The callback's part: brings the result, in place of one that no poll handed out.
    pub fn complete(&mut self, result: R)
        ensures
            final(self).started() == old(self).started(),
            final(self).closure() == old(self).closure(),
            final(self).result() == Some(result),
    {
        self.result = Some(result);
    }

    /// One poll. The first hands out the closure, if it is there, for the
    /// caller to start the work with. A later one hands out the result and
    /// keeps none, or says that there is none yet.
    pub fn poll(&mut self) -> (step: PollStep<C, R>)
        ensures
            final(self).started(),
            final(self).closure() is None,
            match step {
                PollStep::Start(c) => {
                    &&& old(self).closure() == Some(c)
                    &&& final(self).result() == old(self).result()
                },
                PollStep::Ready(r) => {
                    &&& old(self).closure() is None
                    &&& old(self).result() == Some(r)
                    &&& final(self).result() is None
                },
                PollStep::Pending => {
                    &&& old(self).closure() is None
                    &&& old(self).result() is None
                    &&& final(self).result() is None
                },
            },
    {
        self.started = true;
        match self.closure.take() {
            Some(closure) => PollStep::Start(closure),
            None => match self.result.take() {
                Some(result) => PollStep::Ready(result),
                None => PollStep::Pending,
            },
        }
    }
}

} // verus!
