//! The bookkeeping of a computation that runs once, on a thread of its own.
use vstd::prelude::*;

verus! {

/// A computation that is to run once on a thread of its own, and the handle
/// of that thread once it runs.
///
/// The first poll takes the computation out to start its thread and stores
/// the thread's handle; the handle is taken out again to wait for the thread,
/// so neither is ever used twice.
pub struct BlockingFuture<F, H> {
    funct: Option<F>,
    thread: Option<H>,
}

impl<F, H> BlockingFuture<F, H> {
    /// The computation, while no thread has been started for it.
    pub closed spec fn computation(&self) -> Option<F> {
        self.funct
    }

    /// The handle of the thread, while nobody waits for it.
    pub closed spec fn handle(&self) -> Option<H> {
        self.thread
    }

    /// Wrap a computation that has not been started.
    pub fn new(f: F) -> (out: Self)
        ensures
            out.computation() == Some(f),
            out.handle() is None,
    {
        Self { funct: Some(f), thread: None }
    }

    /// Take the computation out to start it, unless a thread already runs.
    pub fn start(&mut self) -> (out: Option<F>)
        ensures
            final(self).handle() == old(self).handle(),
            old(self).handle() is None ==> out == old(self).computation() && final(self).computation() is None,
            old(self).handle() is Some ==> out is None && final(self).computation() == old(self).computation(),
    {
        if self.thread.is_none() {
            self.funct.take()
        } else {
            None
        }
    }

    /// Store the handle of the thread that has been started.
    pub fn started(&mut self, handle: H)
        requires
            old(self).handle() is None,
        ensures
            final(self).handle() == Some(handle),
            final(self).computation() == old(self).computation(),
    {
        self.thread = Some(handle);
    }

    /// Take the handle out to wait for the thread, if one has been started.
    pub fn finish(&mut self) -> (out: Option<H>)
        ensures
            out == old(self).handle(),
            final(self).handle() is None,
            final(self).computation() == old(self).computation(),
    {
        self.thread.take()
    }
}

} // verus!
