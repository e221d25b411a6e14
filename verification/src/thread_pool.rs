//! The bookkeeping of a pool of workers: the queue of its jobs and the cell
//! through which a job hands its result to whoever waits for it.
use vstd::prelude::*;

use std::collections::VecDeque;

verus! {

/// The jobs that a pool has been given and that no worker has taken yet, in
/// the order in which they came.
pub struct JobQueue<J> {
    queue: VecDeque<J>,
}

impl<J> View for JobQueue<J> {
    type V = Seq<J>;

    closed spec fn view(&self) -> Seq<J> {
        self.queue@
    }
}

impl<J> JobQueue<J> {
    /// A queue without jobs.
    pub fn new() -> (out: Self)
        ensures
            out@ == Seq::<J>::empty(),
    {
        Self { queue: VecDeque::new() }
    }

    /// Put a job behind those that wait.
    pub fn submit(&mut self, job: J)
        ensures
            final(self)@ == old(self)@.push(job),
    {
        self.queue.push_back(job);
    }

    /// Take the job that has waited longest, if there is one.
    pub fn take(&mut self) -> (out: Option<J>)
        ensures
            old(self)@.len() == 0 ==> out is None && final(self)@ == old(self)@,
            old(self)@.len() > 0 ==> out == Some(old(self)@[0]) && final(self)@ == old(self)@.drop_first(),
    {
        let out = self.queue.pop_front();
        proof {
            if old(self)@.len() > 0 {
                assert(self.queue@ =~= old(self)@.drop_first());
            }
        }
        out
    }

    /// Number of jobs that wait.
    pub fn len(&self) -> (out: usize)
        ensures
            out == self@.len(),
    {
        self.queue.len()
    }

    /// Whether no job waits.
    pub fn is_empty(&self) -> (out: bool)
        ensures
            out == (self@.len() == 0),
    {
        self.queue.len() == 0
    }
}

/// Where a task of the pool stands.
pub enum Progress<T> {
    /// The worker has not published a result yet.
    Running,
    /// The result is there and nobody has taken it.
    Done(T),
    /// The result has been taken.
    Consumed,
}

/// The cell that a task of the pool shares with whoever awaits it: the slot
/// of the result, the flag that says it is there, and the slot of the handle
/// by which the one who waits is woken.
///
/// The worker publishes the result once. A poll before that leaves its wake
/// handle and learns nothing; the first poll after it takes the result. Both
/// sides go through the same cell, so whoever guards it decides which of
/// "leave the handle" and "publish" comes first, and the later one sees what
/// the earlier one did.
pub struct ThreadPoolFuture<T, W> {
    result: Option<T>,
    ready: bool,
    waker_slot: Option<W>,
}

impl<T, W> ThreadPoolFuture<T, W> {
    /// Where the task stands.
    pub closed spec fn progress(&self) -> Progress<T> {
        if !self.ready {
            Progress::Running
        } else {
            match self.result {
                Some(value) => Progress::Done(value),
                None => Progress::Consumed,
            }
        }
    }

    /// The wake handle that a poll has left and that nobody has used yet.
    pub closed spec fn waker(&self) -> Option<W> {
        self.waker_slot
    }

    /// The cell of a task that has just been handed to the pool.
    pub fn new() -> (out: Self)
        ensures
            out.progress() == Progress::<T>::Running,
            out.waker() is None,
    {
        Self { result: None, ready: false, waker_slot: None }
    }

    /// Whether the result has been published.
    pub fn is_ready(&self) -> (out: bool)
        ensures
            out == !(self.progress() is Running),
    {
        self.ready
    }

    /// Whether the result has been taken.
    pub fn is_consumed(&self) -> (out: bool)
        ensures
            out == (self.progress() is Consumed),
    {
        self.ready && self.result.is_none()
    }

    /// Publish the result of the task. The wake handle that a poll has left,
    /// if any, is taken out of the cell and returned: the worker wakes it.
    pub fn complete(&mut self, output: T) -> (out: Option<W>)
        requires
            old(self).progress() is Running,
        ensures
            final(self).progress() == Progress::Done(output),
            final(self).waker() is None,
            out == old(self).waker(),
    {
        self.result = Some(output);
        self.ready = true;
        self.waker_slot.take()
    }

    /// Poll the task. Before the result is published the wake handle is left
    /// in the cell, in place of an older one, and nothing is returned. Once
    /// it is published the result is taken out and returned.
    pub fn poll(&mut self, waker: W) -> (out: Option<T>)
        requires
            !(old(self).progress() is Consumed),
        ensures
            match old(self).progress() {
                Progress::Running => {
                    &&& out is None
                    &&& final(self).progress() == Progress::<T>::Running
                    &&& final(self).waker() == Some(waker)
                },
                Progress::Done(value) => {
                    &&& out == Some(value)
                    &&& final(self).progress() == Progress::<T>::Consumed
                    &&& final(self).waker() == old(self).waker()
                },
                Progress::Consumed => false,
            },
    {
        if self.ready {
            self.result.take()
        } else {
            self.waker_slot = Some(waker);
            None
        }
    }
}

} // verus!
