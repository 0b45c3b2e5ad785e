use vstd::prelude::*;
use crate::poll::Poll;
use crate::task_queue::{TaskQueue, TaskQueueView, WorkerStep};

verus! {

/// The shared state of a processor: items sent to it are consumed, in order,
/// by one worker thread; `close` refuses new items and waits until the worker
/// has consumed those already received.
pub struct Processor<T> {
    queue: TaskQueue<T>,
}

impl<T> View for Processor<T> {
    type V = TaskQueueView<T>;

    closed spec fn view(&self) -> TaskQueueView<T> {
        self.queue@
    }
}

impl<T> Processor<T> {
    /// Closing refuses new items and asks the worker to finish at once, and the
    /// worker reports the end only after that.
    pub closed spec fn wf(&self) -> bool {
        self.queue@.closed == self.queue@.finishing && self.queue@.wf()
    }

    pub fn new() -> (r: Self)
        ensures
            r.wf(),
            r@.tasks == Seq::<T>::empty(),
            !r@.closed && !r@.finishing && !r@.ended,
    {
        Processor { queue: TaskQueue::new() }
    }

    /// Queues an item; `None` once the processor is closed.
    pub fn send(&mut self, t: T) -> (r: Option<()>)
        requires
            old(self).wf(),
        ensures
            final(self).wf(),
            old(self)@.closed ==> r is None && final(self)@ == old(self)@,
            !old(self)@.closed ==> r is Some && final(self)@ == (TaskQueueView { tasks: old(self)@.tasks.push(t), ..old(self)@ }),
    {
        self.queue.submit(t)
    }

    /// Closes the processor. `true` for the call that does it: that caller
    /// wakes the worker and waits with `close_done` until the worker has
    /// consumed every item; closing again returns at once.
    pub fn close(&mut self) -> (first: bool)
        requires
            old(self).wf(),
        ensures
            final(self).wf(),
            first == !old(self)@.closed,
            final(self)@ == (TaskQueueView { closed: true, finishing: true, ..old(self)@ }),
    {
        if !self.queue.has_closed() {
            self.queue.close();
            self.queue.finish();
            true
        } else {
            false
        }
    }

    /// The closer may return once the worker has consumed every item.
    pub fn close_done(&self) -> (r: Poll<()>)
        ensures
            r is Ready <==> self@.ended,
    {
        if self.queue.has_ended() { Poll::Ready(()) } else { Poll::Pending }
    }

    pub fn worker_should_wait(&self, observed_len: usize) -> (b: bool)
        requires
            self.wf(),
        ensures
            b == (observed_len == self@.tasks.len() && !self@.closed),
    {
        self.queue.worker_should_wait(observed_len)
    }

    pub fn pending(&self) -> (n: usize)
        ensures
            n == self@.tasks.len(),
    {
        self.queue.pending()
    }

    /// What the worker does once awake: consume the oldest item, or report the
    /// end of an empty processor that was closed.
    pub fn worker_step(&mut self) -> (r: WorkerStep<T>)
        requires
            old(self).wf(),
        ensures
            final(self).wf(),
            old(self)@.tasks.len() > 0 ==> r == WorkerStep::Run(old(self)@.tasks[0])
                && final(self)@ == (TaskQueueView { tasks: old(self)@.tasks.drop_first(), ..old(self)@ }),
            old(self)@.tasks.len() == 0 && old(self)@.closed ==> r is Finished
                && final(self)@ == (TaskQueueView { ended: true, ..old(self)@ }),
            old(self)@.tasks.len() == 0 && !old(self)@.closed ==> r is Idle && final(self)@ == old(self)@,
            r == old(self)@.step_result(),
            final(self)@ == old(self)@.after_worker_step(),
    {
        self.queue.worker_step()
    }
}

} // verus!
