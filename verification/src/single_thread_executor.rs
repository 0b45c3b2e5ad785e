use vstd::prelude::*;
use crate::poll::Poll;
use crate::task_queue::{TaskQueue, TaskQueueView, WorkerStep};

verus! {

/// The shared state of an executor that runs the submitted tasks, in order, on
/// one worker thread. Submitting can be closed; `join` waits until the worker
/// has drained the queue.
pub struct SingleThreadExecutor<J> {
    queue: TaskQueue<J>,
}

impl<J> View for SingleThreadExecutor<J> {
    type V = TaskQueueView<J>;

    closed spec fn view(&self) -> TaskQueueView<J> {
        self.queue@
    }
}

impl<J> SingleThreadExecutor<J> {
    pub fn new() -> (r: Self)
        ensures
            r@.tasks == Seq::<J>::empty(),
            !r@.closed && !r@.finishing && !r@.ended,
            r@.wf(),
    {
        SingleThreadExecutor { queue: TaskQueue::new() }
    }

    /// Queues a task; `None` once the executor is closed.
    pub fn submit(&mut self, f: J) -> (r: Option<()>)
        ensures
            old(self)@.wf() ==> final(self)@.wf(),
            old(self)@.closed ==> r is None && final(self)@ == old(self)@,
            !old(self)@.closed ==> r is Some && final(self)@ == (TaskQueueView { tasks: old(self)@.tasks.push(f), ..old(self)@ }),
    {
        self.queue.submit(f)
    }

    /// Refuses further tasks.
    pub fn close(&mut self)
        ensures
            old(self)@.wf() ==> final(self)@.wf(),
            final(self)@ == (TaskQueueView { closed: true, ..old(self)@ }),
    {
        self.queue.close()
    }

    /// Asks the worker to finish. `true` for the first call, which then waits
    /// with `join_done` until the worker has reported the end; later calls return at once.
    pub fn join(&mut self) -> (first: bool)
        ensures
            old(self)@.wf() ==> final(self)@.wf(),
            first == !old(self)@.finishing,
            final(self)@ == (TaskQueueView { finishing: true, ..old(self)@ }),
    {
        self.queue.finish()
    }

    /// The first joiner may return once the worker has reported the end.
    pub fn join_done(&self) -> (r: Poll<()>)
        ensures
            r is Ready <==> self@.ended,
    {
        if self.queue.has_ended() { Poll::Ready(()) } else { Poll::Pending }
    }

    pub fn worker_should_wait(&self, observed_len: usize) -> (b: bool)
        ensures
            b == (observed_len == self@.tasks.len() && !self@.finishing),
    {
        self.queue.worker_should_wait(observed_len)
    }

    pub fn pending(&self) -> (n: usize)
        ensures
            n == self@.tasks.len(),
    {
        self.queue.pending()
    }

    /// What the worker does once awake: run the oldest task, or report the end
    /// of an empty queue that was asked to finish.
    pub fn worker_step(&mut self) -> (r: WorkerStep<J>)
        ensures
            old(self)@.wf() ==> final(self)@.wf(),
            old(self)@.tasks.len() > 0 ==> r == WorkerStep::Run(old(self)@.tasks[0])
                && final(self)@ == (TaskQueueView { tasks: old(self)@.tasks.drop_first(), ..old(self)@ }),
            old(self)@.tasks.len() == 0 && old(self)@.finishing ==> r is Finished
                && final(self)@ == (TaskQueueView { ended: true, ..old(self)@ }),
            old(self)@.tasks.len() == 0 && !old(self)@.finishing ==> r is Idle && final(self)@ == old(self)@,
            r == old(self)@.step_result(),
            final(self)@ == old(self)@.after_worker_step(),
    {
        self.queue.worker_step()
    }
}

} // verus!
