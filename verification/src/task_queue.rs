use vstd::prelude::*;
use std::collections::VecDeque;

verus! {

/// What the worker thread of a task queue does after waking up.
pub enum WorkerStep<J> {
    /// Run the oldest pending task, now taken out of the queue.
    Run(J),
    /// The queue is empty and the producers have finished: the waiting closer
    /// has to be notified.
    Finished,
    /// Nothing to do.
    Idle,
}

/// Abstract state of a task queue: the pending tasks (oldest first), whether
/// submitting is still allowed, whether the producers have finished (asked to
/// drain the queue), and whether the worker has reported the end.
pub struct TaskQueueView<J> {
    pub tasks: Seq<J>,
    pub closed: bool,
    pub finishing: bool,
    pub ended: bool,
}

impl<J> TaskQueueView<J> {
    /// The worker reports the end only after it was asked to finish.
    pub open spec fn wf(self) -> bool {
        self.ended ==> self.finishing
    }

    /// What the worker does in its next step.
    pub open spec fn step_result(self) -> WorkerStep<J> {
        if self.tasks.len() > 0 {
            WorkerStep::Run(self.tasks[0])
        } else if self.finishing {
            WorkerStep::Finished
        } else {
            WorkerStep::Idle
        }
    }

    /// The state after the worker's next step.
    pub open spec fn after_worker_step(self) -> TaskQueueView<J> {
        if self.tasks.len() > 0 {
            TaskQueueView { tasks: self.tasks.drop_first(), ..self }
        } else if self.finishing {
            TaskQueueView { ended: true, ..self }
        } else {
            self
        }
    }

    /// The state after `k` steps of the worker.
    pub open spec fn after_worker_steps(self, k: nat) -> TaskQueueView<J>
        decreases k,
    {
        if k == 0 {
            self
        } else {
            self.after_worker_steps((k - 1) as nat).after_worker_step()
        }
    }
}

proof fn lemma_worker_prefix<J>(v: TaskQueueView<J>, k: nat)
    requires
        k <= v.tasks.len(),
    ensures
        v.after_worker_steps(k) == (TaskQueueView { tasks: v.tasks.skip(k as int), ..v }),
    decreases k,
{
    if k == 0 {
        assert(v.tasks.skip(0) =~= v.tasks);
    } else {
        lemma_worker_prefix(v, (k - 1) as nat);
        assert(v.tasks.skip((k - 1) as int).drop_first() =~= v.tasks.skip(k as int));
    }
}

/// Once the worker has been asked to finish (and no task comes in any more),
/// its next steps run every pending task exactly once, oldest first, and only
/// then report the end: step `k` runs task `k`, no step before the last one
/// ends the queue, and the step after the last task reports `Finished` and
/// marks the queue as ended.
pub proof fn lemma_worker_drains<J>(v: TaskQueueView<J>)
    requires
        v.finishing,
        !v.ended,
    ensures
        forall|k: nat| k < v.tasks.len() ==> (#[trigger] v.after_worker_steps(k)).step_result() == WorkerStep::Run(v.tasks[k as int]),
        forall|k: nat| k <= v.tasks.len() ==> !(#[trigger] v.after_worker_steps(k)).ended,
        v.after_worker_steps(v.tasks.len()).step_result() is Finished,
        v.after_worker_steps(v.tasks.len() + 1).ended,
        v.after_worker_steps(v.tasks.len() + 1).tasks.len() == 0,
{
    assert forall|k: nat| k < v.tasks.len() implies (#[trigger] v.after_worker_steps(k)).step_result() == WorkerStep::Run(v.tasks[k as int]) by {
        lemma_worker_prefix(v, k);
    }
    assert forall|k: nat| k <= v.tasks.len() implies !(#[trigger] v.after_worker_steps(k)).ended by {
        lemma_worker_prefix(v, k);
    }
    lemma_worker_prefix(v, v.tasks.len());
    assert(v.tasks.skip(v.tasks.len() as int).len() == 0);
    assert(v.after_worker_steps(v.tasks.len() + 1) == v.after_worker_steps(v.tasks.len()).after_worker_step());
}

/// Once asked to finish (by `join` or `close`), a queue that was not yet asked
/// is drained before the end is reported: the worker runs every pending task
/// exactly once, oldest first, and only the step after the last task reports
/// `Finished` and ends the queue, which is what the waiting caller waits for.
pub proof fn lemma_finish_drains<J>(v: TaskQueueView<J>)
    requires
        v.wf(),
        !v.finishing,
    ensures
        ({
            let w = TaskQueueView { finishing: true, ..v };
            &&& forall|k: nat| k < v.tasks.len() ==> (#[trigger] w.after_worker_steps(k)).step_result() == WorkerStep::Run(v.tasks[k as int])
            &&& forall|k: nat| k <= v.tasks.len() ==> !(#[trigger] w.after_worker_steps(k)).ended
            &&& w.after_worker_steps(v.tasks.len() + 1).ended
        }),
{
    let w = TaskQueueView { finishing: true, ..v };
    lemma_worker_drains(w);
}

/// A FIFO of tasks consumed by one worker thread.
pub struct TaskQueue<J> {
    tasks: VecDeque<J>,
    closed: bool,
    finishing: bool,
    ended: bool,
}

impl<J> View for TaskQueue<J> {
    type V = TaskQueueView<J>;

    closed spec fn view(&self) -> TaskQueueView<J> {
        TaskQueueView { tasks: self.tasks@, closed: self.closed, finishing: self.finishing, ended: self.ended }
    }
}

impl<J> TaskQueue<J> {
    pub fn new() -> (r: Self)
        ensures
            r@.tasks == Seq::<J>::empty(),
            !r@.closed && !r@.finishing && !r@.ended,
            r@.wf(),
    {
        TaskQueue { tasks: VecDeque::new(), closed: false, finishing: false, ended: false }
    }

    /// Queues `task` unless submitting has been closed.
    pub fn submit(&mut self, task: J) -> (r: Option<()>)
        ensures
            old(self)@.wf() ==> final(self)@.wf(),
            old(self)@.closed ==> r is None && final(self)@ == old(self)@,
            !old(self)@.closed ==> r is Some && final(self)@ == (TaskQueueView { tasks: old(self)@.tasks.push(task), ..old(self)@ }),
    {
        if self.closed {
            None
        } else {
            self.tasks.push_back(task);
            Some(())
        }
    }

    /// Refuses further submissions.
    pub fn close(&mut self)
        ensures
            old(self)@.wf() ==> final(self)@.wf(),
            final(self)@ == (TaskQueueView { closed: true, ..old(self)@ }),
    {
        self.closed = true;
    }

    /// Asks the worker to finish. Returns `true` for the first request: that
    /// caller has to wake the worker and wait until `has_ended`.
    pub fn finish(&mut self) -> (first: bool)
        ensures
            old(self)@.wf() ==> final(self)@.wf(),
            first == !old(self)@.finishing,
            final(self)@ == (TaskQueueView { finishing: true, ..old(self)@ }),
    {
        if !self.finishing {
            self.finishing = true;
            true
        } else {
            false
        }
    }

    pub fn has_closed(&self) -> (b: bool)
        ensures
            b == self@.closed,
    {
        self.closed
    }

    pub fn has_ended(&self) -> (b: bool)
        ensures
            b == self@.ended,
    {
        self.ended
    }

    /// The worker, which saw `observed_len` pending tasks when it last looked,
    /// keeps sleeping while that number has not changed and nobody asked it to finish.
    pub fn worker_should_wait(&self, observed_len: usize) -> (b: bool)
        ensures
            b == (observed_len == self@.tasks.len() && !self@.finishing),
    {
        observed_len == self.tasks.len() && !self.finishing
    }

    pub fn pending(&self) -> (n: usize)
        ensures
            n == self@.tasks.len(),
    {
        self.tasks.len()
    }

    /// What the worker does once awake: run the oldest task, or, with an empty
    /// queue and a request to finish, report the end.
    pub fn worker_step(&mut self) -> (r: WorkerStep<J>)
        ensures
            old(self)@.wf() ==> final(self)@.wf(),
            old(self)@.tasks.len() > 0 ==> r == WorkerStep::Run(old(self)@.tasks[0])
                && final(self)@ == (TaskQueueView { tasks: old(self)@.tasks.drop_first(), ..old(self)@ }),
            old(self)@.tasks.len() == 0 && old(self)@.finishing ==> r is Finished
                && final(self)@ == (TaskQueueView { ended: true, ..old(self)@ }),
            old(self)@.tasks.len() == 0 && !old(self)@.finishing ==> r is Idle && final(self)@ == old(self)@,
            r == old(self)@.step_result(),
            final(self)@ == old(self)@.after_worker_step(),
    {
        if self.tasks.len() > 0 {
            match self.tasks.pop_front() {
                Some(t) => WorkerStep::Run(t),
                None => WorkerStep::Idle,
            }
        } else if self.finishing {
            self.ended = true;
            WorkerStep::Finished
        } else {
            WorkerStep::Idle
        }
    }
}

} // verus!
