use vstd::prelude::*;
use std::collections::VecDeque;
use crate::poll::{Poll, Handoff};
use crate::ring::{Ring, fifo_step};

verus! {

/// Abstract state of a bounded multi-producer multi-consumer channel:
/// the queued messages (oldest first), whether it is still open, and its capacity.
pub struct ChannelView<E> {
    pub queue: Seq<E>,
    pub open: bool,
    pub capacity: nat,
}

/// Bounded MPMC channel on a `VecDeque`.
pub struct MpMcChannelProf<E> {
    size: usize,
    queue: VecDeque<E>,
    open: bool,
}

impl<E> View for MpMcChannelProf<E> {
    type V = ChannelView<E>;

    closed spec fn view(&self) -> ChannelView<E> {
        ChannelView { queue: self.queue@, open: self.open, capacity: self.size as nat }
    }
}

impl<E> MpMcChannelProf<E> {
    pub closed spec fn wf(&self) -> bool {
        self.queue@.len() <= self.size
    }

    pub fn new(size: usize) -> (r: Self)
        ensures
            r.wf(),
            r@.queue == Seq::<E>::empty(),
            r@.open,
            r@.capacity == size,
    {
        MpMcChannelProf { size, queue: VecDeque::with_capacity(size), open: true }
    }

    /// Takes the oldest message. Pending while the channel is open and empty;
    /// `Ready(None)` once it is closed and drained.
    pub fn recv(&mut self) -> (r: Poll<Option<E>>)
        requires
            old(self).wf(),
        ensures
            final(self).wf(),
            final(self)@.open == old(self)@.open,
            final(self)@.capacity == old(self)@.capacity,
            old(self)@.queue.len() > 0 ==> r == Poll::Ready(Some(old(self)@.queue[0]))
                && final(self)@.queue == old(self)@.queue.drop_first(),
            old(self)@.queue.len() == 0 && old(self)@.open ==> r is Pending
                && final(self)@.queue == old(self)@.queue,
            old(self)@.queue.len() == 0 && !old(self)@.open ==> r == Poll::<Option<E>>::Ready(None)
                && final(self)@.queue == old(self)@.queue,
            final(self)@.queue == fifo_step(old(self)@.queue, old(self)@.capacity, None).0,
    {
        if self.queue.len() == 0 {
            if self.open {
                Poll::Pending
            } else {
                Poll::Ready(None)
            }
        } else {
            let e = self.queue.pop_front();
            Poll::Ready(e)
        }
    }

    /// Appends a message. `Ready(None)` when the channel is closed; the message
    /// comes back as pending while the channel is open and full.
    pub fn send(&mut self, e: E) -> (r: Handoff<E, Option<()>>)
        requires
            old(self).wf(),
        ensures
            final(self).wf(),
            final(self)@.open == old(self)@.open,
            final(self)@.capacity == old(self)@.capacity,
            !old(self)@.open ==> r == Handoff::<E, Option<()>>::Ready(None)
                && final(self)@.queue == old(self)@.queue,
            old(self)@.open && old(self)@.queue.len() == old(self)@.capacity
                ==> r == Handoff::<E, Option<()>>::Pending(e) && final(self)@.queue == old(self)@.queue,
            old(self)@.open && old(self)@.queue.len() < old(self)@.capacity
                ==> r == Handoff::<E, Option<()>>::Ready(Some(())) && final(self)@.queue == old(self)@.queue.push(e),
            old(self)@.open ==> final(self)@.queue == fifo_step(old(self)@.queue, old(self)@.capacity, Some(e)).0,
    {
        if !self.open {
            return Handoff::Ready(None);
        }
        if self.queue.len() == self.size {
            return Handoff::Pending(e);
        }
        self.queue.push_back(e);
        Handoff::Ready(Some(()))
    }

    /// Closes the channel for good.
    pub fn shutdown(&mut self) -> (r: Option<()>)
        requires
            old(self).wf(),
        ensures
            final(self).wf(),
            r == Some(()),
            !final(self)@.open,
            final(self)@.queue == old(self)@.queue,
            final(self)@.capacity == old(self)@.capacity,
    {
        self.open = false;
        Some(())
    }
}

/// Bounded MPMC channel on a ring of `n` cells.
pub struct MpMcChannelMine<E> {
    total_resources: usize,
    ring: Ring<E>,
    open: bool,
}

impl<E> View for MpMcChannelMine<E> {
    type V = ChannelView<E>;

    closed spec fn view(&self) -> ChannelView<E> {
        ChannelView { queue: self.ring.contents(), open: self.open, capacity: self.total_resources as nat }
    }
}

impl<E: Clone + Default> MpMcChannelMine<E> {
    pub closed spec fn wf(&self) -> bool {
        self.ring.wf() && self.ring.capacity() == self.total_resources
    }

    pub fn new(n: usize) -> (r: Self)
        ensures
            r.wf(),
            r@.queue == Seq::<E>::empty(),
            r@.open,
            r@.capacity == n,
    {
        let buf = vec![E::default(); n];
        MpMcChannelMine { total_resources: n, ring: Ring::from_vec(buf), open: true }
    }

    /// Appends a message. `Ready(None)` when the channel is closed; the message
    /// comes back as pending while the channel is open and full.
    pub fn send(&mut self, e: E) -> (r: Handoff<E, Option<()>>)
        requires
            old(self).wf(),
        ensures
            final(self).wf(),
            final(self)@.open == old(self)@.open,
            final(self)@.capacity == old(self)@.capacity,
            !old(self)@.open ==> r == Handoff::<E, Option<()>>::Ready(None)
                && final(self)@.queue == old(self)@.queue,
            old(self)@.open && old(self)@.queue.len() == old(self)@.capacity
                ==> r == Handoff::<E, Option<()>>::Pending(e) && final(self)@.queue == old(self)@.queue,
            old(self)@.open && old(self)@.queue.len() < old(self)@.capacity
                ==> r == Handoff::<E, Option<()>>::Ready(Some(())) && final(self)@.queue == old(self)@.queue.push(e),
            old(self)@.open ==> final(self)@.queue == fifo_step(old(self)@.queue, old(self)@.capacity, Some(e)).0,
    {
        proof { self.ring.lemma_bounds(); }
        if !self.open {
            return Handoff::Ready(None);
        }
        if self.ring.free_cells() == 0 {
            return Handoff::Pending(e);
        }
        self.ring.push(e);
        Handoff::Ready(Some(()))
    }

    /// Takes (a clone of) the oldest message. Pending while the channel is open and
    /// empty; `Ready(None)` once it is closed and drained.
    pub fn recv(&mut self) -> (r: Poll<Option<E>>)
        requires
            old(self).wf(),
        ensures
            final(self).wf(),
            final(self)@.open == old(self)@.open,
            final(self)@.capacity == old(self)@.capacity,
            old(self)@.queue.len() > 0 ==> {
                &&& r matches Poll::Ready(Some(v))
                &&& cloned::<E>(old(self)@.queue[0], v)
                &&& final(self)@.queue == old(self)@.queue.drop_first()
            },
            old(self)@.queue.len() == 0 && old(self)@.open ==> r is Pending
                && final(self)@.queue == old(self)@.queue,
            old(self)@.queue.len() == 0 && !old(self)@.open ==> r == Poll::<Option<E>>::Ready(None)
                && final(self)@.queue == old(self)@.queue,
            final(self)@.queue == fifo_step(old(self)@.queue, old(self)@.capacity, None).0,
    {
        proof { self.ring.lemma_bounds(); }
        if self.ring.free_cells() == self.total_resources {
            if self.open {
                Poll::Pending
            } else {
                Poll::Ready(None)
            }
        } else {
            Poll::Ready(Some(self.ring.pop()))
        }
    }

    /// Closes the channel for good.
    pub fn shutdown(&mut self) -> (r: Option<()>)
        requires
            old(self).wf(),
        ensures
            final(self).wf(),
            r == Some(()),
            !final(self)@.open,
            final(self)@.queue == old(self)@.queue,
            final(self)@.capacity == old(self)@.capacity,
    {
        self.open = false;
        Some(())
    }
}

} // verus!
