use vstd::prelude::*;
use crate::poll::Poll;
use crate::cyclic_barrier::BarrierView;

verus! {

/// What a value arriving at a `Synchronizer` port leads to.
pub enum Meeting<D> {
    /// First of its pair: it is kept, and its sender waits until the round
    /// numbered here is over.
    Wait(usize),
    /// Second of its pair: it is processed together with the value kept from
    /// the other port (`(this value, kept value)`).
    Pair(D, D),
}

/// Pairs values arriving on two ports: the first value of a pair is kept until
/// one arrives on the other port, and then both are processed together.
pub struct Synchronizer<D> {
    arrived: usize,
    generation: usize,
    data: D,
}

impl<D> View for Synchronizer<D> {
    type V = (BarrierView, D);

    closed spec fn view(&self) -> (BarrierView, D) {
        (BarrierView { parties: 2, arrived: self.arrived as nat, generation: self.generation as nat }, self.data)
    }
}

impl<D: Copy + Default> Synchronizer<D> {
    /// The number of the current round.
    pub fn generation(&self) -> (g: usize)
        ensures
            g == self@.0.generation,
    {
        self.generation
    }

    pub fn new() -> (r: Self)
        ensures
            r@.0 == (BarrierView { parties: 2, arrived: 0, generation: 0 }),
            call_ensures(D::default, (), r@.1),
    {
        Synchronizer { arrived: 0, generation: 0, data: D::default() }
    }

    fn arrive(&mut self, value: D) -> (r: Meeting<D>)
        requires
            old(self)@.0.wf(),
            old(self)@.0.generation < usize::MAX,
        ensures
            final(self)@.0.wf(),
            final(self)@.0 == old(self)@.0.after_arrival(),
            old(self)@.0.arrived == 0 ==> r == Meeting::<D>::Wait(old(self)@.0.generation as usize)
                && final(self)@.1 == value,
            old(self)@.0.arrived == 1 ==> r == Meeting::Pair(value, old(self)@.1)
                && call_ensures(D::default, (), final(self)@.1),
    {
        let local_generation = self.generation;
        self.arrived = self.arrived + 1;
        if self.arrived < 2 {
            self.data = value;
            Meeting::Wait(local_generation)
        } else {
            let kept = self.data;
            self.arrived = 0;
            self.generation = self.generation + 1;
            self.data = D::default();
            Meeting::Pair(value, kept)
        }
    }

    /// A value arrives on the first port.
    pub fn data_from_first_port(&mut self, f1: D) -> (r: Meeting<D>)
        requires
            old(self)@.0.wf(),
            old(self)@.0.generation < usize::MAX,
        ensures
            final(self)@.0.wf(),
            final(self)@.0 == old(self)@.0.after_arrival(),
            old(self)@.0.arrived == 0 ==> r == Meeting::<D>::Wait(old(self)@.0.generation as usize)
                && final(self)@.1 == f1,
            old(self)@.0.arrived == 1 ==> r == Meeting::Pair(f1, old(self)@.1)
                && call_ensures(D::default, (), final(self)@.1),
    {
        self.arrive(f1)
    }

    /// A value arrives on the second port.
    pub fn data_from_second_port(&mut self, f2: D) -> (r: Meeting<D>)
        requires
            old(self)@.0.wf(),
            old(self)@.0.generation < usize::MAX,
        ensures
            final(self)@.0.wf(),
            final(self)@.0 == old(self)@.0.after_arrival(),
            old(self)@.0.arrived == 0 ==> r == Meeting::<D>::Wait(old(self)@.0.generation as usize)
                && final(self)@.1 == f2,
            old(self)@.0.arrived == 1 ==> r == Meeting::Pair(f2, old(self)@.1)
                && call_ensures(D::default, (), final(self)@.1),
    {
        self.arrive(f2)
    }

    /// The sender of a kept value may go on once its pair has been processed.
    pub fn passed(&self, generation: usize) -> (r: Poll<()>)
        ensures
            r is Ready <==> self@.0.generation != generation,
    {
        if self.generation == generation {
            Poll::Pending
        } else {
            Poll::Ready(())
        }
    }
}

} // verus!
