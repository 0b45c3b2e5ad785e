use vstd::prelude::*;
use std::collections::HashMap;
use crate::poll::Poll;
use crate::cyclic_barrier::{Arrival, BarrierView};

verus! {

broadcast use vstd::std_specs::hash::group_hash_axioms;

/// Joins `producers_number` producers in rounds: each producer supplies its
/// latest value under its index, and once all of them have supplied one, every
/// producer gets the whole table of values.
pub struct JoinerCvar<V> {
    producers_number: usize,
    arrived: usize,
    generation: usize,
    values: HashMap<usize, V>,
}

impl<V> View for JoinerCvar<V> {
    type V = (BarrierView, Map<usize, V>);

    closed spec fn view(&self) -> (BarrierView, Map<usize, V>) {
        (
            BarrierView { parties: self.producers_number as nat, arrived: self.arrived as nat, generation: self.generation as nat },
            self.values@,
        )
    }
}

impl<V: Clone> JoinerCvar<V> {
    /// The number of the current round.
    pub fn generation(&self) -> (g: usize)
        ensures
            g == self@.0.generation,
    {
        self.generation
    }

    pub fn new(producers_number: usize) -> (r: Self)
        ensures
            r@.0 == (BarrierView { parties: producers_number as nat, arrived: 0, generation: 0 }),
            r@.1 == Map::<usize, V>::empty(),
    {
        JoinerCvar { producers_number, arrived: 0, generation: 0, values: HashMap::new() }
    }

    /// Producer `index` supplies `produced_value`, which replaces its previous
    /// one. The last producer of a round ends it; the others learn which round
    /// they wait for, and then read the table with `values`.
    pub fn supply(&mut self, index: usize, produced_value: V) -> (r: Arrival)
        requires
            old(self)@.0.wf(),
            old(self)@.0.generation < usize::MAX,
        ensures
            final(self)@.0.wf(),
            final(self)@.0 == old(self)@.0.after_arrival(),
            final(self)@.1 == old(self)@.1.insert(index, produced_value),
            r is Last <==> final(self)@.0.generation == old(self)@.0.generation + 1,
            r matches Arrival::Wait(g) ==> g == old(self)@.0.generation,
    {
        self.arrived = self.arrived + 1;
        let local_gen = self.generation;
        self.values.insert(index, produced_value);
        if self.arrived < self.producers_number {
            Arrival::Wait(local_gen)
        } else {
            self.arrived = 0;
            self.generation = self.generation + 1;
            Arrival::Last
        }
    }

    /// A producer waiting for round `generation` may go on once that round is over.
    pub fn passed(&self, generation: usize) -> (r: Poll<()>)
        ensures
            r is Ready <==> self@.0.generation != generation,
    {
        if self.generation == generation {
            Poll::Pending
        } else {
            Poll::Ready(())
        }
    }

    /// A copy of the table of supplied values.
    pub fn values(&self) -> (m: HashMap<usize, V>)
        ensures
            m@ == self@.1,
    {
        self.values.clone()
    }
}

} // verus!
