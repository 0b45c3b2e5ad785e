use vstd::prelude::*;
use crate::ring::{Ring, fifo_step};

verus! {

/// Number of cells of a `RingBuffer`.
pub const CIRCULAR_BUFFER_SIZE: u32 = 20;
/// Number of readings in one sample of the sensor simulation.
pub const SENSOR_DATA_VALUES_LEN: usize = 10;

/// A bounded FIFO of `CIRCULAR_BUFFER_SIZE` cells: writing into a full buffer
/// and reading from an empty one are refused instead of blocking.
pub struct RingBuffer<T> {
    ring: Ring<T>,
}

impl<T> View for RingBuffer<T> {
    type V = Seq<T>;

    closed spec fn view(&self) -> Seq<T> {
        self.ring.contents()
    }
}

impl<T: Clone + Default> RingBuffer<T> {
    pub closed spec fn wf(&self) -> bool {
        self.ring.wf() && self.ring.capacity() == CIRCULAR_BUFFER_SIZE
    }

    pub fn new() -> (r: Self)
        ensures
            r.wf(),
            r@ == Seq::<T>::empty(),
    {
        let buf = vec![T::default(); CIRCULAR_BUFFER_SIZE as usize];
        RingBuffer { ring: Ring::from_vec(buf) }
    }

    /// Takes the oldest value; `None` when the buffer is empty.
    pub fn read(&mut self) -> (r: Option<T>)
        requires
            old(self).wf(),
        ensures
            final(self).wf(),
            old(self)@.len() == 0 ==> r is None && final(self)@ == old(self)@,
            old(self)@.len() > 0 ==> {
                &&& r is Some
                &&& cloned::<T>(old(self)@[0], r->0)
                &&& final(self)@ == old(self)@.drop_first()
            },
            final(self)@ == fifo_step(old(self)@, CIRCULAR_BUFFER_SIZE as nat, None).0,
            r is Some <==> fifo_step(old(self)@, CIRCULAR_BUFFER_SIZE as nat, None).1 is Some,
    {
        proof { self.ring.lemma_bounds(); }
        if self.ring.free_cells() == CIRCULAR_BUFFER_SIZE as usize {
            None
        } else {
            Some(self.ring.pop())
        }
    }

    /// Appends `value`; `Err(())` when all cells are taken.
    pub fn write(&mut self, value: T) -> (r: Result<(), ()>)
        requires
            old(self).wf(),
        ensures
            final(self).wf(),
            old(self)@.len() == CIRCULAR_BUFFER_SIZE ==> r is Err && final(self)@ == old(self)@,
            old(self)@.len() < CIRCULAR_BUFFER_SIZE ==> r is Ok && final(self)@ == old(self)@.push(value),
            final(self)@ == fifo_step(old(self)@, CIRCULAR_BUFFER_SIZE as nat, Some(value)).0,
            r is Ok <==> fifo_step(old(self)@, CIRCULAR_BUFFER_SIZE as nat, Some(value)).2 is Some,
    {
        proof { self.ring.lemma_bounds(); }
        if self.ring.free_cells() == 0 {
            Err(())
        } else {
            self.ring.push(value);
            Ok(())
        }
    }
}

} // verus!
