use vstd::prelude::*;
use crate::poll::Handoff;

verus! {

/// Lets two threads swap values: each call leaves its message in the slot and
/// takes the one left by the other thread. The view is the id of the last thread
/// that exchanged and the value waiting in the slot.
pub struct Exchanger<T> {
    last_id: usize,
    slot: T,
}

impl<T> View for Exchanger<T> {
    type V = (usize, T);

    closed spec fn view(&self) -> (usize, T) {
        (self.last_id, self.slot)
    }
}

impl<T: Default + Clone> Exchanger<T> {
    /// The slot starts with the default value, as if left by thread 0.
    pub fn new() -> (r: Self)
        ensures
            r@.0 == 0,
            call_ensures(T::default, (), r@.1),
    {
        Exchanger { last_id: 0, slot: T::default() }
    }

    /// Thread `id` leaves `message` and takes (a clone of) the value in the slot.
    /// The message comes back as pending while the last exchange was made by
    /// the same thread, which has to wait for the other one.
    pub fn exchange(&mut self, id: usize, message: T) -> (r: Handoff<T, T>)
        ensures
            old(self)@.0 == id ==> r == Handoff::<T, T>::Pending(message) && final(self)@ == old(self)@,
            old(self)@.0 != id ==> {
                &&& r matches Handoff::Ready(received)
                &&& cloned::<T>(old(self)@.1, received)
                &&& final(self)@ == (id, message)
            },
    {
        if self.last_id == id {
            return Handoff::Pending(message);
        }
        self.last_id = id;
        let received = self.slot.clone();
        self.slot = message;
        Handoff::Ready(received)
    }
}

/// The thread on the other side of a two-thread channel exchanger.
pub fn exchange_peer(i: usize) -> (j: usize)
    requires
        i < 2,
    ensures
        j == 1 - i,
{
    1 - i
}

} // verus!
