use vstd::prelude::*;
use crate::poll::Poll;

verus! {

/// A binary semaphore: one holder at a time. The view is `true` while it is held.
pub struct BinarySemaphore {
    held: bool,
}

impl View for BinarySemaphore {
    type V = bool;

    closed spec fn view(&self) -> bool {
        self.held
    }
}

impl BinarySemaphore {
    pub fn new() -> (r: Self)
        ensures
            r@ == false,
    {
        BinarySemaphore { held: false }
    }

    /// Takes the semaphore if it is free; pending while someone holds it.
    pub fn wait(&mut self) -> (r: Poll<()>)
        ensures
            final(self)@ == true,
            r is Ready <==> !old(self)@,
    {
        if self.held {
            Poll::Pending
        } else {
            self.held = true;
            Poll::Ready(())
        }
    }

    /// Gives the semaphore back.
    pub fn signal(&mut self)
        ensures
            final(self)@ == false,
    {
        self.held = false;
    }
}

/// A binary semaphore whose waiters are woken by tokens on a channel. A token
/// is sent only to a registered waiter, and hands the semaphore over to it, so
/// that no token is ever left over for a later waiter. The view is whether the
/// semaphore is held and how many waiters are blocked on the channel.
pub struct BinarySemaphoreChannel {
    held: bool,
    waiting: usize,
}

impl View for BinarySemaphoreChannel {
    type V = (bool, nat);

    closed spec fn view(&self) -> (bool, nat) {
        (self.held, self.waiting as nat)
    }
}

impl BinarySemaphoreChannel {
    /// Only a held semaphore has waiters.
    pub closed spec fn wf(&self) -> bool {
        self.waiting > 0 ==> self.held
    }

    pub fn new() -> (r: Self)
        ensures
            r.wf(),
            r@ == (false, 0nat),
    {
        BinarySemaphoreChannel { held: false, waiting: 0 }
    }

    /// The number of waiters blocked on the channel.
    pub fn waiting(&self) -> (n: usize)
        ensures
            n == self@.1,
    {
        self.waiting
    }

    /// Takes the semaphore if it is free. Pending while it is held: the caller
    /// is then registered as a waiter and blocks until it receives a token,
    /// which hands it the semaphore.
    pub fn wait(&mut self) -> (r: Poll<()>)
        requires
            old(self).wf(),
            old(self)@.1 < usize::MAX,
        ensures
            final(self).wf(),
            !old(self)@.0 ==> r is Ready && final(self)@ == (true, old(self)@.1),
            old(self)@.0 ==> r is Pending && final(self)@ == (true, old(self)@.1 + 1),
    {
        if self.held {
            self.waiting = self.waiting + 1;
            Poll::Pending
        } else {
            self.held = true;
            Poll::Ready(())
        }
    }

    /// Gives the semaphore back. Returns `true` when a waiter is blocked: the
    /// caller then sends it one token and the semaphore passes to it directly;
    /// otherwise the semaphore becomes free and no token is sent.
    pub fn signal(&mut self) -> (send_token: bool)
        requires
            old(self).wf(),
        ensures
            final(self).wf(),
            send_token <==> old(self)@.1 > 0,
            old(self)@.1 > 0 ==> final(self)@ == (true, (old(self)@.1 - 1) as nat),
            old(self)@.1 == 0 ==> final(self)@ == (false, 0nat),
    {
        if self.waiting > 0 {
            self.waiting = self.waiting - 1;
            true
        } else {
            self.held = false;
            false
        }
    }
}

} // verus!
