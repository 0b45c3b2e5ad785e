use vstd::prelude::*;
use crate::poll::Poll;

verus! {

/// A counting semaphore. The view is the number of available resources.
pub struct CountingSemaphoreWithCondvar {
    available: usize,
}

impl View for CountingSemaphoreWithCondvar {
    type V = nat;

    closed spec fn view(&self) -> nat {
        self.available as nat
    }
}

impl CountingSemaphoreWithCondvar {
    /// The number of free places.
    pub fn available(&self) -> (n: usize)
        ensures
            n == self@,
    {
        self.available
    }

    pub fn new(total_resources: usize) -> (r: Self)
        ensures
            r@ == total_resources,
    {
        CountingSemaphoreWithCondvar { available: total_resources }
    }

    /// Takes a resource; pending while none is available.
    pub fn wait(&mut self) -> (r: Poll<()>)
        ensures
            old(self)@ > 0 ==> r is Ready && final(self)@ == old(self)@ - 1,
            old(self)@ == 0 ==> r is Pending && final(self)@ == 0,
    {
        if self.available == 0 {
            Poll::Pending
        } else {
            self.available = self.available - 1;
            Poll::Ready(())
        }
    }

    /// Gives a resource back.
    pub fn signal(&mut self)
        requires
            old(self)@ < usize::MAX,
        ensures
            final(self)@ == old(self)@ + 1,
    {
        self.available = self.available + 1;
    }
}

/// A counting semaphore whose waiters are woken by tokens on a channel. A token
/// is sent only to a registered waiter, and hands a released resource over to
/// it, so that no token is ever left over for a later waiter. The view is the
/// number of available resources and the number of blocked waiters.
pub struct CountingSemaphoreWithChannel {
    available: usize,
    waiting: usize,
}

impl View for CountingSemaphoreWithChannel {
    type V = (nat, nat);

    closed spec fn view(&self) -> (nat, nat) {
        (self.available as nat, self.waiting as nat)
    }
}

impl CountingSemaphoreWithChannel {
    /// Waiters are blocked only while nothing is free.
    pub closed spec fn wf(&self) -> bool {
        self.waiting > 0 ==> self.available == 0
    }

    /// The number of free resources.
    pub fn available(&self) -> (n: usize)
        ensures
            n == self@.0,
    {
        self.available
    }

    /// The number of waiters blocked on the channel.
    pub fn waiting(&self) -> (n: usize)
        ensures
            n == self@.1,
    {
        self.waiting
    }

    pub fn new(total_resources: usize) -> (r: Self)
        ensures
            r.wf(),
            r@ == (total_resources as nat, 0nat),
    {
        CountingSemaphoreWithChannel { available: total_resources, waiting: 0 }
    }

    /// Takes a resource if one is available. Pending when none is: the caller is
    /// then registered as a waiter and blocks until a token hands it a resource.
    pub fn wait(&mut self) -> (r: Poll<()>)
        requires
            old(self).wf(),
            old(self)@.1 < usize::MAX,
        ensures
            final(self).wf(),
            old(self)@.0 > 0 ==> r is Ready && final(self)@ == ((old(self)@.0 - 1) as nat, old(self)@.1),
            old(self)@.0 == 0 ==> r is Pending && final(self)@ == (0nat, old(self)@.1 + 1),
    {
        if self.available == 0 {
            self.waiting = self.waiting + 1;
            Poll::Pending
        } else {
            self.available = self.available - 1;
            Poll::Ready(())
        }
    }

    /// Gives a resource back. Returns `true` when a waiter is blocked: the caller
    /// then sends it one token and the resource passes to it directly; otherwise
    /// the resource becomes available and no token is sent.
    pub fn signal(&mut self) -> (send_token: bool)
        requires
            old(self).wf(),
            old(self)@.1 == 0 ==> old(self)@.0 < usize::MAX,
        ensures
            final(self).wf(),
            send_token <==> old(self)@.1 > 0,
            old(self)@.1 > 0 ==> final(self)@ == (old(self)@.0, (old(self)@.1 - 1) as nat),
            old(self)@.1 == 0 ==> final(self)@ == (old(self)@.0 + 1, 0nat),
    {
        if self.waiting > 0 {
            self.waiting = self.waiting - 1;
            true
        } else {
            self.available = self.available + 1;
            false
        }
    }
}

} // verus!
