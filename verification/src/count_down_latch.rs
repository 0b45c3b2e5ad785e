use vstd::prelude::*;
use crate::poll::Poll;

verus! {

/// The count after one `count_down`: one less, but never below zero.
pub open spec fn count_down_step(count: nat) -> nat {
    if count > 0 {
        (count - 1) as nat
    } else {
        0
    }
}

/// The count of a latch created with `n` after `k` calls of `count_down`.
pub open spec fn after_count_downs(n: nat, k: nat) -> nat
    decreases k,
{
    if k == 0 {
        n
    } else {
        count_down_step(after_count_downs(n, (k - 1) as nat))
    }
}

/// A latch created with `n` lets `a_wait` through after `k` calls of
/// `count_down` exactly when `k >= n`, and it then stays open: its count is
/// `n - k` while `k < n`, and zero from then on.
pub proof fn lemma_latch_opens(n: nat, k: nat)
    ensures
        after_count_downs(n, k) == (if k >= n { 0 } else { n - k }),
        after_count_downs(n, k) == 0 <==> k >= n,
    decreases k,
{
    if k > 0 {
        lemma_latch_opens(n, (k - 1) as nat);
    }
}

/// A latch that opens once it has been counted down to zero. The view is the
/// remaining count.
pub struct CountDownLatch {
    count: usize,
}

impl View for CountDownLatch {
    type V = nat;

    closed spec fn view(&self) -> nat {
        self.count as nat
    }
}

impl CountDownLatch {
    pub fn new(n: usize) -> (r: Self)
        ensures
            r@ == n,
    {
        CountDownLatch { count: n }
    }

    /// Passes once the count is zero.
    pub fn a_wait(&self) -> (r: Poll<()>)
        ensures
            r is Ready <==> self@ == 0,
    {
        if self.count > 0 {
            Poll::Pending
        } else {
            Poll::Ready(())
        }
    }

    /// Decrements a positive count; returns `true` when this opens the latch, so
    /// that every waiter has to be woken. A latch already open stays as it is.
    pub fn count_down(&mut self) -> (opened: bool)
        ensures
            old(self)@ > 0 ==> final(self)@ == old(self)@ - 1,
            old(self)@ == 0 ==> final(self)@ == 0,
            final(self)@ == count_down_step(old(self)@),
            opened == (old(self)@ == 1),
    {
        if self.count > 0 {
            self.count = self.count - 1;
            self.count == 0
        } else {
            false
        }
    }
}

} // verus!
