use vstd::prelude::*;
use std::sync::mpsc::{Sender, Receiver, RecvError};
use crate::channel::{open_channel, send_message, receive_message};

verus! {

/// The items of `s` whose flag in `keep` is set, in order.
pub open spec fn kept<A>(s: Seq<A>, keep: Seq<bool>) -> Seq<A>
    decreases s.len(),
{
    if s.len() == 0 {
        Seq::empty()
    } else {
        let rest = kept(s.drop_last(), keep.drop_last());
        if keep.last() { rest.push(s.last()) } else { rest }
    }
}

proof fn lemma_kept_prepend<A>(x: A, b: bool, s: Seq<A>, keep: Seq<bool>)
    requires
        keep.len() == s.len(),
    ensures
        kept(seq![x] + s, seq![b] + keep) == (if b { seq![x] } else { Seq::<A>::empty() }) + kept(s, keep),
    decreases s.len(),
{
    let s2 = seq![x] + s;
    let k2 = seq![b] + keep;
    if s.len() == 0 {
        assert(s2.drop_last() =~= Seq::<A>::empty());
        assert(k2.drop_last() =~= Seq::<bool>::empty());
        assert(kept(s, keep) =~= Seq::<A>::empty());
        assert(kept(s2.drop_last(), k2.drop_last()) =~= Seq::<A>::empty());
        assert(s2.last() == x && k2.last() == b);
        assert(kept(s2, k2) =~= (if b { seq![x] } else { Seq::<A>::empty() }) + kept(s, keep));
    } else {
        lemma_kept_prepend(x, b, s.drop_last(), keep.drop_last());
        assert(s2.drop_last() =~= seq![x] + s.drop_last());
        assert(k2.drop_last() =~= seq![b] + keep.drop_last());
        assert(s2.last() == s.last());
        assert(k2.last() == keep.last());
        let pre = if b { seq![x] } else { Seq::<A>::empty() };
        assert(kept(s2.drop_last(), k2.drop_last()) == pre + kept(s.drop_last(), keep.drop_last()));
        if keep.last() {
            assert((pre + kept(s.drop_last(), keep.drop_last())).push(s.last()) =~= pre + kept(s.drop_last(), keep.drop_last()).push(s.last()));
        }
        assert(kept(s2, k2) =~= (if b { seq![x] } else { Seq::<A>::empty() }) + kept(s, keep));
    }
}

/// Broadcasts messages to every subscription; subscriptions whose reading end
/// is gone are dropped. The view is the list of senders, one per subscription.
#[verifier::reject_recursive_types(Msg)]
pub struct Dispatcher<Msg> {
    senders: Vec<Sender<Msg>>,
}

impl<Msg> View for Dispatcher<Msg> {
    type V = Seq<Sender<Msg>>;

    closed spec fn view(&self) -> Seq<Sender<Msg>> {
        self.senders@
    }
}

impl<Msg: Send + Clone> Dispatcher<Msg> {
    pub fn new() -> (r: Self)
        ensures
            r@ == Seq::<Sender<Msg>>::empty(),
    {
        Dispatcher { senders: Vec::new() }
    }

    /// Carries out `dispatch_plan`: hands a clone of `msg` to every
    /// subscription, the newest first; those whose send failed (the reading end
    /// is gone) are then removed by `drop_failed`, the others stay in order.
    pub fn dispatch(&mut self, msg: Msg)
        ensures
            exists|failed: Seq<bool>|
                failed.len() == old(self)@.len() && final(self)@ == kept(
                    old(self)@,
                    failed.map_values(|b: bool| !b),
                ),
    {
        let n = self.senders.len();
        let mut plan = dispatch_plan(n, &msg);
        let mut failed: Vec<bool> = vec![false; n];
        while plan.len() > 0
            invariant
                plan.len() <= n,
                n == self.senders.len(),
                failed.len() == n,
                self.senders@ == old(self).senders@,
                forall|k: int| 0 <= k < plan.len() ==> (#[trigger] plan@[k]).0 == k,
            decreases plan.len(),
        {
            let ghost k = plan.len() - 1;
            assert(plan@[k].0 == k);
            let (j, copy) = plan.pop().unwrap();
            let outcome = send_message(&self.senders[j], copy);
            failed.set(j, outcome.is_err());
        }
        drop_failed(&mut self.senders, &failed);
    }

    /// Opens a new subscription, which receives every message dispatched from now on.
    pub fn subscribe(&mut self) -> (r: Subscription<Msg>)
        ensures
            final(self)@.len() == old(self)@.len() + 1,
            final(self)@.drop_last() == old(self)@,
    {
        let (sender, receiver) = open_channel();
        self.senders.push(sender);
        assert(self.senders@.drop_last() =~= old(self).senders@);
        Subscription::new(receiver)
    }
}

/// The sends that `dispatch` makes to `n` subscriptions: entry `k` hands a
/// clone of `msg` to subscription `k`. They are made from the last entry to the
/// first, so the newest subscription is served first.
pub fn dispatch_plan<Msg: Clone>(n: usize, msg: &Msg) -> (plan: Vec<(usize, Msg)>)
    ensures
        plan.len() == n,
        forall|k: int| 0 <= k < n ==> (#[trigger] plan@[k]).0 == k && cloned::<Msg>(*msg, plan@[k].1),
{
    let mut plan: Vec<(usize, Msg)> = Vec::new();
    let mut k: usize = 0;
    while k < n
        invariant
            k <= n,
            plan.len() == k,
            forall|i: int| 0 <= i < k ==> (#[trigger] plan@[i]).0 == i && cloned::<Msg>(*msg, plan@[i].1),
        decreases n - k,
    {
        plan.push((k, msg.clone()));
        k = k + 1;
    }
    plan
}

/// Removes the items whose send failed (`failed[i]` for `items[i]`); the others
/// stay, in order.
pub fn drop_failed<A>(items: &mut Vec<A>, failed: &Vec<bool>)
    requires
        old(items).len() == failed.len(),
    ensures
        final(items)@ == kept(old(items)@, failed@.map_values(|b: bool| !b)),
{
    let ghost start = items@;
    let ghost keep = failed@.map_values(|b: bool| !b);
    let mut i = items.len();
    while i > 0
        invariant
            i <= start.len(),
            failed.len() == start.len(),
            keep == failed@.map_values(|b: bool| !b),
            items@ == start.take(i as int) + kept(start.skip(i as int), keep.skip(i as int)),
        decreases i,
    {
        let j = i - 1;
        proof {
            assert(start.skip(j as int) =~= seq![start[j as int]] + start.skip(i as int));
            assert(keep.skip(j as int) =~= seq![keep[j as int]] + keep.skip(i as int));
            lemma_kept_prepend(start[j as int], keep[j as int], start.skip(i as int), keep.skip(i as int));
            assert(start.take(i as int) =~= start.take(j as int).push(start[j as int]));
        }
        if failed[j] {
            items.remove(j);
        }
        assert(items@ =~= start.take(j as int) + kept(start.skip(j as int), keep.skip(j as int)));
        i = j;
    }
    assert(start.skip(0) =~= start);
    assert(keep.skip(0) =~= keep);
    assert(start.take(0) + kept(start, keep) =~= kept(start, keep));
}

/// What `Subscription::read` answers for the reply of the channel: the message
/// received, or `None` when the dispatching side is gone.
pub fn read_outcome<Msg>(reply: Result<Msg, RecvError>) -> (r: Option<Msg>)
    ensures
        reply matches Ok(m) ==> r == Some(m),
        reply is Err ==> r is None,
{
    match reply {
        Ok(message) => Some(message),
        Err(_) => None,
    }
}

/// The reading end of a subscription to a `Dispatcher`.
#[verifier::reject_recursive_types(Msg)]
pub struct Subscription<Msg> {
    receiver: Receiver<Msg>,
}

impl<Msg: Send + Clone> Subscription<Msg> {
    pub fn new(receiver: Receiver<Msg>) -> (r: Self)
        ensures
            r.receiver() == receiver,
    {
        Subscription { receiver }
    }

    pub closed spec fn receiver(&self) -> Receiver<Msg> {
        self.receiver
    }

    /// Waits for the next message; `None` once the dispatcher is gone. What
    /// arrives is decided by the other threads; the reply of the channel is
    /// answered by `read_outcome`.
    pub fn read(&self) -> Option<Msg> {
        read_outcome(receive_message(&self.receiver))
    }
}

} // verus!
