use vstd::prelude::*;

verus! {

/// Index of the first element whose deadline is the smallest one.
pub open spec fn first_min_index<T>(s: Seq<(T, i64)>) -> int
    decreases s.len(),
{
    if s.len() <= 1 {
        0
    } else {
        let i = first_min_index(s.drop_last());
        if s.last().1 < s[i].1 {
            s.len() - 1
        } else {
            i
        }
    }
}

/// `idx` is the position of the earliest deadline, the first one among equals.
pub open spec fn is_first_min<T>(s: Seq<(T, i64)>, idx: int) -> bool {
    &&& 0 <= idx < s.len()
    &&& forall|j: int| 0 <= j < s.len() ==> s[idx].1 <= #[trigger] s[j].1
    &&& forall|j: int| 0 <= j < idx ==> s[idx].1 < #[trigger] s[j].1
}

/// `first_min_index` picks the earliest deadline, the first one among equals.
pub proof fn lemma_first_min_index<T>(s: Seq<(T, i64)>)
    requires
        s.len() > 0,
    ensures
        is_first_min(s, first_min_index(s)),
    decreases s.len(),
{
    if s.len() > 1 {
        let p = s.drop_last();
        lemma_first_min_index(p);
        let i = first_min_index(p);
        assert forall|j: int| 0 <= j < p.len() implies p[j] == s[j] by {}
    }
}

/// What a consumer of a `DelayedQueue` has to do next.
pub enum Take<T> {
    /// The operation is over: `None` when the queue was empty, otherwise the
    /// element whose deadline passed.
    Ready(Option<T>),
    /// The earliest deadline is not over yet: wait at most this many ticks (or
    /// until a notification) and try again.
    WaitFor(u64),
}

/// A queue whose elements become available once their deadline (in ticks of
/// a clock chosen by the caller) has passed; the earliest deadline leaves first.
pub struct DelayedQueue<T> {
    items: Vec<(T, i64)>,
}

impl<T> View for DelayedQueue<T> {
    type V = Seq<(T, i64)>;

    closed spec fn view(&self) -> Seq<(T, i64)> {
        self.items@
    }
}

impl<T> DelayedQueue<T> {
    pub fn new() -> (r: Self)
        ensures
            r@ == Seq::<(T, i64)>::empty(),
    {
        DelayedQueue { items: Vec::new() }
    }

    /// Adds `t`, due at tick `deadline`.
    pub fn offer(&mut self, t: T, deadline: i64)
        ensures
            final(self)@ == old(self)@.push((t, deadline)),
    {
        self.items.push((t, deadline));
    }

    /// At tick `now`: hands out the element with the earliest deadline (the
    /// first one among equals) if that deadline is before `now`; otherwise says
    /// how long to wait. An empty queue gives `Ready(None)` at once.
    pub fn take(&mut self, now: i64) -> (r: Take<T>)
        ensures
            old(self)@.len() == 0 ==> r == Take::<T>::Ready(None) && final(self)@ == old(self)@,
            old(self)@.len() > 0 ==> {
                let idx = first_min_index(old(self)@);
                let due = old(self)@[idx].1;
                &&& is_first_min(old(self)@, idx)
                &&& due < now ==> r == Take::Ready(Some(old(self)@[idx].0))
                    && final(self)@ == old(self)@.remove(idx)
                &&& due >= now ==> r == Take::<T>::WaitFor((due - now) as u64)
                    && final(self)@ == old(self)@
            },
    {
        let n = self.items.len();
        if n == 0 {
            return Take::Ready(None);
        }
        let mut min = self.items[0].1;
        let mut index: usize = 0;
        let mut i: usize = 1;
        while i < n
            invariant
                n == self.items@.len(),
                1 <= i <= n,
                index < i,
                index == first_min_index(self.items@.take(i as int)),
                min == self.items@[index as int].1,
                self.items@ == old(self).items@,
            decreases n - i,
        {
            proof {
                let t = self.items@.take(i + 1);
                assert(t.drop_last() =~= self.items@.take(i as int));
            }
            let inst = self.items[i].1;
            if inst < min {
                min = inst;
                index = i;
            }
            i = i + 1;
        }
        proof {
            assert(self.items@.take(n as int) =~= self.items@);
            lemma_first_min_index(self.items@);
        }
        if min < now {
            let (t, _) = self.items.remove(index);
            Take::Ready(Some(t))
        } else {
            let wait = (min as i128 - now as i128) as u64;
            Take::WaitFor(wait)
        }
    }

    pub fn size(&self) -> (n: usize)
        ensures
            n == self@.len(),
    {
        self.items.len()
    }
}

} // verus!
