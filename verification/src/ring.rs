use vstd::prelude::*;
use vstd::arithmetic::div_mod::{lemma_small_mod, lemma_mod_self_0};

verus! {

/// Position of the `k`-th queued element of a ring whose oldest element sits at `read`.
pub open spec fn slot(read: int, k: int, cap: int) -> int {
    if read + k < cap {
        read + k
    } else {
        read + k - cap
    }
}

/// `(i + 1) % cap` for an index inside the ring.
pub open spec fn next_index(i: int, cap: int) -> int {
    if i + 1 == cap {
        0
    } else {
        i + 1
    }
}

/// A bounded FIFO stored in a fixed vector with a read index, a write index
/// and a count of free cells.
pub struct Ring<T> {
    buf: Vec<T>,
    read: usize,
    write: usize,
    free: usize,
}

fn advance(i: usize, cap: usize) -> (r: usize)
    requires
        i < cap,
    ensures
        r == next_index(i as int, cap as int),
{
    proof {
        if i + 1 < cap {
            lemma_small_mod((i + 1) as nat, cap as nat);
        } else {
            lemma_mod_self_0(cap as int);
        }
    }
    (i + 1) % cap
}

impl<T> Ring<T> {
    pub closed spec fn capacity(&self) -> nat {
        self.buf@.len()
    }

    pub closed spec fn wf(&self) -> bool {
        let cap = self.buf@.len() as int;
        &&& self.free <= cap
        &&& cap > 0 ==> {
            &&& self.read < cap
            &&& self.write < cap
            &&& self.write == slot(self.read as int, cap - self.free, cap)
        }
        &&& cap == 0 ==> self.read == 0 && self.write == 0
    }

    /// The queued elements, oldest first.
    pub closed spec fn contents(&self) -> Seq<T> {
        let cap = self.buf@.len() as int;
        Seq::new(
            (cap - self.free) as nat,
            |k: int| self.buf@[slot(self.read as int, k, cap)],
        )
    }

    pub proof fn lemma_bounds(&self)
        requires
            self.wf(),
        ensures
            self.contents().len() <= self.capacity(),
    {
    }

    pub fn from_vec(buf: Vec<T>) -> (r: Self)
        ensures
            r.wf(),
            r.capacity() == buf@.len(),
            r.contents() == Seq::<T>::empty(),
    {
        let n = buf.len();
        let r = Ring { buf, read: 0, write: 0, free: n };
        assert(r.contents() =~= Seq::<T>::empty());
        r
    }

    pub fn free_cells(&self) -> (n: usize)
        requires
            self.wf(),
        ensures
            n == self.capacity() - self.contents().len(),
    {
        self.free
    }

    pub fn capacity_exec(&self) -> (n: usize)
        ensures
            n == self.capacity(),
    {
        self.buf.len()
    }

    /// Stores `v` behind the newest element; the caller has checked that a cell is free.
    pub fn push(&mut self, v: T)
        requires
            old(self).wf(),
            old(self).contents().len() < old(self).capacity(),
        ensures
            final(self).wf(),
            final(self).capacity() == old(self).capacity(),
            final(self).contents() == old(self).contents().push(v),
    {
        let cap = self.buf.len();
        let ghost old_contents = self.contents();
        let w = self.write;
        self.buf.set(w, v);
        self.write = advance(w, cap);
        self.free = self.free - 1;
        assert(self.contents() =~= old_contents.push(v));
    }

    /// Removes the oldest element and returns a clone of it; the caller has checked
    /// that the ring is not empty.
    pub fn pop(&mut self) -> (r: T) where T: Clone
        requires
            old(self).wf(),
            old(self).contents().len() > 0,
        ensures
            final(self).wf(),
            final(self).capacity() == old(self).capacity(),
            final(self).contents() == old(self).contents().drop_first(),
            cloned::<T>(old(self).contents()[0], r),
    {
        let cap = self.buf.len();
        let ghost old_contents = self.contents();
        let rd = self.read;
        let value = self.buf[rd].clone();
        self.read = advance(rd, cap);
        self.free = self.free + 1;
        assert(self.contents() =~= old_contents.drop_first());
        value
    }
}

/// The value of an `Option` as a sequence of at most one item.
pub open spec fn opt_seq<T>(o: Option<T>) -> Seq<T> {
    match o {
        Some(v) => seq![v],
        None => Seq::empty(),
    }
}

/// One operation on a bounded FIFO of capacity `cap` holding `q` (oldest first):
/// `Some(v)` writes `v`, refused when the FIFO is full; `None` reads the oldest
/// value, nothing when the FIFO is empty. Gives the new contents, the value read
/// and the value accepted.
pub open spec fn fifo_step<T>(q: Seq<T>, cap: nat, op: Option<T>) -> (Seq<T>, Option<T>, Option<T>) {
    match op {
        Some(v) => if q.len() < cap {
            (q.push(v), None, Some(v))
        } else {
            (q, None, None)
        },
        None => if q.len() > 0 {
            (q.drop_first(), Some(q[0]), None)
        } else {
            (q, None, None)
        },
    }
}

/// Runs the operations `ops` on a bounded FIFO holding `q`: the final contents,
/// the values read (in order) and the values accepted (in order).
pub open spec fn fifo_run<T>(q: Seq<T>, cap: nat, ops: Seq<Option<T>>) -> (Seq<T>, Seq<T>, Seq<T>)
    decreases ops.len(),
{
    if ops.len() == 0 {
        (q, Seq::empty(), Seq::empty())
    } else {
        let before = fifo_run(q, cap, ops.drop_last());
        let step = fifo_step(before.0, cap, ops.last());
        (step.0, before.1 + opt_seq(step.1), before.2 + opt_seq(step.2))
    }
}

/// A bounded FIFO loses, duplicates and reorders nothing: whatever the
/// operations, the values read followed by the values still queued are the
/// values queued at the start followed by the values accepted; and it never
/// holds more than its capacity.
pub proof fn lemma_fifo_order<T>(q: Seq<T>, cap: nat, ops: Seq<Option<T>>)
    ensures
        fifo_run(q, cap, ops).1 + fifo_run(q, cap, ops).0 == q + fifo_run(q, cap, ops).2,
        q.len() <= cap ==> fifo_run(q, cap, ops).0.len() <= cap,
    decreases ops.len(),
{
    if ops.len() > 0 {
        lemma_fifo_order(q, cap, ops.drop_last());
        let before = fifo_run(q, cap, ops.drop_last());
        let step = fifo_step(before.0, cap, ops.last());
        match ops.last() {
            Some(v) => {
                if before.0.len() < cap {
                    assert(before.1 + before.0.push(v) =~= (before.1 + before.0).push(v));
                    assert(q + (before.2 + seq![v]) =~= (q + before.2).push(v));
                } else {
                    assert(before.1 + Seq::<T>::empty() =~= before.1);
                    assert(before.2 + Seq::<T>::empty() =~= before.2);
                }
            },
            None => {
                if before.0.len() > 0 {
                    assert((before.1 + seq![before.0[0]]) + before.0.drop_first() =~= before.1 + before.0);
                    assert(before.2 + Seq::<T>::empty() =~= before.2);
                } else {
                    assert(before.1 + Seq::<T>::empty() =~= before.1);
                    assert(before.2 + Seq::<T>::empty() =~= before.2);
                }
            },
        }
    }
}

} // verus!
