use vstd::prelude::*;

verus! {

/// Outcome of one attempt at a monitor operation.
///
/// `Pending` means the operation's guard does not hold yet: the state was left
/// untouched and the caller must wait for a notification and try again.
/// `Ready(r)` means the operation took effect and produced `r`.
pub enum Poll<R> {
    Pending,
    Ready(R),
}

impl<R> Poll<R> {
    pub fn is_ready(&self) -> (b: bool)
        ensures
            b == (self is Ready),
    {
        match self {
            Poll::Ready(_) => true,
            Poll::Pending => false,
        }
    }
}

} // verus!

verus! {

/// Outcome of an attempt to hand an item over to a monitor.
///
/// `Pending(item)` means the guard does not hold yet: the state is untouched and
/// the item comes back to the caller, who waits and tries again.
pub enum Handoff<T, R> {
    Pending(T),
    Ready(R),
}

} // verus!
