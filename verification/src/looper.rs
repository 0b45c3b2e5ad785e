use vstd::prelude::*;
use std::sync::mpsc::{Sender, SendError};
use crate::channel::send_message;

verus! {

/// A message for a `Looper`.
pub struct Message<T> {
    message: T,
}

impl<T> View for Message<T> {
    type V = T;

    closed spec fn view(&self) -> T {
        self.message
    }
}

impl<T: Clone> Message<T> {
    pub fn new(message: T) -> (r: Self)
        ensures
            r@ == message,
    {
        Message { message }
    }

    /// A copy of the content.
    pub fn content(&self) -> (r: T)
        ensures
            cloned::<T>(self@, r),
    {
        self.message.clone()
    }
}

/// What `Looper::send` answers for the reply of the channel: `Some(())` when
/// the message was handed over, `None` when the processing thread is gone.
pub fn send_outcome<T>(reply: Result<(), SendError<T>>) -> (r: Option<()>)
    ensures
        reply is Ok <==> r is Some,
{
    match reply {
        Ok(()) => Some(()),
        Err(_) => None,
    }
}

/// The sending side of a looper: messages go, in order, to one thread that
/// processes them and cleans up once every sender is gone.
#[verifier::reject_recursive_types(T)]
pub struct Looper<T> {
    sender: Sender<Message<T>>,
}

impl<T: Clone + Send> Looper<T> {
    pub closed spec fn sender(&self) -> Sender<Message<T>> {
        self.sender
    }

    /// A looper sending to the processing thread fed by `sender`.
    pub fn with_sender(sender: Sender<Message<T>>) -> (r: Self)
        ensures
            r.sender() == sender,
    {
        Looper { sender }
    }

    /// Hands `message` over to the processing thread; `None` when that thread
    /// is gone. Which of the two it is depends on the other thread alone; the
    /// reply of the channel is answered by `send_outcome`.
    pub fn send(&self, message: Message<T>) -> Option<()> {
        send_outcome(send_message(&self.sender, message))
    }
}

} // verus!
