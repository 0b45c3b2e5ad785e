use vstd::prelude::*;
use std::sync::mpsc::{Sender, Receiver, SendError, RecvError};

verus! {

#[verifier::external_type_specification]
#[verifier::external_body]
#[verifier::reject_recursive_types(T)]
pub struct ExSender<T>(Sender<T>);

#[verifier::external_type_specification]
#[verifier::external_body]
#[verifier::reject_recursive_types(T)]
pub struct ExReceiver<T>(Receiver<T>);

#[verifier::external_type_specification]
#[verifier::external_body]
#[verifier::reject_recursive_types(T)]
pub struct ExSendError<T>(SendError<T>);

#[verifier::external_type_specification]
#[verifier::external_body]
pub struct ExRecvError(RecvError);

/// Calls `std::sync::mpsc::channel`, which creates a connected sender and
/// receiver; nothing is stated of the two handles.
#[verifier::external_body]
pub(crate) fn open_channel<T>() -> (Sender<T>, Receiver<T>) {
    std::sync::mpsc::channel()
}

/// Calls `Sender::send`. Whether it succeeds depends on whether the receiving
/// end is still alive, which belongs to other threads: nothing is stated.
#[verifier::external_body]
pub(crate) fn send_message<T>(sender: &Sender<T>, msg: T) -> Result<(), SendError<T>> {
    sender.send(msg)
}

/// Calls `Receiver::recv`, which blocks until a message arrives or every sender
/// is gone; what comes back belongs to other threads: nothing is stated.
#[verifier::external_body]
pub(crate) fn receive_message<T>(receiver: &Receiver<T>) -> Result<T, RecvError> {
    receiver.recv()
}

} // verus!
