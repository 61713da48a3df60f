use vstd::prelude::*;

verus! {

/// The sending half of the standard in-process channel; requests and
/// responses travel through it.
#[verifier::external_type_specification]
#[verifier::external_body]
#[verifier::reject_recursive_types(T)]
pub struct ExSender<T>(std::sync::mpsc::Sender<T>);

/// Relies on std::sync::mpsc::Sender::send: the message is accepted exactly
/// when the receiving half is still open, and `send` never panics. The
/// result tells whether it was accepted.
#[verifier::external_body]
pub(crate) fn send_message<T>(s: &std::sync::mpsc::Sender<T>, m: T) -> bool {
    s.send(m).is_ok()
}

/// Relies on std::sync::mpsc::Sender::clone: the clone feeds the same
/// channel as the original.
#[verifier::external_body]
pub(crate) fn clone_sender<T>(s: &std::sync::mpsc::Sender<T>) -> std::sync::mpsc::Sender<T> {
    s.clone()
}

} // verus!
