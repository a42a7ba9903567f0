//! The boundary to `tokio`'s unbounded channel, which carries outbound text to
//! the task that writes to a member's connection.

use vstd::prelude::*;

verus! {

/// The sending half of `tokio`'s unbounded channel.
#[verifier::external_type_specification]
#[verifier::external_body]
#[verifier::reject_recursive_types(T)]
pub struct ExUnboundedSender<T>(tokio::sync::mpsc::UnboundedSender<T>);

/// The receiving half of `tokio`'s unbounded channel.
#[verifier::external_type_specification]
#[verifier::external_body]
#[verifier::reject_recursive_types(T)]
pub struct ExUnboundedReceiver<T>(tokio::sync::mpsc::UnboundedReceiver<T>);

/// Calls `tokio::sync::mpsc::unbounded_channel` and returns the two halves of a
/// new channel. Nothing is claimed of them.
#[verifier::external_body]
pub(crate) fn open_channel() -> (ends: (
    tokio::sync::mpsc::UnboundedSender<String>,
    tokio::sync::mpsc::UnboundedReceiver<String>,
)) {
    tokio::sync::mpsc::unbounded_channel()
}

/// Calls `tokio::sync::mpsc::UnboundedSender::send`, which never waits, and tells
/// whether the channel took the text. It refuses once the receiving half is closed
/// or dropped, so nothing is claimed of the answer.
#[verifier::external_body]
pub(crate) fn offer(outbox: &tokio::sync::mpsc::UnboundedSender<String>, text: String) -> (accepted:
    bool) {
    outbox.send(text).is_ok()
}

} // verus!
