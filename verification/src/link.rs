//! The handles that tie a connection to its two pollers: the sending half
//! of the queue of packets to write, and the tasks that run the pollers.

use vstd::prelude::*;

verus! {

/// `tokio::sync::mpsc::UnboundedSender`, the sending half of a queue without
/// bound. Nothing is known of what it holds.
#[verifier::external_type_specification]
#[verifier::external_body]
#[verifier::reject_recursive_types(T)]
pub struct ExUnboundedSender<T>(tokio::sync::mpsc::UnboundedSender<T>);

/// `tokio::task::JoinHandle`, the handle of a task of the runtime. Nothing
/// is known of the task.
#[verifier::external_type_specification]
#[verifier::external_body]
#[verifier::reject_recursive_types(T)]
pub struct ExJoinHandle<T>(tokio::task::JoinHandle<T>);

/// `tokio::task::JoinError`, which a `JoinHandle` yields when it is awaited:
/// declared because the handle's type names it.
#[verifier::external_type_specification]
#[verifier::external_body]
pub struct ExJoinError(tokio::task::JoinError);

/// `tokio_xmpp::Packet`, what is written to an XMPP stream. It is carried
/// from a send to the queue, and from the queue to the stream, unread.
#[verifier::external_type_specification]
#[verifier::external_body]
pub struct ExPacket(tokio_xmpp::Packet);

/// Whether a text is one XML element as `minidom` reads it.
pub uninterp spec fn stanza_parses(stanza: Seq<char>) -> bool;

/// `tokio::task::JoinHandle::abort`: asks the runtime to cancel the task. It
/// returns nothing and is safe on a task that has already finished; nothing
/// is claimed of the task afterwards.
pub assume_specification<T>[ tokio::task::JoinHandle::<T>::abort ](
    handle: &tokio::task::JoinHandle<T>,
);

/// Hands `packet` to `tokio::sync::mpsc::UnboundedSender::send` and tells
/// whether the queue took it. The queue refuses a packet once its receiving
/// half is closed or dropped, which depends on the task that holds it:
/// nothing is claimed of the answer.
#[verifier::external_body]
pub(crate) fn enqueue(
    sender: &tokio::sync::mpsc::UnboundedSender<tokio_xmpp::Packet>,
    packet: tokio_xmpp::Packet,
) -> (delivered: bool) {
    sender.send(packet).is_ok()
}

/// Parses `stanza` with `minidom`'s `FromStr` for `Element` and wraps the
/// element as `tokio_xmpp::Packet::Stanza`. Believed, not proved: a packet
/// comes back exactly for the texts that `stanza_parses` names.
#[verifier::external_body]
pub(crate) fn parse_stanza(stanza: &str) -> (packet: Option<tokio_xmpp::Packet>)
    ensures
        packet is Some <==> stanza_parses(stanza@),
{
    match stanza.parse::<tokio_xmpp::minidom::Element>() {
        Ok(element) => Some(tokio_xmpp::Packet::Stanza(element)),
        Err(_) => None,
    }
}

/// The packet `tokio_xmpp::Packet::StreamEnd`, which asks the server to
/// close the stream.
#[verifier::external_body]
pub(crate) fn stream_end() -> (packet: tokio_xmpp::Packet) {
    tokio_xmpp::Packet::StreamEnd
}

} // verus!
