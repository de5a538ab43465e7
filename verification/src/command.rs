//! What the caller asks of a connection: connect, send, disconnect and
//! destroy.

use crate::address::{bare_jid, parse_bare_jid};
use crate::error::{ConnectError, DisconnectError, SendError};
use crate::event::{abort_emissions, emit_connection_abort, emitted};
use crate::event::{ConnectionState, Emission, EmissionView};
use crate::link::{enqueue, parse_stanza, stanza_parses, stream_end};
use crate::registry::{bound, ConnectionClient, ConnectionClientState};
use tokio::sync::mpsc::UnboundedSender;
use tokio::task::JoinHandle;
use tokio_xmpp::Packet;
use vstd::prelude::*;

verus! {

/// What a connect under `id` answers where `connections` exist, by the
/// bare JID that its address was read as, `None` for an address that is no
/// JID: the address must be a JID, the identifier new, and no connection
/// bound to the same bare JID. The first of these that fails names the error.
pub open spec fn bare_connect_result(
    connections: Map<Seq<char>, Seq<char>>,
    id: Seq<char>,
    bare: Option<Seq<char>>,
) -> Result<(), ConnectError> {
    match bare {
        None => Err(ConnectError::InvalidJid),
        Some(jid) => if connections.dom().contains(id) {
            Err(ConnectError::ConnectionAlreadyExists)
        } else if bound(connections, jid) {
            Err(ConnectError::AnotherConnectionBound)
        } else {
            Ok(())
        },
    }
}

/// The connections after that connect: one more where it is accepted, the
/// same where it is refused.
pub open spec fn bare_connected(
    connections: Map<Seq<char>, Seq<char>>,
    id: Seq<char>,
    bare: Option<Seq<char>>,
) -> Map<Seq<char>, Seq<char>> {
    match bare {
        Some(jid) if bare_connect_result(connections, id, bare) is Ok => connections.insert(
            id,
            jid,
        ),
        _ => connections,
    }
}

/// What a connect under `id` to `address` answers where `connections` exist.
pub open spec fn connect_result(
    connections: Map<Seq<char>, Seq<char>>,
    id: Seq<char>,
    address: Seq<char>,
) -> Result<(), ConnectError> {
    bare_connect_result(connections, id, bare_jid(address))
}

/// The connections after a connect under `id` to `address`.
pub open spec fn connected(
    connections: Map<Seq<char>, Seq<char>>,
    id: Seq<char>,
    address: Seq<char>,
) -> Map<Seq<char>, Seq<char>> {
    bare_connected(connections, id, bare_jid(address))
}

/// What an `Option<String>` holds, as a sequence of characters.
pub open spec fn text_view(text: Option<String>) -> Option<Seq<char>> {
    match text {
        Some(text) => Some(text@),
        None => None,
    }
}

/// What a send on connection `id` answers where `connections` exist, by
/// whether its stanza was read as a packet and whether the queue of the
/// connection took the packet.
pub open spec fn packet_send_result(
    connections: Map<Seq<char>, Seq<char>>,
    id: Seq<char>,
    parsed: bool,
    delivered: bool,
) -> Result<(), SendError> {
    if !connections.dom().contains(id) {
        Err(SendError::ConnectionDoesNotExist)
    } else if !parsed {
        Err(SendError::CannotParse)
    } else if delivered {
        Ok(())
    } else {
        Err(SendError::CannotWrite)
    }
}

/// What a send of `stanza` on connection `id` answers where `connections`
/// exist, given whether the queue of the connection took the packet.
pub open spec fn send_result(
    connections: Map<Seq<char>, Seq<char>>,
    id: Seq<char>,
    stanza: Seq<char>,
    delivered: bool,
) -> Result<(), SendError> {
    packet_send_result(connections, id, stanza_parses(stanza), delivered)
}

/// What that send reports: nothing, unless the queue refused the packet;
/// then the connection is reported as ended by a connection error.
pub open spec fn send_emissions(
    connections: Map<Seq<char>, Seq<char>>,
    id: Seq<char>,
    stanza: Seq<char>,
    delivered: bool,
) -> Seq<EmissionView> {
    if send_result(connections, id, stanza, delivered) == Err::<(), SendError>(
        SendError::CannotWrite,
    ) {
        abort_emissions(id, ConnectionState::ConnectionError)
    } else {
        Seq::empty()
    }
}

/// What a disconnect of connection `id` answers where `connections` exist,
/// given whether the queue of the connection took the end of the stream.
pub open spec fn disconnect_result(
    connections: Map<Seq<char>, Seq<char>>,
    id: Seq<char>,
    delivered: bool,
) -> Result<(), DisconnectError> {
    if !connections.dom().contains(id) {
        Err(SendError::ConnectionDoesNotExist)
    } else if delivered {
        Ok(())
    } else {
        Err(SendError::CannotWrite)
    }
}

/// What that disconnect reports: `Disconnected` at once where the queue
/// took the end of the stream, a connection error and then `Disconnected`
/// where it did not, and nothing for a connection that does not exist.
pub open spec fn disconnect_emissions(
    connections: Map<Seq<char>, Seq<char>>,
    id: Seq<char>,
    delivered: bool,
) -> Seq<EmissionView> {
    if !connections.dom().contains(id) {
        Seq::empty()
    } else if delivered {
        abort_emissions(id, ConnectionState::Disconnected)
    } else {
        abort_emissions(id, ConnectionState::ConnectionError)
    }
}

/// Whether a connect under `id` would be accepted, and if not, why, by the
/// bare JID that its address was read as: `None` for an address that is no
/// JID. The registry is left as it is.
pub fn check_connect_bare(
    state: &ConnectionClientState,
    id: &str,
    bare: &Option<String>,
) -> (result: Result<(), ConnectError>)
    ensures
        result == bare_connect_result(state@, id@, text_view(*bare)),
{
    match bare {
        None => Err(ConnectError::InvalidJid),
        Some(jid) => {
            if state.contains(id) {
                Err(ConnectError::ConnectionAlreadyExists)
            } else if state.is_bound(jid.as_str()) {
                Err(ConnectError::AnotherConnectionBound)
            } else {
                Ok(())
            }
        },
    }
}

/// Whether a connect under `id` to the address `jid` would be accepted, and
/// if not, why. The registry is left as it is: a caller asks before it
/// starts the pollers of the connection.
pub fn check_connect(state: &ConnectionClientState, id: &str, jid: &str) -> (result: Result<
    (),
    ConnectError,
>)
    ensures
        result == connect_result(state@, id@, jid@),
{
    let bare = parse_bare_jid(jid);
    check_connect_bare(state, id, &bare)
}

/// Adds the connection `id`, bound to the account whose bare JID is
/// `bare`, with the queue and the pollers that the caller started for it;
/// `None` stands for an address that is no JID. A connect that is refused
/// leaves the registry as it was and stops the two pollers it was handed.
pub fn connect_bare(
    state: &mut ConnectionClientState,
    id: &str,
    bare: Option<String>,
    sender: UnboundedSender<Packet>,
    read_handle: JoinHandle<()>,
    write_handle: JoinHandle<()>,
) -> (result: Result<(), ConnectError>)
    ensures
        result == bare_connect_result(old(state)@, id@, text_view(bare)),
        final(state)@ == bare_connected(old(state)@, id@, text_view(bare)),
        final(state).spec_len() == old(state).spec_len() + (if result is Ok {
            1nat
        } else {
            0nat
        }),
        final(state).unique(),
{
    match check_connect_bare(state, id, &bare) {
        Ok(()) => {
            let jid = bare.unwrap();
            state.insert(ConnectionClient::new(id, jid, sender, read_handle, write_handle));
            Ok(())
        },
        Err(error) => {
            write_handle.abort();
            read_handle.abort();
            state.uniqueness();
            Err(error)
        },
    }
}

/// Adds the connection `id` to the address `jid`, with the queue and the
/// pollers that the caller started for it. The connection is bound to the
/// bare JID of the address. A connect that is refused leaves the registry
/// as it was and stops the two pollers it was handed.
pub fn connect(
    state: &mut ConnectionClientState,
    id: &str,
    jid: &str,
    sender: UnboundedSender<Packet>,
    read_handle: JoinHandle<()>,
    write_handle: JoinHandle<()>,
) -> (result: Result<(), ConnectError>)
    ensures
        result == connect_result(old(state)@, id@, jid@),
        final(state)@ == connected(old(state)@, id@, jid@),
        final(state).spec_len() == old(state).spec_len() + (if result is Ok {
            1nat
        } else {
            0nat
        }),
        final(state).unique(),
{
    let bare = parse_bare_jid(jid);
    connect_bare(state, id, bare, sender, read_handle, write_handle)
}

/// Stops both pollers of a connection.
fn kill_event_handlers(connection: &ConnectionClient) {
    connection.write_handle.abort();
    connection.read_handle.abort();
}

/// Removes the connection `id`, stops its pollers and drops its end of the
/// queue. Where no such connection exists, nothing changes.
pub fn destroy(id: &str, state: &mut ConnectionClientState) -> (result: Result<(), ()>)
    ensures
        result is Ok,
        final(state)@ == old(state)@.remove(id@),
        !old(state)@.dom().contains(id@) ==> final(state)@ == old(state)@ && final(state).spec_len()
            == old(state).spec_len(),
        old(state)@.dom().contains(id@) ==> final(state).spec_len() + 1 == old(state).spec_len(),
        final(state).unique(),
{
    match state.remove(id) {
        Some(connection) => {
            kill_event_handlers(&connection);
        },
        None => {},
    }
    Ok(())
}

/// Recovers from a queue that no poller reads any more: stops both pollers
/// of the connection and reports it as ended by a connection error, which
/// tells the caller to destroy it.
pub fn recover_closed_sender_channel(
    outbox: &mut Vec<Emission>,
    id: &str,
    connection: &ConnectionClient,
)
    ensures
        emitted(final(outbox)@) == emitted(old(outbox)@) + abort_emissions(
            id@,
            ConnectionState::ConnectionError,
        ),
{
    kill_event_handlers(connection);
    emit_connection_abort(outbox, id, ConnectionState::ConnectionError);
}

/// Concludes a disconnect of `connection`, known as `id`, once its queue
/// was handed the end of the stream: `delivered` tells whether the queue
/// took it. The connection counts as disconnected at once, without waiting
/// for the server to acknowledge; a queue that refused is recovered from.
pub fn settle_disconnect(
    outbox: &mut Vec<Emission>,
    id: &str,
    connection: &ConnectionClient,
    delivered: bool,
) -> (result: Result<(), DisconnectError>)
    ensures
        result == if delivered {
            Ok::<(), DisconnectError>(())
        } else {
            Err(SendError::CannotWrite)
        },
        emitted(final(outbox)@) == emitted(old(outbox)@) + abort_emissions(
            id@,
            if delivered {
                ConnectionState::Disconnected
            } else {
                ConnectionState::ConnectionError
            },
        ),
{
    if delivered {
        emit_connection_abort(outbox, id, ConnectionState::Disconnected);
        Ok(())
    } else {
        recover_closed_sender_channel(outbox, id, connection);
        Err(SendError::CannotWrite)
    }
}

/// Concludes a send on `connection`, known as `id`, once its queue was
/// handed the packet: `delivered` tells whether the queue took it. A queue
/// that refused is recovered from.
pub fn settle_send(
    outbox: &mut Vec<Emission>,
    id: &str,
    connection: &ConnectionClient,
    delivered: bool,
) -> (result: Result<(), SendError>)
    ensures
        result == if delivered {
            Ok::<(), SendError>(())
        } else {
            Err(SendError::CannotWrite)
        },
        emitted(final(outbox)@) == emitted(old(outbox)@) + if delivered {
            Seq::<EmissionView>::empty()
        } else {
            abort_emissions(id@, ConnectionState::ConnectionError)
        },
{
    if delivered {
        assert(emitted(outbox@) + Seq::<EmissionView>::empty() =~= emitted(outbox@));
        Ok(())
    } else {
        recover_closed_sender_channel(outbox, id, connection);
        Err(SendError::CannotWrite)
    }
}

/// Asks connection `id` to close its stream: stops its poller of incoming
/// events, queues the end of the stream, and reports the outcome to the
/// outbox. Whether the queue takes the packet is up to the poller that
/// reads it, so the answer is one of the two that `disconnect_result`
/// gives for a connection that exists.
pub fn disconnect(
    outbox: &mut Vec<Emission>,
    id: &str,
    state: &ConnectionClientState,
) -> (result: Result<(), DisconnectError>)
    ensures
        exists|delivered: bool|
            result == #[trigger] disconnect_result(state@, id@, delivered) && emitted(
                final(outbox)@,
            ) == emitted(old(outbox)@) + disconnect_emissions(state@, id@, delivered),
        !state@.dom().contains(id@) ==> result == Err::<(), DisconnectError>(
            SendError::ConnectionDoesNotExist,
        ) && emitted(final(outbox)@) == emitted(old(outbox)@),
{
    match state.get(id) {
        Some(connection) => {
            connection.read_handle.abort();
            let delivered = enqueue(&connection.sender, stream_end());
            let result = settle_disconnect(outbox, id, connection, delivered);
            assert(result == disconnect_result(state@, id@, delivered));
            result
        },
        None => {
            assert(emitted(outbox@) + Seq::<EmissionView>::empty() =~= emitted(outbox@));
            assert(disconnect_result(state@, id@, true) == Err::<(), DisconnectError>(
                SendError::ConnectionDoesNotExist,
            ));
            Err(SendError::ConnectionDoesNotExist)
        },
    }
}

/// Sends `packet` on connection `id`, where `None` stands for a stanza
/// that could not be read: queues the packet for the poller of outgoing
/// packets. Whether the queue takes it is up to that poller, so for a
/// packet, on a connection that exists, the answer is either `Ok` with
/// nothing reported, or `CannotWrite` with the connection reported as ended.
pub fn send_packet(
    outbox: &mut Vec<Emission>,
    id: &str,
    state: &ConnectionClientState,
    packet: Option<Packet>,
) -> (result: Result<(), SendError>)
    ensures
        exists|delivered: bool|
            result == #[trigger] packet_send_result(state@, id@, packet is Some, delivered)
                && emitted(final(outbox)@) == emitted(old(outbox)@) + if result == Err::<
                (),
                SendError,
            >(SendError::CannotWrite) {
                abort_emissions(id@, ConnectionState::ConnectionError)
            } else {
                Seq::<EmissionView>::empty()
            },
        !state@.dom().contains(id@) ==> result == Err::<(), SendError>(
            SendError::ConnectionDoesNotExist,
        ),
        state@.dom().contains(id@) && packet is None ==> result == Err::<(), SendError>(
            SendError::CannotParse,
        ),
        state@.dom().contains(id@) && packet is Some ==> result is Ok || result == Err::<
            (),
            SendError,
        >(SendError::CannotWrite),
{
    match state.get(id) {
        Some(connection) => {
            match packet {
                Some(packet) => {
                    let delivered = enqueue(&connection.sender, packet);
                    let result = settle_send(outbox, id, connection, delivered);
                    assert(result == packet_send_result(state@, id@, true, delivered));
                    result
                },
                None => {
                    assert(emitted(outbox@) + Seq::<EmissionView>::empty() =~= emitted(outbox@));
                    assert(packet_send_result(state@, id@, false, true) == Err::<(), SendError>(
                        SendError::CannotParse,
                    ));
                    Err(SendError::CannotParse)
                },
            }
        },
        None => {
            assert(emitted(outbox@) + Seq::<EmissionView>::empty() =~= emitted(outbox@));
            assert(packet_send_result(state@, id@, packet is Some, true) == Err::<(), SendError>(
                SendError::ConnectionDoesNotExist,
            ));
            Err(SendError::ConnectionDoesNotExist)
        },
    }
}

/// Sends `stanza` on connection `id`: parses it and queues it for the
/// poller of outgoing packets. Whether the queue takes the packet is up to
/// that poller, so for a stanza that parses, on a connection that exists,
/// the answer is one of the two that `send_result` gives.
pub fn send(
    outbox: &mut Vec<Emission>,
    id: &str,
    state: &ConnectionClientState,
    stanza: String,
) -> (result: Result<(), SendError>)
    ensures
        exists|delivered: bool|
            result == #[trigger] send_result(state@, id@, stanza@, delivered) && emitted(
                final(outbox)@,
            ) == emitted(old(outbox)@) + send_emissions(state@, id@, stanza@, delivered),
        !state@.dom().contains(id@) ==> result == Err::<(), SendError>(
            SendError::ConnectionDoesNotExist,
        ) && emitted(final(outbox)@) == emitted(old(outbox)@),
        state@.dom().contains(id@) && !stanza_parses(stanza@) ==> result == Err::<(), SendError>(
            SendError::CannotParse,
        ) && emitted(final(outbox)@) == emitted(old(outbox)@),
{
    let ghost before = emitted(outbox@);
    let packet = parse_stanza(stanza.as_str());
    let result = send_packet(outbox, id, state, packet);
    proof {
        let delivered = choose|delivered: bool|
            result == #[trigger] packet_send_result(state@, id@, packet is Some, delivered);
        assert(result == send_result(state@, id@, stanza@, delivered));
        assert(before + Seq::<EmissionView>::empty() =~= before);
    }
    result
}

} // verus!
