//! What a connection reports to the observer.

use vstd::prelude::*;

verus! {

/// The name of the event that carries a change of state.
pub const EVENT_STATE: &'static str = "connection:state";

/// The name of the event that carries a stanza that came in.
pub const EVENT_RECEIVE: &'static str = "connection:receive";

/// The states of a connection that the observer is told about.
#[derive(Debug, Clone, Copy, PartialEq, Eq, Structural)]
pub enum ConnectionState {
    Connected,
    Disconnected,
    AuthenticationFailure,
    ConnectionError,
    ConnectionTimeout,
}

/// One notification for the observer, addressed by connection identifier.
#[derive(Debug, PartialEq, Eq)]
pub enum Emission {
    /// The connection `id` changed to `state`.
    State { id: String, state: ConnectionState },
    /// The connection `id` received `stanza`.
    Receive { id: String, stanza: String },
}

/// An [`Emission`] with its strings as sequences of characters.
pub enum EmissionView {
    State { id: Seq<char>, state: ConnectionState },
    Receive { id: Seq<char>, stanza: Seq<char> },
}

impl View for Emission {
    type V = EmissionView;

    open spec fn view(&self) -> EmissionView {
        match *self {
            Emission::State { id, state } => EmissionView::State { id: id@, state },
            Emission::Receive { id, stanza } => EmissionView::Receive { id: id@, stanza: stanza@ },
        }
    }
}

impl Emission {
    /// The name of the event that carries this notification.
    pub fn event(&self) -> (name: &'static str)
        ensures
            name@ == match *self {
                Emission::State { .. } => EVENT_STATE@,
                Emission::Receive { .. } => EVENT_RECEIVE@,
            },
    {
        match self {
            Emission::State { .. } => EVENT_STATE,
            Emission::Receive { .. } => EVENT_RECEIVE,
        }
    }
}

/// The notifications of an outbox, in the order in which they were emitted.
pub open spec fn emitted(outbox: Seq<Emission>) -> Seq<EmissionView> {
    Seq::new(outbox.len(), |i: int| outbox[i]@)
}

/// What reporting the end of connection `id` in `state` emits: the state
/// itself, then `Disconnected` unless that was the state.
pub open spec fn abort_emissions(id: Seq<char>, state: ConnectionState) -> Seq<EmissionView> {
    if state == ConnectionState::Disconnected {
        seq![EmissionView::State { id, state }]
    } else {
        seq![
            EmissionView::State { id, state },
            EmissionView::State { id, state: ConnectionState::Disconnected },
        ]
    }
}

/// Appends one state notification to the outbox.
pub fn emit_state(outbox: &mut Vec<Emission>, id: &str, state: ConnectionState)
    ensures
        emitted(final(outbox)@) == emitted(old(outbox)@).push(
            EmissionView::State { id: id@, state },
        ),
{
    let ghost before = outbox@;
    outbox.push(Emission::State { id: id.to_owned(), state });
    assert(emitted(outbox@) =~= emitted(before).push(EmissionView::State { id: id@, state }));
}

/// Reports that connection `id` ended in `state`, and that it is
/// disconnected, whatever ended it: `Disconnected` follows every other
/// state, and is not repeated after itself.
pub fn emit_connection_abort(outbox: &mut Vec<Emission>, id: &str, state: ConnectionState)
    ensures
        emitted(final(outbox)@) == emitted(old(outbox)@) + abort_emissions(id@, state),
{
    let ghost before = emitted(outbox@);
    emit_state(outbox, id, state);
    if state != ConnectionState::Disconnected {
        emit_state(outbox, id, ConnectionState::Disconnected);
    }
    assert(emitted(outbox@) =~= before + abort_emissions(id@, state));
}

} // verus!
