//! Lifecycle core of a registry of XMPP connections: which connects are
//! accepted, what a send or a disconnect does to a connection and reports to
//! the observer, and how the two pollers of a connection react to what the
//! stream hands them.

pub mod address;
pub mod command;
pub mod error;
pub mod event;
pub mod input;
pub mod laws;
pub mod link;
pub mod output;
pub mod registry;

pub use error::{ConnectError, DisconnectError, PollInputError, PollOutputError, SendError};
pub use event::{
    emit_connection_abort, emit_state, ConnectionState, Emission, EmissionView, EVENT_RECEIVE,
    EVENT_STATE,
};
pub use input::{
    handle_next_input_event, poll_input_event, poll_input_events, read_timeout, InputEvent,
    InputPoll, StreamError, READ_TIMEOUT_MILLISECONDS,
};
pub use output::{poll_output_event, OutputEvent, OutputStep};
pub use registry::{ConnectionClient, ConnectionClientState};
pub use command::{
    check_connect, check_connect_bare, connect, connect_bare, destroy, disconnect,
    recover_closed_sender_channel, send, send_packet, settle_disconnect, settle_send,
};
