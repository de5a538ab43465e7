//! The poller of incoming events: what each event of the stream makes it
//! report, and when it stops.

use crate::error::PollInputError;
use crate::event::{abort_emissions, emit_connection_abort, emit_state, emitted};
use crate::event::{ConnectionState, Emission, EmissionView};
use vstd::prelude::*;

verus! {

/// How long the poller waits for the next event where the caller set no
/// timeout, in milliseconds.
pub const READ_TIMEOUT_MILLISECONDS: u64 = 300000;

/// Why the stream ended.
#[derive(Debug, Clone, Copy, PartialEq, Eq, Structural)]
pub enum StreamError {
    /// The stream was closed, with no error.
    Disconnected,
    /// The server refused the credentials.
    Auth,
    /// The server could not be reached, or the connection broke.
    Connection,
    /// Any other error.
    Other,
}

/// One event of the stream.
#[derive(Debug, PartialEq, Eq)]
pub enum InputEvent {
    /// The stream is established.
    Online,
    /// The stream ended.
    Disconnected(StreamError),
    /// A stanza came in, given as its XML text.
    Stanza(String),
}

/// An [`InputEvent`] with its text as a sequence of characters.
pub enum InputEventView {
    Online,
    Disconnected(StreamError),
    Stanza(Seq<char>),
}

impl View for InputEvent {
    type V = InputEventView;

    open spec fn view(&self) -> InputEventView {
        match *self {
            InputEvent::Online => InputEventView::Online,
            InputEvent::Disconnected(error) => InputEventView::Disconnected(error),
            InputEvent::Stanza(stanza) => InputEventView::Stanza(stanza@),
        }
    }
}

/// What one wait for the next event came back with.
#[derive(Debug, PartialEq, Eq)]
pub enum InputPoll {
    /// No event came within the timeout.
    TimedOut,
    /// The stream has no more events.
    Ended,
    /// The next event.
    Event(InputEvent),
}

/// An [`InputPoll`] with its text as a sequence of characters.
pub enum InputPollView {
    TimedOut,
    Ended,
    Event(InputEventView),
}

impl View for InputPoll {
    type V = InputPollView;

    open spec fn view(&self) -> InputPollView {
        match *self {
            InputPoll::TimedOut => InputPollView::TimedOut,
            InputPoll::Ended => InputPollView::Ended,
            InputPoll::Event(event) => InputPollView::Event(event@),
        }
    }
}

/// What an `Option<InputEvent>` holds, with its text as a sequence of
/// characters.
pub open spec fn event_view(event_maybe: Option<InputEvent>) -> Option<InputEventView> {
    match event_maybe {
        Some(event) => Some(event@),
        None => None,
    }
}

/// The polls of a `Vec`, each by its view.
pub open spec fn polled(polls: Seq<InputPoll>) -> Seq<InputPollView> {
    Seq::new(polls.len(), |i: int| polls[i]@)
}

/// The state that the end of the stream is reported as.
pub open spec fn end_state(error: StreamError) -> ConnectionState {
    match error {
        StreamError::Disconnected => ConnectionState::Disconnected,
        StreamError::Auth => ConnectionState::AuthenticationFailure,
        StreamError::Connection => ConnectionState::ConnectionError,
        StreamError::Other => ConnectionState::ConnectionError,
    }
}

/// How the poller stops when the stream ends.
pub open spec fn end_result(error: StreamError) -> Result<(), PollInputError> {
    match error {
        StreamError::Disconnected => Ok(()),
        StreamError::Auth => Err(PollInputError::AuthenticationError),
        StreamError::Connection => Err(PollInputError::ConnectionError),
        StreamError::Other => Err(PollInputError::OtherError),
    }
}

/// Whether the poller stops after an event, and how: it goes on after
/// `Online` and after a stanza, and stops when the stream ends or has no
/// more events.
pub open spec fn event_verdict(event_maybe: Option<InputEventView>) -> Option<
    Result<(), PollInputError>,
> {
    match event_maybe {
        None => Some(Ok(())),
        Some(InputEventView::Disconnected(error)) => Some(end_result(error)),
        Some(InputEventView::Online) => None,
        Some(InputEventView::Stanza(_)) => None,
    }
}

/// What an event of connection `id` makes the poller report.
pub open spec fn event_emissions(id: Seq<char>, event_maybe: Option<InputEventView>) -> Seq<
    EmissionView,
> {
    match event_maybe {
        None => abort_emissions(id, ConnectionState::Disconnected),
        Some(InputEventView::Disconnected(error)) => abort_emissions(id, end_state(error)),
        Some(InputEventView::Online) => seq![
            EmissionView::State { id, state: ConnectionState::Connected },
        ],
        Some(InputEventView::Stanza(stanza)) => seq![EmissionView::Receive { id, stanza }],
    }
}

/// Whether the poller stops after a wait, and how: a wait that timed out
/// stops it with `TimeoutError`.
pub open spec fn poll_verdict(poll: InputPollView) -> Option<Result<(), PollInputError>> {
    match poll {
        InputPollView::TimedOut => Some(Err(PollInputError::TimeoutError)),
        InputPollView::Ended => event_verdict(None),
        InputPollView::Event(event) => event_verdict(Some(event)),
    }
}

/// What a wait of the poller of connection `id` makes it report.
pub open spec fn poll_emissions(id: Seq<char>, poll: InputPollView) -> Seq<EmissionView> {
    match poll {
        InputPollView::TimedOut => abort_emissions(id, ConnectionState::ConnectionTimeout),
        InputPollView::Ended => event_emissions(id, None),
        InputPollView::Event(event) => event_emissions(id, Some(event)),
    }
}

/// How the poller stops on a run of waits: at the first wait that stops
/// it. `None` where none of them does, and the poller waits on.
pub open spec fn run_verdict(polls: Seq<InputPollView>) -> Option<Result<(), PollInputError>>
    decreases polls.len(),
{
    if polls.len() == 0 {
        None
    } else if poll_verdict(polls[0]) is Some {
        poll_verdict(polls[0])
    } else {
        run_verdict(polls.drop_first())
    }
}

/// What the poller of connection `id` reports on a run of waits: what each
/// wait makes it report, in order, up to the wait that stops it.
pub open spec fn run_emissions(id: Seq<char>, polls: Seq<InputPollView>) -> Seq<EmissionView>
    decreases polls.len(),
{
    if polls.len() == 0 {
        Seq::empty()
    } else if poll_verdict(polls[0]) is Some {
        poll_emissions(id, polls[0])
    } else {
        poll_emissions(id, polls[0]) + run_emissions(id, polls.drop_first())
    }
}

/// The timeout of the poller of a connection, in milliseconds: the one the
/// caller set, or `READ_TIMEOUT_MILLISECONDS`.
pub fn read_timeout(timeout: Option<u64>) -> (milliseconds: u64)
    ensures
        milliseconds == match timeout {
            Some(set) => set,
            None => READ_TIMEOUT_MILLISECONDS,
        },
{
    match timeout {
        Some(set) => set,
        None => READ_TIMEOUT_MILLISECONDS,
    }
}

/// Reports what the next event of connection `id` calls for, and tells
/// whether the poller stops: `None` to go on, else how it ends.
pub fn handle_next_input_event(
    outbox: &mut Vec<Emission>,
    id: &str,
    event_maybe: Option<InputEvent>,
) -> (verdict: Option<Result<(), PollInputError>>)
    ensures
        verdict == event_verdict(event_view(event_maybe)),
        emitted(final(outbox)@) == emitted(old(outbox)@) + event_emissions(
            id@,
            event_view(event_maybe),
        ),
{
    let ghost before = emitted(outbox@);
    match event_maybe {
        Some(InputEvent::Disconnected(StreamError::Disconnected)) => {
            emit_connection_abort(outbox, id, ConnectionState::Disconnected);
            Some(Ok(()))
        },
        Some(InputEvent::Disconnected(StreamError::Auth)) => {
            emit_connection_abort(outbox, id, ConnectionState::AuthenticationFailure);
            Some(Err(PollInputError::AuthenticationError))
        },
        Some(InputEvent::Disconnected(StreamError::Connection)) => {
            emit_connection_abort(outbox, id, ConnectionState::ConnectionError);
            Some(Err(PollInputError::ConnectionError))
        },
        Some(InputEvent::Disconnected(StreamError::Other)) => {
            emit_connection_abort(outbox, id, ConnectionState::ConnectionError);
            Some(Err(PollInputError::OtherError))
        },
        Some(InputEvent::Online) => {
            emit_state(outbox, id, ConnectionState::Connected);
            assert(emitted(outbox@) =~= before + event_emissions(id@, event_view(event_maybe)));
            None
        },
        Some(InputEvent::Stanza(stanza)) => {
            outbox.push(Emission::Receive { id: id.to_owned(), stanza });
            assert(emitted(outbox@) =~= before + event_emissions(id@, event_view(event_maybe)));
            None
        },
        None => {
            emit_connection_abort(outbox, id, ConnectionState::Disconnected);
            Some(Ok(()))
        },
    }
}

/// One turn of the poller of connection `id`: reports what the wait calls
/// for, and tells whether the poller stops. A wait that timed out is
/// reported as `ConnectionTimeout`, then `Disconnected`.
pub fn poll_input_event(
    outbox: &mut Vec<Emission>,
    id: &str,
    poll: InputPoll,
) -> (verdict: Option<Result<(), PollInputError>>)
    ensures
        verdict == poll_verdict(poll@),
        emitted(final(outbox)@) == emitted(old(outbox)@) + poll_emissions(id@, poll@),
{
    match poll {
        InputPoll::TimedOut => {
            emit_connection_abort(outbox, id, ConnectionState::ConnectionTimeout);
            Some(Err(PollInputError::TimeoutError))
        },
        InputPoll::Ended => handle_next_input_event(outbox, id, None),
        InputPoll::Event(event) => handle_next_input_event(outbox, id, Some(event)),
    }
}

/// Runs the poller of connection `id` over the waits of `polls`, in order,
/// until one stops it; the waits after that one are not looked at. `None`
/// where no wait stops it.
pub fn poll_input_events(
    outbox: &mut Vec<Emission>,
    id: &str,
    polls: Vec<InputPoll>,
) -> (verdict: Option<Result<(), PollInputError>>)
    ensures
        verdict == run_verdict(polled(polls@)),
        emitted(final(outbox)@) == emitted(old(outbox)@) + run_emissions(id@, polled(polls@)),
{
    let ghost before = emitted(outbox@);
    let ghost all = polled(polls@);
    let ghost script = polls@;
    let mut verdict: Option<Result<(), PollInputError>> = None;
    assert(all.skip(0) =~= all);
    for poll in it: polls
        invariant
            it.seq() == script,
            all == polled(script),
            verdict is None ==> run_verdict(all) == run_verdict(all.skip(it.index())),
            verdict is None ==> before + run_emissions(id@, all) == emitted(outbox@)
                + run_emissions(id@, all.skip(it.index())),
            verdict is Some ==> verdict == run_verdict(all),
            verdict is Some ==> emitted(outbox@) == before + run_emissions(id@, all),
    {
        if verdict.is_none() {
            let ghost rest = all.skip(it.index());
            let ghost so_far = emitted(outbox@);
            verdict = poll_input_event(outbox, id, poll);
            proof {
                assert(rest[0] == poll@);
                assert(rest.drop_first() =~= all.skip(it.index() + 1));
                if verdict is None {
                    assert(so_far + (poll_emissions(id@, poll@) + run_emissions(
                        id@,
                        rest.drop_first(),
                    )) =~= (so_far + poll_emissions(id@, poll@)) + run_emissions(
                        id@,
                        rest.drop_first(),
                    ));
                }
            }
        }
    }
    proof {
        if verdict is None {
            assert(all.skip(all.len() as int).len() == 0);
            assert(emitted(outbox@) + Seq::<EmissionView>::empty() =~= emitted(outbox@));
        }
    }
    verdict
}

} // verus!
