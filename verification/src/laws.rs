//! What holds of the registry and of the poller of incoming events whatever
//! they are asked to do.

use crate::address::bare_jid;
use crate::error::{PollInputError, SendError};
use crate::event::{abort_emissions, ConnectionState, EmissionView};
use crate::input::{poll_emissions, poll_verdict, run_emissions, run_verdict, InputPollView};
use crate::link::stanza_parses;
use crate::command::{connect_result, connected};
use crate::command::{disconnect_emissions, disconnect_result, send_emissions, send_result};
use crate::registry::{bound, one_connection_per_jid};
use vstd::prelude::*;

verus! {

/// One operation on the registry.
pub enum Operation {
    Connect { id: Seq<char>, address: Seq<char> },
    Disconnect { id: Seq<char> },
    Destroy { id: Seq<char> },
    Send { id: Seq<char>, stanza: Seq<char> },
}

/// The connections after `operation`: a connect adds one where it is
/// accepted, a destroy removes one, and neither a send nor a disconnect
/// changes them.
pub open spec fn apply(connections: Map<Seq<char>, Seq<char>>, operation: Operation) -> Map<
    Seq<char>,
    Seq<char>,
> {
    match operation {
        Operation::Connect { id, address } => connected(connections, id, address),
        Operation::Disconnect { id } => connections,
        Operation::Destroy { id } => connections.remove(id),
        Operation::Send { id, stanza } => connections,
    }
}

/// The connections of a registry that started empty, after `operations` in
/// order.
pub open spec fn replay(operations: Seq<Operation>) -> Map<Seq<char>, Seq<char>>
    decreases operations.len(),
{
    if operations.len() == 0 {
        Map::empty()
    } else {
        apply(replay(operations.drop_last()), operations.last())
    }
}

/// A connect keeps the connections one per account.
pub proof fn lemma_connect_keeps_jids_apart(
    connections: Map<Seq<char>, Seq<char>>,
    id: Seq<char>,
    address: Seq<char>,
)
    requires
        one_connection_per_jid(connections),
    ensures
        one_connection_per_jid(connected(connections, id, address)),
{
    let after = connected(connections, id, address);
    if connect_result(connections, id, address) is Ok {
        let jid = bare_jid(address)->Some_0;
        assert forall|a: Seq<char>, b: Seq<char>|
            after.dom().contains(a) && after.dom().contains(b) && #[trigger] after[a]
                == #[trigger] after[b] implies a == b by {
            if a == id && b != id {
                assert(connections[b] == jid);
                assert(bound(connections, jid));
            } else if b == id && a != id {
                assert(connections[a] == jid);
                assert(bound(connections, jid));
            } else if a != id && b != id {
                assert(connections[a] == connections[b]);
            }
        }
    }
}

/// Whatever is asked of a registry, in whatever order, no two of its
/// connections are bound to the same account, and its identifiers stay
/// finite in number. (That no identifier holds two connections is what
/// `ConnectionClientState::unique` adds of the registry itself.)
pub proof fn lemma_uniqueness(operations: Seq<Operation>)
    ensures
        one_connection_per_jid(replay(operations)),
        replay(operations).dom().finite(),
    decreases operations.len(),
{
    if operations.len() > 0 {
        let before = replay(operations.drop_last());
        lemma_uniqueness(operations.drop_last());
        match operations.last() {
            Operation::Connect { id, address } => {
                lemma_connect_keeps_jids_apart(before, id, address);
            },
            Operation::Destroy { id } => {
                let after = before.remove(id);
                assert forall|a: Seq<char>, b: Seq<char>|
                    after.dom().contains(a) && after.dom().contains(b) && #[trigger] after[a]
                        == #[trigger] after[b] implies a == b by {
                    assert(before[a] == before[b]);
                }
            },
            _ => {},
        }
    }
}

/// A connection that was destroyed is gone: a send or a disconnect on its
/// identifier answers that the connection does not exist and reports
/// nothing, whether or not a queue would have taken the packet.
pub proof fn lemma_send_after_destroy(
    connections: Map<Seq<char>, Seq<char>>,
    id: Seq<char>,
    stanza: Seq<char>,
    delivered: bool,
)
    ensures
        send_result(connections.remove(id), id, stanza, delivered) == Err::<(), SendError>(
            SendError::ConnectionDoesNotExist,
        ),
        send_emissions(connections.remove(id), id, stanza, delivered) == Seq::<
            EmissionView,
        >::empty(),
        disconnect_result(connections.remove(id), id, delivered) == Err::<(), SendError>(
            SendError::ConnectionDoesNotExist,
        ),
        disconnect_emissions(connections.remove(id), id, delivered) == Seq::<
            EmissionView,
        >::empty(),
{
}

/// An identifier that was destroyed can be connected again, to the same
/// account.
pub proof fn lemma_connect_after_destroy(
    connections: Map<Seq<char>, Seq<char>>,
    id: Seq<char>,
    address: Seq<char>,
)
    requires
        one_connection_per_jid(connections),
        connections.dom().contains(id),
        bare_jid(address) == Some(connections[id]),
    ensures
        connect_result(connections.remove(id), id, address) is Ok,
{
    let after = connections.remove(id);
    let jid = connections[id];
    if bound(after, jid) {
        let other = choose|other: Seq<char>|
            after.dom().contains(other) && #[trigger] after[other] == jid;
        assert(connections[other] == connections[id]);
    }
}

/// A queue that refuses is recovered from in the same way by a send and by
/// a disconnect, and each time anew: the connection is reported as ended by
/// a connection error, then as disconnected, once.
pub proof fn lemma_recovery_reports(
    connections: Map<Seq<char>, Seq<char>>,
    id: Seq<char>,
    stanza: Seq<char>,
)
    requires
        connections.dom().contains(id),
        stanza_parses(stanza),
    ensures
        send_emissions(connections, id, stanza, false) == disconnect_emissions(
            connections,
            id,
            false,
        ),
        disconnect_emissions(connections, id, false) == seq![
            EmissionView::State { id, state: ConnectionState::ConnectionError },
            EmissionView::State { id, state: ConnectionState::Disconnected },
        ],
{
}

/// Whether `emission` tells that connection `id` is in `state`.
pub open spec fn reports(emission: EmissionView, id: Seq<char>, state: ConnectionState) -> bool {
    emission == (EmissionView::State { id, state })
}

/// Whether `emission` tells of a state that ends a connection, other than
/// `Disconnected`.
pub open spec fn reports_failure(emission: EmissionView) -> bool {
    emission matches EmissionView::State { state, .. } && state != ConnectionState::Connected
        && state != ConnectionState::Disconnected
}

/// Whether `emission` tells that a connection is disconnected.
pub open spec fn reports_disconnected(emission: EmissionView) -> bool {
    emission matches EmissionView::State { state, .. } && state == ConnectionState::Disconnected
}

/// Reporting the end of a connection tells of `Disconnected` exactly once,
/// and last: after the state that ended the connection, or as that state.
pub proof fn lemma_abort_ends_disconnected(id: Seq<char>, state: ConnectionState)
    ensures
        abort_emissions(id, state).len() >= 1,
        abort_emissions(id, state)[0] == (EmissionView::State { id, state }),
        reports(abort_emissions(id, state).last(), id, ConnectionState::Disconnected),
        forall|i: int|
            0 <= i < abort_emissions(id, state).len() && reports_disconnected(
                #[trigger] abort_emissions(id, state)[i],
            ) ==> i == abort_emissions(id, state).len() - 1,
{
}

/// Over its whole run, the poller of incoming events of connection `id`
/// tells of `Disconnected` exactly when it stops, then once and as the last
/// thing it reports; a failure is told of only right before that.
pub proof fn lemma_disconnected_once(id: Seq<char>, polls: Seq<InputPollView>)
    ensures
        run_verdict(polls) is Some <==> run_emissions(id, polls).len() > 0 && reports(
            run_emissions(id, polls).last(),
            id,
            ConnectionState::Disconnected,
        ),
        forall|i: int|
            0 <= i < run_emissions(id, polls).len() && reports_disconnected(
                #[trigger] run_emissions(id, polls)[i],
            ) ==> i == run_emissions(id, polls).len() - 1,
        forall|i: int|
            0 <= i < run_emissions(id, polls).len() && reports_failure(
                #[trigger] run_emissions(id, polls)[i],
            ) ==> i == run_emissions(id, polls).len() - 2,
    decreases polls.len(),
{
    if polls.len() > 0 {
        let rest = polls.drop_first();
        lemma_disconnected_once(id, rest);
        let first = poll_emissions(id, polls[0]);
        let later = run_emissions(id, rest);
        let all = run_emissions(id, polls);
        if poll_verdict(polls[0]) is None {
            assert(first.len() == 1);
            assert(!reports_disconnected(first[0]) && !reports_failure(first[0]));
            assert(all == first + later);
            assert forall|i: int| 0 <= i < all.len() && reports_disconnected(
                #[trigger] all[i],
            ) implies i == all.len() - 1 by {
                if i >= 1 {
                    assert(all[i] == later[i - 1]);
                }
            }
            assert forall|i: int| 0 <= i < all.len() && reports_failure(
                #[trigger] all[i],
            ) implies i == all.len() - 2 by {
                if i >= 1 {
                    assert(all[i] == later[i - 1]);
                }
            }
            if later.len() > 0 {
                assert(all.last() == later.last());
            }
        }
    }
}

/// A poller that has gone on through `quiet` and then waits in vain stops
/// with `TimeoutError`, and the last it reports is `ConnectionTimeout`,
/// then `Disconnected`.
pub proof fn lemma_timeout_fires(id: Seq<char>, quiet: Seq<InputPollView>)
    requires
        forall|i: int| 0 <= i < quiet.len() ==> poll_verdict(#[trigger] quiet[i]) is None,
    ensures
        run_verdict(quiet.push(InputPollView::TimedOut)) == Some(
            Err::<(), PollInputError>(PollInputError::TimeoutError),
        ),
        run_emissions(id, quiet.push(InputPollView::TimedOut)) == run_emissions(id, quiet)
            + seq![
            EmissionView::State { id, state: ConnectionState::ConnectionTimeout },
            EmissionView::State { id, state: ConnectionState::Disconnected },
        ],
    decreases quiet.len(),
{
    let polls = quiet.push(InputPollView::TimedOut);
    let tail = seq![
        EmissionView::State { id, state: ConnectionState::ConnectionTimeout },
        EmissionView::State { id, state: ConnectionState::Disconnected },
    ];
    if quiet.len() == 0 {
        assert(run_emissions(id, polls) =~= run_emissions(id, quiet) + tail);
    } else {
        let rest = quiet.drop_first();
        lemma_timeout_fires(id, rest);
        assert(polls.drop_first() =~= rest.push(InputPollView::TimedOut));
        assert(polls[0] == quiet[0]);
        assert(run_emissions(id, polls) =~= run_emissions(id, quiet) + tail);
    }
}

} // verus!
