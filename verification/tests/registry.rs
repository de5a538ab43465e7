use connection_manager::{
    check_connect, check_connect_bare, connect, connect_bare, destroy, disconnect,
    handle_next_input_event, recover_closed_sender_channel, send, send_packet,
    settle_disconnect, settle_send, ConnectError, ConnectionClientState, ConnectionState,
    Emission, InputEvent, SendError,
};
use tokio::runtime::{Builder, Runtime};
use tokio::sync::mpsc::error::TryRecvError;
use tokio::sync::mpsc::{unbounded_channel, UnboundedReceiver};
use tokio::task::JoinHandle;
use tokio_xmpp::Packet;

const STANZA: &str = "<message xmlns='jabber:client' to='c@d'><body>hello</body></message>";

fn runtime() -> Runtime {
    Builder::new_current_thread().build().unwrap()
}

/// A task that never ends by itself, and a receiver that is closed once the
/// task is gone.
fn poller(runtime: &Runtime) -> (JoinHandle<()>, UnboundedReceiver<()>) {
    let (alive, gone) = unbounded_channel::<()>();
    let handle = runtime.spawn(async move {
        let _alive = alive;
        std::future::pending::<()>().await;
    });
    (handle, gone)
}

fn stopped(runtime: &Runtime, gone: &mut UnboundedReceiver<()>) -> bool {
    runtime.block_on(async {
        tokio::task::yield_now().await;
        tokio::task::yield_now().await;
    });
    gone.try_recv() == Err(TryRecvError::Disconnected)
}

struct Opened {
    result: Result<(), ConnectError>,
    queue: UnboundedReceiver<Packet>,
    reader_gone: UnboundedReceiver<()>,
    writer_gone: UnboundedReceiver<()>,
}

fn open(runtime: &Runtime, state: &mut ConnectionClientState, id: &str, jid: &str) -> Opened {
    let (sender, queue) = unbounded_channel();
    let (read_handle, reader_gone) = poller(runtime);
    let (write_handle, writer_gone) = poller(runtime);
    let result = connect(state, id, jid, sender, read_handle, write_handle);
    Opened { result, queue, reader_gone, writer_gone }
}

fn state_of(id: &str, state: ConnectionState) -> Emission {
    Emission::State { id: id.to_string(), state }
}

#[test]
fn connect_send_receive_disconnect_destroy() {
    let runtime = runtime();
    let mut state = ConnectionClientState::new();
    let mut opened = open(&runtime, &mut state, "s1", "a@b");
    assert_eq!(opened.result, Ok(()));
    assert!(state.contains("s1"));

    let mut outbox = Vec::new();
    assert_eq!(handle_next_input_event(&mut outbox, "s1", Some(InputEvent::Online)), None);
    assert_eq!(outbox, vec![state_of("s1", ConnectionState::Connected)]);

    let mut outbox = Vec::new();
    let stanza = InputEvent::Stanza("<msg/>".to_string());
    assert_eq!(handle_next_input_event(&mut outbox, "s1", Some(stanza)), None);
    assert_eq!(
        outbox,
        vec![Emission::Receive { id: "s1".to_string(), stanza: "<msg/>".to_string() }]
    );

    let mut outbox = Vec::new();
    assert_eq!(disconnect(&mut outbox, "s1", &state), Ok(()));
    assert_eq!(outbox, vec![state_of("s1", ConnectionState::Disconnected)]);
    assert_eq!(opened.queue.try_recv(), Ok(Packet::StreamEnd));

    assert_eq!(destroy("s1", &mut state), Ok(()));
    assert!(!state.contains("s1"));
    assert_eq!(state.len(), 0);
}

#[test]
fn second_connection_on_the_same_jid_is_refused() {
    let runtime = runtime();
    let mut state = ConnectionClientState::new();
    let first = open(&runtime, &mut state, "s1", "a@b");
    assert_eq!(first.result, Ok(()));
    let second = open(&runtime, &mut state, "s2", "a@b");
    assert_eq!(second.result, Err(ConnectError::AnotherConnectionBound));
    assert_eq!(state.len(), 1);
    assert!(state.contains("s1"));
    assert!(!state.contains("s2"));
}

#[test]
fn a_new_registry_is_empty() {
    let state = ConnectionClientState::new();
    assert_eq!(state.len(), 0);
    assert!(!state.contains("s1"));
    assert!(state.get("s1").is_none());
    assert_eq!(state.jid_of("s1"), None);
    assert_eq!(ConnectionClientState::default().len(), 0);
}

#[test]
fn connection_is_bound_to_the_bare_jid() {
    let runtime = runtime();
    let mut state = ConnectionClientState::new();
    let opened = open(&runtime, &mut state, "s1", "Alice@Example.org/phone");
    assert_eq!(opened.result, Ok(()));
    assert_eq!(state.jid_of("s1"), Some("alice@example.org"));
    assert!(state.get("s1").is_some());
}

#[test]
fn resources_of_one_account_conflict() {
    let runtime = runtime();
    let mut state = ConnectionClientState::new();
    assert_eq!(open(&runtime, &mut state, "s1", "a@b/phone").result, Ok(()));
    assert_eq!(
        check_connect(&state, "s2", "a@b/laptop"),
        Err(ConnectError::AnotherConnectionBound)
    );
    assert_eq!(check_connect(&state, "s2", "A@b"), Err(ConnectError::AnotherConnectionBound));
    assert_eq!(check_connect(&state, "s2", "c@b/phone"), Ok(()));
    assert_eq!(state.len(), 1);
}

#[test]
fn invalid_jid_is_refused() {
    let runtime = runtime();
    let mut state = ConnectionClientState::new();
    assert_eq!(open(&runtime, &mut state, "s1", "").result, Err(ConnectError::InvalidJid));
    assert_eq!(open(&runtime, &mut state, "s1", "@b").result, Err(ConnectError::InvalidJid));
    assert_eq!(open(&runtime, &mut state, "s1", "a@b/").result, Err(ConnectError::InvalidJid));
    assert_eq!(check_connect(&state, "s1", "a@"), Err(ConnectError::InvalidJid));
    assert_eq!(state.len(), 0);
}

#[test]
fn existing_identifier_is_refused() {
    let runtime = runtime();
    let mut state = ConnectionClientState::new();
    assert_eq!(open(&runtime, &mut state, "s1", "a@b").result, Ok(()));
    let again = open(&runtime, &mut state, "s1", "c@d");
    assert_eq!(again.result, Err(ConnectError::ConnectionAlreadyExists));
    assert_eq!(state.jid_of("s1"), Some("a@b"));
    assert_eq!(state.len(), 1);
}

#[test]
fn errors_of_connect_come_in_order() {
    let runtime = runtime();
    let mut state = ConnectionClientState::new();
    assert_eq!(open(&runtime, &mut state, "s1", "a@b").result, Ok(()));
    assert_eq!(check_connect(&state, "s1", "@"), Err(ConnectError::InvalidJid));
    assert_eq!(check_connect(&state, "s1", "a@b"), Err(ConnectError::ConnectionAlreadyExists));
    assert_eq!(check_connect(&state, "s2", "a@b"), Err(ConnectError::AnotherConnectionBound));
}

#[test]
fn check_connect_bare_judges_by_the_bare_jid() {
    let runtime = runtime();
    let mut state = ConnectionClientState::new();
    assert_eq!(check_connect_bare(&state, "s1", &None), Err(ConnectError::InvalidJid));
    assert_eq!(check_connect_bare(&state, "s1", &Some("a@b".to_string())), Ok(()));
    let (sender, _queue) = unbounded_channel();
    let (read_handle, _reader_gone) = poller(&runtime);
    let (write_handle, _writer_gone) = poller(&runtime);
    let bare = Some("a@b".to_string());
    assert_eq!(connect_bare(&mut state, "s1", bare, sender, read_handle, write_handle), Ok(()));
    assert_eq!(
        check_connect_bare(&state, "s1", &Some("c@d".to_string())),
        Err(ConnectError::ConnectionAlreadyExists)
    );
    assert_eq!(
        check_connect_bare(&state, "s2", &Some("a@b".to_string())),
        Err(ConnectError::AnotherConnectionBound)
    );
    assert_eq!(check_connect_bare(&state, "s2", &Some("c@d".to_string())), Ok(()));
    assert_eq!(state.len(), 1);
}

#[test]
fn refused_connect_stops_the_pollers_it_was_handed() {
    let runtime = runtime();
    let mut state = ConnectionClientState::new();
    let mut first = open(&runtime, &mut state, "s1", "a@b");
    let mut second = open(&runtime, &mut state, "s2", "a@b");
    assert_eq!(second.result, Err(ConnectError::AnotherConnectionBound));
    assert!(stopped(&runtime, &mut second.reader_gone));
    assert!(stopped(&runtime, &mut second.writer_gone));
    assert!(!stopped(&runtime, &mut first.reader_gone));
    assert!(!stopped(&runtime, &mut first.writer_gone));
}

#[test]
fn registry_stays_unique_over_many_operations() {
    let runtime = runtime();
    let mut state = ConnectionClientState::new();
    let mut outbox = Vec::new();
    let mut queues = Vec::new();
    let steps = [
        ("s1", "a@b/one"),
        ("s2", "a@b/two"),
        ("s2", "c@d"),
        ("s1", "e@f"),
        ("s3", "c@d/other"),
        ("s3", "e@f"),
    ];
    for (id, jid) in steps {
        queues.push(open(&runtime, &mut state, id, jid));
        let _ = send(&mut outbox, "s1", &state, STANZA.to_string());
    }
    assert_eq!(state.len(), 3);
    assert_eq!(state.jid_of("s1"), Some("a@b"));
    assert_eq!(state.jid_of("s2"), Some("c@d"));
    assert_eq!(state.jid_of("s3"), Some("e@f"));
    assert_eq!(destroy("s2", &mut state), Ok(()));
    assert_eq!(state.len(), 2);
    assert_eq!(open(&runtime, &mut state, "s4", "c@d").result, Ok(()));
    assert_eq!(
        open(&runtime, &mut state, "s5", "c@d").result,
        Err(ConnectError::AnotherConnectionBound)
    );
    assert_eq!(
        open(&runtime, &mut state, "s4", "g@h").result,
        Err(ConnectError::ConnectionAlreadyExists)
    );
    assert_eq!(state.len(), 3);
    assert_eq!(state.jid_of("s4"), Some("c@d"));
}

#[test]
fn destroy_of_an_unknown_identifier_changes_nothing() {
    let runtime = runtime();
    let mut state = ConnectionClientState::new();
    assert_eq!(destroy("s1", &mut state), Ok(()));
    assert_eq!(state.len(), 0);
    let mut opened = open(&runtime, &mut state, "s1", "a@b");
    assert_eq!(destroy("s2", &mut state), Ok(()));
    assert_eq!(state.len(), 1);
    assert_eq!(state.jid_of("s1"), Some("a@b"));
    assert!(!stopped(&runtime, &mut opened.reader_gone));
    assert!(!stopped(&runtime, &mut opened.writer_gone));
}

#[test]
fn destroy_twice_is_allowed() {
    let runtime = runtime();
    let mut state = ConnectionClientState::new();
    let _opened = open(&runtime, &mut state, "s1", "a@b");
    assert_eq!(destroy("s1", &mut state), Ok(()));
    assert_eq!(destroy("s1", &mut state), Ok(()));
    assert_eq!(state.len(), 0);
}

#[test]
fn destroy_stops_both_pollers_and_closes_the_queue() {
    let runtime = runtime();
    let mut state = ConnectionClientState::new();
    let mut opened = open(&runtime, &mut state, "s1", "a@b");
    assert_eq!(opened.queue.try_recv(), Err(TryRecvError::Empty));
    assert_eq!(destroy("s1", &mut state), Ok(()));
    assert!(stopped(&runtime, &mut opened.reader_gone));
    assert!(stopped(&runtime, &mut opened.writer_gone));
    assert_eq!(opened.queue.try_recv(), Err(TryRecvError::Disconnected));
}

#[test]
fn destroyed_identifier_can_be_connected_again() {
    let runtime = runtime();
    let mut state = ConnectionClientState::new();
    let _first = open(&runtime, &mut state, "s1", "a@b");
    assert_eq!(destroy("s1", &mut state), Ok(()));
    assert_eq!(open(&runtime, &mut state, "s1", "a@b").result, Ok(()));
    assert_eq!(state.len(), 1);
}

#[test]
fn send_and_disconnect_after_destroy_find_no_connection() {
    let runtime = runtime();
    let mut state = ConnectionClientState::new();
    let mut opened = open(&runtime, &mut state, "s1", "a@b");
    assert_eq!(destroy("s1", &mut state), Ok(()));
    let mut outbox = Vec::new();
    assert_eq!(
        send(&mut outbox, "s1", &state, STANZA.to_string()),
        Err(SendError::ConnectionDoesNotExist)
    );
    assert_eq!(disconnect(&mut outbox, "s1", &state), Err(SendError::ConnectionDoesNotExist));
    assert!(outbox.is_empty());
    assert_eq!(opened.queue.try_recv(), Err(TryRecvError::Disconnected));
}

#[test]
fn send_and_disconnect_on_an_unknown_identifier() {
    let runtime = runtime();
    let mut state = ConnectionClientState::new();
    let mut opened = open(&runtime, &mut state, "s1", "a@b");
    let mut outbox = Vec::new();
    assert_eq!(
        send(&mut outbox, "s2", &state, STANZA.to_string()),
        Err(SendError::ConnectionDoesNotExist)
    );
    assert_eq!(
        send(&mut outbox, "s2", &state, "no stanza".to_string()),
        Err(SendError::ConnectionDoesNotExist)
    );
    assert_eq!(disconnect(&mut outbox, "s2", &state), Err(SendError::ConnectionDoesNotExist));
    assert!(outbox.is_empty());
    assert_eq!(opened.queue.try_recv(), Err(TryRecvError::Empty));
    assert!(!stopped(&runtime, &mut opened.reader_gone));
}

#[test]
fn send_queues_the_parsed_stanza() {
    let runtime = runtime();
    let mut state = ConnectionClientState::new();
    let mut opened = open(&runtime, &mut state, "s1", "a@b");
    let mut outbox = Vec::new();
    assert_eq!(send(&mut outbox, "s1", &state, STANZA.to_string()), Ok(()));
    assert!(outbox.is_empty());
    match opened.queue.try_recv() {
        Ok(Packet::Stanza(element)) => {
            assert_eq!(element.name(), "message");
            assert_eq!(element.ns(), "jabber:client");
            assert_eq!(element.attr("to"), Some("c@d"));
            assert_eq!(element.children().next().unwrap().text(), "hello");
        }
        other => panic!("unexpected packet: {:?}", other),
    }
    assert_eq!(opened.queue.try_recv(), Err(TryRecvError::Empty));
    assert!(!stopped(&runtime, &mut opened.reader_gone));
    assert!(!stopped(&runtime, &mut opened.writer_gone));
}

#[test]
fn send_keeps_the_order_of_the_stanzas() {
    let runtime = runtime();
    let mut state = ConnectionClientState::new();
    let mut opened = open(&runtime, &mut state, "s1", "a@b");
    let mut outbox = Vec::new();
    for name in ["first", "second", "third"] {
        let stanza = format!("<{} xmlns='jabber:client'/>", name);
        assert_eq!(send(&mut outbox, "s1", &state, stanza), Ok(()));
    }
    for name in ["first", "second", "third"] {
        match opened.queue.try_recv() {
            Ok(Packet::Stanza(element)) => assert_eq!(element.name(), name),
            other => panic!("unexpected packet: {:?}", other),
        }
    }
}

#[test]
fn send_refuses_what_is_no_stanza() {
    let runtime = runtime();
    let mut state = ConnectionClientState::new();
    let mut opened = open(&runtime, &mut state, "s1", "a@b");
    let mut outbox = Vec::new();
    for stanza in ["", "hello", "<message xmlns='jabber:client'>", "<msg/>"] {
        assert_eq!(
            send(&mut outbox, "s1", &state, stanza.to_string()),
            Err(SendError::CannotParse)
        );
    }
    assert!(outbox.is_empty());
    assert_eq!(opened.queue.try_recv(), Err(TryRecvError::Empty));
}

#[test]
fn send_on_a_closed_queue_recovers() {
    let runtime = runtime();
    let mut state = ConnectionClientState::new();
    let mut opened = open(&runtime, &mut state, "s1", "a@b/home");
    opened.queue.close();
    let mut outbox = Vec::new();
    assert_eq!(send(&mut outbox, "s1", &state, STANZA.to_string()), Err(SendError::CannotWrite));
    assert_eq!(
        outbox,
        vec![
            state_of("s1", ConnectionState::ConnectionError),
            state_of("s1", ConnectionState::Disconnected),
        ]
    );
    assert!(stopped(&runtime, &mut opened.reader_gone));
    assert!(stopped(&runtime, &mut opened.writer_gone));
    assert!(state.contains("s1"));
}

#[test]
fn send_of_no_stanza_on_a_closed_queue_cannot_parse() {
    let runtime = runtime();
    let mut state = ConnectionClientState::new();
    let opened = open(&runtime, &mut state, "s1", "a@b");
    drop(opened.queue);
    let mut outbox = Vec::new();
    assert_eq!(send(&mut outbox, "s1", &state, "<".to_string()), Err(SendError::CannotParse));
    assert!(outbox.is_empty());
}

#[test]
fn send_packet_judges_by_the_packet() {
    let runtime = runtime();
    let mut state = ConnectionClientState::new();
    let mut opened = open(&runtime, &mut state, "s1", "a@b");
    let mut outbox = Vec::new();
    assert_eq!(send_packet(&mut outbox, "s1", &state, None), Err(SendError::CannotParse));
    assert_eq!(
        send_packet(&mut outbox, "s2", &state, None),
        Err(SendError::ConnectionDoesNotExist)
    );
    let text = Packet::Text("ping".to_string());
    assert_eq!(
        send_packet(&mut outbox, "s2", &state, Some(text.clone())),
        Err(SendError::ConnectionDoesNotExist)
    );
    assert_eq!(send_packet(&mut outbox, "s1", &state, Some(text.clone())), Ok(()));
    assert!(outbox.is_empty());
    assert_eq!(opened.queue.try_recv(), Ok(text.clone()));
    opened.queue.close();
    assert_eq!(send_packet(&mut outbox, "s1", &state, Some(text)), Err(SendError::CannotWrite));
    assert_eq!(
        outbox,
        vec![
            state_of("s1", ConnectionState::ConnectionError),
            state_of("s1", ConnectionState::Disconnected),
        ]
    );
}

#[test]
fn disconnect_stops_the_reader_and_leaves_the_writer() {
    let runtime = runtime();
    let mut state = ConnectionClientState::new();
    let mut opened = open(&runtime, &mut state, "s1", "a@b");
    let mut outbox = Vec::new();
    assert_eq!(disconnect(&mut outbox, "s1", &state), Ok(()));
    assert_eq!(outbox, vec![state_of("s1", ConnectionState::Disconnected)]);
    assert!(stopped(&runtime, &mut opened.reader_gone));
    assert!(!stopped(&runtime, &mut opened.writer_gone));
    assert_eq!(opened.queue.try_recv(), Ok(Packet::StreamEnd));
    assert!(state.contains("s1"));
    assert_eq!(state.len(), 1);
}

#[test]
fn disconnect_on_a_closed_queue_recovers() {
    let runtime = runtime();
    let mut state = ConnectionClientState::new();
    let mut opened = open(&runtime, &mut state, "s1", "a@b");
    opened.queue.close();
    let mut outbox = Vec::new();
    assert_eq!(disconnect(&mut outbox, "s1", &state), Err(SendError::CannotWrite));
    assert_eq!(
        outbox,
        vec![
            state_of("s1", ConnectionState::ConnectionError),
            state_of("s1", ConnectionState::Disconnected),
        ]
    );
    assert!(stopped(&runtime, &mut opened.reader_gone));
    assert!(stopped(&runtime, &mut opened.writer_gone));
    assert!(state.contains("s1"));
}

#[test]
fn recovery_can_be_run_again() {
    let runtime = runtime();
    let mut state = ConnectionClientState::new();
    let opened = open(&runtime, &mut state, "s1", "a@b");
    drop(opened.queue);
    let recovery = vec![
        state_of("s1", ConnectionState::ConnectionError),
        state_of("s1", ConnectionState::Disconnected),
    ];
    let mut outbox = Vec::new();
    assert_eq!(send(&mut outbox, "s1", &state, STANZA.to_string()), Err(SendError::CannotWrite));
    assert_eq!(outbox, recovery);
    let mut outbox = Vec::new();
    assert_eq!(disconnect(&mut outbox, "s1", &state), Err(SendError::CannotWrite));
    assert_eq!(outbox, recovery);
    let mut outbox = Vec::new();
    let connection = state.get("s1").unwrap();
    recover_closed_sender_channel(&mut outbox, "s1", connection);
    assert_eq!(outbox, recovery);
    assert_eq!(state.len(), 1);
    assert_eq!(destroy("s1", &mut state), Ok(()));
}

#[test]
fn pollers_that_have_ended_can_be_stopped() {
    let runtime = runtime();
    let mut state = ConnectionClientState::new();
    let (sender, queue) = unbounded_channel();
    let read_handle = runtime.spawn(async {});
    let write_handle = runtime.spawn(async {});
    assert_eq!(connect(&mut state, "s1", "a@b", sender, read_handle, write_handle), Ok(()));
    runtime.block_on(async { tokio::task::yield_now().await });
    drop(queue);
    let mut outbox = Vec::new();
    assert_eq!(disconnect(&mut outbox, "s1", &state), Err(SendError::CannotWrite));
    assert_eq!(disconnect(&mut outbox, "s1", &state), Err(SendError::CannotWrite));
    assert_eq!(destroy("s1", &mut state), Ok(()));
    assert_eq!(outbox.len(), 4);
}

#[test]
fn settle_disconnect_by_what_the_queue_answered() {
    let runtime = runtime();
    let mut state = ConnectionClientState::new();
    let mut opened = open(&runtime, &mut state, "s1", "a@b");
    let connection = state.get("s1").unwrap();
    let mut outbox = Vec::new();
    assert_eq!(settle_disconnect(&mut outbox, "s1", connection, true), Ok(()));
    assert_eq!(outbox, vec![state_of("s1", ConnectionState::Disconnected)]);
    assert!(!stopped(&runtime, &mut opened.writer_gone));
    let mut outbox = vec![state_of("s0", ConnectionState::Connected)];
    assert_eq!(
        settle_disconnect(&mut outbox, "s1", connection, false),
        Err(SendError::CannotWrite)
    );
    assert_eq!(
        outbox,
        vec![
            state_of("s0", ConnectionState::Connected),
            state_of("s1", ConnectionState::ConnectionError),
            state_of("s1", ConnectionState::Disconnected),
        ]
    );
    assert!(stopped(&runtime, &mut opened.reader_gone));
    assert!(stopped(&runtime, &mut opened.writer_gone));
}

#[test]
fn settle_send_by_what_the_queue_answered() {
    let runtime = runtime();
    let mut state = ConnectionClientState::new();
    let mut opened = open(&runtime, &mut state, "s1", "a@b");
    let connection = state.get("s1").unwrap();
    let mut outbox = Vec::new();
    assert_eq!(settle_send(&mut outbox, "s1", connection, true), Ok(()));
    assert!(outbox.is_empty());
    assert!(!stopped(&runtime, &mut opened.reader_gone));
    assert_eq!(settle_send(&mut outbox, "s1", connection, false), Err(SendError::CannotWrite));
    assert_eq!(
        outbox,
        vec![
            state_of("s1", ConnectionState::ConnectionError),
            state_of("s1", ConnectionState::Disconnected),
        ]
    );
    assert!(stopped(&runtime, &mut opened.reader_gone));
    assert!(stopped(&runtime, &mut opened.writer_gone));
}
