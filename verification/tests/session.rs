use chat_relay::dispatch::dispatch;
use chat_relay::history::HistoryBuffer;
use chat_relay::ids::IdAllocator;
use chat_relay::outbound::OutboundHandle;
use chat_relay::registry::ConnectionRegistry;
use chat_relay::session::{Frame, Inbound, Phase, Session, Step};
use tokio::sync::mpsc::error::TryRecvError;
use tokio::sync::mpsc::UnboundedReceiver;
use warp::ws::Message;

struct Relay {
    ids: IdAllocator,
    history: HistoryBuffer,
    registry: ConnectionRegistry,
}

fn relay() -> Relay {
    Relay { ids: IdAllocator::new(), history: HistoryBuffer::new(), registry: ConnectionRegistry::new() }
}

fn text(s: &str) -> Inbound {
    Inbound::Frame(Frame::Text(s.to_string()))
}

fn drain(inbox: &mut UnboundedReceiver<Message>) -> Vec<String> {
    let mut texts = Vec::new();
    while let Ok(frame) = inbox.try_recv() {
        texts.push(frame.to_str().expect("a text frame").to_string());
    }
    texts
}

fn join_as(relay: &mut Relay, naming: Inbound) -> (Session, Vec<String>, UnboundedReceiver<Message>) {
    let mut session = Session::connect(&mut relay.ids);
    session.await_name();
    let lines = session.name_received(naming, &relay.history);
    let inbox = session.join(&mut relay.registry);
    (session, lines, inbox)
}

fn send(relay: &mut Relay, session: &mut Session, event: Inbound) -> Step {
    session.on_inbound(event, &mut relay.history, &mut relay.registry)
}

#[test]
fn session_walks_through_its_phases() {
    let mut relay = relay();
    let mut session = Session::connect(&mut relay.ids);
    assert_eq!(session.phase(), Phase::Connecting);
    assert_eq!(session.id(), 1);
    assert_eq!(session.name(), "");
    session.await_name();
    assert_eq!(session.phase(), Phase::Naming);
    let lines = session.name_received(text("ada"), &relay.history);
    assert_eq!(session.phase(), Phase::Registered);
    assert_eq!(session.name(), "ada");
    assert_eq!(lines, vec!["Welcome to the chat, ada!".to_string()]);
    assert!(relay.registry.is_empty());
    let _inbox = session.join(&mut relay.registry);
    assert_eq!(session.phase(), Phase::Relaying);
    assert_eq!(relay.registry.lookup("ada"), Some(1));
    let step = send(&mut relay, &mut session, text("hello"));
    assert!(matches!(step, Step::Relayed(_)));
    assert_eq!(session.phase(), Phase::Relaying);
    let step = send(&mut relay, &mut session, Inbound::Closed);
    assert!(matches!(step, Step::Left));
    assert_eq!(session.phase(), Phase::Disconnected);
    assert_eq!(session.id(), 1);
    assert_eq!(session.name(), "ada");
}

#[test]
fn sessions_get_successive_identifiers() {
    let mut relay = relay();
    let a = Session::connect(&mut relay.ids);
    let b = Session::connect(&mut relay.ids);
    let c = Session::connect(&mut relay.ids);
    assert_eq!((a.id(), b.id(), c.id()), (1, 2, 3));
}

#[test]
fn empty_name_becomes_the_placeholder() {
    let mut relay = relay();
    let (session, lines, _inbox) = join_as(&mut relay, text(""));
    assert_eq!(session.name(), "Anonymous");
    assert_eq!(lines, vec!["Welcome to the chat, Anonymous!".to_string()]);
    assert_eq!(relay.registry.lookup("Anonymous"), Some(1));
}

#[test]
fn naming_without_a_text_is_not_fatal() {
    for naming in [Inbound::Frame(Frame::Other), Inbound::Failed, Inbound::Closed] {
        let mut relay = relay();
        let (session, lines, _inbox) = join_as(&mut relay, naming);
        assert_eq!(session.name(), "Anonymous");
        assert_eq!(session.phase(), Phase::Relaying);
        assert_eq!(lines, vec!["Welcome to the chat, Anonymous!".to_string()]);
        assert!(relay.registry.contains("Anonymous"));
    }
}

#[test]
fn joining_an_empty_history_sends_no_header() {
    let mut relay = relay();
    let (_session, lines, mut inbox) = join_as(&mut relay, text("a1"));
    assert_eq!(lines, vec!["Welcome to the chat, a1!".to_string()]);
    assert_eq!(drain(&mut inbox), Vec::<String>::new());
}

#[test]
fn three_connections_one_sends() {
    let mut relay = relay();
    let (mut a1, _, mut in1) = join_as(&mut relay, text("a1"));
    let (_a2, _, mut in2) = join_as(&mut relay, text("a2"));
    let (_a3, _, mut in3) = join_as(&mut relay, text("a3"));
    let step = send(&mut relay, &mut a1, text("hi"));
    let expected = format!("<User#{}>: hi", a1.id());
    assert_eq!(expected, "<User#1>: hi");
    match step {
        Step::Relayed(sent) => {
            assert_eq!(sent.message, expected);
            let addressed: Vec<(String, usize, bool)> = sent
                .deliveries
                .iter()
                .map(|d| (d.recipient.clone(), d.owner, d.accepted))
                .collect();
            assert_eq!(addressed, vec![("a2".to_string(), 2, true), ("a3".to_string(), 3, true)]);
        }
        _ => panic!("the text was not relayed"),
    }
    assert_eq!(drain(&mut in2), vec![expected.clone()]);
    assert_eq!(drain(&mut in3), vec![expected.clone()]);
    assert_eq!(drain(&mut in1), Vec::<String>::new());
    assert_eq!(relay.history.snapshot(), vec![expected]);
}

#[test]
fn joining_after_twenty_five_messages_replays_the_last_twenty() {
    let mut relay = relay();
    let (mut talker, _, _talker_inbox) = join_as(&mut relay, text("talker"));
    for i in 1..=25 {
        send(&mut relay, &mut talker, text(&format!("message {}", i)));
    }
    let (_late, lines, mut inbox) = join_as(&mut relay, text("late"));
    let mut expected = vec!["Welcome to the chat, late!".to_string(), "History:\n".to_string()];
    for i in 6..=25 {
        expected.push(format!("<User#1>: message {}", i));
    }
    assert_eq!(lines.len(), 22);
    assert_eq!(lines, expected);
    assert_eq!(drain(&mut inbox), Vec::<String>::new());
}

#[test]
fn non_text_frame_is_dropped() {
    let mut relay = relay();
    let (mut a1, _, mut in1) = join_as(&mut relay, text("a1"));
    let (_a2, _, mut in2) = join_as(&mut relay, text("a2"));
    let step = send(&mut relay, &mut a1, Inbound::Frame(Frame::Other));
    assert!(matches!(step, Step::Ignored));
    assert_eq!(a1.phase(), Phase::Relaying);
    assert!(relay.history.is_empty());
    assert_eq!(drain(&mut in1), Vec::<String>::new());
    assert_eq!(drain(&mut in2), Vec::<String>::new());
    assert_eq!(relay.registry.len(), 2);
}

#[test]
fn failed_read_ends_the_session() {
    let mut relay = relay();
    let (mut a1, _, mut in1) = join_as(&mut relay, text("a1"));
    let (mut a2, _, mut in2) = join_as(&mut relay, text("a2"));
    let step = send(&mut relay, &mut a1, Inbound::Failed);
    assert!(matches!(step, Step::Left));
    assert_eq!(a1.phase(), Phase::Disconnected);
    assert!(!relay.registry.contains("a1"));
    assert_eq!(relay.registry.len(), 1);

    a1.disconnect(&mut relay.registry);
    assert_eq!(a1.phase(), Phase::Disconnected);
    assert_eq!(relay.registry.len(), 1);
    assert_eq!(relay.registry.lookup("a2"), Some(2));

    let step = send(&mut relay, &mut a2, text("anyone?"));
    match step {
        Step::Relayed(sent) => assert!(sent.deliveries.is_empty()),
        _ => panic!("the text was not relayed"),
    }
    assert!(matches!(in1.try_recv(), Err(TryRecvError::Disconnected)));
    assert_eq!(drain(&mut in2), Vec::<String>::new());
    assert_eq!(relay.history.snapshot(), vec!["<User#2>: anyone?".to_string()]);
}

#[test]
fn end_of_stream_ends_the_session() {
    let mut relay = relay();
    let (mut a1, _, mut in1) = join_as(&mut relay, text("a1"));
    let step = send(&mut relay, &mut a1, Inbound::Closed);
    assert!(matches!(step, Step::Left));
    assert_eq!(a1.phase(), Phase::Disconnected);
    assert!(relay.registry.is_empty());
    assert!(relay.history.is_empty());
    assert!(matches!(in1.try_recv(), Err(TryRecvError::Disconnected)));
}

#[test]
fn disconnect_after_the_name_was_taken_over_leaves_the_later_entry_out() {
    let mut relay = relay();
    let (mut first, _, mut first_inbox) = join_as(&mut relay, text(""));
    let (mut second, _, mut second_inbox) = join_as(&mut relay, Inbound::Closed);
    let (mut third, _, mut third_inbox) = join_as(&mut relay, text("a3"));
    assert_eq!(first.name(), "Anonymous");
    assert_eq!(second.name(), "Anonymous");
    assert_eq!(relay.registry.len(), 2);
    assert_eq!(relay.registry.lookup("Anonymous"), Some(2));
    assert!(matches!(first_inbox.try_recv(), Err(TryRecvError::Disconnected)));

    send(&mut relay, &mut third, text("to all"));
    assert_eq!(drain(&mut second_inbox), vec!["<User#3>: to all".to_string()]);

    send(&mut relay, &mut first, text("from the first"));
    assert_eq!(drain(&mut second_inbox), Vec::<String>::new());
    assert_eq!(drain(&mut third_inbox), vec!["<User#1>: from the first".to_string()]);

    send(&mut relay, &mut first, Inbound::Closed);
    assert!(!relay.registry.contains("Anonymous"));
    assert_eq!(relay.registry.len(), 1);
    send(&mut relay, &mut second, Inbound::Failed);
    assert_eq!(relay.registry.len(), 1);
    assert_eq!(relay.registry.lookup("a3"), Some(3));
}

#[test]
fn relay_dispatches_text_and_drops_the_rest() {
    let mut relay = relay();
    let (a1, _, _in1) = join_as(&mut relay, text("a1"));
    let (_a2, _, mut in2) = join_as(&mut relay, text("a2"));
    let sent = a1
        .relay(Frame::Text("ping".to_string()), &mut relay.history, &relay.registry)
        .expect("a broadcast");
    assert_eq!(sent.message, "<User#1>: ping");
    assert_eq!(sent.deliveries.len(), 1);
    assert!(a1.relay(Frame::Other, &mut relay.history, &relay.registry).is_none());
    assert_eq!(drain(&mut in2), vec!["<User#1>: ping".to_string()]);
    assert_eq!(relay.history.len(), 1);
}

#[test]
fn dispatch_records_even_when_nobody_listens() {
    let mut history = HistoryBuffer::new();
    let registry = ConnectionRegistry::new();
    let sent = dispatch(&mut history, &registry, "alone", 5, "echo");
    assert_eq!(sent.message, "<User#5>: echo");
    assert!(sent.deliveries.is_empty());
    assert_eq!(history.snapshot(), vec!["<User#5>: echo".to_string()]);
}

#[test]
fn dispatch_excludes_by_name_and_renders_by_identifier() {
    let mut history = HistoryBuffer::new();
    let mut registry = ConnectionRegistry::new();
    let (h1, mut i1) = OutboundHandle::open(1);
    let (h2, mut i2) = OutboundHandle::open(2);
    registry.register("a1".to_string(), h1);
    registry.register("a2".to_string(), h2);
    let sent = dispatch(&mut history, &registry, "a1", 77, "hi");
    assert_eq!(sent.message, "<User#77>: hi");
    assert_eq!(sent.deliveries.len(), 1);
    assert_eq!(sent.deliveries[0].recipient, "a2");
    assert_eq!(sent.deliveries[0].owner, 2);
    assert!(sent.deliveries[0].accepted);
    assert_eq!(drain(&mut i1), Vec::<String>::new());
    assert_eq!(drain(&mut i2), vec!["<User#77>: hi".to_string()]);
    assert_eq!(history.snapshot(), vec!["<User#77>: hi".to_string()]);
}

#[test]
fn dispatch_survives_a_peer_whose_queue_is_gone() {
    let mut history = HistoryBuffer::new();
    let mut registry = ConnectionRegistry::new();
    let (h1, i1) = OutboundHandle::open(1);
    let (h2, mut i2) = OutboundHandle::open(2);
    registry.register("a1".to_string(), h1);
    registry.register("a2".to_string(), h2);
    drop(i1);
    let sent = dispatch(&mut history, &registry, "a3", 3, "hi");
    assert_eq!(sent.deliveries.len(), 2);
    assert!(!sent.deliveries[0].accepted);
    assert!(sent.deliveries[1].accepted);
    assert_eq!(drain(&mut i2), vec!["<User#3>: hi".to_string()]);
    assert_eq!(history.len(), 1);
}

#[test]
fn joining_under_a_taken_name_leaves_the_others_in_place() {
    let mut relay = relay();
    let (_a1, _, mut in1) = join_as(&mut relay, text("a1"));
    let (_old, _, mut old_inbox) = join_as(&mut relay, text("dup"));
    let (mut a3, _, mut in3) = join_as(&mut relay, text("a3"));
    let (_new, _, mut new_inbox) = join_as(&mut relay, text("dup"));
    assert_eq!(relay.registry.len(), 3);
    assert_eq!(relay.registry.lookup("dup"), Some(4));
    assert_eq!(relay.registry.lookup("a1"), Some(1));
    assert_eq!(relay.registry.lookup("a3"), Some(3));
    assert!(matches!(old_inbox.try_recv(), Err(TryRecvError::Disconnected)));
    send(&mut relay, &mut a3, text("hello"));
    assert_eq!(drain(&mut in1), vec!["<User#3>: hello".to_string()]);
    assert_eq!(drain(&mut new_inbox), vec!["<User#3>: hello".to_string()]);
    assert_eq!(drain(&mut in3), Vec::<String>::new());
}

#[test]
fn teardown_leaves_the_other_entries_alone() {
    let mut relay = relay();
    let (mut a1, _, mut in1) = join_as(&mut relay, text("a1"));
    let (mut a2, _, mut in2) = join_as(&mut relay, text("a2"));
    let (_a3, _, mut in3) = join_as(&mut relay, text("a3"));
    assert!(matches!(send(&mut relay, &mut a2, Inbound::Failed), Step::Left));
    assert_eq!(relay.registry.len(), 2);
    assert_eq!(relay.registry.lookup("a1"), Some(1));
    assert_eq!(relay.registry.lookup("a3"), Some(3));
    send(&mut relay, &mut a1, text("still there?"));
    assert_eq!(drain(&mut in3), vec!["<User#1>: still there?".to_string()]);
    assert_eq!(drain(&mut in1), Vec::<String>::new());
    assert!(matches!(in2.try_recv(), Err(TryRecvError::Disconnected)));
}
