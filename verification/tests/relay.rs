use chat_relay::codec::{decode_chat_frame, decode_login_frame, frame_of_message};
use chat_relay::directory::{RegisterError, UserDirectory};
use chat_relay::handler::{handle_event, ConnectionEvent, HandlerAction, HandlerState};
use chat_relay::registry::{DeliverError, SessionRegistry};
use chat_relay::router::route;
use chat_relay::ChatMessage;

fn login_frame(username: &str, password: &str) -> String {
    format!(
        "{{\"username\":\"{}\",\"password\":\"{}\"}}",
        username, password
    )
}

fn chat_frame(from: &str, to: &str, content: &str) -> String {
    format!(
        "{{\"from\":\"{}\",\"to\":\"{}\",\"content\":\"{}\"}}",
        from, to, content
    )
}

fn connect_and_login(
    username: &str,
    password: &str,
    dir: &UserDirectory,
    reg: &mut SessionRegistry,
) -> HandlerState {
    let (state, action) = handle_event(
        HandlerState::Connecting,
        ConnectionEvent::Established,
        dir,
        reg,
    );
    assert!(matches!(state, HandlerState::AwaitingLogin));
    assert!(matches!(action, HandlerAction::Continue));
    let (state, action) = handle_event(
        state,
        ConnectionEvent::Frame {
            text: login_frame(username, password),
        },
        dir,
        reg,
    );
    assert!(matches!(action, HandlerAction::Continue));
    state
}

#[test]
fn registration_first_wins_second_rejected() {
    let mut dir = UserDirectory::new();
    let first = dir.register("alice".to_string(), "pw1".to_string());
    assert!(first.is_ok());
    let second = dir.register("alice".to_string(), "pw2".to_string());
    assert!(matches!(second, Err(RegisterError::AlreadyExists)));
    assert_eq!(dir.user_count(), 1);
    // the surviving account carries the credential of the winning call
    assert!(dir.verify(&"alice".to_string(), &"pw1".to_string()).is_some());
    assert!(dir.verify(&"alice".to_string(), &"pw2".to_string()).is_none());
}

#[test]
fn verify_requires_both_fields_to_match() {
    let mut dir = UserDirectory::new();
    dir.register("alice".to_string(), "pw1".to_string()).unwrap();
    let found = dir.verify(&"alice".to_string(), &"pw1".to_string());
    let user = found.unwrap();
    assert_eq!(user.username, "alice");
    assert_eq!(user.password, "pw1");
    assert!(dir.verify(&"alice".to_string(), &"wrong".to_string()).is_none());
    assert!(dir.verify(&"nobody".to_string(), &"pw1".to_string()).is_none());
}

#[test]
fn delivery_stamps_authenticated_sender() {
    let mut reg = SessionRegistry::new();
    reg.insert("bob".to_string());
    // the wire frame claims a forged sender; the router overwrites it
    let forged = ChatMessage::new("mallory".to_string(), "bob".to_string(), "hi".to_string());
    let delivered = route(&"alice".to_string(), forged, &mut reg);
    assert!(delivered);
    let received = reg.pop_outbound(&"bob".to_string()).unwrap();
    assert_eq!(received.from, "alice");
    assert_eq!(received.to, "bob");
    assert_eq!(received.content, "hi");
}

#[test]
fn undeliverable_destination_is_a_silent_drop() {
    let mut reg = SessionRegistry::new();
    reg.insert("alice".to_string());
    let m = ChatMessage::new("".to_string(), "carol".to_string(), "hello?".to_string());
    let delivered = route(&"alice".to_string(), m, &mut reg);
    assert!(!delivered);
    // nothing was queued anywhere
    assert!(reg.pop_outbound(&"alice".to_string()).is_none());
    assert!(reg.pop_outbound(&"carol".to_string()).is_none());
    assert_eq!(reg.session_count(), 1);
}

#[test]
fn deliver_fails_only_without_a_session() {
    let mut reg = SessionRegistry::new();
    let m = ChatMessage::new("a".to_string(), "bob".to_string(), "x".to_string());
    let r = reg.deliver(&"bob".to_string(), m);
    assert!(matches!(r, Err(DeliverError::Undeliverable)));
    reg.insert("bob".to_string());
    let m = ChatMessage::new("a".to_string(), "bob".to_string(), "x".to_string());
    assert!(reg.deliver(&"bob".to_string(), m).is_ok());
}

#[test]
fn outbound_queue_is_fifo() {
    let mut reg = SessionRegistry::new();
    reg.insert("bob".to_string());
    let alice = "alice".to_string();
    for text in ["one", "two", "three"] {
        let m = ChatMessage::new("".to_string(), "bob".to_string(), text.to_string());
        route(&alice, m, &mut reg);
    }
    let bob = "bob".to_string();
    assert_eq!(reg.pop_outbound(&bob).unwrap().content, "one");
    assert_eq!(reg.pop_outbound(&bob).unwrap().content, "two");
    assert_eq!(reg.pop_outbound(&bob).unwrap().content, "three");
    assert!(reg.pop_outbound(&bob).is_none());
}

#[test]
fn remove_is_idempotent() {
    let mut reg = SessionRegistry::new();
    reg.insert("alice".to_string());
    let alice = "alice".to_string();
    reg.remove(&alice);
    assert!(!reg.is_connected(&alice));
    reg.remove(&alice);
    assert!(!reg.is_connected(&alice));
    assert_eq!(reg.session_count(), 0);
}

#[test]
fn duplicate_login_leaves_one_fresh_session() {
    let mut reg = SessionRegistry::new();
    reg.insert("alice".to_string());
    let alice = "alice".to_string();
    let m = ChatMessage::new("".to_string(), "alice".to_string(), "stale".to_string());
    reg.deliver(&alice, m).unwrap();
    // a second connection logs in as alice: it supersedes the first
    reg.insert("alice".to_string());
    assert_eq!(reg.session_count(), 1);
    assert!(reg.is_connected(&alice));
    // the superseding session starts with an empty queue
    assert!(reg.pop_outbound(&alice).is_none());
}

#[test]
fn end_to_end_message_between_two_users() {
    let mut dir = UserDirectory::new();
    dir.register("alice".to_string(), "pw1".to_string()).unwrap();
    dir.register("bob".to_string(), "pw2".to_string()).unwrap();
    let mut reg = SessionRegistry::new();

    let alice_state = connect_and_login("alice", "pw1", &dir, &mut reg);
    assert!(matches!(alice_state, HandlerState::Active { .. }));
    let bob_state = connect_and_login("bob", "pw2", &dir, &mut reg);
    assert!(matches!(bob_state, HandlerState::Active { .. }));

    let (alice_state, action) = handle_event(
        alice_state,
        ConnectionEvent::Frame {
            text: chat_frame("alice", "bob", "hi"),
        },
        &dir,
        &mut reg,
    );
    assert!(matches!(alice_state, HandlerState::Active { .. }));
    assert!(matches!(action, HandlerAction::Continue));

    let received = reg.pop_outbound(&"bob".to_string()).unwrap();
    assert_eq!(received.from, "alice");
    assert_eq!(received.to, "bob");
    assert_eq!(received.content, "hi");
    assert!(reg.pop_outbound(&"bob".to_string()).is_none());
}

#[test]
fn message_to_unknown_user_keeps_connection_open() {
    let mut dir = UserDirectory::new();
    dir.register("alice".to_string(), "pw1".to_string()).unwrap();
    let mut reg = SessionRegistry::new();
    let state = connect_and_login("alice", "pw1", &dir, &mut reg);

    let (state, action) = handle_event(
        state,
        ConnectionEvent::Frame {
            text: chat_frame("alice", "carol", "anyone there?"),
        },
        &dir,
        &mut reg,
    );
    // no error surfaces and the connection stays active
    assert!(matches!(state, HandlerState::Active { .. }));
    assert!(matches!(action, HandlerAction::Continue));
    // nothing was delivered anywhere
    assert!(reg.pop_outbound(&"alice".to_string()).is_none());
    assert!(reg.pop_outbound(&"carol".to_string()).is_none());
}

#[test]
fn disconnect_removes_session_immediately() {
    let mut dir = UserDirectory::new();
    dir.register("alice".to_string(), "pw1".to_string()).unwrap();
    dir.register("bob".to_string(), "pw2".to_string()).unwrap();
    let mut reg = SessionRegistry::new();
    let alice_state = connect_and_login("alice", "pw1", &dir, &mut reg);
    let bob_state = connect_and_login("bob", "pw2", &dir, &mut reg);
    assert!(matches!(bob_state, HandlerState::Active { .. }));

    let (state, action) = handle_event(alice_state, ConnectionEvent::PeerClosed, &dir, &mut reg);
    assert!(matches!(state, HandlerState::Closed));
    assert!(matches!(action, HandlerAction::Terminate));
    // no ghost entry: alice no longer resolves as a delivery target
    assert!(!reg.is_connected(&"alice".to_string()));

    let (_, _) = handle_event(
        bob_state,
        ConnectionEvent::Frame {
            text: chat_frame("bob", "alice", "you there?"),
        },
        &dir,
        &mut reg,
    );
    assert!(reg.pop_outbound(&"alice".to_string()).is_none());
}

#[test]
fn failed_login_terminates_connection_without_a_session() {
    let mut dir = UserDirectory::new();
    dir.register("alice".to_string(), "pw1".to_string()).unwrap();
    let mut reg = SessionRegistry::new();
    let (state, _) = handle_event(
        HandlerState::Connecting,
        ConnectionEvent::Established,
        &dir,
        &mut reg,
    );
    let (state, action) = handle_event(
        state,
        ConnectionEvent::Frame {
            text: login_frame("alice", "wrong"),
        },
        &dir,
        &mut reg,
    );
    assert!(matches!(state, HandlerState::Closed));
    assert!(matches!(action, HandlerAction::Terminate));
    assert_eq!(reg.session_count(), 0);
}

#[test]
fn malformed_login_falls_back_to_empty_identity() {
    let (username, password) = decode_login_frame("this is not json");
    assert_eq!(username, "");
    assert_eq!(password, "");

    // the empty identity is unregistered, so the handshake fails
    let mut dir = UserDirectory::new();
    dir.register("alice".to_string(), "pw1".to_string()).unwrap();
    let mut reg = SessionRegistry::new();
    let (state, _) = handle_event(
        HandlerState::Connecting,
        ConnectionEvent::Established,
        &dir,
        &mut reg,
    );
    let (state, action) = handle_event(
        state,
        ConnectionEvent::Frame {
            text: "{broken".to_string(),
        },
        &dir,
        &mut reg,
    );
    assert!(matches!(state, HandlerState::Closed));
    assert!(matches!(action, HandlerAction::Terminate));
}

#[test]
fn malformed_chat_frame_is_an_empty_message() {
    let m = decode_chat_frame("{\"from\": 3}");
    assert_eq!(m.from, "");
    assert_eq!(m.to, "");
    assert_eq!(m.content, "");

    // while active, a malformed frame never terminates the connection
    let mut dir = UserDirectory::new();
    dir.register("alice".to_string(), "pw1".to_string()).unwrap();
    let mut reg = SessionRegistry::new();
    let state = connect_and_login("alice", "pw1", &dir, &mut reg);
    let (state, action) = handle_event(
        state,
        ConnectionEvent::Frame {
            text: "garbage".to_string(),
        },
        &dir,
        &mut reg,
    );
    assert!(matches!(state, HandlerState::Active { .. }));
    assert!(matches!(action, HandlerAction::Continue));
    assert!(reg.is_connected(&"alice".to_string()));
}

#[test]
fn decode_login_frame_reads_both_fields() {
    let (username, password) = decode_login_frame("{\"username\":\"alice\",\"password\":\"pw1\"}");
    assert_eq!(username, "alice");
    assert_eq!(password, "pw1");
}

#[test]
fn decode_chat_frame_reads_all_fields() {
    let m = decode_chat_frame("{\"from\":\"a\",\"to\":\"b\",\"content\":\"hello there\"}");
    assert_eq!(m.from, "a");
    assert_eq!(m.to, "b");
    assert_eq!(m.content, "hello there");
}

#[test]
fn encoded_frame_decodes_to_the_same_message() {
    let m = ChatMessage::new(
        "alice".to_string(),
        "bob".to_string(),
        "hi \"quoted\" text".to_string(),
    );
    let text = frame_of_message(&m);
    let back = decode_chat_frame(&text);
    assert_eq!(back.from, "alice");
    assert_eq!(back.to, "bob");
    assert_eq!(back.content, "hi \"quoted\" text");
}

#[test]
fn transport_error_runs_cleanup_like_a_close() {
    let mut dir = UserDirectory::new();
    dir.register("alice".to_string(), "pw1".to_string()).unwrap();
    let mut reg = SessionRegistry::new();
    let state = connect_and_login("alice", "pw1", &dir, &mut reg);
    let (state, action) = handle_event(state, ConnectionEvent::TransportFailed, &dir, &mut reg);
    assert!(matches!(state, HandlerState::Closed));
    assert!(matches!(action, HandlerAction::Terminate));
    assert!(!reg.is_connected(&"alice".to_string()));
}

#[test]
fn unexpected_events_change_nothing() {
    let mut dir = UserDirectory::new();
    dir.register("alice".to_string(), "pw1".to_string()).unwrap();
    let mut reg = SessionRegistry::new();
    let state = connect_and_login("alice", "pw1", &dir, &mut reg);

    // a stray stream-established event while active is ignored
    let (state, action) = handle_event(state, ConnectionEvent::Established, &dir, &mut reg);
    assert!(matches!(state, HandlerState::Active { .. }));
    assert!(matches!(action, HandlerAction::Continue));
    assert!(reg.is_connected(&"alice".to_string()));

    // the closed state is terminal
    let (state, _) = handle_event(state, ConnectionEvent::PeerClosed, &dir, &mut reg);
    assert!(matches!(state, HandlerState::Closed));
    let (state, action) = handle_event(
        state,
        ConnectionEvent::Frame {
            text: chat_frame("alice", "bob", "late"),
        },
        &dir,
        &mut reg,
    );
    assert!(matches!(state, HandlerState::Closed));
    assert!(matches!(action, HandlerAction::Terminate));
}
