use vstd::prelude::*;

use crate::codec::{decode_chat_frame, decode_login_frame, spec_chat_fields, spec_login_fields};
use crate::directory::UserDirectory;
use crate::registry::SessionRegistry;
use crate::router::{route, route_post};

verus! {

/// The per-connection state machine. A connection is accepted, completes
/// the login handshake, runs a duplex message loop, and ends with its
/// session removed from the registry.
pub enum HandlerState {
    Connecting,
    AwaitingLogin,
    Active { username: String },
    Closed,
}

/// One occurrence on a connection, as the transport loop observes it: the
/// duplex stream coming up, one inbound text frame, a clean close by the
/// peer, or a transport-level failure.
pub enum ConnectionEvent {
    Established,
    Frame { text: String },
    PeerClosed,
    TransportFailed,
}

/// What the transport loop must do after a step: keep reading, or close
/// the connection. A terminated connection never affects other sessions.
pub enum HandlerAction {
    Continue,
    Terminate,
}

/// Whom a login frame authenticates: the username it carries (the empty
/// username for a frame that does not parse) when that username and
/// password match a registered account, nobody otherwise.
pub open spec fn login_outcome(dir: UserDirectory, text: Seq<char>) -> Option<Seq<char>> {
    let f = spec_login_fields(text);
    if dir.credentials_match(f.0, f.1) {
        Some(f.0)
    } else {
        None
    }
}

/// How one step of the state machine relates what went in (the state, the
/// event, the directory and the registry before) to what came out (the
/// next state, the action, and the registry after).
pub open spec fn handle_event_post(
    state: HandlerState,
    event: ConnectionEvent,
    dir: UserDirectory,
    pre: SessionRegistry,
    post: SessionRegistry,
    next: HandlerState,
    action: HandlerAction,
) -> bool {
    match (state, event) {
        (HandlerState::Connecting, ConnectionEvent::Established) => next is AwaitingLogin && action
            is Continue && post == pre,
        (HandlerState::Connecting, ConnectionEvent::Frame { .. }) => next is Connecting && action
            is Continue && post == pre,
        (HandlerState::Connecting, _) => next is Closed && action is Terminate && post == pre,
        (HandlerState::AwaitingLogin, ConnectionEvent::Established) => next is AwaitingLogin
            && action is Continue && post == pre,
        (HandlerState::AwaitingLogin, ConnectionEvent::Frame { text }) => match login_outcome(
            dir,
            text@,
        ) {
            Some(u) => (next matches HandlerState::Active { username } && username@ == u) && action
                is Continue && SessionRegistry::insert_post(pre, post, u),
            None => next is Closed && action is Terminate && post == pre,
        },
        (HandlerState::AwaitingLogin, _) => next is Closed && action is Terminate && post == pre,
        (HandlerState::Active { username }, ConnectionEvent::Established) => (next matches
            HandlerState::Active { username: u2 } && u2 == username) && action is Continue && post
            == pre,
        (HandlerState::Active { username }, ConnectionEvent::Frame { text }) => (next matches
            HandlerState::Active { username: u2 } && u2 == username) && action is Continue
            && route_post(pre, post, username@, spec_chat_fields(text@).1, spec_chat_fields(text@).2),
        (HandlerState::Active { username }, _) => next is Closed && action is Terminate
            && SessionRegistry::remove_post(pre, post, username@) && !post.has_session(username@),
        (HandlerState::Closed, _) => next is Closed && action is Terminate && post == pre,
    }
}

/// Advances one connection's state machine by one observed event,
/// updating the session registry as the lifecycle demands:
/// - the handshake frame is verified against the directory; success
///   enters `Active` and registers a session, failure is fatal to this
///   connection and touches nothing;
/// - each chat frame received while `Active` is routed with the
///   authenticated username stamped into `from`;
/// - leaving `Active` for any reason removes exactly this username's
///   session — cleanup runs on every exit path;
/// - events that a state does not expect change nothing.
pub fn handle_event(
    state: HandlerState,
    event: ConnectionEvent,
    directory: &UserDirectory,
    registry: &mut SessionRegistry,
) -> (r: (HandlerState, HandlerAction))
    requires
        directory.wf(),
        old(registry).wf(),
    ensures
        final(registry).wf(),
        handle_event_post(
            state,
            event,
            *directory,
            *old(registry),
            *final(registry),
            r.0,
            r.1,
        ),
{
    match (state, event) {
        (HandlerState::Connecting, ConnectionEvent::Established) => (
            HandlerState::AwaitingLogin,
            HandlerAction::Continue,
        ),
        (HandlerState::Connecting, ConnectionEvent::Frame { .. }) => (
            HandlerState::Connecting,
            HandlerAction::Continue,
        ),
        (HandlerState::Connecting, _) => (HandlerState::Closed, HandlerAction::Terminate),
        (HandlerState::AwaitingLogin, ConnectionEvent::Established) => (
            HandlerState::AwaitingLogin,
            HandlerAction::Continue,
        ),
        (HandlerState::AwaitingLogin, ConnectionEvent::Frame { text }) => {
            let (username, password) = decode_login_frame(text.as_str());
            match directory.verify(&username, &password) {
                Some(user) => {
                    registry.insert(user.username);
                    (HandlerState::Active { username }, HandlerAction::Continue)
                },
                None => (HandlerState::Closed, HandlerAction::Terminate),
            }
        },
        (HandlerState::AwaitingLogin, _) => (HandlerState::Closed, HandlerAction::Terminate),
        (HandlerState::Active { username }, ConnectionEvent::Established) => (
            HandlerState::Active { username },
            HandlerAction::Continue,
        ),
        (HandlerState::Active { username }, ConnectionEvent::Frame { text }) => {
            let message = decode_chat_frame(text.as_str());
            route(&username, message, registry);
            (HandlerState::Active { username }, HandlerAction::Continue)
        },
        (HandlerState::Active { username }, _) => {
            registry.remove(&username);
            (HandlerState::Closed, HandlerAction::Terminate)
        },
        (HandlerState::Closed, _) => (HandlerState::Closed, HandlerAction::Terminate),
    }
}

} // verus!
