use chrono::NaiveDateTime;
use vstd::prelude::*;
use vstd::utf8::encode_utf8;

use super::message::{payload_content, payload_type, received_text, Message, MessageType};
use super::user::User;
use super::user_ip::PeerAddress;
use crate::server_error::ServerError;
use crate::server_state::State;
use crate::text::{decimal, push_decimal};

verus! {

/// The notice `UPDATE_USERS:{id}:{alias}` that announces a user to the UI.
pub open spec fn update_users_text(id: u32, alias: Seq<char>) -> Seq<char> {
    "UPDATE_USERS:"@ + decimal(id as nat) + seq![':'] + alias
}

/// The notice `REMOVE_USER:{id}` that tells the UI a user left.
pub open spec fn remove_user_text(id: u32) -> Seq<char> {
    "REMOVE_USER:"@ + decimal(id as nat)
}

/// The chat line `{alias}: {content} (Type: {type:?})` shown for a message.
pub open spec fn chat_line_text(alias: Seq<char>, content: Seq<char>, t: MessageType) -> Seq<
    char,
> {
    alias + ": "@ + content + " (Type: "@ + t.variant_name() + ")"@
}

/// The notice that announces user `alias` on connection `id`.
pub fn update_users_notice(id: u32, alias: &str) -> (s: String)
    ensures
        s@ == update_users_text(id, alias@),
{
    let mut s = String::from_str("UPDATE_USERS:");
    push_decimal(&mut s, id);
    s.append(":");
    s.append(alias);
    proof {
        reveal_strlit(":");
    }
    s
}

/// The notice that connection `id` was closed.
pub fn remove_user_notice(id: u32) -> (s: String)
    ensures
        s@ == remove_user_text(id),
{
    let mut s = String::from_str("REMOVE_USER:");
    push_decimal(&mut s, id);
    s
}

/// The line shown in the UI for a message that `alias` sent.
pub fn chat_line(alias: &str, message: &Message) -> (s: String)
    ensures
        s@ == chat_line_text(alias@, message.content@, message.content_type),
{
    let mut s = String::from_str(alias);
    s.append(": ");
    s.append(message.content.as_str());
    s.append(" (Type: ");
    let name = message.content_type.variant_name_string();
    s.append(name.as_str());
    s.append(")");
    s
}

/// Where a connection stands in the protocol: a client is admitted and
/// greeted, must first send its alias, is then stored as a user and
/// registered, and from then on chats until it closes the connection.
pub enum Phase {
    /// Accepted by the listener, not yet admitted.
    Connecting,
    /// Greeted; the first message must give the alias.
    AwaitingAlias,
    /// The alias was received and the user is being stored.
    CreatingUser { alias: String },
    /// Registered as `alias`, stored as user `user_id`.
    Chatting { user_id: i32, alias: String },
    /// The connection is over.
    Closed,
}

/// What happened on a connection.
pub enum Event {
    /// The connection was accepted.
    Accepted,
    /// A read from the client, at the given time, returned these bytes;
    /// none means the client closed the connection.
    Received(Vec<u8>, NaiveDateTime),
    /// A read from the client failed.
    ReadFailed,
    /// The user chosen by the alias was stored; this is the stored record,
    /// with the client's address as read again afterwards, if it could be
    /// read.
    UserStored(User, Option<PeerAddress>),
    /// A received message was stored; this is the stored record.
    MessageStored(Message),
}

/// What the server does next on a connection.
pub enum Action {
    /// Refuse the connection with this error and close it.
    Refuse(ServerError),
    /// Write these bytes to the client.
    Send(Vec<u8>),
    /// Store (or look up) the user with this alias, and record the
    /// client's address for it.
    StoreUser(String),
    /// Store this message.
    StoreMessage(Message),
    /// Pass this notice to the UI.
    Notify(String),
    /// End the connection with this error.
    Fail(String),
    /// Read the next message from the client.
    Receive,
    /// End the connection.
    Close,
    /// Nothing to do.
    Ignore,
}

/// One client connection: its id and its phase.
pub struct Session {
    pub id: u32,
    pub phase: Phase,
}

/// `post` is `pre` unchanged.
pub open spec fn state_unchanged(pre: State, post: State) -> bool {
    &&& post.connections() == pre.connections()
    &&& post.names() == pre.names()
    &&& post.next_id() == pre.next_id()
    &&& post.spec_max_connections() == pre.spec_max_connections()
}

/// The greeting sent to an admitted client.
pub open spec fn welcome_bytes() -> Seq<u8> {
    encode_utf8("Connection established!"@)
}

impl Session {
    /// A connection that was just accepted.
    pub fn new(id: u32) -> (s: Self)
        ensures
            s.id == id,
            s.phase is Connecting,
    {
        Session { id, phase: Phase::Connecting }
    }

    /// The protocol of a connection: for each phase and event, the next
    /// phase, what becomes of the server state and the action to take.
    /// Combinations not listed leave everything as it is and do nothing.
    pub open spec fn step_spec(
        pre: Session,
        post: Session,
        pre_state: State,
        post_state: State,
        event: Event,
        action: Action,
    ) -> bool {
        &&& post.id == pre.id
        &&& match (pre.phase, event) {
            (Phase::Connecting, Event::Accepted) => if pre_state.spec_can_accept() {
                &&& post.phase is AwaitingAlias
                &&& state_unchanged(pre_state, post_state)
                &&& action matches Action::Send(bytes) && bytes@ == welcome_bytes()
            } else {
                &&& post.phase is Closed
                &&& state_unchanged(pre_state, post_state)
                &&& action matches Action::Refuse(e) && e.spec_code() == 100 && e.spec_message()
                    == "Max connections reached"@
            },
            (Phase::AwaitingAlias, Event::Received(bytes, _at)) => {
                let text = received_text(bytes@, bytes@.len() as int);
                &&& state_unchanged(pre_state, post_state)
                &&& if payload_type(text) == MessageType::Alias {
                    &&& post.phase matches Phase::CreatingUser { alias } && alias@
                        == payload_content(text)
                    &&& action matches Action::StoreUser(a) && a@ == payload_content(text)
                } else {
                    &&& post.phase is Closed
                    &&& action matches Action::Fail(m) && m@ == "First message must be alias"@
                }
            },
            (Phase::AwaitingAlias, Event::ReadFailed) => {
                &&& post.phase is Closed
                &&& state_unchanged(pre_state, post_state)
                &&& action is Close
            },
            (Phase::CreatingUser { alias: _ }, Event::UserStored(user, None)) => {
                &&& post.phase matches Phase::Chatting { user_id, alias } && user_id == user.id
                    && alias@ == user.alias@
                &&& state_unchanged(pre_state, post_state)
                &&& action is Receive
            },
            (Phase::CreatingUser { alias: _ }, Event::UserStored(user, Some(peer))) => {
                &&& post.phase matches Phase::Chatting { user_id, alias } && user_id == user.id
                    && alias@ == user.alias@
                &&& post_state.connections() == pre_state.connections().insert(pre.id, peer)
                &&& post_state.names() == pre_state.names().insert(
                    pre.id,
                    post_state.names()[pre.id],
                )
                &&& post_state.names()[pre.id]@ == user.alias@
                &&& post_state.next_id() == pre_state.next_id()
                &&& post_state.spec_max_connections() == pre_state.spec_max_connections()
                &&& action matches Action::Notify(n) && n@ == update_users_text(
                    pre.id,
                    user.alias@,
                )
            },
            (Phase::Chatting { user_id, alias }, Event::Received(bytes, at)) => if bytes@.len() == 0 {
                &&& post.phase is Closed
                &&& post_state.connections() == pre_state.connections().remove(pre.id)
                &&& post_state.names() == pre_state.names().remove(pre.id)
                &&& post_state.next_id() == pre_state.next_id()
                &&& post_state.spec_max_connections() == pre_state.spec_max_connections()
                &&& action matches Action::Notify(n) && n@ == remove_user_text(pre.id)
            } else {
                let text = received_text(bytes@, bytes@.len() as int);
                &&& post.phase == pre.phase
                &&& state_unchanged(pre_state, post_state)
                &&& action matches Action::StoreMessage(m) && m.is_composed(
                    user_id,
                    1,
                    payload_content(text),
                    payload_type(text),
                    at,
                )
            },
            (Phase::Chatting { user_id, alias }, Event::MessageStored(m)) => {
                &&& post.phase == pre.phase
                &&& state_unchanged(pre_state, post_state)
                &&& action matches Action::Notify(n) && n@ == chat_line_text(
                    alias@,
                    m.content@,
                    m.content_type,
                )
            },
            (Phase::Chatting { user_id, alias }, Event::ReadFailed) => {
                &&& post.phase is Closed
                &&& state_unchanged(pre_state, post_state)
                &&& action is Close
            },
            _ => {
                &&& post.phase == pre.phase
                &&& state_unchanged(pre_state, post_state)
                &&& action is Ignore
            },
        }
    }

    /// Takes one step of the protocol on `event`, updating the server state.
    pub fn step(&mut self, state: &mut State, event: Event) -> (action: Action)
        ensures
            Session::step_spec(*old(self), *final(self), *old(state), *final(state), event, action),
    {
        let mut phase = Phase::Closed;
        std::mem::swap(&mut phase, &mut self.phase);
        match (phase, event) {
            (Phase::Connecting, Event::Accepted) => {
                if state.can_accept_connection() {
                    self.phase = Phase::AwaitingAlias;
                    Action::Send("Connection established!".as_bytes_vec())
                } else {
                    Action::Refuse(ServerError::max_connections_reached())
                }
            },
            (Phase::AwaitingAlias, Event::Received(bytes, at)) => {
                let message = Message::from_buffer(bytes.as_slice(), bytes.len(), 0, 1, at);
                if message.content_type == MessageType::Alias {
                    let alias = message.content;
                    let stored = alias.clone();
                    self.phase = Phase::CreatingUser { alias };
                    Action::StoreUser(stored)
                } else {
                    Action::Fail(String::from_str("First message must be alias"))
                }
            },
            (Phase::AwaitingAlias, Event::ReadFailed) => Action::Close,
            (Phase::CreatingUser { alias: _ }, Event::UserStored(user, None)) => {
                self.phase = Phase::Chatting { user_id: user.id, alias: user.alias };
                Action::Receive
            },
            (Phase::CreatingUser { alias: _ }, Event::UserStored(user, Some(peer))) => {
                let notice = update_users_notice(self.id, user.alias.as_str());
                state.register_connection(self.id, peer, user.alias.clone());
                self.phase = Phase::Chatting { user_id: user.id, alias: user.alias };
                Action::Notify(notice)
            },
            (Phase::Chatting { user_id, alias }, Event::Received(bytes, at)) => {
                if bytes.len() == 0 {
                    state.remove_connection(self.id);
                    Action::Notify(remove_user_notice(self.id))
                } else {
                    let message = Message::from_buffer(
                        bytes.as_slice(),
                        bytes.len(),
                        user_id,
                        1,
                        at,
                    );
                    self.phase = Phase::Chatting { user_id, alias };
                    Action::StoreMessage(message)
                }
            },
            (Phase::Chatting { user_id, alias }, Event::MessageStored(m)) => {
                let line = chat_line(alias.as_str(), &m);
                self.phase = Phase::Chatting { user_id, alias };
                Action::Notify(line)
            },
            (Phase::Chatting { user_id, alias }, Event::ReadFailed) => Action::Close,
            (phase, _) => {
                self.phase = phase;
                Action::Ignore
            },
        }
    }
}

/// A client that is registered and then closes its connection leaves the
/// server's connections and aliases as they were before (when its id was
/// not in use), and its session ends.
pub proof fn lemma_leave_undoes_join(
    s0: Session,
    s1: Session,
    s2: Session,
    st0: State,
    st1: State,
    st2: State,
    user: User,
    peer: PeerAddress,
    bytes: Vec<u8>,
    at: NaiveDateTime,
    a1: Action,
    a2: Action,
)
    requires
        s0.phase is CreatingUser,
        !st0.connections().contains_key(s0.id),
        !st0.names().contains_key(s0.id),
        Session::step_spec(s0, s1, st0, st1, Event::UserStored(user, Some(peer)), a1),
        bytes@.len() == 0,
        Session::step_spec(s1, s2, st1, st2, Event::Received(bytes, at), a2),
    ensures
        st2.connections() == st0.connections(),
        st2.names() == st0.names(),
        st2.next_id() == st0.next_id(),
        s2.phase is Closed,
{
    assert(st2.connections() =~= st0.connections());
    assert(st2.names() =~= st0.names());
}

/// A client is admitted exactly when the server can take another
/// connection; otherwise it is refused and nothing changes.
pub proof fn lemma_admission(s0: Session, s1: Session, st0: State, st1: State, a: Action)
    requires
        s0.phase is Connecting,
        Session::step_spec(s0, s1, st0, st1, Event::Accepted, a),
    ensures
        (s1.phase is AwaitingAlias) == st0.spec_can_accept(),
        (a is Refuse) == !st0.spec_can_accept(),
        st1.connections() == st0.connections(),
{
}

/// Every step of the protocol keeps each open connection paired with an
/// alias.
pub proof fn lemma_step_keeps_aliases(
    pre: Session,
    post: Session,
    pre_state: State,
    post_state: State,
    event: Event,
    action: Action,
)
    requires
        pre_state.aliases_match(),
        Session::step_spec(pre, post, pre_state, post_state, event, action),
    ensures
        post_state.aliases_match(),
{
    assert(post_state.names().dom() =~= post_state.connections().dom());
}

/// Registering a stored user adds at most one connection. Admission is
/// checked when the connection is accepted, not again at registration, so
/// sessions admitted together may between them go past the limit; this is
/// all that a single registration guarantees.
pub proof fn lemma_registration_adds_at_most_one(
    pre: Session,
    post: Session,
    pre_state: State,
    post_state: State,
    user: User,
    peer: PeerAddress,
    action: Action,
)
    requires
        pre.phase is CreatingUser,
        Session::step_spec(pre, post, pre_state, post_state, Event::UserStored(user, Some(peer)), action),
    ensures
        post_state.connection_count() <= pre_state.connection_count() + 1,
        post_state.connections().contains_key(pre.id),
{
    crate::server_state::lemma_connections_finite(pre_state);
}

/// A failed read ends every session that is waiting for a read: from the
/// alias phase and from the chat phase the session closes with the action
/// `Close`. A failed read never changes the server state, and in the other
/// phases it changes nothing at all.
pub proof fn lemma_read_failure_ends_session(
    pre: Session,
    post: Session,
    pre_state: State,
    post_state: State,
    action: Action,
)
    requires
        Session::step_spec(pre, post, pre_state, post_state, Event::ReadFailed, action),
    ensures
        state_unchanged(pre_state, post_state),
        (pre.phase is AwaitingAlias || pre.phase is Chatting) ==> (post.phase is Closed
            && action is Close),
        !(pre.phase is AwaitingAlias || pre.phase is Chatting) ==> (post.phase == pre.phase
            && action is Ignore),
{
}

} // verus!
