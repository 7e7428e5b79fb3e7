use server::handles::connection_handles::{
    chat_line, remove_user_notice, update_users_notice, Action, Event, Phase, Session,
};
use server::handles::message::{Message, MessageType};
use server::handles::user::User;
use server::handles::user_ip::{IpAddress, PeerAddress, UserIp};
use server::server_state::State;

fn at() -> chrono::NaiveDateTime {
    chrono::DateTime::from_timestamp(1_700_000_000, 0).unwrap().naive_utc()
}

fn later() -> chrono::NaiveDateTime {
    chrono::DateTime::from_timestamp(1_700_000_060, 0).unwrap().naive_utc()
}

fn peer() -> PeerAddress {
    PeerAddress { ip: IpAddress::V4(127, 0, 0, 1), port: 40000 }
}

#[test]
fn notices() {
    assert_eq!(update_users_notice(3, "ana"), "UPDATE_USERS:3:ana");
    assert_eq!(remove_user_notice(12), "REMOVE_USER:12");
    let mut m = Message::new(1, 1, "hi there".to_string(), at());
    m.content_type = MessageType::Warning;
    assert_eq!(chat_line("bob", &m), "bob: hi there (Type: Warning)");
}

#[test]
fn full_session() {
    let mut state = State::new(2);
    let mut session = Session::new(5);

    match session.step(&mut state, Event::Accepted) {
        Action::Send(bytes) => assert_eq!(bytes, b"Connection established!".to_vec()),
        _ => panic!("expected the greeting"),
    }
    assert!(matches!(session.phase, Phase::AwaitingAlias));

    match session.step(&mut state, Event::Received(b"0x05 | ana\n".to_vec(), at())) {
        Action::StoreUser(alias) => assert_eq!(alias, "ana"),
        _ => panic!("expected the user to be stored"),
    }

    let mut user = User::new("ana".to_string(), at(), at());
    user.id = 42;
    match session.step(&mut state, Event::UserStored(user, Some(peer()))) {
        Action::Notify(n) => assert_eq!(n, "UPDATE_USERS:5:ana"),
        _ => panic!("expected the announcement"),
    }
    assert_eq!(state.connection_list.get(&5), Some(&peer()));
    assert_eq!(state.user_names.get(&5).map(|s| s.as_str()), Some("ana"));

    let stored = match session.step(&mut state, Event::Received(b"0x04 | hello\n".to_vec(), later())) {
        Action::StoreMessage(m) => {
            assert_eq!(m.sender_id, 42);
            assert_eq!(m.receiver_id, 1);
            assert_eq!(m.content, "hello");
            assert_eq!(m.content_type, MessageType::Text);
            assert_eq!(m.created_at, Some(later()));
            m
        }
        _ => panic!("expected the message to be stored"),
    };

    match session.step(&mut state, Event::MessageStored(stored)) {
        Action::Notify(line) => assert_eq!(line, "ana: hello (Type: Text)"),
        _ => panic!("expected the chat line"),
    }

    match session.step(&mut state, Event::Received(Vec::new(), at())) {
        Action::Notify(n) => assert_eq!(n, "REMOVE_USER:5"),
        _ => panic!("expected the departure"),
    }
    assert!(matches!(session.phase, Phase::Closed));
    assert!(state.connection_list.is_empty());
    assert!(state.user_names.is_empty());
    assert!(matches!(session.step(&mut state, Event::Accepted), Action::Ignore));
}

#[test]
fn refused_when_full() {
    let mut state = State::new(1);
    state.connection_list.insert(1, peer());
    let mut session = Session::new(2);
    match session.step(&mut state, Event::Accepted) {
        Action::Refuse(e) => {
            assert_eq!(e.code(), 100);
            assert_eq!(e.message(), "Max connections reached");
        }
        _ => panic!("expected a refusal"),
    }
    assert!(matches!(session.phase, Phase::Closed));
}

#[test]
fn first_message_must_be_alias() {
    let mut state = State::new(1);
    let mut session = Session::new(2);
    session.step(&mut state, Event::Accepted);
    match session.step(&mut state, Event::Received(b"0x04 | hi".to_vec(), at())) {
        Action::Fail(m) => assert_eq!(m, "First message must be alias"),
        _ => panic!("expected a failure"),
    }
    assert!(matches!(session.phase, Phase::Closed));
}

#[test]
fn read_failure_ends_session() {
    let mut state = State::new(1);
    let mut session = Session::new(2);
    session.step(&mut state, Event::Accepted);
    assert!(matches!(session.step(&mut state, Event::ReadFailed), Action::Close));
    assert!(matches!(session.phase, Phase::Closed));
}

#[test]
fn out_of_order_events_are_ignored() {
    let mut state = State::new(1);
    let mut session = Session::new(2);
    assert!(matches!(session.step(&mut state, Event::Received(b"x".to_vec(), at())), Action::Ignore));
    assert!(matches!(session.phase, Phase::Connecting));
}

#[test]
fn user_ip_keeps_the_address() {
    let record = UserIp::new(9, peer(), at());
    assert_eq!(record.id, 0);
    assert_eq!(record.created_at, at());
    assert_eq!(record.user_id, 9);
    assert_eq!(record.ip_address, IpAddress::V4(127, 0, 0, 1));
}

#[test]
fn user_lifecycle() {
    let mut user = User::new("zoe".to_string(), at(), later());
    assert_eq!(user.id, 0);
    assert_eq!(user.created_at, at());
    assert_eq!(user.last_login_at, later());
    assert_eq!(user.alias, "zoe");
    assert_eq!(user.status, "offline");
    let created = user.created_at;
    user.set_online(later());
    assert_eq!(user.status, "online");
    assert_eq!(user.last_login_at, later());
    assert_eq!(user.created_at, created);
}

#[test]
fn unregistered_when_address_is_lost() {
    let mut state = State::new(2);
    let mut session = Session::new(3);
    session.step(&mut state, Event::Accepted);
    session.step(&mut state, Event::Received(b"5|kim".to_vec(), at()));
    let mut user = User::new("kim".to_string(), at(), at());
    user.id = 8;
    assert!(matches!(session.step(&mut state, Event::UserStored(user, None)), Action::Receive));
    assert!(matches!(session.phase, Phase::Chatting { user_id: 8, .. }));
    assert!(state.connection_list.is_empty());
    assert!(state.user_names.is_empty());
    match session.step(&mut state, Event::Received(b"hello".to_vec(), at())) {
        Action::StoreMessage(m) => assert_eq!(m.sender_id, 8),
        _ => panic!("expected the message to be stored"),
    }
}
