use server::handles::user_ip::{IpAddress, PeerAddress};
use server::server_state::State;

fn local(port: u16) -> PeerAddress {
    PeerAddress { ip: IpAddress::V4(127, 0, 0, 1), port }
}

#[test]
fn test_new_state() {
    let state = State::new(1);

    assert!(state.can_accept_connection(), "Should accept connections initially");
    assert_eq!(state.connection_list.len(), 0, "Connection list should start empty");
    assert_eq!(state.id_counter, 0, "Counter should start at zero");
}

#[test]
fn test_can_accept_connection() {
    let mut state = State::new(1);

    assert!(state.can_accept_connection(), "Should accept first connection");
    state.connection_list.insert(1, local(8080));
    assert!(
        !state.can_accept_connection(),
        "Should not accept more connections after limit"
    );
}

#[test]
fn test_multiple_connections() {
    let mut state = State::new(2);

    assert!(state.can_accept_connection(), "Should accept first connection");
    state.connection_list.insert(1, local(8080));
    assert!(state.can_accept_connection(), "Should accept second connection");
    state.connection_list.insert(2, local(8081));
    assert!(!state.can_accept_connection(), "Should not accept third connection");
}

#[test]
fn test_id_increment() {
    let mut state = State::new(1);

    assert_eq!(state.id_increment(), 0, "First ID should be 0");
    assert_eq!(state.id_increment(), 1, "Second ID should be 1");
    assert_eq!(state.id_increment(), 2, "Third ID should be 2");
}

#[test]
fn test_connection_management() {
    let mut state = State::new(1);

    assert!(state.can_accept_connection(), "Should accept connections initially");
    state.connection_list.insert(1, local(8080));
    assert_eq!(state.connection_list.len(), 1, "Should have exactly one connection");
    assert!(!state.can_accept_connection(), "Should not accept more connections");
    state.connection_list.remove(&1);
    assert_eq!(state.connection_list.len(), 0, "Should be empty after removal");
    assert!(state.can_accept_connection(), "Should accept connections after removal");
    state.connection_list.insert(2, local(8081));
    assert_eq!(state.connection_list.len(), 1, "Should have exactly one connection");
}

#[test]
fn zero_limit_accepts_nothing() {
    let state = State::new(0);
    assert!(!state.can_accept_connection());
    assert_eq!(state.max_connections(), 0);
}

#[test]
fn register_and_remove_connection() {
    let mut state = State::new(1);
    state.register_connection(7, local(9000), "ana".to_string());
    assert_eq!(state.connection_list.get(&7), Some(&local(9000)));
    assert_eq!(state.user_names.get(&7).map(|s| s.as_str()), Some("ana"));
    assert!(!state.can_accept_connection());
    state.remove_connection(7);
    assert!(state.connection_list.is_empty());
    assert!(state.user_names.is_empty());
    assert!(state.can_accept_connection());
}

#[test]
fn register_same_id_twice_keeps_one_connection() {
    let mut state = State::new(2);
    state.register_connection(3, local(1), "a".to_string());
    state.register_connection(3, local(2), "b".to_string());
    assert_eq!(state.connection_list.len(), 1);
    assert_eq!(state.user_names.get(&3).map(|s| s.as_str()), Some("b"));
    assert!(state.can_accept_connection());
}

#[test]
fn ids_keep_increasing() {
    let mut state = State::new(1);
    let a = state.id_increment();
    let b = state.id_increment();
    assert!(a < b);
    assert_eq!(state.id_counter, 2);
}

#[test]
fn successive_ids_are_consecutive() {
    let mut state = State::new(1);
    let ids: Vec<u32> = (0..5).map(|_| state.id_increment()).collect();
    assert_eq!(ids, vec![0, 1, 2, 3, 4]);
    assert_eq!(state.id_counter, 5);
}
