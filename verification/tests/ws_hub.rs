use ring_core::ws_hub::WsHub;

fn s(x: &str) -> String {
    x.to_string()
}

fn sorted(mut v: Vec<String>) -> Vec<String> {
    v.sort();
    v
}

#[test]
fn connect_and_disconnect() {
    let mut hub = WsHub::new();
    assert!(!hub.send_to_user("u1"));
    hub.register(s("u1"));
    hub.register(s("u1"));
    assert!(hub.send_to_user("u1"));
    assert!(!hub.send_to_user("u2"));
    let paused = hub.unregister("u1");
    assert!(paused.is_empty());
    assert!(!hub.send_to_user("u1"));
}

#[test]
fn broadcast_reaches_connected_participants() {
    let mut hub = WsHub::new();
    hub.register(s("owner"));
    hub.register(s("a"));
    hub.register_session(s("s1"), s("owner"), &vec![s("owner"), s("a"), s("b")]);
    assert_eq!(sorted(hub.broadcast_to_session("s1")), vec![s("a"), s("owner")]);
    hub.register(s("b"));
    assert_eq!(sorted(hub.broadcast_to_session("s1")), vec![s("a"), s("b"), s("owner")]);
    hub.remove_session_participant("s1", "a");
    assert_eq!(sorted(hub.broadcast_to_session("s1")), vec![s("b"), s("owner")]);
    hub.add_session_participant("s1", s("c"));
    hub.register(s("c"));
    assert_eq!(sorted(hub.broadcast_to_session("s1")), vec![s("b"), s("c"), s("owner")]);
    assert!(hub.broadcast_to_session("nope").is_empty());
    hub.add_session_participant("nope", s("x"));
    assert!(hub.broadcast_to_session("nope").is_empty());
}

#[test]
fn owners_and_sessions() {
    let mut hub = WsHub::new();
    hub.register(s("o1"));
    hub.register_session(s("s1"), s("o1"), &vec![]);
    hub.register_session(s("s2"), s("o2"), &vec![]);
    hub.register_session(s("s3"), s("o1"), &vec![]);
    assert!(hub.is_session_owner_online("s1"));
    assert!(!hub.is_session_owner_online("s2"));
    assert!(!hub.is_session_owner_online("missing"));
    assert_eq!(sorted(hub.sessions_owned_by("o1")), vec![s("s1"), s("s3")]);
    // Disconnecting an owner pauses the sessions it owns.
    let paused = hub.unregister("o1");
    assert_eq!(sorted(paused), vec![s("s1"), s("s3")]);
    assert!(!hub.is_session_owner_online("s1"));
    hub.remove_session("s1");
    assert_eq!(hub.sessions_owned_by("o1"), vec![s("s3")]);
    // Registering a session again replaces it.
    hub.register_session(s("s3"), s("o2"), &vec![]);
    assert!(hub.sessions_owned_by("o1").is_empty());
    assert_eq!(sorted(hub.sessions_owned_by("o2")), vec![s("s2"), s("s3")]);
}
