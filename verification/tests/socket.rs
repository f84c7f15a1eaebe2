use stratego::socket::{
    keep_waiting_for_id, keep_waiting_for_open, on_attempt_closed, route_incoming,
    ChannelRegistry, ConnectionState, Incoming, OpenFlag, ReconnectAction, Reconnector,
    SocketAction, SocketEvent,
};

#[test]
fn the_greeting_carries_the_socket_id() {
    assert_eq!(
        route_incoming(Some("connected"), None, Some("abc")),
        Incoming::Connected(Some("abc".to_string()))
    );
    assert_eq!(
        route_incoming(Some("connected"), Some("game-1"), None),
        Incoming::Connected(None)
    );
}

#[test]
fn channel_events_are_routed_to_their_channel() {
    assert_eq!(
        route_incoming(Some("moved"), Some("game-1"), None),
        Incoming::ChannelEvent { channel: "game-1".to_string(), event: "moved".to_string() }
    );
    assert_eq!(
        route_incoming(None, Some("game-1"), Some("x")),
        Incoming::ChannelEvent { channel: "game-1".to_string(), event: String::new() }
    );
    assert_eq!(route_incoming(Some("moved"), None, None), Incoming::Ignore);
    assert_eq!(route_incoming(None, None, None), Incoming::Ignore);
}

#[test]
fn channels_are_listened_to_once_with_their_events() {
    let mut reg = ChannelRegistry::new();
    reg.subscribe("a");
    reg.subscribe("a");
    assert_eq!(reg.names_except(&vec![]), vec!["a".to_string()]);

    reg.bind("a", "moved");
    reg.bind("a", "joined");
    reg.bind("a", "moved");
    reg.bind("b", "moved");
    assert_eq!(reg.handlers_for("a", "moved"), vec![0, 2]);
    assert_eq!(reg.handlers_for("a", "joined"), vec![1]);
    assert_eq!(reg.handlers_for("b", "moved"), Vec::<usize>::new());

    reg.unbind("a", "moved");
    assert_eq!(reg.handlers_for("a", "moved"), Vec::<usize>::new());
    assert_eq!(reg.handlers_for("a", "joined"), vec![0]);

    reg.subscribe("b");
    assert_eq!(reg.names_except(&vec!["a"]), vec!["b".to_string()]);
    assert_eq!(reg.names_except(&vec![]), vec!["a".to_string(), "b".to_string()]);

    reg.unsubscribe("a");
    assert_eq!(reg.names_except(&vec![]), vec!["b".to_string()]);
    assert_eq!(reg.handlers_for("a", "joined"), Vec::<usize>::new());
    reg.unsubscribe("zzz");
    assert_eq!(reg.names_except(&vec![]), vec!["b".to_string()]);
}

#[test]
fn connection_states_compare() {
    assert_eq!(ConnectionState::Reconnecting(2), ConnectionState::Reconnecting(2));
    assert_ne!(ConnectionState::Reconnecting(1), ConnectionState::Reconnecting(2));
    assert_ne!(ConnectionState::Idle, ConnectionState::Connected);
}

fn message(event: Option<&str>, channel: Option<&str>, id: Option<&str>, data: &str) -> SocketEvent {
    SocketEvent::Message {
        event: event.map(|e| e.to_string()),
        channel: channel.map(|c| c.to_string()),
        socket_id: id.map(|i| i.to_string()),
        data: data.to_string(),
    }
}

#[test]
fn socket_events_move_the_connection_and_call_handlers() {
    let mut reg = ChannelRegistry::new();
    reg.subscribe("game-1");
    reg.bind("game-1", "moved");
    reg.bind("game-1", "joined");
    reg.bind("game-1", "moved");
    let idle = ConnectionState::Idle;

    assert_eq!(
        reg.on_socket_event(idle, &SocketEvent::Opened),
        (ConnectionState::Connected, SocketAction::Nothing)
    );
    assert_eq!(
        reg.on_socket_event(ConnectionState::Connected, &SocketEvent::Closed),
        (ConnectionState::Disconnected, SocketAction::StartReconnect)
    );
    assert_eq!(reg.on_socket_event(idle, &SocketEvent::Error), (idle, SocketAction::LogError));
    assert_eq!(reg.on_socket_event(idle, &SocketEvent::Unreadable), (idle, SocketAction::Nothing));
    assert_eq!(
        reg.on_socket_event(idle, &message(Some("connected"), None, Some("s1"), "{}")),
        (ConnectionState::Connected, SocketAction::Greeted(Some("s1".to_string())))
    );
    assert_eq!(
        reg.on_socket_event(
            ConnectionState::Connected,
            &message(Some("moved"), Some("game-1"), None, "{\"x\":1}")
        ),
        (
            ConnectionState::Connected,
            SocketAction::CallHandlers(vec![0, 2], "{\"x\":1}".to_string())
        )
    );
    assert_eq!(
        reg.on_socket_event(idle, &message(Some("moved"), Some("other"), None, "null")),
        (idle, SocketAction::CallHandlers(vec![], "null".to_string()))
    );
    assert_eq!(
        reg.on_socket_event(idle, &message(Some("moved"), None, None, "null")),
        (idle, SocketAction::Nothing)
    );
}

#[test]
fn reconnecting_counts_attempts_and_backs_off() {
    let mut r = Reconnector::new();
    assert_eq!(r.begin_attempt(), (ConnectionState::Reconnecting(1), 1000));
    assert_eq!(r.end_attempt(false), (ConnectionState::Reconnecting(1), ReconnectAction::TryAgain));
    assert_eq!(r.begin_attempt(), (ConnectionState::Reconnecting(2), 2000));
    for _ in 0..10 {
        r.begin_attempt();
    }
    assert_eq!(r.begin_attempt(), (ConnectionState::Reconnecting(13), 30000));
    assert_eq!(r.end_attempt(true), (ConnectionState::Connected, ReconnectAction::Reconnected));
}

#[test]
fn a_new_socket_gets_five_seconds_to_open() {
    assert!(keep_waiting_for_open(OpenFlag::Pending, 0));
    assert!(keep_waiting_for_open(OpenFlag::Pending, 49));
    assert!(!keep_waiting_for_open(OpenFlag::Pending, 50));
    assert!(!keep_waiting_for_open(OpenFlag::Open, 3));
    assert!(!keep_waiting_for_open(OpenFlag::Failed, 3));
    assert_eq!(on_attempt_closed(OpenFlag::Pending), OpenFlag::Failed);
    assert_eq!(on_attempt_closed(OpenFlag::Open), OpenFlag::Open);
    assert!(keep_waiting_for_id(false, 19));
    assert!(!keep_waiting_for_id(false, 20));
    assert!(!keep_waiting_for_id(true, 0));
}
