use component_iroh::relayd::{
    on_message, parse_args, route, Delivery, Frame, Inbound, MessageKind, Registry, Role,
    MAX_QUEUED_FRAMES,
};

fn text(s: &str) -> Frame {
    Frame::Text(s.to_string())
}

fn args(list: &[&str]) -> Vec<String> {
    list.iter().map(|s| s.to_string()).collect()
}

fn numbers(backlog: Vec<Frame>) -> Vec<String> {
    backlog
        .into_iter()
        .map(|frame| match frame {
            Frame::Text(text) => text,
            Frame::Binary(bytes) => hex::encode(bytes),
        })
        .collect()
}

#[test]
fn roles_face_each_other() {
    assert_eq!(Role::A.other(), Role::B);
    assert_eq!(Role::B.other(), Role::A);
    assert_eq!(Role::parse("a"), Some(Role::A));
    assert_eq!(Role::parse("b"), Some(Role::B));
    assert_eq!(Role::parse("A"), None);
    assert_eq!(Role::parse(""), None);
}

#[test]
fn frames_wait_for_an_absent_peer() {
    let mut registry = Registry::new();
    assert!(matches!(
        registry.deliver("r", Role::B, text("lost")),
        Delivery::NoRoom
    ));
    assert!(registry.join("r", Role::A, 1).backlog.is_empty());
    assert!(matches!(
        registry.deliver("r", Role::B, text("one")),
        Delivery::Buffered
    ));
    assert!(matches!(
        registry.deliver("r", Role::B, Frame::Binary(vec![0xab])),
        Delivery::Buffered
    ));
    let joined = registry.join("r", Role::B, 2);
    assert_eq!(joined.replaced, None);
    assert_eq!(numbers(joined.backlog), args(&["one", "ab"]));
    assert!(matches!(
        registry.deliver("r", Role::B, text("live")),
        Delivery::Forward(2, Frame::Text(text)) if text == "live"
    ));
    assert!(matches!(
        registry.deliver("r", Role::A, text("back")),
        Delivery::Forward(1, _)
    ));
}

#[test]
fn backlogs_keep_the_latest_frames() {
    let mut registry = Registry::new();
    registry.join("r", Role::A, 1);
    for i in 0..MAX_QUEUED_FRAMES + 3 {
        registry.deliver("r", Role::B, text(&i.to_string()));
    }
    let backlog = numbers(registry.join("r", Role::B, 2).backlog);
    assert_eq!(backlog.len(), 1024);
    assert_eq!(backlog[0], "3");
    assert_eq!(backlog[1023], "1026");
}

#[test]
fn rooms_are_torn_down_once_both_have_left() {
    let mut registry = Registry::new();
    registry.join("r", Role::A, 1);
    assert_eq!(registry.leave("r", Role::A), Some(1));
    // Only one role has joined so far: the room stays.
    assert!(matches!(
        registry.deliver("r", Role::A, text("kept")),
        Delivery::Buffered
    ));
    registry.join("r", Role::B, 2);
    assert_eq!(registry.leave("r", Role::B), Some(2));
    assert!(matches!(
        registry.deliver("r", Role::A, text("lost")),
        Delivery::NoRoom
    ));
    assert_eq!(registry.leave("r", Role::A), None);
    assert!(registry.join("r", Role::A, 3).backlog.is_empty());
}

#[test]
fn a_later_connection_takes_the_slot() {
    let mut registry = Registry::new();
    registry.join("r", Role::A, 1);
    let joined = registry.join("r", Role::A, 2);
    assert_eq!(joined.replaced, Some(1));
    assert!(joined.backlog.is_empty());
    // The first one's leaving ousts the second.
    assert_eq!(registry.leave("r", Role::A), Some(2));
    assert!(matches!(
        registry.deliver("r", Role::A, text("x")),
        Delivery::Buffered
    ));
    assert_eq!(registry.leave("r", Role::A), None);
}

#[test]
fn rooms_are_separate() {
    let mut registry = Registry::new();
    registry.join("r", Role::A, 1);
    registry.join("s", Role::B, 2);
    assert!(matches!(
        registry.deliver("s", Role::A, text("x")),
        Delivery::Buffered
    ));
    assert!(registry.join("r", Role::B, 3).backlog.is_empty());
}

#[test]
fn messages_are_sorted() {
    assert!(on_message(MessageKind::Text) == Inbound::Deliver);
    assert!(on_message(MessageKind::Binary) == Inbound::Deliver);
    assert!(on_message(MessageKind::Control) == Inbound::Skip);
    assert!(on_message(MessageKind::Close) == Inbound::End);
    assert!(on_message(MessageKind::Ended) == Inbound::End);
}

#[test]
fn paths_name_a_room_and_a_role() {
    assert_eq!(route("/rooms/demo/a"), Ok(("demo".to_string(), Role::A)));
    assert_eq!(route("//rooms/demo/b//"), Ok(("demo".to_string(), Role::B)));
    assert_eq!(
        route("/rooms/demo/c"),
        Err("unknown role in \"/rooms/demo/c\" (expected a or b)".to_string())
    );
    for path in ["/", "", "/rooms//a", "/rooms/demo", "/rooms/x/a/b", "/room/x/a"] {
        assert_eq!(
            route(path),
            Err(format!(
                "unroutable path {path:?} (expected /rooms/{{room}}/{{a|b}})"
            ))
        );
    }
}

#[test]
fn the_last_listening_address_counts() {
    let parsed = parse_args(&args(&["--addr", "1.2.3.4:5", "--addr", "[::1]:6"]));
    assert_eq!(parsed.addrs, args(&["1.2.3.4:5", "[::1]:6"]));
    assert_eq!(parsed.problem, None);
    assert!(parse_args(&vec![]).addrs.is_empty());
    let parsed = parse_args(&args(&["--addr"]));
    assert_eq!(parsed.problem, Some("--addr needs a value".to_string()));
    let parsed = parse_args(&args(&["--addr", "x", "--\tport"]));
    assert_eq!(parsed.addrs, args(&["x"]));
    assert_eq!(
        parsed.problem,
        Some(
            "unknown argument \"--\\tport\" (usage: iroh-spike-relayd [--addr IP:PORT])"
                .to_string()
        )
    );
}
