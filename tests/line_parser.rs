use lodestone_core::line_parser::{
    classify, parse_player_joined, parse_player_left, parse_player_msg, parse_server_started,
    parse_system_msg, Signal,
};

#[test]
fn ready_marker() {
    let line = "[12:00:00] [Server thread/INFO]: Done (3.456s)! For help, type \"help\"\n";
    assert!(parse_server_started(line));
    assert!(matches!(classify(line), Signal::ReadyMarker));
    let forge =
        "[12:00:00] [Server thread/INFO] [minecraft/DedicatedServer]: Done (9.1s)! For help, type \"help\"";
    assert!(matches!(classify(forge), Signal::ReadyMarker));
}

#[test]
fn ready_marker_needs_info_level() {
    let line = "[12:00:00] [Server thread/WARN]: Done (3.456s)! For help, type \"help\"";
    assert!(!parse_server_started(line));
    assert!(matches!(classify(line), Signal::Unrecognized));
}

#[test]
fn system_message() {
    let line = "[12:00:00] [Server thread/INFO]: Starting minecraft server version 1.20.1\r\n";
    assert_eq!(
        parse_system_msg(line).as_deref(),
        Some("Starting minecraft server version 1.20.1")
    );
    assert!(matches!(classify(line),
        Signal::SystemMessage(m) if m == "Starting minecraft server version 1.20.1"));
}

#[test]
fn join_and_leave() {
    let join = "[12:00:01] [Server thread/INFO]: Alice joined the game\n";
    assert!(matches!(classify(join), Signal::PlayerJoined(n) if n == "Alice"));
    let leave = "[12:00:05] [Server thread/INFO]: Alice left the game";
    assert!(matches!(classify(leave), Signal::PlayerLeft(n) if n == "Alice"));
    assert_eq!(parse_player_joined("Bob joined the game").as_deref(), Some("Bob"));
    assert_eq!(parse_player_left("Bob left the game").as_deref(), Some("Bob"));
    assert_eq!(parse_player_joined("two words joined the game"), None);
    assert_eq!(parse_player_joined(" joined the game"), None);
    assert_eq!(parse_player_left("Bob joined the game"), None);
}

#[test]
fn chat_line() {
    let line = "[12:00:02] [Server thread/INFO]: <Alice> hello there\n";
    let pm = parse_player_msg(line).unwrap();
    assert_eq!(pm.player, "Alice");
    assert_eq!(pm.message, "hello there");
    assert_eq!(parse_system_msg(line), None);
    assert!(matches!(classify(line),
        Signal::PlayerChat(n, m) if n == "Alice" && m == "hello there"));
    assert!(parse_player_msg("[12:00:02] [Server thread/INFO]: <> hi").is_none());
}

#[test]
fn chat_saying_joined_is_chat() {
    let line = "[12:00:02] [Server thread/INFO]: <Eve> Mallory joined the game";
    assert!(matches!(classify(line), Signal::PlayerChat(n, _) if n == "Eve"));
}

#[test]
fn unrecognized_lines() {
    assert!(matches!(classify(""), Signal::Unrecognized));
    assert!(matches!(classify("\n"), Signal::Unrecognized));
    assert!(matches!(classify("Loading libraries, please wait..."), Signal::Unrecognized));
    assert!(matches!(classify("]: INFO"), Signal::Unrecognized));
}

#[test]
fn classification_is_repeatable() {
    for line in [
        "[12:00:01] [Server thread/INFO]: Alice joined the game",
        "[12:00:00] [Server thread/INFO]: Done (1.0s)! For help, type \"help\"",
        "garbage",
    ] {
        let a = format!("{:?}", classify(line));
        let b = format!("{:?}", classify(line));
        assert_eq!(a, b);
    }
}
