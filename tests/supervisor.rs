use lodestone_core::events::{CausedBy, ErrorKind, Event, EventKind};
use lodestone_core::rcon::{rcon_after_attempt, rcon_target, RconStep, RCON_MAX_ATTEMPTS};
use lodestone_core::state::State;
use lodestone_core::supervisor::{
    bus_closed, port_check, wait_for_start, wait_for_stop, PumpAction, Supervisor,
};

const READY: &str = "[12:00:00] [Server thread/INFO]: Done (3.456s)! For help, type \"help\"\n";

fn transitions(events: &[Event]) -> Vec<State> {
    events
        .iter()
        .filter_map(|e| match e.kind {
            EventKind::StateTransition { to } => Some(to),
            _ => None,
        })
        .collect()
}

/// A supervisor whose process has been spawned. Port 0 always binds, so the check passes.
fn starting(id: u64) -> Supervisor {
    let mut s = Supervisor::new(id, 0, None, false);
    s.begin_start(CausedBy::System).unwrap();
    assert_eq!(s.state(), State::Starting);
    s.on_spawned(Some(4242), true, true, true).unwrap();
    s
}

fn running(id: u64) -> Supervisor {
    let mut s = starting(id);
    s.on_console_line(READY);
    assert_eq!(s.state(), State::Running);
    s.take_events();
    s
}

#[test]
fn start_publishes_starting_transition() {
    let mut s = Supervisor::new(7, 0, None, false);
    let _ = s.begin_start(CausedBy::User {
        user_id: "u1".to_string(),
        user_name: "Bob".to_string(),
    });
    let events = s.take_events();
    assert_eq!(events.len(), 1);
    assert_eq!(events[0].instance, 7);
    assert!(matches!(events[0].kind, EventKind::StateTransition { to: State::Starting }));
    assert!(matches!(&events[0].caused_by, CausedBy::User { user_name, .. } if user_name == "Bob"));
}

#[test]
fn second_start_is_refused() {
    let mut s = starting(1);
    s.take_events();
    let r = s.begin_start(CausedBy::System);
    assert_eq!(r.unwrap_err().kind, ErrorKind::InvalidTransition);
    assert_eq!(s.state(), State::Starting);
    assert!(s.take_events().is_empty());
    s.on_console_line(READY);
    let r = s.begin_start(CausedBy::System);
    assert_eq!(r.unwrap_err().kind, ErrorKind::InvalidTransition);
    assert_eq!(s.state(), State::Running);
}

#[test]
fn start_again_after_exit() {
    let mut s = running(1);
    s.on_process_exit();
    assert_eq!(s.state(), State::Stopped);
    s.begin_start(CausedBy::System).unwrap();
    assert_eq!(s.state(), State::Starting);
}

#[test]
fn ready_marker_gives_running_before_blocking_start_returns() {
    let mut s = Supervisor::new(3, 25565, None, false);
    s.begin_start(CausedBy::System).unwrap();
    s.on_spawned(Some(4242), true, true, true).unwrap();
    s.take_events();
    let action = s.on_console_line(READY);
    assert!(matches!(action, PumpAction::Nothing));
    assert_eq!(s.state(), State::Running);
    let events = s.take_events();
    assert!(matches!(&events[0].kind, EventKind::InstanceOutput { message } if message == READY));
    assert_eq!(transitions(&events), vec![State::Running]);
    let verdicts: Vec<bool> = events
        .iter()
        .filter_map(|e| wait_for_start(3, e))
        .map(|r| r.is_ok())
        .collect();
    assert_eq!(verdicts, vec![true]);
}

#[test]
fn second_ready_marker_is_ignored() {
    let mut s = running(3);
    s.on_console_line(READY);
    let events = s.take_events();
    assert_eq!(events.len(), 1);
    assert!(transitions(&events).is_empty());
}

#[test]
fn ready_marker_asks_for_rcon_when_configured() {
    let target = rcon_target(Some(true), Some("secret".to_string()), Some(25575)).unwrap();
    let mut s = Supervisor::new(4, 0, Some(target), false);
    let _ = s.begin_start(CausedBy::System);
    s.on_spawned(None, true, true, true).unwrap();
    match s.on_console_line(READY) {
        PumpAction::ConnectRcon(t) => {
            assert_eq!(t.address, "localhost:25575");
            assert_eq!(t.password, "secret");
        }
        other => panic!("unexpected action {:?}", other),
    }
    assert!(s.on_rcon_connected());
    assert!(s.rcon_active());
}

#[test]
fn rcon_target_needs_all_settings() {
    assert!(rcon_target(Some(false), Some("pw".to_string()), Some(1)).is_none());
    assert!(rcon_target(None, Some("pw".to_string()), Some(1)).is_none());
    assert!(rcon_target(Some(true), None, Some(1)).is_none());
    assert!(rcon_target(Some(true), Some("pw".to_string()), None).is_none());
    let t = rcon_target(Some(true), Some("pw".to_string()), Some(0)).unwrap();
    assert_eq!(t.address, "localhost:0");
}

#[test]
fn exit_before_ready_fails_blocking_start() {
    let mut s = starting(5);
    s.take_events();
    s.on_process_exit();
    let events = s.take_events();
    assert_eq!(transitions(&events), vec![State::Stopped]);
    let r = wait_for_start(5, &events[0]).unwrap();
    assert_eq!(r.unwrap_err().kind, ErrorKind::Internal);
}

#[test]
fn wait_ignores_other_instances_and_kinds() {
    let e = Event {
        kind: EventKind::StateTransition { to: State::Running },
        instance: 9,
        detail: String::new(),
        caused_by: CausedBy::System,
        sequence: 0,
    };
    assert!(wait_for_start(8, &e).is_none());
    assert!(wait_for_start(9, &e).unwrap().is_ok());
    assert!(!wait_for_stop(9, &e));
    let out = Event {
        kind: EventKind::InstanceOutput { message: "x".to_string() },
        instance: 9,
        detail: String::new(),
        caused_by: CausedBy::System,
        sequence: 1,
    };
    assert!(wait_for_start(9, &out).is_none());
    assert_eq!(bus_closed().kind, ErrorKind::Internal);
}

#[test]
fn player_join_updates_registry_and_publishes_system_message() {
    let mut s = running(2);
    let line = "[12:00:01] [Server thread/INFO]: Alice joined the game\n";
    let action = s.on_console_line(line);
    assert!(matches!(&action, PumpAction::ResolvePlayer(n) if n == "Alice"));
    assert!(s.has_player("Alice"));
    assert_eq!(s.player_count(), 1);
    let events = s.take_events();
    assert_eq!(events.len(), 2);
    assert!(matches!(&events[1].kind, EventKind::SystemMessage { message } if message == line));
    assert!(s.on_player_uuid("Alice", "0123abcd".to_string()));
    assert!(!s.on_player_uuid("Bob", "x".to_string()));
    assert_eq!(s.player_names(), vec!["Alice".to_string()]);
    s.on_console_line("[12:00:09] [Server thread/INFO]: Alice left the game\n");
    assert!(!s.has_player("Alice"));
    assert_eq!(s.player_count(), 0);
}

#[test]
fn chat_line_publishes_player_message() {
    let mut s = running(2);
    s.on_console_line("[12:00:02] [Server thread/INFO]: <Alice> hello there\n");
    let events = s.take_events();
    assert!(matches!(&events[1].kind,
        EventKind::PlayerMessage { player, message } if player == "Alice" && message == "hello there"));
}

#[test]
fn stop_command_transitions_then_exit_stops() {
    let mut s = running(6);
    let text = s.send_command("stop", CausedBy::System).unwrap();
    assert_eq!(text, "stop\n");
    assert_eq!(s.state(), State::Stopping);
    assert!(s.after_command_written(true).is_ok());
    let events = s.take_events();
    assert_eq!(transitions(&events), vec![State::Stopping]);
    s.on_process_exit();
    let events = s.take_events();
    assert_eq!(transitions(&events), vec![State::Stopped]);
    assert!(wait_for_stop(6, &events[0]));
    assert_eq!(s.state(), State::Stopped);
}

#[test]
fn other_commands_pass_through() {
    let mut s = running(6);
    assert_eq!(s.send_command("say hi", CausedBy::System).unwrap(), "say hi\n");
    assert_eq!(s.state(), State::Running);
    assert!(s.take_events().is_empty());
    let e = s.after_command_written(false).unwrap_err();
    assert_eq!(e.kind, ErrorKind::IOFailure);
    let e = s.send_command("say hi", CausedBy::System).unwrap_err();
    assert_eq!(e.kind, ErrorKind::Internal);
}

#[test]
fn send_command_on_stopped_instance_fails() {
    let mut s = Supervisor::new(1, 0, None, false);
    let e = s.send_command("list", CausedBy::System).unwrap_err();
    assert_eq!(e.kind, ErrorKind::InvalidState);
}

#[test]
fn stop_command_while_starting_is_refused() {
    let mut s = starting(1);
    let e = s.send_command("stop", CausedBy::System).unwrap_err();
    assert_eq!(e.kind, ErrorKind::InvalidTransition);
    assert_eq!(s.state(), State::Starting);
}

#[test]
fn stop_writes_shutdown_and_drops_rcon() {
    let target = rcon_target(Some(true), Some("pw".to_string()), Some(25575)).unwrap();
    let mut s = Supervisor::new(4, 0, Some(target), false);
    let _ = s.begin_start(CausedBy::System);
    s.on_spawned(Some(1), true, true, true).unwrap();
    s.on_console_line(READY);
    assert!(s.on_rcon_connected());
    assert_eq!(s.stop(CausedBy::System).unwrap(), "stop\n");
    assert_eq!(s.state(), State::Stopping);
    assert!(s.rcon_active());
    s.after_stop_written(true).unwrap();
    assert!(!s.rcon_active());
    let e = s.stop(CausedBy::System).unwrap_err();
    assert_eq!(e.kind, ErrorKind::InvalidTransition);
}

#[test]
fn players_and_rcon_cleared_after_stop_and_exit() {
    let target = rcon_target(Some(true), Some("pw".to_string()), Some(25575)).unwrap();
    let mut s = Supervisor::new(4, 0, Some(target), false);
    let _ = s.begin_start(CausedBy::System);
    s.on_spawned(Some(1), true, true, true).unwrap();
    s.on_console_line(READY);
    assert!(s.on_rcon_connected());
    for name in ["Alice", "Bob", "Carol"] {
        s.on_console_line(&format!("[12:00:01] [Server thread/INFO]: {} joined the game\n", name));
    }
    assert_eq!(s.player_count(), 3);
    s.stop(CausedBy::System).unwrap();
    s.on_process_exit();
    assert_eq!(s.player_count(), 0);
    assert!(!s.rcon_active());
    assert_eq!(s.state(), State::Stopped);
}

#[test]
fn kill_on_stopped_instance_fails_without_change() {
    let mut s = Supervisor::new(1, 0, None, true);
    let e = s.kill(CausedBy::System).unwrap_err();
    assert_eq!(e.kind, ErrorKind::InvalidState);
    assert_eq!(s.state(), State::Stopped);
    assert!(s.take_events().is_empty());
    assert!(s.has_started());
}

#[test]
fn kill_with_process_asks_for_termination() {
    let mut s = running(1);
    assert!(s.kill(CausedBy::System).is_ok());
    assert_eq!(s.state(), State::Running);
    s.on_process_exit();
    assert_eq!(s.state(), State::Stopped);
}

#[test]
fn kill_without_process_forces_stopped() {
    let mut s = Supervisor::new(1, 0, None, false);
    let _ = s.begin_start(CausedBy::System);
    s.take_events();
    let e = s.kill(CausedBy::System).unwrap_err();
    assert_eq!(e.kind, ErrorKind::Internal);
    assert_eq!(s.state(), State::Stopped);
    assert_eq!(transitions(&s.take_events()), vec![State::Stopped]);
}

#[test]
fn spawn_failure_returns_to_stopped() {
    let mut s = Supervisor::new(1, 0, None, false);
    let _ = s.begin_start(CausedBy::System);
    let e = s.on_spawn_failed();
    assert_eq!(e.kind, ErrorKind::IOFailure);
    assert_eq!(s.state(), State::Stopped);
    assert!(!s.has_started());
}

#[test]
fn missing_streams_are_an_internal_error() {
    let mut s = Supervisor::new(1, 0, None, false);
    let _ = s.begin_start(CausedBy::System);
    let e = s.on_spawned(Some(3), true, false, true).unwrap_err();
    assert_eq!(e.kind, ErrorKind::Internal);
    assert_eq!(s.pid(), None);
    assert!(!s.has_started());
}

#[test]
fn restart_needs_running_instance() {
    let s = Supervisor::new(1, 0, None, false);
    assert_eq!(s.check_restart().unwrap_err().kind, ErrorKind::InvalidTransition);
    let s = running(1);
    assert!(s.check_restart().is_ok());
}

#[test]
fn port_check_reports_busy_port() {
    assert!(port_check(25565, true).is_ok());
    let e = port_check(25565, false).unwrap_err();
    assert_eq!(e.kind, ErrorKind::ResourceBusy);
    assert_eq!(e.detail, "Port 25565 is already in use");
}

#[test]
fn rcon_wrong_password_three_attempts() {
    assert_eq!(RCON_MAX_ATTEMPTS, 3);
    let target = rcon_target(Some(true), Some("wrong".to_string()), Some(25575)).unwrap();
    let mut s = Supervisor::new(4, 0, Some(target), false);
    let _ = s.begin_start(CausedBy::System);
    s.on_spawned(Some(1), true, true, true).unwrap();
    assert!(matches!(s.on_console_line(READY), PumpAction::ConnectRcon(_)));
    let mut delays = Vec::new();
    let mut attempts = 0;
    let mut attempt: u32 = 0;
    loop {
        attempts += 1;
        match rcon_after_attempt(attempt, false) {
            RconStep::RetryAfter(d) => {
                delays.push(d);
                attempt += 1;
            }
            RconStep::GiveUpAfter(d) => {
                delays.push(d);
                break;
            }
            RconStep::Connected => unreachable!(),
        }
    }
    assert_eq!(attempts, 3);
    assert_eq!(delays, vec![1, 2, 4]);
    assert_eq!(s.state(), State::Running);
    assert!(!s.rcon_active());
    assert_eq!(rcon_after_attempt(1, true), RconStep::Connected);
}

#[test]
fn events_carry_increasing_sequence_numbers() {
    let mut s = starting(1);
    s.on_console_line("a\n");
    s.on_console_line(READY);
    let events = s.take_events();
    for w in events.windows(2) {
        assert!(w[0].sequence < w[1].sequence);
    }
}

#[test]
fn busy_port_returns_to_stopped() {
    let rt = tokio::runtime::Runtime::new().unwrap();
    let listener = rt.block_on(tokio::net::TcpListener::bind("127.0.0.1:0")).unwrap();
    let port = listener.local_addr().unwrap().port();
    let mut s = Supervisor::new(8, port, None, false);
    let e = s.begin_start(CausedBy::System).unwrap_err();
    assert_eq!(e.kind, ErrorKind::ResourceBusy);
    assert_eq!(e.detail, format!("Port {} is already in use", port));
    assert_eq!(s.state(), State::Stopped);
    assert_eq!(transitions(&s.take_events()), vec![State::Starting, State::Stopped]);
    drop(listener);
    s.begin_start(CausedBy::System).unwrap();
    assert_eq!(s.state(), State::Starting);
}
