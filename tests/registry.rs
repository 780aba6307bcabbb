use lodestone_core::players::{Player, PlayerRegistry};
use lodestone_core::events::ErrorKind;
use lodestone_core::ports::PortCoordinator;
use lodestone_core::state::{transition_target, State, StateAction, StateMachine};

#[test]
fn registry_keeps_one_entry_per_name() {
    let mut r = PlayerRegistry::new();
    assert!(r.add_player(Player { name: "Alice".to_string(), uuid: None }));
    assert!(!r.add_player(Player { name: "Alice".to_string(), uuid: Some("x".to_string()) }));
    assert!(r.add_player(Player { name: "Bob".to_string(), uuid: None }));
    assert_eq!(r.len(), 2);
    assert_eq!(r.player_names(), vec!["Alice".to_string(), "Bob".to_string()]);
    assert!(r.remove_by_name("Alice"));
    assert!(!r.remove_by_name("Alice"));
    assert!(!r.contains("Alice"));
    assert!(r.contains("Bob"));
    r.clear();
    assert_eq!(r.len(), 0);
}

#[test]
fn port_allocate_deallocate_round_trip() {
    let mut c = PortCoordinator::new();
    assert!(c.allocate(25566, 2));
    assert!(!c.is_allocated(25565));
    assert!(c.allocate(25565, 1));
    assert!(c.is_allocated(25565));
    assert_eq!(c.holder(25565), Some(1));
    assert!(c.allocate(25565, 1));
    assert!(!c.allocate(25565, 3));
    assert_eq!(c.holder(25565), Some(1));
    assert_eq!(c.deallocate(25565), Some(1));
    assert!(!c.is_allocated(25565));
    assert_eq!(c.holder(25565), None);
    assert_eq!(c.holder(25566), Some(2));
    assert_eq!(c.deallocate(25565), None);
}

#[test]
fn transition_table() {
    let cases = [
        (State::Stopped, StateAction::UserStart, Some(State::Starting)),
        (State::Starting, StateAction::InstanceStart, Some(State::Running)),
        (State::Starting, StateAction::InstanceStop, Some(State::Stopped)),
        (State::Running, StateAction::UserStop, Some(State::Stopping)),
        (State::Running, StateAction::InstanceStop, Some(State::Stopped)),
        (State::Stopping, StateAction::InstanceStop, Some(State::Stopped)),
        (State::Stopped, StateAction::UserStop, None),
        (State::Stopped, StateAction::InstanceStop, None),
        (State::Starting, StateAction::UserStart, None),
        (State::Starting, StateAction::UserStop, None),
        (State::Running, StateAction::UserStart, None),
        (State::Stopping, StateAction::UserStart, None),
        (State::Stopping, StateAction::UserStop, None),
    ];
    for (from, action, to) in cases {
        assert_eq!(transition_target(from, action), to, "{:?} {:?}", from, action);
    }
}

#[test]
fn machine_refuses_without_change() {
    let mut m = StateMachine::new();
    assert_eq!(m.state(), State::Stopped);
    let e = m.try_transition(StateAction::UserStop).unwrap_err();
    assert_eq!(e.current, State::Stopped);
    assert_eq!(m.state(), State::Stopped);
    assert_eq!(m.try_transition(StateAction::UserStart), Ok(State::Starting));
    assert!(m.check_transition(StateAction::UserStart).is_err());
    assert_eq!(m.state(), State::Starting);
    m.force_stopped();
    assert_eq!(m.state(), State::Stopped);
}

#[test]
fn port_released_only_for_stopped_instance() {
    let mut c = PortCoordinator::new();
    c.allocate(25565, 1);
    let e = c.release_on_delete(State::Running, 25565).unwrap_err();
    assert_eq!(e.kind, ErrorKind::InvalidState);
    assert!(c.is_allocated(25565));
    c.release_on_delete(State::Stopped, 25565).unwrap();
    assert!(!c.is_allocated(25565));
}
