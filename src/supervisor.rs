use vstd::prelude::*;
use vstd::string::*;

use crate::events::{CausedBy, Error, ErrorKind, Event, EventKind};
use crate::line_parser::{classify, signal_of, Signal, SignalView};
use crate::players::{Player, PlayerRegistry};
use crate::ports::port_free_on_host;
use crate::rcon::RconTarget;
use crate::state::{next_state, reachable, State, StateAction, StateMachine};
use crate::text::{decimal, push_decimal, same_text};

verus! {

/// The console command that asks the server to shut down.
pub open spec fn shutdown_command() -> Seq<char> {
    "stop"@
}

/// The supervisor of one instance, as its contracts see it.
pub struct SupervisorView {
    pub id: u64,
    pub port: u16,
    /// The remote-console target the settings describe: address and password.
    pub rcon: Option<(Seq<char>, Seq<char>)>,
    pub state: State,
    /// A child process is tracked.
    pub process: bool,
    pub pid: Option<u32>,
    /// The process's input stream can be written.
    pub stdin_open: bool,
    /// A remote-console session is open.
    pub rcon_active: bool,
    pub players: Set<Seq<char>>,
    /// The ready marker has been seen since the process was spawned.
    pub did_start: bool,
    /// The instance has been spawned at least once (the persisted flag).
    pub has_started: bool,
    /// Who asked for the current run.
    pub start_cause: CausedBy,
    /// Published events not yet handed to the bus, oldest first.
    pub events: Seq<Event>,
}

/// `e` reports that instance `id` moved to `to`, attributed to `cause`.
pub open spec fn is_transition_event(e: Event, id: u64, to: State, cause: CausedBy) -> bool {
    &&& e.kind == (EventKind::StateTransition { to })
    &&& e.instance == id
    &&& e.caused_by == cause
}

/// `e` reports console output `line` of instance `id`.
pub open spec fn is_output_event(e: Event, id: u64, line: Seq<char>) -> bool {
    &&& e.kind matches EventKind::InstanceOutput { message } && message@ == line
    &&& e.instance == id
    &&& e.caused_by == CausedBy::System
}

/// `e` reports that instance `id` logged the system message line `line`.
pub open spec fn is_system_event(e: Event, id: u64, line: Seq<char>) -> bool {
    &&& e.kind matches EventKind::SystemMessage { message } && message@ == line
    &&& e.instance == id
    &&& e.caused_by == CausedBy::System
}

/// `e` reports that `player` wrote `text` in the chat of instance `id`.
pub open spec fn is_chat_event(e: Event, id: u64, player: Seq<char>, text: Seq<char>) -> bool {
    &&& e.kind matches EventKind::PlayerMessage { player: p, message } && p@ == player
        && message@ == text
    &&& e.instance == id
    &&& e.caused_by == CausedBy::System
}

/// `new` is `old` with `n` more events at its end.
pub open spec fn appended(old: Seq<Event>, new: Seq<Event>, n: nat) -> bool {
    new.len() == old.len() + n && new.subrange(0, old.len() as int) == old
}

/// The error that refuses a transition.
pub open spec fn is_refusal(r: Result<(), Error>) -> bool {
    r matches Err(e) && e.kind == ErrorKind::InvalidTransition
}

/// What the task that pumps the console must do after a line.
#[derive(Debug)]
pub enum PumpAction {
    Nothing,
    /// Open a remote-console session at this target (see `rcon_after_attempt`).
    ConnectRcon(RconTarget),
    /// Look up the platform id of this player and report it with `on_player_uuid`.
    ResolvePlayer(String),
}

/// The decisions of the process supervisor of one instance: its lifecycle state and what it
/// knows of the child process, the remote console and the connected players, with the events
/// it has published. Whoever runs the process performs what the operations ask for and reports
/// back what happened.
#[derive(Debug)]
pub struct Supervisor {
    id: u64,
    port: u16,
    rcon: Option<RconTarget>,
    machine: StateMachine,
    process: bool,
    pid: Option<u32>,
    stdin_open: bool,
    rcon_active: bool,
    players: PlayerRegistry,
    did_start: bool,
    has_started: bool,
    start_cause: CausedBy,
    events: Vec<Event>,
    next_sequence: u64,
}

impl View for Supervisor {
    type V = SupervisorView;

    closed spec fn view(&self) -> SupervisorView {
        SupervisorView {
            id: self.id,
            port: self.port,
            rcon: match self.rcon {
                Some(t) => Some((t.address@, t.password@)),
                None => None,
            },
            state: self.machine.current(),
            process: self.process,
            pid: self.pid,
            stdin_open: self.stdin_open,
            rcon_active: self.rcon_active,
            players: self.players.online(),
            did_start: self.did_start,
            has_started: self.has_started,
            start_cause: self.start_cause,
            events: self.events@,
        }
    }
}

/// The verdict on a port check: `Ok` when the port is free, else `ResourceBusy`.
pub fn port_check(port: u16, free: bool) -> (r: Result<(), Error>)
    ensures
        free ==> r is Ok,
        !free ==> (r matches Err(e) && e.kind == ErrorKind::ResourceBusy && e.detail@ == "Port "@
            + decimal(port as nat) + " is already in use"@),
{
    if free {
        Ok(())
    } else {
        let mut detail = String::from_str("Port ");
        push_decimal(&mut detail, port as u64);
        detail.append(" is already in use");
        Err(Error { kind: ErrorKind::ResourceBusy, detail })
    }
}

/// What an event means to a caller blocked in `start` of instance `id`: `Ok` once it is
/// running, an error if it stopped first, and `None` for anything else.
pub fn wait_for_start(id: u64, event: &Event) -> (r: Option<Result<(), Error>>)
    ensures
        match event.kind {
            EventKind::StateTransition { to } => if event.instance == id && to == State::Running {
                r matches Some(Ok(()))
            } else if event.instance == id && to == State::Stopped {
                r matches Some(Err(e)) && e.kind == ErrorKind::Internal
            } else {
                r is None
            },
            _ => r is None,
        },
{
    match event.kind {
        EventKind::StateTransition { to } => {
            if event.instance == id && to == State::Running {
                Some(Ok(()))
            } else if event.instance == id && to == State::Stopped {
                Some(Err(Error::new(ErrorKind::Internal, "Instance exited unexpectedly before starting")))
            } else {
                None
            }
        },
        _ => None,
    }
}

/// Whether an event ends the wait of a caller blocked in `stop` of instance `id`.
pub fn wait_for_stop(id: u64, event: &Event) -> (r: bool)
    ensures
        r == (event.instance == id && event.kind == (EventKind::StateTransition {
            to: State::Stopped,
        })),
{
    match event.kind {
        EventKind::StateTransition { to } => event.instance == id && to == State::Stopped,
        _ => false,
    }
}

/// The error of a blocked caller whose event bus closed before the awaited event came.
pub fn bus_closed() -> (r: Error)
    ensures
        r.kind == ErrorKind::Internal,
{
    Error::new(ErrorKind::Internal, "Sender shutdown")
}

impl Supervisor {
    pub closed spec fn wf(&self) -> bool {
        &&& self.machine.wf()
        &&& self.players.wf()
        &&& self.sequences_ordered()
    }

    /// Pending events are numbered in increasing order, below the next number to hand out;
    /// only a counter stuck at its maximum repeats a number.
    closed spec fn sequences_ordered(&self) -> bool {
        &&& forall|i: int, j: int|
            0 <= i < j < self.events@.len() ==> #[trigger] self.events@[i].sequence
                < #[trigger] self.events@[j].sequence || self.events@[j].sequence == u64::MAX
        &&& forall|i: int|
            0 <= i < self.events@.len() ==> #[trigger] self.events@[i].sequence
                < self.next_sequence || self.next_sequence == u64::MAX
    }

    /// The pending events are numbered in the order they were published.
    pub proof fn law_sequences_increase(&self)
        requires
            self.wf(),
        ensures
            forall|i: int, j: int|
                0 <= i < j < self@.events.len() ==> #[trigger] self@.events[i].sequence
                    < #[trigger] self@.events[j].sequence || self@.events[j].sequence == u64::MAX,
    {
    }

    /// Whatever the supervisor has been through, the state that `state()` reports is one
    /// that the transition table reaches from `Stopped`.
    pub proof fn law_state_reachable(&self)
        requires
            self.wf(),
        ensures
            reachable(self@.state),
    {
    }

    /// A supervisor for instance `id`, stopped, with no process, session or player.
    pub fn new(id: u64, port: u16, rcon: Option<RconTarget>, has_started: bool) -> (r: Supervisor)
        ensures
            r.wf(),
            r@.id == id,
            r@.port == port,
            r@.rcon == (match rcon {
                Some(t) => Some((t.address@, t.password@)),
                None => None,
            }),
            r@.state == State::Stopped,
            !r@.process,
            r@.pid is None,
            !r@.stdin_open,
            !r@.rcon_active,
            r@.players == Set::<Seq<char>>::empty(),
            !r@.did_start,
            r@.has_started == has_started,
            r@.start_cause == CausedBy::Unknown,
            r@.events == Seq::<Event>::empty(),
    {
        let players = PlayerRegistry::new();
        let r = Supervisor {
            id,
            port,
            rcon,
            machine: StateMachine::new(),
            process: false,
            pid: None,
            stdin_open: false,
            rcon_active: false,
            players,
            did_start: false,
            has_started,
            start_cause: CausedBy::Unknown,
            events: Vec::new(),
            next_sequence: 0,
        };
        assert(r.players.online() =~= Set::<Seq<char>>::empty());
        r
    }

    /// Appends an event about this instance.
    fn publish(&mut self, kind: EventKind, detail: &str, caused_by: CausedBy)
        requires
            old(self).sequences_ordered(),
        ensures
            final(self).sequences_ordered(),
            final(self).events@.len() == old(self).events@.len() + 1,
            final(self).events@.drop_last() == old(self).events@,
            final(self).events@.last().kind == kind,
            final(self).events@.last().instance == old(self).id,
            final(self).events@.last().caused_by == caused_by,
            final(self).events@.last().sequence == old(self).next_sequence,
            final(self).next_sequence >= old(self).next_sequence,
            final(self).id == old(self).id,
            final(self).port == old(self).port,
            final(self).rcon == old(self).rcon,
            final(self).machine == old(self).machine,
            final(self).process == old(self).process,
            final(self).pid == old(self).pid,
            final(self).stdin_open == old(self).stdin_open,
            final(self).rcon_active == old(self).rcon_active,
            final(self).players == old(self).players,
            final(self).did_start == old(self).did_start,
            final(self).has_started == old(self).has_started,
            final(self).start_cause == old(self).start_cause,
    {
        let e = Event {
            kind,
            instance: self.id,
            detail: String::from_str(detail),
            caused_by,
            sequence: self.next_sequence,
        };
        self.events.push(e);
        if self.next_sequence < u64::MAX {
            self.next_sequence = self.next_sequence + 1;
        }
    }

    /// Applies `action` and, when it is allowed, publishes the transition.
    fn transition(&mut self, action: StateAction, detail: &str, caused_by: CausedBy) -> (r: Result<
        State,
        Error,
    >)
        requires
            old(self).wf(),
        ensures
            final(self).wf(),
            match next_state(old(self)@.state, action) {
                Some(t) => {
                    &&& r == Ok::<State, Error>(t)
                    &&& final(self)@ == (SupervisorView {
                        state: t,
                        events: final(self)@.events,
                        ..old(self)@
                    })
                    &&& appended(old(self)@.events, final(self)@.events, 1)
                    &&& is_transition_event(
                        final(self)@.events.last(),
                        old(self)@.id,
                        t,
                        caused_by,
                    )
                },
                None => r matches Err(e) && e.kind == ErrorKind::InvalidTransition
                    && final(self)@ == old(self)@,
            },
    {
        match self.machine.try_transition(action) {
            Ok(t) => {
                self.publish(EventKind::StateTransition { to: t }, detail, caused_by);
                assert(self.events@.subrange(0, old(self).events@.len() as int)
                    =~= self.events@.drop_last());
                Ok(t)
            },
            Err(_) => Err(
                Error::new(ErrorKind::InvalidTransition, "The instance cannot do this in its current state"),
            ),
        }
    }

    /// A snapshot of the lifecycle state.
    pub fn state(&self) -> (r: State)
        ensures
            r == self@.state,
    {
        self.machine.state()
    }

    pub fn id(&self) -> (r: u64)
        ensures
            r == self@.id,
    {
        self.id
    }

    pub fn port(&self) -> (r: u16)
        ensures
            r == self@.port,
    {
        self.port
    }

    /// The process id of the tracked child, if one is tracked and has one.
    pub fn pid(&self) -> (r: Option<u32>)
        ensures
            r == self@.pid,
    {
        self.pid
    }

    /// Whether a remote-console session is open.
    pub fn rcon_active(&self) -> (r: bool)
        ensures
            r == self@.rcon_active,
    {
        self.rcon_active
    }

    /// The persisted flag: the instance has been spawned at least once.
    pub fn has_started(&self) -> (r: bool)
        ensures
            r == self@.has_started,
    {
        self.has_started
    }

    /// Whether a player called `name` is connected.
    pub fn has_player(&self, name: &str) -> (r: bool)
        ensures
            r == self@.players.contains(name@),
    {
        self.players.contains(name)
    }

    /// The number of connected players.
    pub fn player_count(&self) -> (r: usize)
        requires
            self.wf(),
        ensures
            r == self@.players.len(),
    {
        let r = self.players.len();
        proof {
            self.players.names().unique_seq_to_set();
            assert(self.players.online() =~= self.players.names().to_set());
        }
        r
    }

    /// The names of the connected players, each once.
    pub fn player_names(&self) -> (r: Vec<String>)
        requires
            self.wf(),
        ensures
            r@.len() == self@.players.len(),
            forall|n: Seq<char>|
                self@.players.contains(n) <==> exists|i: int|
                    0 <= i < r@.len() && #[trigger] r@[i]@ == n,
    {
        let r = self.players.player_names();
        proof {
            self.players.names().unique_seq_to_set();
            assert(self.players.online() =~= self.players.names().to_set());
            assert(crate::players::texts(r@).len() == r@.len());
        }
        assert forall|n: Seq<char>|
            self@.players.contains(n) <==> exists|i: int|
                0 <= i < r@.len() && #[trigger] r@[i]@ == n by {
            assert(crate::players::texts(r@).len() == r@.len());
            if self@.players.contains(n) {
                let k = choose|k: int|
                    0 <= k < self.players.names().len() && self.players.names()[k] == n;
                assert(crate::players::texts(r@)[k] == r@[k]@);
            }
            if exists|i: int| 0 <= i < r@.len() && #[trigger] r@[i]@ == n {
                let i = choose|i: int| 0 <= i < r@.len() && #[trigger] r@[i]@ == n;
                assert(crate::players::texts(r@)[i] == r@[i]@);
                assert(self.players.names()[i] == n);
            }
        }
        r
    }

    /// Hands the published events over, oldest first, for delivery on the bus.
    pub fn take_events(&mut self) -> (r: Vec<Event>)
        requires
            old(self).wf(),
        ensures
            final(self).wf(),
            r@ == old(self)@.events,
            final(self)@ == (SupervisorView { events: Seq::<Event>::empty(), ..old(self)@ }),
    {
        let mut r: Vec<Event> = Vec::new();
        std::mem::swap(&mut r, &mut self.events);
        assert(self.events@ =~= Seq::<Event>::empty());
        r
    }

    /// Replaces the remote-console target the settings describe.
    pub fn set_rcon(&mut self, rcon: Option<RconTarget>)
        requires
            old(self).wf(),
        ensures
            final(self).wf(),
            final(self)@ == (SupervisorView {
                rcon: match rcon {
                    Some(t) => Some((t.address@, t.password@)),
                    None => None,
                },
                ..old(self)@
            }),
    {
        self.rcon = rcon;
    }
}

impl Supervisor {
    /// The first part of `start`: records `Starting` (publishing the transition), then checks
    /// on the host that the configured port is free. The check's answer depends on the host.
    /// When the port is free, `Ok` means the process may now be spawned; when it is taken, the
    /// instance goes back to `Stopped` (publishing that too) and `ResourceBusy` names the port.
    pub fn begin_start(&mut self, caused_by: CausedBy) -> (r: Result<(), Error>)
        requires
            old(self).wf(),
        ensures
            final(self).wf(),
            old(self)@.state != State::Stopped ==> is_refusal(r) && final(self)@ == old(self)@,
            old(self)@.state == State::Stopped ==> {
                &&& final(self)@.events.len() >= old(self)@.events.len() + 1
                &&& final(self)@.events.subrange(0, old(self)@.events.len() as int) == old(
                    self,
                )@.events
                &&& is_transition_event(
                    final(self)@.events[old(self)@.events.len() as int],
                    old(self)@.id,
                    State::Starting,
                    caused_by,
                )
                &&& r is Ok ==> {
                    &&& final(self)@ == (SupervisorView {
                        state: State::Starting,
                        start_cause: caused_by,
                        events: final(self)@.events,
                        ..old(self)@
                    })
                    &&& final(self)@.events.len() == old(self)@.events.len() + 1
                }
                &&& r is Err ==> {
                    &&& (r matches Err(e) && e.kind == ErrorKind::ResourceBusy && e.detail@
                        == "Port "@ + decimal(old(self)@.port as nat) + " is already in use"@)
                    &&& final(self)@ == (SupervisorView {
                        start_cause: caused_by,
                        events: final(self)@.events,
                        ..old(self)@
                    })
                    &&& final(self)@.events.len() == old(self)@.events.len() + 2
                    &&& is_transition_event(
                        final(self)@.events.last(),
                        old(self)@.id,
                        State::Stopped,
                        caused_by,
                    )
                }
            },
    {
        let cause = caused_by.copy();
        match self.transition(StateAction::UserStart, "Starting server", caused_by) {
            Ok(_) => {},
            Err(e) => {
                return Err(e);
            },
        }
        let ghost after_start = self.events@;
        self.start_cause = cause;
        let free = port_free_on_host(self.port);
        let r = port_check(self.port, free);
        if r.is_err() {
            let cause = self.start_cause.copy();
            let _ = self.transition(StateAction::InstanceStop, "Port is already in use", cause);
            assert(self.events@.subrange(0, old(self).events@.len() as int) =~= old(self).events@)
                by {
                assert(self.events@.subrange(0, after_start.len() as int) == after_start);
                assert(after_start.subrange(0, old(self).events@.len() as int) == old(
                    self,
                ).events@);
            }
            assert(self.events@[old(self).events@.len() as int] == after_start[old(
                self,
            ).events@.len() as int]);
        }
        r
    }

    /// Records that the process was spawned. It is tracked, and its output is pumped, only if
    /// its three standard streams could all be taken; otherwise nothing is recorded.
    pub fn on_spawned(&mut self, pid: Option<u32>, stdin: bool, stdout: bool, stderr: bool) -> (r:
        Result<(), Error>)
        requires
            old(self).wf(),
        ensures
            final(self).wf(),
            stdin && stdout && stderr ==> r is Ok && final(self)@ == (SupervisorView {
                process: true,
                pid,
                stdin_open: true,
                did_start: false,
                has_started: true,
                ..old(self)@
            }),
            !(stdin && stdout && stderr) ==> (r matches Err(e) && e.kind == ErrorKind::Internal)
                && final(self)@ == old(self)@,
    {
        if !(stdin && stdout && stderr) {
            return Err(Error::new(ErrorKind::Internal, "Failed to take the process's standard streams"));
        }
        self.process = true;
        self.pid = pid;
        self.stdin_open = true;
        self.did_start = false;
        self.has_started = true;
        Ok(())
    }

    /// Records that the process could not be spawned: the instance goes back to `Stopped` if
    /// it was starting. The returned error is the caller's.
    pub fn on_spawn_failed(&mut self) -> (r: Error)
        requires
            old(self).wf(),
        ensures
            final(self).wf(),
            r.kind == ErrorKind::IOFailure,
            old(self)@.state == State::Starting ==> {
                &&& final(self)@ == (SupervisorView {
                    state: State::Stopped,
                    events: final(self)@.events,
                    ..old(self)@
                })
                &&& appended(old(self)@.events, final(self)@.events, 1)
                &&& is_transition_event(
                    final(self)@.events.last(),
                    old(self)@.id,
                    State::Stopped,
                    old(self)@.start_cause,
                )
            },
            old(self)@.state != State::Starting ==> final(self)@ == old(self)@,
    {
        if self.machine.state() == State::Starting {
            let cause = self.start_cause.copy();
            let _ = self.transition(StateAction::InstanceStop, "Failed to start server", cause);
        }
        Error::new(ErrorKind::IOFailure, "Failed to start server")
    }

    /// The first part of `stop`: records `Stopping` (publishing the transition) and returns
    /// the text to write on the process's input stream.
    pub fn stop(&mut self, caused_by: CausedBy) -> (r: Result<String, Error>)
        requires
            old(self).wf(),
        ensures
            final(self).wf(),
            old(self)@.state != State::Running ==> (r matches Err(e) && e.kind
                == ErrorKind::InvalidTransition) && final(self)@ == old(self)@,
            old(self)@.state == State::Running ==> {
                &&& final(self)@ == (SupervisorView {
                    state: State::Stopping,
                    events: final(self)@.events,
                    ..old(self)@
                })
                &&& appended(old(self)@.events, final(self)@.events, 1)
                &&& is_transition_event(
                    final(self)@.events.last(),
                    old(self)@.id,
                    State::Stopping,
                    caused_by,
                )
                &&& old(self)@.stdin_open ==> (r matches Ok(t) && t@ == shutdown_command() + "\n"@)
                &&& !old(self)@.stdin_open ==> (r matches Err(e) && e.kind == ErrorKind::Internal)
            },
    {
        match self.transition(StateAction::UserStop, "Stopping server", caused_by) {
            Ok(_) => {},
            Err(e) => {
                return Err(e);
            },
        }
        if !self.stdin_open {
            return Err(Error::new(ErrorKind::Internal, "Failed to stop instance: stdin not available"));
        }
        let mut t = String::from_str("stop");
        t.append("\n");
        Ok(t)
    }

    /// Records whether the shutdown command reached the process. Once it has, any
    /// remote-console session is discarded; if it has not, the input stream is presumed
    /// unusable.
    pub fn after_stop_written(&mut self, written: bool) -> (r: Result<(), Error>)
        requires
            old(self).wf(),
        ensures
            final(self).wf(),
            written ==> r is Ok && final(self)@ == (SupervisorView {
                rcon_active: false,
                ..old(self)@
            }),
            !written ==> (r matches Err(e) && e.kind == ErrorKind::IOFailure) && final(self)@ == (
            SupervisorView { stdin_open: false, ..old(self)@ }),
    {
        if written {
            self.rcon_active = false;
            Ok(())
        } else {
            self.stdin_open = false;
            Err(Error::new(ErrorKind::IOFailure, "Failed to write to stdin"))
        }
    }

    /// Whether a restart may begin now: it begins by stopping, so the instance must be running.
    /// Nothing is changed.
    pub fn check_restart(&self) -> (r: Result<(), Error>)
        requires
            self.wf(),
        ensures
            self@.state == State::Running ==> r is Ok,
            self@.state != State::Running ==> is_refusal(r),
    {
        match self.machine.check_transition(StateAction::UserStop) {
            Ok(_) => Ok(()),
            Err(_) => Err(
                Error::new(ErrorKind::InvalidTransition, "The instance cannot stop in its current state"),
            ),
        }
    }

    /// `kill`: fails on a stopped instance without changing anything. With a tracked process,
    /// `Ok` asks for it to be terminated (its exit is then reported with `on_process_exit`) and
    /// the remote-console session is discarded. Without one, the bookkeeping is inconsistent:
    /// the instance is forced to `Stopped`, the transition published, and an error returned.
    pub fn kill(&mut self, caused_by: CausedBy) -> (r: Result<(), Error>)
        requires
            old(self).wf(),
        ensures
            final(self).wf(),
            old(self)@.state == State::Stopped ==> (r matches Err(e) && e.kind
                == ErrorKind::InvalidState) && final(self)@ == old(self)@,
            old(self)@.state != State::Stopped && old(self)@.process ==> r is Ok && final(self)@ == (
            SupervisorView { rcon_active: false, ..old(self)@ }),
            old(self)@.state != State::Stopped && !old(self)@.process ==> {
                &&& (r matches Err(e) && e.kind == ErrorKind::Internal)
                &&& final(self)@ == (SupervisorView {
                    state: State::Stopped,
                    rcon_active: false,
                    stdin_open: false,
                    players: Set::<Seq<char>>::empty(),
                    events: final(self)@.events,
                    ..old(self)@
                })
                &&& appended(old(self)@.events, final(self)@.events, 1)
                &&& is_transition_event(
                    final(self)@.events.last(),
                    old(self)@.id,
                    State::Stopped,
                    caused_by,
                )
            },
    {
        if self.machine.state() == State::Stopped {
            return Err(Error::new(ErrorKind::InvalidState, "Instance is already stopped"));
        }
        if self.process {
            self.rcon_active = false;
            return Ok(());
        }
        self.machine.force_stopped();
        self.rcon_active = false;
        self.stdin_open = false;
        self.players.clear();
        self.publish(
            EventKind::StateTransition { to: State::Stopped },
            "Process not available, assuming instance is stopped",
            caused_by,
        );
        assert(self.events@.subrange(0, old(self).events@.len() as int) =~= self.events@.drop_last());
        Err(Error::new(ErrorKind::Internal, "Process not available, assuming instance is stopped"))
    }

    /// `send_command`: fails on a stopped instance or a closed input stream. The shutdown
    /// command first records `Stopping` (publishing it), so that state and process agree.
    /// `Ok` holds the text to write on the process's input stream.
    pub fn send_command(&mut self, command: &str, caused_by: CausedBy) -> (r: Result<String, Error>)
        requires
            old(self).wf(),
        ensures
            final(self).wf(),
            old(self)@.state == State::Stopped ==> (r matches Err(e) && e.kind
                == ErrorKind::InvalidState) && final(self)@ == old(self)@,
            old(self)@.state != State::Stopped && !old(self)@.stdin_open ==> (r matches Err(e)
                && e.kind == ErrorKind::Internal) && final(self)@ == old(self)@,
            old(self)@.state != State::Stopped && old(self)@.stdin_open && command@
                != shutdown_command() ==> (r matches Ok(t) && t@ == command@ + "\n"@) && final(self)@ == old(self)@,
            old(self)@.state != State::Stopped && old(self)@.stdin_open && command@
                == shutdown_command() && old(self)@.state != State::Running ==> (r matches Err(e)
                && e.kind == ErrorKind::InvalidTransition) && final(self)@ == old(self)@,
            old(self)@.state == State::Running && old(self)@.stdin_open && command@
                == shutdown_command() ==> {
                &&& (r matches Ok(t) && t@ == command@ + "\n"@)
                &&& final(self)@ == (SupervisorView {
                    state: State::Stopping,
                    events: final(self)@.events,
                    ..old(self)@
                })
                &&& appended(old(self)@.events, final(self)@.events, 1)
                &&& is_transition_event(
                    final(self)@.events.last(),
                    old(self)@.id,
                    State::Stopping,
                    caused_by,
                )
            },
    {
        if self.machine.state() == State::Stopped {
            return Err(Error::new(ErrorKind::InvalidState, "Instance is stopped"));
        }
        if !self.stdin_open {
            return Err(Error::new(ErrorKind::Internal, "Failed to write to stdin because stdin is None"));
        }
        if same_text(command, "stop") {
            match self.transition(StateAction::UserStop, "Stopping server", caused_by) {
                Ok(_) => {},
                Err(e) => {
                    return Err(e);
                },
            }
        }
        let mut t = String::from_str(command);
        t.append("\n");
        Ok(t)
    }

    /// Records whether a command reached the process; if it has not, the input stream is
    /// presumed unusable.
    pub fn after_command_written(&mut self, written: bool) -> (r: Result<(), Error>)
        requires
            old(self).wf(),
        ensures
            final(self).wf(),
            written ==> r is Ok && final(self)@ == old(self)@,
            !written ==> (r matches Err(e) && e.kind == ErrorKind::IOFailure) && final(self)@ == (
            SupervisorView { stdin_open: false, ..old(self)@ }),
    {
        if written {
            Ok(())
        } else {
            self.stdin_open = false;
            Err(Error::new(ErrorKind::IOFailure, "Failed to send command to instance"))
        }
    }

    /// Records that a remote-console session opened. It is kept only while the instance is
    /// running; the result says whether it was.
    pub fn on_rcon_connected(&mut self) -> (r: bool)
        requires
            old(self).wf(),
        ensures
            final(self).wf(),
            r == (old(self)@.state == State::Running),
            r ==> final(self)@ == (SupervisorView { rcon_active: true, ..old(self)@ }),
            !r ==> final(self)@ == old(self)@,
    {
        if self.machine.state() == State::Running {
            self.rcon_active = true;
            true
        } else {
            false
        }
    }

    /// Records the platform id of a connected player.
    pub fn on_player_uuid(&mut self, name: &str, uuid: String) -> (r: bool)
        requires
            old(self).wf(),
        ensures
            final(self).wf(),
            r == old(self)@.players.contains(name@),
            final(self)@ == old(self)@,
    {
        self.players.set_uuid(name, uuid)
    }

    /// Records that the process exited (both output streams ended). The instance is
    /// `Stopped` afterwards, the transition published if the table allowed it, the process,
    /// its input stream and any remote-console session released, and no player connected.
    pub fn on_process_exit(&mut self)
        requires
            old(self).wf(),
        ensures
            final(self).wf(),
            final(self)@ == (SupervisorView {
                state: State::Stopped,
                process: false,
                pid: None,
                stdin_open: false,
                rcon_active: false,
                players: Set::<Seq<char>>::empty(),
                events: final(self)@.events,
                ..old(self)@
            }),
            old(self)@.state != State::Stopped ==> appended(
                old(self)@.events,
                final(self)@.events,
                1,
            ) && is_transition_event(
                final(self)@.events.last(),
                old(self)@.id,
                State::Stopped,
                old(self)@.start_cause,
            ),
            old(self)@.state == State::Stopped ==> final(self)@.events == old(self)@.events,
    {
        let cause = self.start_cause.copy();
        let _ = self.transition(
            StateAction::InstanceStop,
            "Instance stopping as server process exited",
            cause,
        );
        self.players.clear();
        self.rcon_active = false;
        self.process = false;
        self.pid = None;
        self.stdin_open = false;
    }
}

impl Supervisor {
    /// The log pump's handling of one console line: the raw line is published first, then the
    /// line's signal acted on. The first ready marker moves a starting instance to `Running`
    /// and asks for a remote-console session when one is configured; a system message is
    /// published, and a join or leave updates the players; a chat line is published.
    pub fn on_console_line(&mut self, line: &str) -> (r: PumpAction)
        requires
            old(self).wf(),
        ensures
            final(self).wf(),
            final(self)@.events.len() > old(self)@.events.len(),
            final(self)@.events.subrange(0, old(self)@.events.len() as int) == old(self)@.events,
            is_output_event(
                final(self)@.events[old(self)@.events.len() as int],
                old(self)@.id,
                line@,
            ),
            match signal_of(line@) {
                SignalView::ReadyMarker => if !old(self)@.did_start && old(self)@.state
                    == State::Starting {
                    &&& final(self)@ == (SupervisorView {
                        state: State::Running,
                        did_start: true,
                        rcon_active: false,
                        events: final(self)@.events,
                        ..old(self)@
                    })
                    &&& final(self)@.events.len() == old(self)@.events.len() + 2
                    &&& is_transition_event(
                        final(self)@.events.last(),
                        old(self)@.id,
                        State::Running,
                        old(self)@.start_cause,
                    )
                    &&& match old(self)@.rcon {
                        Some((a, pw)) => r matches PumpAction::ConnectRcon(t) && t.address@ == a
                            && t.password@ == pw,
                        None => r is Nothing,
                    }
                } else {
                    &&& final(self)@ == (SupervisorView {
                        did_start: true,
                        events: final(self)@.events,
                        ..old(self)@
                    })
                    &&& final(self)@.events.len() == old(self)@.events.len() + 1
                    &&& r is Nothing
                },
                SignalView::SystemMessage(_) => {
                    &&& final(self)@ == (SupervisorView { events: final(self)@.events, ..old(self)@ })
                    &&& final(self)@.events.len() == old(self)@.events.len() + 2
                    &&& is_system_event(final(self)@.events.last(), old(self)@.id, line@)
                    &&& r is Nothing
                },
                SignalView::PlayerJoined(n) => {
                    &&& final(self)@ == (SupervisorView {
                        players: old(self)@.players.insert(n),
                        events: final(self)@.events,
                        ..old(self)@
                    })
                    &&& final(self)@.events.len() == old(self)@.events.len() + 2
                    &&& is_system_event(final(self)@.events.last(), old(self)@.id, line@)
                    &&& !old(self)@.players.contains(n) ==> (r matches PumpAction::ResolvePlayer(
                        s,
                    ) && s@ == n)
                    &&& old(self)@.players.contains(n) ==> r is Nothing
                },
                SignalView::PlayerLeft(n) => {
                    &&& final(self)@ == (SupervisorView {
                        players: old(self)@.players.remove(n),
                        events: final(self)@.events,
                        ..old(self)@
                    })
                    &&& final(self)@.events.len() == old(self)@.events.len() + 2
                    &&& is_system_event(final(self)@.events.last(), old(self)@.id, line@)
                    &&& r is Nothing
                },
                SignalView::PlayerChat(n, t) => {
                    &&& final(self)@ == (SupervisorView { events: final(self)@.events, ..old(self)@ })
                    &&& final(self)@.events.len() == old(self)@.events.len() + 2
                    &&& is_chat_event(final(self)@.events.last(), old(self)@.id, n, t)
                    &&& r is Nothing
                },
                SignalView::Unrecognized => {
                    &&& final(self)@ == (SupervisorView { events: final(self)@.events, ..old(self)@ })
                    &&& final(self)@.events.len() == old(self)@.events.len() + 1
                    &&& r is Nothing
                },
            },
    {
        let ghost ev0 = self.events@;
        self.publish(
            EventKind::InstanceOutput { message: String::from_str(line) },
            "",
            CausedBy::System,
        );
        let ghost ev1 = self.events@;
        assert(ev1.subrange(0, ev0.len() as int) =~= ev0);
        let signal = classify(line);
        let r = match signal {
            Signal::ReadyMarker => {
                if self.did_start {
                    PumpAction::Nothing
                } else {
                    self.did_start = true;
                    if self.machine.state() != State::Starting {
                        PumpAction::Nothing
                    } else {
                        let cause = self.start_cause.copy();
                        let _ = self.transition(StateAction::InstanceStart, "Instance started", cause);
                        self.rcon_active = false;
                        match &self.rcon {
                            Some(t) => PumpAction::ConnectRcon(t.copy()),
                            None => PumpAction::Nothing,
                        }
                    }
                }
            },
            Signal::SystemMessage(_) => {
                self.publish(
                    EventKind::SystemMessage { message: String::from_str(line) },
                    "",
                    CausedBy::System,
                );
                PumpAction::Nothing
            },
            Signal::PlayerJoined(n) => {
                self.publish(
                    EventKind::SystemMessage { message: String::from_str(line) },
                    "",
                    CausedBy::System,
                );
                let name = n.clone();
                if self.players.add_player(Player { name: n, uuid: None }) {
                    PumpAction::ResolvePlayer(name)
                } else {
                    PumpAction::Nothing
                }
            },
            Signal::PlayerLeft(n) => {
                self.publish(
                    EventKind::SystemMessage { message: String::from_str(line) },
                    "",
                    CausedBy::System,
                );
                self.players.remove_by_name(n.as_str());
                PumpAction::Nothing
            },
            Signal::PlayerChat(n, t) => {
                self.publish(
                    EventKind::PlayerMessage { player: n, message: t },
                    "",
                    CausedBy::System,
                );
                PumpAction::Nothing
            },
            Signal::Unrecognized => PumpAction::Nothing,
        };
        proof {
            if self.events@.len() == ev1.len() + 1 {
                assert(self.events@.drop_last() == ev1);
                assert(self.events@.subrange(0, ev0.len() as int) =~= ev0);
                assert(self.events@[ev0.len() as int] == ev1[ev0.len() as int]);
            }
        }
        r
    }
}

} // verus!
