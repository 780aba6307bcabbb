use vstd::prelude::*;

verus! {

/// Lifecycle state of one supervised instance.
#[derive(Debug, Clone, Copy, PartialEq, Eq, Structural)]
pub enum State {
    Stopped,
    Starting,
    Running,
    Stopping,
}

/// A request to move an instance from one lifecycle state to another.
#[derive(Debug, Clone, Copy, PartialEq, Eq, Structural)]
pub enum StateAction {
    UserStart,
    InstanceStart,
    UserStop,
    InstanceStop,
}

/// The transition table: the state that `action` leads to from `from`, if it is allowed there.
pub open spec fn next_state(from: State, action: StateAction) -> Option<State> {
    match (from, action) {
        (State::Stopped, StateAction::UserStart) => Some(State::Starting),
        (State::Starting, StateAction::InstanceStart) => Some(State::Running),
        (State::Starting, StateAction::InstanceStop) => Some(State::Stopped),
        (State::Running, StateAction::UserStop) => Some(State::Stopping),
        (State::Running, StateAction::InstanceStop) => Some(State::Stopped),
        (State::Stopping, StateAction::InstanceStop) => Some(State::Stopped),
        _ => None,
    }
}

/// Looks up the transition table.
pub fn transition_target(from: State, action: StateAction) -> (r: Option<State>)
    ensures
        r == next_state(from, action),
{
    match (from, action) {
        (State::Stopped, StateAction::UserStart) => Some(State::Starting),
        (State::Starting, StateAction::InstanceStart) => Some(State::Running),
        (State::Starting, StateAction::InstanceStop) => Some(State::Stopped),
        (State::Running, StateAction::UserStop) => Some(State::Stopping),
        (State::Running, StateAction::InstanceStop) => Some(State::Stopped),
        (State::Stopping, StateAction::InstanceStop) => Some(State::Stopped),
        _ => None,
    }
}


/// The state reached from `from` by applying `actions` in order, or `None` if one of them is
/// not allowed where it is applied.
pub open spec fn run(from: State, actions: Seq<StateAction>) -> Option<State>
    decreases actions.len(),
{
    if actions.len() == 0 {
        Some(from)
    } else {
        match next_state(from, actions[0]) {
            Some(s) => run(s, actions.drop_first()),
            None => None,
        }
    }
}

/// A state that some sequence of allowed transitions leads to from `Stopped`.
pub open spec fn reachable(s: State) -> bool {
    exists|actions: Seq<StateAction>| #[trigger] run(State::Stopped, actions) == Some(s)
}

/// The states that a path passes through after its start, in order.
pub open spec fn visits(from: State, actions: Seq<StateAction>, s: State) -> bool
    decreases actions.len(),
{
    if actions.len() == 0 {
        false
    } else {
        match next_state(from, actions[0]) {
            Some(t) => t == s || visits(t, actions.drop_first(), s),
            None => false,
        }
    }
}

proof fn lemma_run_push(from: State, actions: Seq<StateAction>, a: StateAction)
    requires
        run(from, actions) is Some,
    ensures
        run(from, actions.push(a)) == next_state(run(from, actions)->0, a),
    decreases actions.len(),
{
    if actions.len() == 0 {
        assert(actions.push(a).drop_first() =~= Seq::<StateAction>::empty());
        assert(actions.push(a)[0] == a);
        reveal_with_fuel(run, 2);
    } else {
        assert(actions.push(a)[0] == actions[0]);
        let t = next_state(from, actions[0])->0;
        assert(actions.push(a).drop_first() =~= actions.drop_first().push(a));
        lemma_run_push(t, actions.drop_first(), a);
    }
}

/// One allowed transition from a reachable state leads to a reachable state.
pub proof fn lemma_step_reachable(s: State, a: StateAction)
    requires
        reachable(s),
        next_state(s, a) is Some,
    ensures
        reachable(next_state(s, a)->0),
{
    let p = choose|p: Seq<StateAction>| #[trigger] run(State::Stopped, p) == Some(s);
    lemma_run_push(State::Stopped, p, a);
    assert(run(State::Stopped, p.push(a)) == next_state(s, a));
}

/// `Stopped` is reachable: it is where every instance begins.
pub proof fn lemma_stopped_reachable()
    ensures
        reachable(State::Stopped),
{
    assert(run(State::Stopped, Seq::<StateAction>::empty()) == Some(State::Stopped));
}

/// Every state that an instance can be in is reachable from `Stopped` through the transition
/// table: each state the table can produce from a reachable state is itself reachable, and the
/// forced return to `Stopped` lands on a reachable state too.
pub proof fn law_states_are_reachable(s: State, a: StateAction)
    requires
        reachable(s),
    ensures
        next_state(s, a) matches Some(t) ==> reachable(t),
        reachable(State::Stopped),
{
    lemma_stopped_reachable();
    if next_state(s, a) is Some {
        lemma_step_reachable(s, a);
    }
}

/// Once an instance has left `Stopped` through a start request, a second start request is
/// refused in every state that it can reach without passing through `Stopped` again.
pub proof fn law_second_start_refused(actions: Seq<StateAction>)
    requires
        run(State::Starting, actions) is Some,
        !visits(State::Starting, actions, State::Stopped),
    ensures
        next_state(run(State::Starting, actions)->0, StateAction::UserStart) is None,
    decreases actions.len(),
{
    lemma_never_stopped(State::Starting, actions);
}

proof fn lemma_never_stopped(from: State, actions: Seq<StateAction>)
    requires
        from != State::Stopped,
        run(from, actions) is Some,
        !visits(from, actions, State::Stopped),
    ensures
        run(from, actions)->0 != State::Stopped,
        next_state(run(from, actions)->0, StateAction::UserStart) is None,
    decreases actions.len(),
{
    if actions.len() > 0 {
        let t = next_state(from, actions[0])->0;
        lemma_never_stopped(t, actions.drop_first());
    }
}

/// The error a refused transition reports: the state it was asked of and the request.
#[derive(Debug, Clone, Copy, PartialEq, Eq, Structural)]
pub struct TransitionError {
    pub current: State,
    pub action: StateAction,
}

/// The lifecycle state of one instance. Every change goes through `try_transition`, except the
/// forced return to `Stopped` that `force_stopped` performs when the bookkeeping is found to be
/// inconsistent.
#[derive(Debug)]
pub struct StateMachine {
    state: State,
}

impl StateMachine {
    /// Every state the machine holds is reachable through the transition table.
    pub open spec fn wf(&self) -> bool {
        reachable(self.current())
    }

    pub closed spec fn current(&self) -> State {
        self.state
    }

    /// A machine in the initial state, `Stopped`.
    pub fn new() -> (r: StateMachine)
        ensures
            r.current() == State::Stopped,
            r.wf(),
    {
        proof {
            lemma_stopped_reachable();
        }
        StateMachine { state: State::Stopped }
    }

    /// A snapshot of the current state.
    pub fn state(&self) -> (r: State)
        ensures
            r == self.current(),
    {
        self.state
    }

    /// Applies `action` if the table allows it from the current state, and returns the new
    /// state; otherwise leaves the state as it is and reports the refusal.
    pub fn try_transition(&mut self, action: StateAction) -> (r: Result<State, TransitionError>)
        requires
            old(self).wf(),
        ensures
            final(self).wf(),
            match next_state(old(self).current(), action) {
                Some(t) => r == Ok::<State, TransitionError>(t) && final(self).current() == t,
                None => r == Err::<State, TransitionError>(
                    TransitionError { current: old(self).current(), action },
                ) && final(self).current() == old(self).current(),
            },
    {
        match transition_target(self.state, action) {
            Some(t) => {
                proof {
                    lemma_step_reachable(self.state, action);
                }
                self.state = t;
                Ok(t)
            },
            None => Err(TransitionError { current: self.state, action }),
        }
    }

    /// Whether `action` would be allowed now; the state is not changed.
    pub fn check_transition(&self, action: StateAction) -> (r: Result<State, TransitionError>)
        ensures
            match next_state(self.current(), action) {
                Some(t) => r == Ok::<State, TransitionError>(t),
                None => r == Err::<State, TransitionError>(
                    TransitionError { current: self.current(), action },
                ),
            },
    {
        match transition_target(self.state, action) {
            Some(t) => Ok(t),
            None => Err(TransitionError { current: self.state, action }),
        }
    }

    /// Sets the state to `Stopped` outside the table, for when the process is found gone.
    pub fn force_stopped(&mut self)
        ensures
            final(self).current() == State::Stopped,
            final(self).wf(),
    {
        proof {
            lemma_stopped_reachable();
        }
        self.state = State::Stopped;
    }
}

} // verus!
