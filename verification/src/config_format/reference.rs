//! The executable form of a state graph: the states stand in one list, and a
//! transition refers to its target by a reference into that list.

use super::frozen::FrozenVec;
use super::{CheckData, CommandValue, Seconds};
use super::{MAX_CHECKS_PER_STATE, MAX_COMMANDS_PER_STATE};
use vstd::prelude::*;

verus! {

/// A reference to a state of an executable graph: the place of the state in
/// the list of states.
#[derive(Debug, Copy, Clone, PartialEq, Eq, Structural)]
pub struct StateRef(pub usize);

/// The longest that a state may last, and where to go when it has.
#[derive(Debug, Copy, Clone, PartialEq, Eq, Structural)]
pub struct Timeout {
    /// How long after the state was entered the transition is made.
    pub time: Seconds,
    /// The transition that is made then.
    pub transition: StateTransition,
}

/// A phase of the flight in executable form.
pub struct State {
    /// The number of the state: its position in the configuration that the
    /// graph was built from.
    pub id: u8,
    pub checks: FrozenVec<Check, MAX_CHECKS_PER_STATE>,
    pub commands: FrozenVec<Command, MAX_COMMANDS_PER_STATE>,
    pub timeout: Option<Timeout>,
}

/// What a state holds, as plain values.
pub struct StateView {
    pub id: u8,
    pub checks: Seq<Check>,
    pub commands: Seq<Command>,
    pub timeout: Option<Timeout>,
}

impl View for State {
    type V = StateView;

    open spec fn view(&self) -> StateView {
        StateView {
            id: self.id,
            checks: self.checks@,
            commands: self.commands@,
            timeout: self.timeout,
        }
    }
}

/// A condition that is evaluated on every run of its state.
#[derive(Debug, Copy, Clone, PartialEq, Eq, Structural)]
pub struct Check {
    pub data: CheckData,
    /// Where to go when the condition is met. A check without a transition
    /// never causes one.
    pub transition: Option<StateTransition>,
}

/// A move to another state.
#[derive(Debug, Copy, Clone, PartialEq, Eq, Structural)]
pub enum StateTransition {
    /// The flight goes on to its next phase.
    Transition(StateRef),
    /// The flight falls back to a safer state.
    Abort(StateRef),
}

/// An action that is taken once, some time after its state was entered.
#[derive(Debug, Copy, Clone, PartialEq, Eq, Structural)]
pub struct Command {
    /// What is set, and to what.
    pub object: CommandValue,
    /// How long after the state was entered the command is run.
    pub delay: Seconds,
    /// Whether the command was run since its state was last entered.
    pub was_executed: bool,
}

impl StateTransition {
    pub open spec fn spec_target(self) -> StateRef {
        match self {
            StateTransition::Transition(state) => state,
            StateTransition::Abort(state) => state,
        }
    }

    /// The state that the transition leads to.
    #[verifier::when_used_as_spec(spec_target)]
    pub fn target(self) -> (state: StateRef)
        ensures
            state == self.spec_target(),
    {
        match self {
            StateTransition::Transition(state) => state,
            StateTransition::Abort(state) => state,
        }
    }
}

impl Timeout {
    pub fn new(time: Seconds, transition: StateTransition) -> (timeout: Self)
        ensures
            timeout == (Timeout { time, transition }),
    {
        Self { time, transition }
    }
}

impl Check {
    pub fn new(data: CheckData, transition: Option<StateTransition>) -> (check: Self)
        ensures
            check == (Check { data, transition }),
    {
        Self { data, transition }
    }

    /// Whether the transition of this check, if it has one, leads to one of
    /// the first `count` states.
    pub open spec fn resolves_in(self, count: int) -> bool {
        self.transition matches Some(transition) ==> transition.spec_target().0 < count
    }
}

impl Command {
    /// A command that was not run yet.
    pub fn new(object: CommandValue, delay: Seconds) -> (command: Self)
        ensures
            command == (Command { object, delay, was_executed: false }),
    {
        Self { object, delay, was_executed: false }
    }
}

impl StateView {
    /// Whether every transition of the state leads to one of the first
    /// `count` states.
    pub open spec fn resolves_in(self, count: int) -> bool {
        &&& forall|j: int|
            0 <= j < self.checks.len() ==> (#[trigger] self.checks[j]).resolves_in(count)
        &&& self.timeout matches Some(timeout) ==> timeout.transition.spec_target().0 < count
    }
}

impl State {
    /// A state without checks, commands or timeout.
    pub fn new(id: u8) -> (state: Self)
        ensures
            state@ == (StateView {
                id,
                checks: Seq::<Check>::empty(),
                commands: Seq::<Command>::empty(),
                timeout: None::<Timeout>,
            }),
    {
        Self { id, checks: FrozenVec::new(), commands: FrozenVec::new(), timeout: None }
    }

    /// A state with all that belongs to it.
    pub fn new_complete(
        id: u8,
        checks: FrozenVec<Check, MAX_CHECKS_PER_STATE>,
        commands: FrozenVec<Command, MAX_COMMANDS_PER_STATE>,
        timeout: Option<Timeout>,
    ) -> (state: Self)
        ensures
            state@ == (StateView { id, checks: checks@, commands: commands@, timeout }),
    {
        Self { id, checks, commands, timeout }
    }

    /// Whether every transition of this state leads to one of the first
    /// `count` states.
    pub fn is_resolved_in(&self, count: usize) -> (resolved: bool)
        ensures
            resolved == self@.resolves_in(count as int),
    {
        let mut j: usize = 0;
        while j < self.checks.len()
            invariant
                j <= self.checks@.len(),
                forall|k: int|
                    0 <= k < j ==> (#[trigger] self.checks@[k]).resolves_in(count as int),
            decreases self.checks@.len() - j,
        {
            if let Some(transition) = self.checks.get_unchecked(j).transition {
                if transition.target().0 >= count {
                    assert(!self@.checks[j as int].resolves_in(count as int));
                    return false;
                }
            }
            j += 1;
        }
        match self.timeout {
            Some(timeout) => timeout.transition.target().0 < count,
            None => true,
        }
    }
}

/// Whether every transition of every state leads to a state of the list: a
/// graph that is closed can be run without ever leaving it.
pub open spec fn is_closed(states: Seq<StateView>) -> bool {
    forall|i: int| 0 <= i < states.len() ==> (#[trigger] states[i]).resolves_in(states.len() as int)
}

/// The states of a list, as plain values.
pub open spec fn views(states: Seq<State>) -> Seq<StateView> {
    states.map_values(|state: State| state@)
}

/// Whether every transition of every state of `states` leads to a state of
/// `states`.
pub fn check_closed(states: &[State]) -> (closed: bool)
    ensures
        closed == is_closed(views(states@)),
{
    let count = states.len();
    let mut i: usize = 0;
    while i < count
        invariant
            i <= count,
            count == states@.len(),
            forall|k: int|
                0 <= k < i ==> (#[trigger] views(states@)[k]).resolves_in(count as int),
        decreases count - i,
    {
        if !states[i].is_resolved_in(count) {
            assert(!views(states@)[i as int].resolves_in(count as int));
            return false;
        }
        i += 1;
    }
    true
}

} // verus!
