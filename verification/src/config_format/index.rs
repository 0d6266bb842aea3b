//! The portable form of a state graph: states refer to each other by their
//! position in the list of states.

use super::{CheckData, CommandValue, Seconds};
use super::{MAX_CHECKS_PER_STATE, MAX_COMMANDS_PER_STATE, MAX_STATES};
use vstd::prelude::*;

verus! {

#[verifier::external_type_specification]
#[verifier::external_body]
#[verifier::reject_recursive_types(T)]
pub struct ExHeaplessVec<T, const N: usize>(heapless::Vec<T, N>);

/// The states that a list of states holds, first to last.
pub uninterp spec fn state_list(states: heapless::Vec<State, MAX_STATES>) -> Seq<State>;

/// The checks that a list of checks holds, first to last.
pub uninterp spec fn check_list(checks: heapless::Vec<Check, MAX_CHECKS_PER_STATE>) -> Seq<Check>;

/// The commands that a list of commands holds, first to last.
pub uninterp spec fn command_list(
    commands: heapless::Vec<Command, MAX_COMMANDS_PER_STATE>,
) -> Seq<Command>;

/// `heapless::Vec::as_slice` on a list of states: the slice of the states
/// held, first to last. The list has room for `MAX_STATES` states, and never
/// holds more.
#[verifier::external_body]
fn states_of(states: &heapless::Vec<State, MAX_STATES>) -> (items: &[State])
    ensures
        items@ == state_list(*states),
        items@.len() <= MAX_STATES,
{
    states.as_slice()
}

/// `heapless::Vec::as_slice` on a list of checks: the slice of the checks
/// held, first to last. The list has room for `MAX_CHECKS_PER_STATE` checks,
/// and never holds more.
#[verifier::external_body]
fn checks_of(checks: &heapless::Vec<Check, MAX_CHECKS_PER_STATE>) -> (items: &[Check])
    ensures
        items@ == check_list(*checks),
        items@.len() <= MAX_CHECKS_PER_STATE,
{
    checks.as_slice()
}

/// `heapless::Vec::as_slice` on a list of commands: the slice of the commands
/// held, first to last. The list has room for `MAX_COMMANDS_PER_STATE`
/// commands, and never holds more.
#[verifier::external_body]
fn commands_of(commands: &heapless::Vec<Command, MAX_COMMANDS_PER_STATE>) -> (items: &[Command])
    ensures
        items@ == command_list(*commands),
        items@.len() <= MAX_COMMANDS_PER_STATE,
{
    commands.as_slice()
}

/// `Clone::clone` of `heapless::Vec`, which the derived `Clone` of a
/// configuration and of a state call. Nothing is claimed of its result, and no
/// contract of the library speaks of a clone.
pub assume_specification<T, const N: usize>[ <heapless::Vec<T, N> as Clone>::clone ](
    list: &heapless::Vec<T, N>,
) -> (copy: heapless::Vec<T, N>) where T: Clone
;

/// A whole configuration: the states and the one that the flight starts in.
#[derive(Debug, Clone, PartialEq)]
pub struct ConfigFile {
    pub default_state: StateIndex,
    pub states: heapless::Vec<State, MAX_STATES>,
}

/// The position of a state in the list of states of its configuration.
#[derive(Debug, Copy, Clone, PartialEq, Eq, Structural)]
pub struct StateIndex(u8);

impl StateIndex {
    /// The position that this index stands for.
    pub closed spec fn position(self) -> u8 {
        self.0
    }

    /// The index of the state at position `index`. Nothing is checked here:
    /// whether a state is at that position depends on the configuration that
    /// the index is used in.
    pub fn new_unchecked(index: u8) -> (state: Self)
        ensures
            state.position() == index,
    {
        StateIndex(index)
    }
}

impl From<StateIndex> for usize {
    fn from(index: StateIndex) -> (position: usize) {
        index.0 as usize
    }
}

impl vstd::std_specs::convert::FromSpecImpl<StateIndex> for usize {
    open spec fn obeys_from_spec() -> bool {
        true
    }

    open spec fn from_spec(index: StateIndex) -> usize {
        index.position() as usize
    }
}

/// A phase of the flight: what is checked and done while it lasts, and how
/// long it may last.
#[derive(Debug, Clone, PartialEq)]
pub struct State {
    pub checks: heapless::Vec<Check, MAX_CHECKS_PER_STATE>,
    pub commands: heapless::Vec<Command, MAX_COMMANDS_PER_STATE>,
    pub timeout: Option<Timeout>,
}

/// The longest that a state may last, and where to go when it has.
#[derive(Debug, Copy, Clone, PartialEq, Eq, Structural)]
pub struct Timeout {
    /// How long after the state was entered the transition is made.
    pub time: Seconds,
    /// The transition that is made then.
    pub transition: StateTransition,
}

/// A condition that is evaluated on every run of its state.
#[derive(Debug, Copy, Clone, PartialEq, Eq, Structural)]
pub struct Check {
    pub data: CheckData,
    /// Where to go when the condition is met. A check without a transition
    /// never causes one.
    pub transition: Option<StateTransition>,
}

/// An action that is taken once, some time after its state was entered.
#[derive(Debug, Copy, Clone, PartialEq, Eq, Structural)]
pub struct Command {
    /// What is set, and to what.
    pub object: CommandValue,
    /// How long after the state was entered the command is run.
    pub delay: Seconds,
}

/// A move to another state, given by that state's position.
#[derive(Debug, Copy, Clone, PartialEq, Eq, Structural)]
pub enum StateTransition {
    /// The flight goes on to its next phase.
    Transition(StateIndex),
    /// The flight falls back to a safer state.
    Abort(StateIndex),
}

impl StateTransition {
    /// The state that the transition leads to.
    pub open spec fn target(self) -> StateIndex {
        match self {
            StateTransition::Transition(state) => state,
            StateTransition::Abort(state) => state,
        }
    }

    fn destination(&self) -> (position: usize)
        ensures
            position == self.target().position(),
    {
        match self {
            StateTransition::Transition(state) => usize::from(*state),
            StateTransition::Abort(state) => usize::from(*state),
        }
    }
}

impl Timeout {
    pub fn new(time: Seconds, transition: StateTransition) -> (timeout: Self)
        ensures
            timeout == (Timeout { time, transition }),
    {
        Self { time, transition }
    }
}

impl Check {
    pub fn new(data: CheckData, transition: Option<StateTransition>) -> (check: Self)
        ensures
            check == (Check { data, transition }),
    {
        Self { data, transition }
    }

    /// Whether the transition of this check, if it has one, leads to one of
    /// the first `count` states.
    pub open spec fn resolves_in(self, count: int) -> bool {
        self.transition matches Some(transition) ==> transition.target().position() < count
    }
}

impl Command {
    pub fn new(object: CommandValue, delay: Seconds) -> (command: Self)
        ensures
            command == (Command { object, delay }),
    {
        Self { object, delay }
    }
}

impl State {
    pub fn new(
        checks: heapless::Vec<Check, MAX_CHECKS_PER_STATE>,
        commands: heapless::Vec<Command, MAX_COMMANDS_PER_STATE>,
        timeout: Option<Timeout>,
    ) -> (state: Self)
        ensures
            state == (State { checks, commands, timeout }),
    {
        Self { checks, commands, timeout }
    }

    /// The checks of this state, in the order in which they are evaluated.
    pub open spec fn check_seq(&self) -> Seq<Check> {
        check_list(self.checks)
    }

    /// The commands of this state, in the order in which they are run.
    pub open spec fn command_seq(&self) -> Seq<Command> {
        command_list(self.commands)
    }

    /// Whether every transition of this state leads to one of the first
    /// `count` states.
    pub open spec fn resolves_in(&self, count: int) -> bool {
        &&& forall|j: int|
            0 <= j < self.check_seq().len() ==> (#[trigger] self.check_seq()[j]).resolves_in(count)
        &&& self.timeout matches Some(timeout) ==> timeout.transition.target().position() < count
    }

    /// The checks of this state.
    pub fn check_slice(&self) -> (checks: &[Check])
        ensures
            checks@ == self.check_seq(),
            checks@.len() <= MAX_CHECKS_PER_STATE,
    {
        checks_of(&self.checks)
    }

    /// The commands of this state.
    pub fn command_slice(&self) -> (commands: &[Command])
        ensures
            commands@ == self.command_seq(),
            commands@.len() <= MAX_COMMANDS_PER_STATE,
    {
        commands_of(&self.commands)
    }

    /// Whether every transition of this state leads to one of the first
    /// `count` states.
    pub fn is_resolved_in(&self, count: usize) -> (resolved: bool)
        ensures
            resolved == self.resolves_in(count as int),
    {
        let checks = self.check_slice();
        let mut j: usize = 0;
        while j < checks.len()
            invariant
                j <= checks@.len(),
                checks@ == self.check_seq(),
                forall|k: int|
                    0 <= k < j ==> (#[trigger] self.check_seq()[k]).resolves_in(count as int),
            decreases checks@.len() - j,
        {
            if let Some(transition) = checks[j].transition {
                if transition.destination() >= count {
                    assert(!self.check_seq()[j as int].resolves_in(count as int));
                    return false;
                }
            }
            j += 1;
        }
        match self.timeout {
            Some(timeout) => timeout.transition.destination() < count,
            None => true,
        }
    }
}

impl ConfigFile {
    /// The states of this configuration, by position.
    pub open spec fn state_seq(&self) -> Seq<State> {
        state_list(self.states)
    }

    /// Whether every transition leads to a state of this configuration.
    pub open spec fn transitions_resolve(&self) -> bool {
        forall|i: int|
            0 <= i < self.state_seq().len() ==> (#[trigger] self.state_seq()[i]).resolves_in(
                self.state_seq().len() as int,
            )
    }

    /// Whether the default state and every transition lead to a state of this
    /// configuration.
    pub open spec fn well_formed(&self) -> bool {
        &&& self.default_state.position() < self.state_seq().len()
        &&& self.transitions_resolve()
    }

    /// The states of this configuration.
    pub fn state_slice(&self) -> (states: &[State])
        ensures
            states@ == self.state_seq(),
            states@.len() <= MAX_STATES,
    {
        states_of(&self.states)
    }

    /// Whether the default state and every transition lead to a state of this
    /// configuration.
    pub fn is_well_formed(&self) -> (ok: bool)
        ensures
            ok == self.well_formed(),
    {
        usize::from(self.default_state) < self.state_slice().len() && self.is_resolved()
    }

    /// Whether every transition leads to a state of this configuration.
    pub fn is_resolved(&self) -> (resolved: bool)
        ensures
            resolved == self.transitions_resolve(),
    {
        let states = self.state_slice();
        let count = states.len();
        let mut i: usize = 0;
        while i < count
            invariant
                i <= count,
                count == states@.len(),
                states@ == self.state_seq(),
                forall|k: int|
                    0 <= k < i ==> (#[trigger] self.state_seq()[k]).resolves_in(count as int),
            decreases count - i,
        {
            if !states[i].is_resolved_in(count) {
                return false;
            }
            i += 1;
        }
        true
    }
}

} // verus!
