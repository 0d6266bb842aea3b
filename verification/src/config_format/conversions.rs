//! From the portable form of a state graph to the executable form.

use super::index;
use super::reference::{Check, Command, State, StateRef, StateTransition, StateView, Timeout};
use super::reference::{is_closed, views};
use super::{MAX_CHECKS_PER_STATE, MAX_COMMANDS_PER_STATE, MAX_STATES};
use vstd::prelude::*;

verus! {

/// The executable form of a transition: it leads to the state at the same
/// position, and stays a transition or an abort.
pub open spec fn transition_ref(transition: index::StateTransition) -> StateTransition {
    match transition {
        index::StateTransition::Transition(state) => StateTransition::Transition(
            StateRef(state.position() as usize),
        ),
        index::StateTransition::Abort(state) => StateTransition::Abort(
            StateRef(state.position() as usize),
        ),
    }
}

/// The executable form of a check: the same condition, and the executable
/// form of its transition if it has one.
pub open spec fn check_ref(check: index::Check) -> Check {
    Check {
        data: check.data,
        transition: match check.transition {
            Some(transition) => Some(transition_ref(transition)),
            None => None,
        },
    }
}

/// The executable form of a command: the same target, value and delay, not
/// run yet.
pub open spec fn command_ref(command: index::Command) -> Command {
    Command { object: command.object, delay: command.delay, was_executed: false }
}

/// The executable form of a timeout: the same duration, and the executable
/// form of its transition.
pub open spec fn timeout_ref(timeout: index::Timeout) -> Timeout {
    Timeout { time: timeout.time, transition: transition_ref(timeout.transition) }
}

/// The executable form of a list of checks: that of each, in the same order.
pub open spec fn checks_ref(checks: Seq<index::Check>) -> Seq<Check> {
    Seq::new(checks.len(), |j: int| check_ref(checks[j]))
}

/// The executable form of a list of commands: that of each, in the same
/// order.
pub open spec fn commands_ref(commands: Seq<index::Command>) -> Seq<Command> {
    Seq::new(commands.len(), |j: int| command_ref(commands[j]))
}

/// The executable form of the state at `position` of a configuration: its
/// number is its position, and it holds the executable forms of the checks,
/// commands and timeout of `state`.
pub open spec fn state_ref(position: int, state: index::State) -> StateView {
    StateView {
        id: position as u8,
        checks: checks_ref(state.check_seq()),
        commands: commands_ref(state.command_seq()),
        timeout: match state.timeout {
            Some(timeout) => Some(timeout_ref(timeout)),
            None => None,
        },
    }
}

/// The executable form of a list of states: that of each, at the same
/// position.
pub open spec fn states_ref(states: Seq<index::State>) -> Seq<StateView> {
    Seq::new(states.len(), |i: int| state_ref(i, states[i]))
}

/// A state as it is before its checks, commands and timeout are filled in.
pub open spec fn blank_state(position: int) -> StateView {
    StateView {
        id: position as u8,
        checks: Seq::<Check>::empty(),
        commands: Seq::<Command>::empty(),
        timeout: None::<Timeout>,
    }
}

/// The portable form of a command of an executable graph: the same target,
/// value and delay. Whether the command was run is not part of it.
impl From<&Command> for index::Command {
    fn from(command: &Command) -> (portable: index::Command) {
        index::Command { object: command.object, delay: command.delay }
    }
}

impl vstd::std_specs::convert::FromSpecImpl<&Command> for index::Command {
    open spec fn obeys_from_spec() -> bool {
        true
    }

    open spec fn from_spec(command: &Command) -> index::Command {
        index::Command { object: command.object, delay: command.delay }
    }
}

/// Builds the executable form of `config`: as many states as `config` has, each
/// with its position as number and with the checks, commands and timeout of
/// the state at that position, every transition leading to the state at the
/// position that it named.
///
/// The states are made first, all of them and empty, so that a transition can
/// refer to a state at a later position, or to its own.
pub fn indices_to_refs(config: &index::ConfigFile) -> (states: Vec<State>)
    requires
        config.transitions_resolve(),
    ensures
        views(states@) == states_ref(config.state_seq()),
        is_closed(views(states@)),
{
    let idx_states = config.state_slice();
    let len = idx_states.len();

    let mut states: Vec<State> = Vec::new();
    let mut i: usize = 0;
    while i < len
        invariant
            i <= len <= MAX_STATES,
            states@.len() == i,
            forall|k: int| 0 <= k < i ==> (#[trigger] states@[k])@ == blank_state(k),
        decreases len - i,
    {
        states.push(State::new(i as u8));
        i += 1;
    }

    let mut i: usize = 0;
    while i < len
        invariant
            i <= len <= MAX_STATES,
            len == idx_states@.len(),
            idx_states@ == config.state_seq(),
            config.transitions_resolve(),
            states@.len() == len,
            forall|k: int| 0 <= k < i ==> (#[trigger] states@[k])@ == state_ref(k, idx_states@[k]),
            forall|k: int| i <= k < len ==> (#[trigger] states@[k])@ == blank_state(k),
        decreases len - i,
    {
        let state = &idx_states[i];
        assert(state.resolves_in(len as int));
        let mut filled = State::new(states[i].id);

        let checks = state.check_slice();
        let mut j: usize = 0;
        while j < checks.len()
            invariant
                j <= checks@.len() <= MAX_CHECKS_PER_STATE,
                checks@ == state.check_seq(),
                state.resolves_in(len as int),
                states@.len() == len,
                i < len <= MAX_STATES,
                filled.id == i,
                filled.commands@ == Seq::<Command>::empty(),
                filled.timeout == None::<Timeout>,
                filled.checks@.len() == j,
                forall|k: int| 0 <= k < j ==> #[trigger] filled.checks@[k] == check_ref(checks@[k]),
            decreases checks@.len() - j,
        {
            let check = &checks[j];
            assert(state.check_seq()[j as int].resolves_in(len as int));
            let transition = match check.transition {
                Some(transition) => Some(transition_index_to_ref(&transition, states.as_slice())),
                None => None,
            };
            let ref_check = Check::new(check.data, transition);
            if filled.checks.push(ref_check).is_err() {
                // Both forms have room for the same number of checks.
                unreached::<()>();
            }
            j += 1;
        }

        let commands = state.command_slice();
        let mut j: usize = 0;
        while j < commands.len()
            invariant
                j <= commands@.len() <= MAX_COMMANDS_PER_STATE,
                commands@ == state.command_seq(),
                i < len <= MAX_STATES,
                filled.id == i,
                filled.checks@ == checks_ref(state.check_seq()),
                filled.timeout == None::<Timeout>,
                filled.commands@.len() == j,
                forall|k: int|
                    0 <= k < j ==> #[trigger] filled.commands@[k] == command_ref(commands@[k]),
            decreases commands@.len() - j,
        {
            let command = &commands[j];
            let ref_command = Command::new(command.object, command.delay);
            if filled.commands.push(ref_command).is_err() {
                // Both forms have room for the same number of commands.
                unreached::<()>();
            }
            j += 1;
        }

        if let Some(timeout) = &state.timeout {
            let timeout_transition = transition_index_to_ref(
                &timeout.transition,
                states.as_slice(),
            );
            filled.timeout = Some(Timeout::new(timeout.time, timeout_transition));
        }
        assert(filled.commands@ =~= commands_ref(state.command_seq()));
        assert(filled@ == state_ref(i as int, idx_states@[i as int]));
        states[i] = filled;
        i += 1;
    }

    proof {
        assert(views(states@) =~= states_ref(config.state_seq()));
        lemma_closed_when_resolved(config.state_seq());
    }
    states
}

/// Builds the executable form of `config` as [`indices_to_refs`] does, if every
/// transition of `config` leads to one of its states. There is no executable
/// form of a configuration with a transition that leads nowhere.
pub fn checked_indices_to_refs(config: &index::ConfigFile) -> (states: Option<Vec<State>>)
    ensures
        states.is_some() <==> config.transitions_resolve(),
        states matches Some(built) ==> views(built@) == states_ref(config.state_seq())
            && is_closed(views(built@)),
{
    if config.is_resolved() {
        Some(indices_to_refs(config))
    } else {
        None
    }
}

/// The executable form of `transition`: a reference to the state of
/// `ref_states` at the position that `transition` names. There has to be a
/// state at that position.
pub fn transition_index_to_ref(
    transition: &index::StateTransition,
    ref_states: &[State],
) -> (reference: StateTransition)
    requires
        transition.target().position() < ref_states@.len(),
    ensures
        reference == transition_ref(*transition),
        reference.spec_target().0 < ref_states@.len(),
{
    match transition {
        index::StateTransition::Transition(s) => {
            let dest_state = StateRef(usize::from(*s));
            StateTransition::Transition(dest_state)
        },
        index::StateTransition::Abort(s) => {
            let dest_state = StateRef(usize::from(*s));
            StateTransition::Abort(dest_state)
        },
    }
}

/// The executable form of a configuration whose transitions all lead to one
/// of its states is closed.
pub proof fn lemma_closed_when_resolved(states: Seq<index::State>)
    requires
        forall|i: int|
            0 <= i < states.len() ==> (#[trigger] states[i]).resolves_in(states.len() as int),
    ensures
        is_closed(states_ref(states)),
{
    let built = states_ref(states);
    assert forall|i: int| 0 <= i < built.len() implies (#[trigger] built[i]).resolves_in(
        built.len() as int,
    ) by {
        let state = states[i];
        assert(state.resolves_in(states.len() as int));
        assert forall|j: int| 0 <= j < built[i].checks.len() implies (
        #[trigger] built[i].checks[j]).resolves_in(built.len() as int) by {
            assert(state.check_seq()[j].resolves_in(states.len() as int));
        }
    }
}

/// Building the executable form loses nothing and moves nothing: state by
/// state it has the number that is the state's position, as many checks and
/// commands, each check with its condition and each command with its target,
/// value and delay and not run yet, the timeout with its duration, and every
/// transition of the same sort as before and leading to the state whose number
/// is the position that the transition named.
pub proof fn lemma_round_trip(states: Seq<index::State>, i: int)
    requires
        states.len() <= MAX_STATES,
        0 <= i < states.len(),
        forall|k: int|
            0 <= k < states.len() ==> (#[trigger] states[k]).resolves_in(states.len() as int),
    ensures
        states_ref(states).len() == states.len(),
        states_ref(states)[i].id == i,
        states_ref(states)[i].checks.len() == states[i].check_seq().len(),
        states_ref(states)[i].commands.len() == states[i].command_seq().len(),
        forall|j: int|
            0 <= j < states[i].check_seq().len() ==> same_check(
                states_ref(states),
                #[trigger] states_ref(states)[i].checks[j],
                states[i].check_seq()[j],
            ),
        forall|j: int|
            0 <= j < states[i].command_seq().len() ==> {
                let built = #[trigger] states_ref(states)[i].commands[j];
                let given = states[i].command_seq()[j];
                built.object == given.object && built.delay == given.delay && !built.was_executed
            },
        match (states_ref(states)[i].timeout, states[i].timeout) {
            (Some(built), Some(given)) => built.time == given.time && same_transition(
                states_ref(states),
                built.transition,
                given.transition,
            ),
            (None, None) => true,
            _ => false,
        },
{
    let built = states_ref(states);
    assert(states[i].resolves_in(states.len() as int));
    assert forall|j: int| 0 <= j < states[i].check_seq().len() implies same_check(
        built,
        #[trigger] built[i].checks[j],
        states[i].check_seq()[j],
    ) by {
        assert(states[i].check_seq()[j].resolves_in(states.len() as int));
    }
}

/// Whether `built` is a transition of the sort of `given` that leads to the
/// state of `graph` whose number is the position that `given` names.
pub open spec fn same_transition(
    graph: Seq<StateView>,
    built: StateTransition,
    given: index::StateTransition,
) -> bool {
    &&& built is Transition <==> given is Transition
    &&& built is Abort <==> given is Abort
    &&& 0 <= built.spec_target().0 < graph.len()
    &&& graph[built.spec_target().0 as int].id == given.target().position()
}

/// Whether `built` has the condition of `given`, and a transition exactly if
/// `given` has one, which then is the same.
pub open spec fn same_check(graph: Seq<StateView>, built: Check, given: index::Check) -> bool {
    &&& built.data == given.data
    &&& match (built.transition, given.transition) {
        (Some(built), Some(given)) => same_transition(graph, built, given),
        (None, None) => true,
        _ => false,
    }
}

} // verus!
