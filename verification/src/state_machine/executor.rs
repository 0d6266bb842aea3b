//! The state machine: what happens on each tick of the flight.

use super::traits::Timestamp;
use crate::config_format::frozen::FrozenVec;
use crate::config_format::reference::{check_closed, is_closed, views};
use crate::config_format::reference::{Check, Command, State, StateRef, StateTransition};
use crate::config_format::reference::{StateView, Timeout};
use crate::config_format::{CheckData, CommandValue, Seconds, Value};
use crate::config_format::MAX_COMMANDS_PER_STATE;
use crate::control::{lemma_follows_nothing, lemma_follows_push, Controls};
use crate::data_acquisition::DataWorkspace;
use vstd::prelude::*;

verus! {

/// Whether `command` is run on a tick that comes `elapsed` after its state
/// was entered: it was not run before, and its delay has passed.
pub open spec fn is_due(command: Command, elapsed: Seconds) -> bool {
    !command.was_executed && elapsed.spec_ge(command.delay)
}

/// What becomes of `command` on a tick that comes `elapsed` after its state
/// was entered: it was run if it was run before or is run now.
pub open spec fn after_tick(command: Command, elapsed: Seconds) -> Command {
    Command {
        object: command.object,
        delay: command.delay,
        was_executed: command.was_executed || is_due(command, elapsed),
    }
}

/// What reaches the command sink on a tick: the targets and values of the
/// commands that are due, in the order in which the state lists them.
pub open spec fn fired(commands: Seq<Command>, elapsed: Seconds) -> Seq<CommandValue>
    decreases commands.len(),
{
    if commands.len() == 0 {
        Seq::empty()
    } else {
        let before = fired(commands.drop_last(), elapsed);
        if is_due(commands.last(), elapsed) {
            before.push(commands.last().object)
        } else {
            before
        }
    }
}

/// What becomes of the commands of a state on a tick.
pub open spec fn commands_after_tick(commands: Seq<Command>, elapsed: Seconds) -> Seq<Command> {
    Seq::new(commands.len(), |j: int| after_tick(commands[j], elapsed))
}

/// Whether a reading meets the condition of a check. A flag is compared with
/// the flag that the check expects, the altitude is held against the
/// condition on it. A reading of the wrong shape meets nothing.
pub open spec fn is_satisfied(data: CheckData, value: Value) -> bool {
    match (data, value) {
        (CheckData::ApogeeFlag(expected), Value::Bool(actual)) => expected.spec_is_met_by(actual),
        (CheckData::Altitude(condition), Value::F32(actual)) => condition.spec_is_met_by(actual),
        (CheckData::Pyro1Continuity(expected), Value::Bool(actual)) => expected.spec_is_met_by(
            actual,
        ),
        (CheckData::Pyro2Continuity(expected), Value::Bool(actual)) => expected.spec_is_met_by(
            actual,
        ),
        (CheckData::Pyro3Continuity(expected), Value::Bool(actual)) => expected.spec_is_met_by(
            actual,
        ),
        _ => false,
    }
}

/// The transition that `check` asks for at the time `now`: its own, if it has
/// one and its condition is met by the reading of its kind.
pub open spec fn check_outcome(check: Check, data: DataWorkspace, now: Timestamp) -> Option<
    StateTransition,
> {
    if is_satisfied(check.data, data.reading(check.data.spec_kind(), now)) {
        check.transition
    } else {
        None
    }
}

/// The transition that the checks from position `from` on ask for: that of
/// the first among them that asks for one.
pub open spec fn first_outcome(
    checks: Seq<Check>,
    from: int,
    data: DataWorkspace,
    now: Timestamp,
) -> Option<StateTransition>
    decreases checks.len() - from,
{
    if from < 0 || from >= checks.len() {
        None
    } else {
        match check_outcome(checks[from], data, now) {
            Some(transition) => Some(transition),
            None => first_outcome(checks, from + 1, data, now),
        }
    }
}

/// The transition that a timeout asks for on a tick that comes `elapsed`
/// after the state was entered: its own, once its duration has passed.
pub open spec fn timeout_outcome(timeout: Option<Timeout>, elapsed: Seconds) -> Option<
    StateTransition,
> {
    match timeout {
        Some(timeout) => if elapsed.spec_ge(timeout.time) {
            Some(timeout.transition)
        } else {
            None
        },
        None => None,
    }
}

/// The transition that is made on a tick: that of the first check that asks
/// for one, and that of the timeout if no check does.
pub open spec fn selected(
    state: StateView,
    elapsed: Seconds,
    data: DataWorkspace,
    now: Timestamp,
) -> Option<StateTransition> {
    match first_outcome(state.checks, 0, data, now) {
        Some(transition) => Some(transition),
        None => timeout_outcome(state.timeout, elapsed),
    }
}

/// What becomes of a state on a tick: its commands that were due are run, and
/// nothing else changes.
pub open spec fn state_after_tick(state: StateView, elapsed: Seconds) -> StateView {
    StateView {
        id: state.id,
        checks: state.checks,
        commands: commands_after_tick(state.commands, elapsed),
        timeout: state.timeout,
    }
}

/// What becomes of a state when it is entered: none of its commands counts as
/// run any more, so that each is run once more while the state lasts.
pub open spec fn state_on_entry(state: StateView) -> StateView {
    StateView {
        id: state.id,
        checks: state.checks,
        commands: Seq::new(
            state.commands.len(),
            |j: int|
                Command {
                    object: state.commands[j].object,
                    delay: state.commands[j].delay,
                    was_executed: false,
                },
        ),
        timeout: state.timeout,
    }
}

/// What becomes of the graph on a tick in the state at `current` on which the
/// transition `taken` is made: the commands of the current state that were due
/// are run, then the target of the transition is entered.
pub open spec fn graph_after_tick(
    graph: Seq<StateView>,
    current: int,
    elapsed: Seconds,
    taken: Option<StateTransition>,
) -> Seq<StateView> {
    let ticked = graph.update(current, state_after_tick(graph[current], elapsed));
    match taken {
        Some(transition) => {
            let target = transition.spec_target().0 as int;
            ticked.update(target, state_on_entry(ticked[target]))
        },
        None => ticked,
    }
}

/// Runs the flight: holds the graph of states, the state that the flight is
/// in, and the time at which it entered that state.
pub struct StateMachine {
    states: Vec<State>,
    current_state: StateRef,
    start_time: Timestamp,
    /// The time at which the current state was entered.
    last_transition_time: Timestamp,
}

impl StateMachine {
    #[verifier::type_invariant]
    spec fn stays_inside(self) -> bool {
        &&& is_closed(views(self.states@))
        &&& self.current_state.0 < self.states@.len()
    }

    /// The states of the graph, with what has become of their commands.
    pub closed spec fn graph(&self) -> Seq<StateView> {
        views(self.states@)
    }

    /// The state that the flight is in.
    pub closed spec fn current(&self) -> StateRef {
        self.current_state
    }

    /// The state that the flight is in, as plain values.
    pub open spec fn current_view(&self) -> StateView {
        self.graph()[self.current().0 as int]
    }

    /// The time at which the machine was made.
    pub closed spec fn started(&self) -> Timestamp {
        self.start_time
    }

    /// The time at which the current state was entered.
    pub closed spec fn activated(&self) -> Timestamp {
        self.last_transition_time
    }

    /// A machine on the graph `states` that is in the state `begin` since
    /// `now`. There is none if `begin` is no state of the graph, or if a
    /// transition of the graph leads out of it.
    pub fn new(states: Vec<State>, begin: StateRef, now: Timestamp) -> (machine: Option<Self>)
        ensures
            machine.is_some() <==> begin.0 < states@.len() && is_closed(views(states@)),
            machine matches Some(m) ==> {
                &&& m.graph() == views(states@)
                &&& m.current() == begin
                &&& m.started() == now
                &&& m.activated() == now
            },
    {
        if begin.0 < states.len() && check_closed(states.as_slice()) {
            Some(
                Self { states, current_state: begin, start_time: now, last_transition_time: now },
            )
        } else {
            None
        }
    }

    /// The state that the flight is in.
    pub fn current_state(&self) -> (state: &State)
        ensures
            self.current().0 < self.graph().len(),
            state@ == self.current_view(),
    {
        proof {
            use_type_invariant(self);
        }
        &self.states[self.current_state.0]
    }

    /// The states of the graph.
    pub fn states(&self) -> (states: &Vec<State>)
        ensures
            views(states@) == self.graph(),
            is_closed(self.graph()),
            self.current().0 < self.graph().len(),
    {
        proof {
            use_type_invariant(self);
        }
        &self.states
    }

    /// The time at which the machine was made.
    pub fn start_time(&self) -> (time: Timestamp)
        ensures
            time == self.started(),
    {
        self.start_time
    }

    /// The time at which the current state was entered.
    pub fn activation_time(&self) -> (time: Timestamp)
        ensures
            time == self.activated(),
    {
        self.last_transition_time
    }

    /// One tick of the flight, at the time `now`, which comes `elapsed` after
    /// the current state was entered. Returns the transition that was made, if
    /// one was.
    ///
    /// The commands of the current state that are due reach `controls`, in
    /// their order, and count as run for as long as the state lasts. Then the
    /// checks of the state are evaluated in their order on the readings of
    /// `data_workspace`. The first that is met and has a transition decides:
    /// the machine enters the target of the transition, at the time `now`. If no
    /// check decides and the timeout of the state has passed, the machine
    /// follows the transition of the timeout in the same way. Else it stays in
    /// its state, which it entered when it did. A state that is entered has all
    /// its commands still to run, also when it was entered before, and when it
    /// is entered from itself.
    pub fn execute(
        &mut self,
        now: Timestamp,
        elapsed: Seconds,
        data_workspace: &DataWorkspace,
        controls: &mut Controls,
    ) -> (taken: Option<StateTransition>)
        ensures
            old(self).current().0 < old(self).graph().len(),
            taken == selected(old(self).current_view(), elapsed, *data_workspace, now),
            final(controls).follows(
                old(controls),
                fired(old(self).current_view().commands, elapsed),
            ),
            final(self).graph() == graph_after_tick(
                old(self).graph(),
                old(self).current().0 as int,
                elapsed,
                taken,
            ),
            final(self).started() == old(self).started(),
            final(self).current() == match taken {
                Some(transition) => transition.spec_target(),
                None => old(self).current(),
            },
            final(self).activated() == match taken {
                Some(_) => now,
                None => old(self).activated(),
            },
            final(self).current().0 < final(self).graph().len(),
    {
        let next = self.execute_state(now, elapsed, data_workspace, controls);
        if let Some(transition) = next {
            self.transition(transition, now);
        }
        next
    }

    /// Runs the commands and the checks of the current state, and returns the
    /// transition to make, if there is one.
    #[verifier::loop_isolation(false)]
    fn execute_state(
        &mut self,
        now: Timestamp,
        elapsed: Seconds,
        data_workspace: &DataWorkspace,
        controls: &mut Controls,
    ) -> (next: Option<StateTransition>)
        ensures
            final(controls).follows(
                old(controls),
                fired(old(self).current_view().commands, elapsed),
            ),
            old(self).current().0 < old(self).graph().len(),
            final(self).graph() == old(self).graph().update(
                old(self).current().0 as int,
                state_after_tick(old(self).current_view(), elapsed),
            ),
            final(self).started() == old(self).started(),
            final(self).current() == old(self).current(),
            final(self).activated() == old(self).activated(),
            next == selected(old(self).current_view(), elapsed, *data_workspace, now),
            next matches Some(transition) ==> transition.spec_target().0 < old(self).graph().len(),
    {
        proof {
            use_type_invariant(&*self);
        }
        let current = self.current_state.0;
        let ghost graph = views(self.states@);
        let ghost state = graph[current as int];
        let ghost commands = state.commands;
        assert(state.resolves_in(graph.len() as int));

        // Execute commands
        let count = self.states[current].commands.len();
        let mut marked: FrozenVec<Command, MAX_COMMANDS_PER_STATE> = FrozenVec::new();
        let mut j: usize = 0;
        proof {
            assert(commands.take(0) =~= Seq::<Command>::empty());
            lemma_follows_nothing(controls);
        }
        while j < count
            invariant
                j <= count <= MAX_COMMANDS_PER_STATE,
                current < self.states@.len(),
                self.states@[current as int].commands@ == commands,
                count == commands.len(),
                marked@.len() == j,
                forall|k: int|
                    0 <= k < j ==> #[trigger] marked@[k] == after_tick(commands[k], elapsed),
                controls.follows(old(controls), fired(commands.take(j as int), elapsed)),
            decreases count - j,
        {
            let command = *self.states[current].commands.get_unchecked(j);
            let ghost before = *controls;
            let ran = Self::execute_command(command, elapsed, controls);
            marked.push_unchecked(ran);
            proof {
                let sooner = commands.take(j as int);
                let later = commands.take(j + 1);
                assert(later.drop_last() =~= sooner);
                assert(later.last() == command);
                if is_due(command, elapsed) {
                    lemma_follows_push(
                        old(controls),
                        &before,
                        controls,
                        fired(sooner, elapsed),
                        command.object,
                    );
                }
            }
            j += 1;
        }
        proof {
            assert(commands.take(count as int) =~= commands);
            assert(marked@ =~= commands_after_tick(commands, elapsed));
        }
        replace_commands(&mut self.states, current, marked);
        proof {
            let after = views(self.states@);
            assert(after =~= graph.update(current as int, state_after_tick(state, elapsed)));
            lemma_tick_keeps_closed(graph, current as int, elapsed);
        }

        // Execute checks
        let count = self.states[current].checks.len();
        let mut j: usize = 0;
        while j < count
            invariant
                j <= count,
                current < self.states@.len(),
                self.states@[current as int].checks@ == state.checks,
                count == state.checks.len(),
                state.resolves_in(graph.len() as int),
                first_outcome(state.checks, 0, *data_workspace, now) == first_outcome(
                    state.checks,
                    j as int,
                    *data_workspace,
                    now,
                ),
            decreases count - j,
        {
            let check = self.states[current].checks.get_unchecked(j);
            if let Some(transition) = Self::execute_check(check, now, data_workspace) {
                assert(state.checks[j as int].resolves_in(graph.len() as int));
                return Some(transition);
            }
            j += 1;
        }

        // Check for timeout
        if let Some(timeout) = &self.states[current].timeout {
            // Checks if the state has timed out
            if elapsed.ge(timeout.time) {
                Some(timeout.transition)
            } else {
                None
            }
        } else {
            None
        }
    }

    /// Runs `command` if it is due, and returns what has become of it.
    fn execute_command(command: Command, elapsed: Seconds, controls: &mut Controls) -> (ran:
        Command)
        ensures
            ran == after_tick(command, elapsed),
            is_due(command, elapsed) ==> final(controls).follows(
                old(controls),
                seq![command.object],
            ),
            !is_due(command, elapsed) ==> *final(controls) == *old(controls),
    {
        if !command.was_executed {
            if elapsed.ge(command.delay) {
                controls.set(command.object);
                return Command {
                    object: command.object,
                    delay: command.delay,
                    was_executed: true,
                };
            }
        }
        command
    }

    /// Evaluates `check` on the reading of its kind, and returns the
    /// transition that it asks for, if it asks for one.
    fn execute_check(check: &Check, now: Timestamp, data_workspace: &DataWorkspace) -> (next:
        Option<StateTransition>)
        ensures
            next == check_outcome(*check, *data_workspace, now),
    {
        let value = data_workspace.get_object(check.data.kind(), now);

        let satisfied = match (check.data, value) {
            (CheckData::ApogeeFlag(expected), Value::Bool(actual)) => expected.is_met_by(actual),
            (CheckData::Altitude(condition), Value::F32(actual)) => condition.is_met_by(actual),
            (CheckData::Pyro1Continuity(expected), Value::Bool(actual)) => expected.is_met_by(
                actual,
            ),
            (CheckData::Pyro2Continuity(expected), Value::Bool(actual)) => expected.is_met_by(
                actual,
            ),
            (CheckData::Pyro3Continuity(expected), Value::Bool(actual)) => expected.is_met_by(
                actual,
            ),
            // The data workspace reads a number for the altitude and a flag
            // for everything else.
            _ => unreached(),
        };

        if satisfied {
            check.transition
        } else {
            None
        }
    }

    /// Enters the target of `transition` at the time `now`.
    fn transition(&mut self, transition: StateTransition, now: Timestamp)
        requires
            transition.spec_target().0 < old(self).graph().len(),
        ensures
            final(self).graph() == old(self).graph().update(
                transition.spec_target().0 as int,
                state_on_entry(old(self).graph()[transition.spec_target().0 as int]),
            ),
            final(self).started() == old(self).started(),
            final(self).current() == transition.spec_target(),
            final(self).activated() == now,
    {
        proof {
            use_type_invariant(&*self);
        }
        let new_state = match transition {
            StateTransition::Abort(state) => state,
            StateTransition::Transition(state) => state,
        };
        let ghost graph = views(self.states@);

        // The commands of the new state are all to run again
        let count = self.states[new_state.0].commands.len();
        let mut fresh: FrozenVec<Command, MAX_COMMANDS_PER_STATE> = FrozenVec::new();
        let mut j: usize = 0;
        while j < count
            invariant
                j <= count <= MAX_COMMANDS_PER_STATE,
                new_state.0 < self.states@.len(),
                views(self.states@) == graph,
                count == graph[new_state.0 as int].commands.len(),
                fresh@.len() == j,
                forall|k: int|
                    0 <= k < j ==> #[trigger] fresh@[k] == state_on_entry(
                        graph[new_state.0 as int],
                    ).commands[k],
            decreases count - j,
        {
            let command = self.states[new_state.0].commands.get_unchecked(j);
            assert(views(self.states@)[new_state.0 as int] == self.states@[new_state.0 as int]@);
            fresh.push_unchecked(Command::new(command.object, command.delay));
            j += 1;
        }
        proof {
            assert(views(self.states@)[new_state.0 as int] == self.states@[new_state.0 as int]@);
            assert(fresh@ =~= state_on_entry(graph[new_state.0 as int]).commands);
        }
        replace_commands(&mut self.states, new_state.0, fresh);
        proof {
            assert(views(self.states@) =~= graph.update(
                new_state.0 as int,
                state_on_entry(graph[new_state.0 as int]),
            ));
        }

        // Set the new state and reset the state time
        self.current_state = new_state;
        self.last_transition_time = now;
    }
}

/// Puts `commands` in the place of the commands of the state at `at`.
fn replace_commands(
    states: &mut Vec<State>,
    at: usize,
    commands: FrozenVec<Command, MAX_COMMANDS_PER_STATE>,
)
    requires
        at < old(states)@.len(),
        is_closed(views(old(states)@)),
    ensures
        is_closed(views(final(states)@)),
        final(states)@.len() == old(states)@.len(),
        forall|i: int|
            0 <= i < old(states)@.len() && i != at ==> final(states)@[i] == old(states)@[i],
        final(states)@[at as int]@ == (StateView {
            id: old(states)@[at as int].id,
            checks: old(states)@[at as int].checks@,
            commands: commands@,
            timeout: old(states)@[at as int].timeout,
        }),
    no_unwind
{
    states[at].commands = commands;
    proof {
        let before = views(old(states)@);
        let after = views(states@);
        assert forall|i: int| 0 <= i < after.len() implies (#[trigger] after[i]).resolves_in(
            after.len() as int,
        ) by {
            assert(before[i].resolves_in(before.len() as int));
            assert(before[i] == old(states)@[i]@);
            assert(after[i] == states@[i]@);
            assert(after[i].checks == before[i].checks);
            assert(after[i].timeout == before[i].timeout);
        }
    }
}

/// Among checks that are met, the first with a transition decides: the
/// checks after it, met or not, change nothing, and neither does the timeout.
pub proof fn lemma_first_check_decides(
    state: StateView,
    elapsed: Seconds,
    data: DataWorkspace,
    now: Timestamp,
    at: int,
)
    requires
        0 <= at < state.checks.len(),
        check_outcome(state.checks[at], data, now) is Some,
        forall|k: int| 0 <= k < at ==> check_outcome(#[trigger] state.checks[k], data, now) is None,
    ensures
        selected(state, elapsed, data, now) == check_outcome(state.checks[at], data, now),
{
    lemma_first_outcome_skips(state.checks, 0, at, data, now);
}

/// Checks that ask for nothing are passed over.
pub proof fn lemma_first_outcome_skips(
    checks: Seq<Check>,
    from: int,
    to: int,
    data: DataWorkspace,
    now: Timestamp,
)
    requires
        0 <= from <= to <= checks.len(),
        forall|k: int| from <= k < to ==> check_outcome(#[trigger] checks[k], data, now) is None,
    ensures
        first_outcome(checks, from, data, now) == first_outcome(checks, to, data, now),
    decreases to - from,
{
    if from < to {
        lemma_first_outcome_skips(checks, from + 1, to, data, now);
    }
}

/// Where no check asks for a transition the timeout decides: the machine
/// stays until the duration of the timeout has passed, and follows the
/// transition of the timeout from then on. A state without a timeout is never
/// left that way.
pub proof fn lemma_timeout_decides(
    state: StateView,
    elapsed: Seconds,
    data: DataWorkspace,
    now: Timestamp,
)
    requires
        forall|k: int|
            0 <= k < state.checks.len() ==> check_outcome(#[trigger] state.checks[k], data, now)
                is None,
    ensures
        selected(state, elapsed, data, now) == timeout_outcome(state.timeout, elapsed),
        state.timeout is None ==> selected(state, elapsed, data, now) is None,
        state.timeout matches Some(timeout) ==> selected(state, elapsed, data, now) == if elapsed@
            .spec_ge(timeout.time@) {
            Some(timeout.transition)
        } else {
            None::<StateTransition>
        },
{
    lemma_first_outcome_skips(state.checks, 0, state.checks.len() as int, data, now);
}

/// While its state lasts a command is run once: the tick on which it is due
/// marks it, a command that is marked is never due and stays marked, and a
/// command that is neither stays as it is.
pub proof fn lemma_command_runs_once(command: Command, elapsed: Seconds, later: Seconds)
    ensures
        is_due(command, elapsed) ==> after_tick(command, elapsed).was_executed,
        command.was_executed ==> !is_due(command, elapsed),
        !is_due(after_tick(command, elapsed), elapsed),
        is_due(command, elapsed) ==> !is_due(after_tick(command, elapsed), later),
        !is_due(command, elapsed) ==> after_tick(command, elapsed) == command,
        after_tick(command, elapsed).was_executed ==> after_tick(
            after_tick(command, elapsed),
            later,
        ) == after_tick(command, elapsed),
{
}

/// How often `command` is run on ticks that come `ticks[0]`, `ticks[1]` and so
/// on after its state was entered, while the state lasts.
pub open spec fn times_run(command: Command, ticks: Seq<Seconds>) -> nat
    decreases ticks.len(),
{
    if ticks.len() == 0 {
        0
    } else {
        let now: nat = if is_due(command, ticks[0]) {
            1
        } else {
            0
        };
        now + times_run(after_tick(command, ticks[0]), ticks.skip(1))
    }
}

/// However many ticks come while its state lasts, a command is run once if
/// its delay has passed on one of them, and not at all if it has passed on
/// none. A command that was run before is not run again.
pub proof fn lemma_runs_once_while_state_lasts(command: Command, ticks: Seq<Seconds>)
    ensures
        times_run(command, ticks) <= 1,
        command.was_executed ==> times_run(command, ticks) == 0,
        !command.was_executed ==> (times_run(command, ticks) == 1 <==> exists|i: int|
            0 <= i < ticks.len() && (#[trigger] ticks[i]).spec_ge(command.delay)),
    decreases ticks.len(),
{
    if ticks.len() > 0 {
        let rest = ticks.skip(1);
        lemma_runs_once_while_state_lasts(after_tick(command, ticks[0]), rest);
        if !command.was_executed {
            if ticks[0].spec_ge(command.delay) {
                assert(times_run(command, ticks) == 1);
            } else {
                assert(after_tick(command, ticks[0]) == command);
                if exists|i: int| 0 <= i < rest.len() && (#[trigger] rest[i]).spec_ge(command.delay) {
                    let i = choose|i: int|
                        0 <= i < rest.len() && (#[trigger] rest[i]).spec_ge(command.delay);
                    assert(ticks[i + 1] == rest[i]);
                }
                if exists|i: int|
                    0 <= i < ticks.len() && (#[trigger] ticks[i]).spec_ge(command.delay) {
                    let i = choose|i: int|
                        0 <= i < ticks.len() && (#[trigger] ticks[i]).spec_ge(command.delay);
                    assert(rest[i - 1] == ticks[i]);
                }
            }
        }
    }
}

/// What reaches the sink on a tick are the commands that are due, each once
/// and in the order of the state; on a second tick at the same time nothing
/// reaches it.
pub proof fn lemma_fired_once(commands: Seq<Command>, elapsed: Seconds)
    ensures
        fired(commands, elapsed).len() <= commands.len(),
        (forall|j: int| 0 <= j < commands.len() ==> !is_due(#[trigger] commands[j], elapsed))
            ==> fired(commands, elapsed) == Seq::<CommandValue>::empty(),
        (forall|j: int| 0 <= j < commands.len() ==> is_due(#[trigger] commands[j], elapsed))
            ==> fired(commands, elapsed) == Seq::new(commands.len(), |j: int| commands[j].object),
        fired(commands_after_tick(commands, elapsed), elapsed) == Seq::<CommandValue>::empty(),
    decreases commands.len(),
{
    if commands.len() > 0 {
        let front = commands.drop_last();
        lemma_fired_once(front, elapsed);
        if forall|j: int| 0 <= j < commands.len() ==> is_due(#[trigger] commands[j], elapsed) {
            assert forall|j: int| 0 <= j < front.len() implies is_due(
                #[trigger] front[j],
                elapsed,
            ) by {
                assert(front[j] == commands[j]);
            }
            assert(fired(commands, elapsed) =~= Seq::new(
                commands.len(),
                |j: int| commands[j].object,
            ));
        }
        if forall|j: int| 0 <= j < commands.len() ==> !is_due(#[trigger] commands[j], elapsed) {
            assert forall|j: int| 0 <= j < front.len() implies !is_due(
                #[trigger] front[j],
                elapsed,
            ) by {
                assert(front[j] == commands[j]);
            }
        }
        let marked = commands_after_tick(commands, elapsed);
        assert(marked.drop_last() =~= commands_after_tick(front, elapsed));
    } else {
        assert(fired(commands, elapsed) =~= Seq::new(
            commands.len(),
            |j: int| commands[j].object,
        ));
    }
}

/// A state that is entered has all its commands still to run, whatever was
/// run before, and is the state that it was in everything else.
pub proof fn lemma_entry_starts_over(state: StateView, elapsed: Seconds)
    ensures
        state_on_entry(state).id == state.id,
        state_on_entry(state).checks == state.checks,
        state_on_entry(state).timeout == state.timeout,
        state_on_entry(state).commands.len() == state.commands.len(),
        forall|j: int|
            0 <= j < state.commands.len() ==> {
                let command = #[trigger] state_on_entry(state).commands[j];
                &&& command.object == state.commands[j].object
                &&& command.delay == state.commands[j].delay
                &&& !command.was_executed
                &&& is_due(command, elapsed) == elapsed.spec_ge(command.delay)
            },
        state_on_entry(state_after_tick(state, elapsed)) == state_on_entry(state),
{
    assert(state_on_entry(state_after_tick(state, elapsed)).commands =~= state_on_entry(
        state,
    ).commands);
}

/// A tick changes no check and no timeout, so a graph that was closed stays
/// closed.
pub proof fn lemma_tick_keeps_closed(graph: Seq<StateView>, current: int, elapsed: Seconds)
    requires
        is_closed(graph),
        0 <= current < graph.len(),
    ensures
        is_closed(graph.update(current, state_after_tick(graph[current], elapsed))),
{
    let after = graph.update(current, state_after_tick(graph[current], elapsed));
    assert forall|i: int| 0 <= i < after.len() implies (#[trigger] after[i]).resolves_in(
        after.len() as int,
    ) by {
        assert(graph[i].resolves_in(graph.len() as int));
    }
}

} // verus!
