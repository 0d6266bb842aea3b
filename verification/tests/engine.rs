use heapless::Vec as HeaplessVec;
use novafc::config_format::conversions::indices_to_refs;
use novafc::config_format::index;
use novafc::config_format::reference::{Check, Command, State, StateRef, StateTransition, Timeout};
use novafc::config_format::{
    CheckData, CommandKind, CommandValue, Float32, FloatCondition, NativeFlagCondition,
    PyroContinuityCondition, Seconds, Value,
};
use novafc::control::Controls;
use novafc::data_acquisition::{DataWorkspace, DurationBased, SimulatedDataObject};
use novafc::state_machine::traits::Timestamp;
use novafc::StateMachine;

/// Ticks of the simulated clock in a second.
const TICK_RATE: usize = 10;

fn number(value: f32) -> Float32 {
    Float32::from_bits(value.to_bits())
}

fn seconds(value: f32) -> Seconds {
    Seconds::new(number(value))
}

fn constant(value: Value) -> SimulatedDataObject {
    SimulatedDataObject::DurationBased(DurationBased::new(value, value, Timestamp::new(0)))
}

fn workspace(altitude: f32, apogee: bool, pyro1: bool, pyro2: bool, pyro3: bool) -> DataWorkspace {
    DataWorkspace::with_objects(
        constant(Value::F32(number(altitude))),
        constant(Value::Bool(apogee)),
        constant(Value::Bool(pyro1)),
        constant(Value::Bool(pyro2)),
        constant(Value::Bool(pyro3)),
    )
    .unwrap()
}

/// One tick at `tick` ticks of the clock.
fn tick(
    machine: &mut StateMachine,
    tick: usize,
    data: &DataWorkspace,
    controls: &mut Controls,
) -> Option<StateTransition> {
    let now = Timestamp::new(tick);
    let ticks = machine.activation_time().elapsed(now);
    let elapsed = seconds(ticks as f32 / TICK_RATE as f32);
    machine.execute(now, elapsed, data, controls)
}

fn state_with_checks(id: u8, checks: &[Check], timeout: Option<Timeout>) -> State {
    let mut state = State::new(id);
    for check in checks {
        state.checks.push(*check).unwrap();
    }
    state.timeout = timeout;
    state
}

fn state_with_commands(id: u8, commands: &[Command]) -> State {
    let mut state = State::new(id);
    for command in commands {
        state.commands.push(*command).unwrap();
    }
    state
}

#[test]
fn first_satisfied_check_wins() {
    // A is not met, B and C are: B comes first.
    let a = Check::new(
        CheckData::Pyro1Continuity(PyroContinuityCondition(true)),
        Some(StateTransition::Transition(StateRef(3))),
    );
    let b = Check::new(
        CheckData::Pyro2Continuity(PyroContinuityCondition(true)),
        Some(StateTransition::Transition(StateRef(1))),
    );
    let c = Check::new(
        CheckData::Pyro3Continuity(PyroContinuityCondition(true)),
        Some(StateTransition::Transition(StateRef(2))),
    );
    let states = vec![
        state_with_checks(0, &[a, b, c], None),
        State::new(1),
        State::new(2),
        State::new(3),
    ];
    let mut machine = StateMachine::new(states, StateRef(0), Timestamp::new(0)).unwrap();
    let mut controls = Controls::new();
    let data = workspace(0.0, false, false, true, true);

    let taken = tick(&mut machine, 1, &data, &mut controls);
    assert_eq!(taken, Some(StateTransition::Transition(StateRef(1))));
    assert_eq!(machine.current_state().id, 1);
    assert_eq!(machine.activation_time(), Timestamp::new(1));
    assert_eq!(tick(&mut machine, 2, &data, &mut controls), None);
    assert_eq!(machine.current_state().id, 1);
}

#[test]
fn satisfied_check_without_transition_is_passed_over() {
    let inert = Check::new(CheckData::ApogeeFlag(NativeFlagCondition(true)), None);
    let live = Check::new(
        CheckData::Pyro1Continuity(PyroContinuityCondition(false)),
        Some(StateTransition::Abort(StateRef(1))),
    );
    let states = vec![state_with_checks(0, &[inert, live], None), State::new(1)];
    let mut machine = StateMachine::new(states, StateRef(0), Timestamp::new(0)).unwrap();
    let mut controls = Controls::new();

    tick(&mut machine, 1, &workspace(0.0, true, true, false, false), &mut controls);
    assert_eq!(machine.current_state().id, 0);
    assert_eq!(machine.activation_time(), Timestamp::new(0));
    tick(&mut machine, 2, &workspace(0.0, true, false, false, false), &mut controls);
    assert_eq!(machine.current_state().id, 1);
    assert_eq!(machine.activation_time(), Timestamp::new(2));
}

#[test]
fn timeout_fires_once_its_duration_has_passed() {
    let unmet = Check::new(
        CheckData::Pyro1Continuity(PyroContinuityCondition(true)),
        Some(StateTransition::Transition(StateRef(0))),
    );
    let timeout = Timeout::new(seconds(2.0), StateTransition::Transition(StateRef(1)));
    let states = vec![state_with_checks(0, &[unmet], Some(timeout)), State::new(1)];
    let mut machine = StateMachine::new(states, StateRef(0), Timestamp::new(0)).unwrap();
    let mut controls = Controls::new();
    let data = workspace(0.0, false, false, false, false);

    let mut transitions = 0;
    for t in 1..=40 {
        let before = machine.current_state().id;
        tick(&mut machine, t, &data, &mut controls);
        if machine.current_state().id != before {
            transitions += 1;
            assert_eq!(t, 20);
            assert_eq!(machine.activation_time(), Timestamp::new(20));
        }
        if t < 20 {
            assert_eq!(machine.current_state().id, 0);
            assert_eq!(machine.activation_time(), Timestamp::new(0));
        } else {
            assert_eq!(machine.current_state().id, 1);
        }
    }
    assert_eq!(transitions, 1);
    assert_eq!(machine.start_time(), Timestamp::new(0));
}

#[test]
fn command_fires_exactly_once() {
    let beacon = Command::new(CommandValue::Beacon(true), seconds(0.5));
    let states = vec![state_with_commands(0, &[beacon])];
    let mut machine = StateMachine::new(states, StateRef(0), Timestamp::new(0)).unwrap();
    let mut controls = Controls::new();
    let data = workspace(0.0, false, false, false, false);

    for t in 1..=4 {
        tick(&mut machine, t, &data, &mut controls);
        assert!(controls.values(CommandKind::Beacon).is_empty());
        assert!(!machine.current_state().commands.get(0).unwrap().was_executed);
    }
    tick(&mut machine, 5, &data, &mut controls);
    assert_eq!(controls.values(CommandKind::Beacon), &vec![Value::Bool(true)]);
    assert!(machine.current_state().commands.get(0).unwrap().was_executed);
    for t in 6..=400 {
        tick(&mut machine, t, &data, &mut controls);
    }
    assert_eq!(controls.values(CommandKind::Beacon), &vec![Value::Bool(true)]);
    assert!(controls.values(CommandKind::Pyro1).is_empty());
    assert!(controls.values(CommandKind::Pyro2).is_empty());
    assert!(controls.values(CommandKind::Pyro3).is_empty());
    assert!(controls.values(CommandKind::DataRate).is_empty());
}

#[test]
fn all_due_commands_fire_on_one_tick_in_order() {
    let first = Command::new(CommandValue::Pyro1(true), seconds(0.0));
    let second = Command::new(CommandValue::DataRate(3), seconds(1.0));
    let third = Command::new(CommandValue::Pyro1(false), seconds(0.2));
    let states = vec![state_with_commands(0, &[first, second, third])];
    let mut machine = StateMachine::new(states, StateRef(0), Timestamp::new(0)).unwrap();
    let mut controls = Controls::new();
    let data = workspace(0.0, false, false, false, false);

    tick(&mut machine, 3, &data, &mut controls);
    assert_eq!(
        controls.values(CommandKind::Pyro1),
        &vec![Value::Bool(true), Value::Bool(false)]
    );
    assert!(controls.values(CommandKind::DataRate).is_empty());
    tick(&mut machine, 10, &data, &mut controls);
    assert_eq!(
        controls.values(CommandKind::Pyro1),
        &vec![Value::Bool(true), Value::Bool(false)]
    );
    assert_eq!(controls.values(CommandKind::DataRate), &vec![Value::U16(3)]);
}

fn scenario() -> std::vec::Vec<State> {
    let safe = index::State::new(HeaplessVec::new(), HeaplessVec::new(), None);

    let mut poweron_checks = HeaplessVec::new();
    poweron_checks
        .push(index::Check::new(
            CheckData::Pyro1Continuity(PyroContinuityCondition(true)),
            Some(index::StateTransition::Transition(index::StateIndex::new_unchecked(2))),
        ))
        .unwrap();
    let poweron = index::State::new(
        poweron_checks,
        HeaplessVec::new(),
        Some(index::Timeout::new(
            seconds(3.0),
            index::StateTransition::Abort(index::StateIndex::new_unchecked(0)),
        )),
    );

    let mut launch_commands = HeaplessVec::new();
    launch_commands
        .push(index::Command::new(CommandValue::DataRate(16), seconds(4.0)))
        .unwrap();
    let launch = index::State::new(HeaplessVec::new(), launch_commands, None);

    let mut states = HeaplessVec::new();
    states.push(safe).unwrap();
    states.push(poweron).unwrap();
    states.push(launch).unwrap();
    let config = index::ConfigFile {
        default_state: index::StateIndex::new_unchecked(1),
        states,
    };
    assert!(config.is_well_formed());
    indices_to_refs(&config)
}

#[test]
fn scenario_without_continuity_ends_in_safe() {
    let mut machine = StateMachine::new(scenario(), StateRef(1), Timestamp::new(0)).unwrap();
    let mut controls = Controls::new();
    let data = workspace(0.0, false, false, false, false);

    for t in 1..=31 {
        let taken = tick(&mut machine, t, &data, &mut controls);
        if t < 30 {
            assert_eq!(taken, None);
            assert_eq!(machine.current_state().id, 1);
        } else if t == 30 {
            assert_eq!(taken, Some(StateTransition::Abort(StateRef(0))));
        } else {
            assert_eq!(taken, None);
        }
    }
    assert_eq!(machine.current_state().id, 0);
    assert_eq!(machine.activation_time(), Timestamp::new(30));
    assert!(controls.values(CommandKind::DataRate).is_empty());
}

#[test]
fn scenario_with_continuity_launches_and_sets_the_data_rate_once() {
    let mut machine = StateMachine::new(scenario(), StateRef(1), Timestamp::new(0)).unwrap();
    let mut controls = Controls::new();
    let data = workspace(0.0, false, true, false, false);

    tick(&mut machine, 1, &data, &mut controls);
    assert_eq!(machine.current_state().id, 2);
    assert_eq!(machine.activation_time(), Timestamp::new(1));

    for t in 2..=40 {
        tick(&mut machine, t, &data, &mut controls);
        assert!(controls.values(CommandKind::DataRate).is_empty());
    }
    tick(&mut machine, 41, &data, &mut controls);
    assert_eq!(controls.values(CommandKind::DataRate), &vec![Value::U16(16)]);
    for t in 42..=200 {
        tick(&mut machine, t, &data, &mut controls);
    }
    assert_eq!(machine.current_state().id, 2);
    assert_eq!(controls.values(CommandKind::DataRate), &vec![Value::U16(16)]);
}

#[test]
fn altitude_conditions() {
    let above = Check::new(
        CheckData::Altitude(FloatCondition::GreaterThan(number(200.0))),
        Some(StateTransition::Transition(StateRef(1))),
    );
    let below = Check::new(
        CheckData::Altitude(FloatCondition::LessThan(number(-5.0))),
        Some(StateTransition::Abort(StateRef(2))),
    );
    let between = Check::new(
        CheckData::Altitude(FloatCondition::Between {
            upper_bound: number(100.0),
            lower_bound: number(50.0),
        }),
        Some(StateTransition::Transition(StateRef(3))),
    );
    let cases: [(f32, u8); 9] = [
        (200.0, 0),
        (200.5, 1),
        (-5.0, 0),
        (-5.5, 2),
        (49.9, 0),
        (50.0, 3),
        (75.0, 3),
        (100.0, 3),
        (100.1, 0),
    ];
    for (altitude, expected) in cases {
        let states = vec![
            state_with_checks(0, &[above, below, between], None),
            State::new(1),
            State::new(2),
            State::new(3),
        ];
        let mut machine = StateMachine::new(states, StateRef(0), Timestamp::new(0)).unwrap();
        let mut controls = Controls::new();
        tick(
            &mut machine,
            1,
            &workspace(altitude, false, false, false, false),
            &mut controls,
        );
        assert_eq!(machine.current_state().id, expected);
    }
    let states = vec![
        state_with_checks(0, &[above, below, between], None),
        State::new(1),
        State::new(2),
        State::new(3),
    ];
    let mut machine = StateMachine::new(states, StateRef(0), Timestamp::new(0)).unwrap();
    let mut controls = Controls::new();
    tick(
        &mut machine,
        1,
        &workspace(f32::NAN, false, false, false, false),
        &mut controls,
    );
    assert_eq!(machine.current_state().id, 0);
}

#[test]
fn apogee_flag_is_read_as_a_flag() {
    let apogee = Check::new(
        CheckData::ApogeeFlag(NativeFlagCondition(true)),
        Some(StateTransition::Transition(StateRef(1))),
    );
    let states = vec![state_with_checks(0, &[apogee], None), State::new(1)];
    let mut machine = StateMachine::new(states, StateRef(0), Timestamp::new(0)).unwrap();
    let mut controls = Controls::new();
    tick(&mut machine, 1, &workspace(1000.0, false, true, true, true), &mut controls);
    assert_eq!(machine.current_state().id, 0);
    tick(&mut machine, 2, &workspace(0.0, true, false, false, false), &mut controls);
    assert_eq!(machine.current_state().id, 1);
}

#[test]
fn self_loop_resets_the_activation_time() {
    let again = Check::new(
        CheckData::Pyro1Continuity(PyroContinuityCondition(true)),
        Some(StateTransition::Transition(StateRef(0))),
    );
    let states = vec![state_with_checks(0, &[again], None)];
    let mut machine = StateMachine::new(states, StateRef(0), Timestamp::new(0)).unwrap();
    let mut controls = Controls::new();
    tick(&mut machine, 7, &workspace(0.0, false, true, false, false), &mut controls);
    assert_eq!(machine.current_state().id, 0);
    assert_eq!(machine.activation_time(), Timestamp::new(7));
    assert_eq!(machine.start_time(), Timestamp::new(0));
}

#[test]
fn check_wins_over_timeout_and_commands_still_run() {
    let met = Check::new(
        CheckData::Pyro2Continuity(PyroContinuityCondition(false)),
        Some(StateTransition::Transition(StateRef(1))),
    );
    let mut first = State::new(0);
    first.checks.push(met).unwrap();
    first
        .commands
        .push(Command::new(CommandValue::Pyro3(true), seconds(0.0)))
        .unwrap();
    first.timeout = Some(Timeout::new(seconds(0.0), StateTransition::Abort(StateRef(2))));
    let states = vec![first, State::new(1), State::new(2)];
    let mut machine = StateMachine::new(states, StateRef(0), Timestamp::new(0)).unwrap();
    let mut controls = Controls::new();
    tick(&mut machine, 0, &workspace(0.0, false, false, false, false), &mut controls);
    assert_eq!(machine.current_state().id, 1);
    assert_eq!(controls.values(CommandKind::Pyro3), &vec![Value::Bool(true)]);
    assert!(machine.states()[0].commands.get(0).unwrap().was_executed);
}

#[test]
fn machine_needs_a_closed_graph() {
    assert!(StateMachine::new(vec![], StateRef(0), Timestamp::new(0)).is_none());
    assert!(StateMachine::new(vec![State::new(0)], StateRef(1), Timestamp::new(0)).is_none());
    let leaving = Check::new(
        CheckData::ApogeeFlag(NativeFlagCondition(true)),
        Some(StateTransition::Transition(StateRef(1))),
    );
    assert!(StateMachine::new(
        vec![state_with_checks(0, &[leaving], None)],
        StateRef(0),
        Timestamp::new(0)
    )
    .is_none());
    let timeout = Timeout::new(seconds(1.0), StateTransition::Abort(StateRef(5)));
    assert!(StateMachine::new(
        vec![state_with_checks(0, &[], Some(timeout))],
        StateRef(0),
        Timestamp::new(0)
    )
    .is_none());
    let machine = StateMachine::new(vec![State::new(9)], StateRef(0), Timestamp::new(4)).unwrap();
    assert_eq!(machine.current_state().id, 9);
    assert_eq!(machine.start_time(), Timestamp::new(4));
    assert_eq!(machine.activation_time(), Timestamp::new(4));
    assert_eq!(machine.states().len(), 1);
}

#[test]
fn commands_run_again_when_their_state_is_entered_again() {
    let mut pad = State::new(0);
    pad.commands
        .push(Command::new(CommandValue::Beacon(true), seconds(0.2)))
        .unwrap();
    pad.checks
        .push(Check::new(
            CheckData::Pyro1Continuity(PyroContinuityCondition(true)),
            Some(StateTransition::Transition(StateRef(1))),
        ))
        .unwrap();
    let back = Check::new(
        CheckData::Pyro2Continuity(PyroContinuityCondition(true)),
        Some(StateTransition::Abort(StateRef(0))),
    );
    let states = vec![pad, state_with_checks(1, &[back], None)];
    let mut machine = StateMachine::new(states, StateRef(0), Timestamp::new(0)).unwrap();
    let mut controls = Controls::new();
    let stay = workspace(0.0, false, false, false, false);
    let leave = workspace(0.0, false, true, false, false);
    let come_back = workspace(0.0, false, false, true, false);

    for t in 1..=5 {
        tick(&mut machine, t, &stay, &mut controls);
    }
    assert_eq!(controls.values(CommandKind::Beacon), &vec![Value::Bool(true)]);
    tick(&mut machine, 6, &leave, &mut controls);
    assert_eq!(machine.current_state().id, 1);
    assert!(machine.states()[0].commands.get(0).unwrap().was_executed);

    tick(&mut machine, 7, &come_back, &mut controls);
    assert_eq!(machine.current_state().id, 0);
    assert!(!machine.current_state().commands.get(0).unwrap().was_executed);
    assert_eq!(controls.values(CommandKind::Beacon), &vec![Value::Bool(true)]);

    tick(&mut machine, 8, &stay, &mut controls);
    assert_eq!(controls.values(CommandKind::Beacon), &vec![Value::Bool(true)]);
    tick(&mut machine, 9, &stay, &mut controls);
    assert_eq!(
        controls.values(CommandKind::Beacon),
        &vec![Value::Bool(true), Value::Bool(true)]
    );
    for t in 10..=50 {
        tick(&mut machine, t, &stay, &mut controls);
    }
    assert_eq!(
        controls.values(CommandKind::Beacon),
        &vec![Value::Bool(true), Value::Bool(true)]
    );
}

#[test]
fn state_entered_from_itself_starts_over() {
    let mut only = State::new(0);
    only.commands
        .push(Command::new(CommandValue::DataRate(5), seconds(0.0)))
        .unwrap();
    only.checks
        .push(Check::new(
            CheckData::Pyro3Continuity(PyroContinuityCondition(true)),
            Some(StateTransition::Transition(StateRef(0))),
        ))
        .unwrap();
    let mut machine = StateMachine::new(vec![only], StateRef(0), Timestamp::new(0)).unwrap();
    let mut controls = Controls::new();
    let again = workspace(0.0, false, false, false, true);
    let stay = workspace(0.0, false, false, false, false);

    tick(&mut machine, 1, &again, &mut controls);
    assert!(!machine.current_state().commands.get(0).unwrap().was_executed);
    tick(&mut machine, 2, &again, &mut controls);
    assert_eq!(
        controls.values(CommandKind::DataRate),
        &vec![Value::U16(5), Value::U16(5)]
    );
    tick(&mut machine, 3, &stay, &mut controls);
    assert!(machine.current_state().commands.get(0).unwrap().was_executed);
    tick(&mut machine, 4, &stay, &mut controls);
    assert_eq!(
        controls.values(CommandKind::DataRate),
        &vec![Value::U16(5), Value::U16(5), Value::U16(5)]
    );
}
