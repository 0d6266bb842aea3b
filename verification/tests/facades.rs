use novafc::config_format::{CheckKind, CommandKind, CommandValue, Float32, Value};
use novafc::control::{ControlObject, Controls, Dummy};
use novafc::data_acquisition::{DataObject, DataWorkspace, DurationBased, SimulatedDataObject};
use novafc::state_machine::data::{Barometer, Samples};
use novafc::state_machine::traits::{Gpio, GpioRead, GpioWrite, Timestamp};

fn number(value: f32) -> Float32 {
    Float32::from_bits(value.to_bits())
}

#[test]
fn controls_route_each_command_to_its_target() {
    let mut controls = Controls::new();
    for kind in [
        CommandKind::Pyro1,
        CommandKind::Pyro2,
        CommandKind::Pyro3,
        CommandKind::Beacon,
        CommandKind::DataRate,
    ] {
        assert!(controls.values(kind).is_empty());
    }
    controls.set(CommandValue::Pyro2(true));
    controls.set(CommandValue::DataRate(16));
    controls.set(CommandValue::Pyro2(false));
    controls.set(CommandValue::Beacon(true));
    controls.set(CommandValue::Pyro1(true));
    controls.set(CommandValue::Pyro3(false));
    controls.set(CommandValue::DataRate(32));

    assert_eq!(controls.values(CommandKind::Pyro1), &vec![Value::Bool(true)]);
    assert_eq!(
        controls.values(CommandKind::Pyro2),
        &vec![Value::Bool(true), Value::Bool(false)]
    );
    assert_eq!(controls.values(CommandKind::Pyro3), &vec![Value::Bool(false)]);
    assert_eq!(controls.values(CommandKind::Beacon), &vec![Value::Bool(true)]);
    assert_eq!(
        controls.values(CommandKind::DataRate),
        &vec![Value::U16(16), Value::U16(32)]
    );
}

#[test]
fn dummy_remembers_what_it_was_set_to() {
    let mut dummy = Dummy::new("Beacon".to_string());
    assert_eq!(dummy.label(), "Beacon");
    assert!(dummy.values().is_empty());
    dummy.set(Value::Bool(true));
    dummy.set(Value::U16(4));
    assert_eq!(dummy.values(), &vec![Value::Bool(true), Value::U16(4)]);
    assert_eq!(dummy.label(), "Beacon");

    let mut object = ControlObject::Dummy(dummy);
    object.set(Value::Bool(false));
    assert_eq!(
        object.values(),
        &vec![Value::Bool(true), Value::U16(4), Value::Bool(false)]
    );
}

#[test]
fn duration_based_changes_after_its_time() {
    let object = DurationBased::new(Value::Bool(false), Value::Bool(true), Timestamp::new(20));
    assert_eq!(object.read(Timestamp::new(0)), Value::Bool(false));
    assert_eq!(object.read(Timestamp::new(19)), Value::Bool(false));
    assert_eq!(object.read(Timestamp::new(20)), Value::Bool(false));
    assert_eq!(object.read(Timestamp::new(21)), Value::Bool(true));
    assert_eq!(object.read(Timestamp::new(usize::MAX)), Value::Bool(true));

    let simulated = SimulatedDataObject::DurationBased(object);
    assert_eq!(simulated.read(Timestamp::new(20)), Value::Bool(false));
    assert_eq!(simulated.read(Timestamp::new(21)), Value::Bool(true));
    assert!(simulated.is_fit_for(CheckKind::Pyro1Continuity));
    assert!(simulated.is_fit_for(CheckKind::ApogeeFlag));
    assert!(!simulated.is_fit_for(CheckKind::Altitude));
}

#[test]
fn simulated_workspace() {
    let workspace = DataWorkspace::new(Timestamp::new(100), 1024);
    for kind in [
        CheckKind::ApogeeFlag,
        CheckKind::Pyro1Continuity,
        CheckKind::Pyro2Continuity,
        CheckKind::Pyro3Continuity,
    ] {
        assert_eq!(workspace.get_object(kind, Timestamp::new(100)), Value::Bool(false));
        assert_eq!(workspace.get_object(kind, Timestamp::new(2148)), Value::Bool(false));
        assert_eq!(workspace.get_object(kind, Timestamp::new(2149)), Value::Bool(true));
    }
    assert_eq!(
        workspace.get_object(CheckKind::Altitude, Timestamp::new(100)),
        Value::F32(number(0.0))
    );
    assert_eq!(
        workspace.get_object(CheckKind::Altitude, Timestamp::new(5000)),
        Value::F32(number(0.0))
    );
}

#[test]
fn workspace_takes_only_readings_of_the_right_shape() {
    let flag = SimulatedDataObject::DurationBased(DurationBased::new(
        Value::Bool(false),
        Value::Bool(true),
        Timestamp::new(5),
    ));
    let climb = SimulatedDataObject::DurationBased(DurationBased::new(
        Value::F32(number(0.0)),
        Value::F32(number(250.0)),
        Timestamp::new(5),
    ));
    let mixed = SimulatedDataObject::DurationBased(DurationBased::new(
        Value::Bool(false),
        Value::F32(number(1.0)),
        Timestamp::new(5),
    ));
    let rate = SimulatedDataObject::DurationBased(DurationBased::new(
        Value::U16(1),
        Value::U16(2),
        Timestamp::new(5),
    ));

    assert!(DataWorkspace::with_objects(flag, flag, flag, flag, flag).is_none());
    assert!(DataWorkspace::with_objects(climb, climb, flag, flag, flag).is_none());
    assert!(DataWorkspace::with_objects(climb, flag, climb, flag, flag).is_none());
    assert!(DataWorkspace::with_objects(climb, flag, flag, mixed, flag).is_none());
    assert!(DataWorkspace::with_objects(climb, flag, flag, flag, rate).is_none());
    assert!(DataWorkspace::with_objects(mixed, flag, flag, flag, flag).is_none());

    let workspace = DataWorkspace::with_objects(climb, flag, flag, flag, flag).unwrap();
    assert_eq!(
        workspace.get_object(CheckKind::Altitude, Timestamp::new(5)),
        Value::F32(number(0.0))
    );
    assert_eq!(
        workspace.get_object(CheckKind::Altitude, Timestamp::new(6)),
        Value::F32(number(250.0))
    );
    assert_eq!(
        workspace.get_object(CheckKind::Pyro3Continuity, Timestamp::new(6)),
        Value::Bool(true)
    );
}

#[test]
fn timestamps() {
    let start = Timestamp::new(100);
    assert_eq!(start.ticks(), 100);
    assert_eq!(start.try_elapsed(Timestamp::new(130)), Some(30));
    assert_eq!(start.try_elapsed(Timestamp::new(100)), Some(0));
    assert_eq!(start.try_elapsed(Timestamp::new(99)), None);
    assert_eq!(start.elapsed(Timestamp::new(130)), 30);
    assert_eq!(start.elapsed(Timestamp::new(99)), 0);
    assert!(Timestamp::new(101).is_after(start));
    assert!(!start.is_after(start));
    assert!(!Timestamp::new(3).is_after(start));
}

struct Led {
    pin: Gpio,
    level: bool,
}

impl GpioRead for Led {
    fn read(&self) -> bool {
        self.level
    }
}

impl GpioWrite for Led {
    fn write(&mut self, val: bool) {
        self.level = val;
    }
}

#[test]
fn pins_are_for_their_users_to_implement() {
    let mut led = Led {
        pin: Gpio::new(13),
        level: false,
    };
    assert_eq!(led.pin, Gpio(13));
    assert!(!led.read());
    led.write(true);
    assert!(led.read());
}

#[test]
fn samples_hold_the_barometer() {
    let samples = Samples {
        barometer: Barometer {
            altitude: number(120.5),
            temprature: number(21.0),
        },
    };
    assert_eq!(samples.barometer.altitude, number(120.5));
    assert_eq!(samples.barometer.temprature.to_bits(), 21.0f32.to_bits());
}
