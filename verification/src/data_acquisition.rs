//! The data source: where the checks of the state machine read from.

use crate::config_format::{CheckKind, Float32, Value};
use crate::state_machine::traits::Timestamp;
use vstd::prelude::*;

verus! {

/// Something that can be read at any time.
pub trait DataObject {
    /// The value at the time `now`.
    fn read(&self, now: Timestamp) -> Value;
}

/// A source of readings that stands in for a sensor.
#[derive(Copy, Clone, Debug, PartialEq, Eq, Structural)]
pub enum SimulatedDataObject {
    DurationBased(DurationBased),
}

/// A reading that changes once, at a given time.
#[derive(Copy, Clone, Debug, PartialEq, Eq, Structural)]
pub struct DurationBased {
    /// What is read up to and at `transition_at`.
    pub initial: Value,
    /// What is read after `transition_at`.
    pub eventual: Value,
    /// The time after which the reading is `eventual`.
    pub transition_at: Timestamp,
}

impl DurationBased {
    pub open spec fn spec_read(&self, now: Timestamp) -> Value {
        if now@ > self.transition_at@ {
            self.eventual
        } else {
            self.initial
        }
    }

    pub fn new(initial: Value, eventual: Value, transition_at: Timestamp) -> (object: Self)
        ensures
            object == (DurationBased { initial, eventual, transition_at }),
    {
        Self { initial, eventual, transition_at }
    }

    /// The reading at the time `now`.
    pub fn read(&self, now: Timestamp) -> (value: Value)
        ensures
            value == self.spec_read(now),
    {
        if now.is_after(self.transition_at) {
            self.eventual
        } else {
            self.initial
        }
    }
}

impl SimulatedDataObject {
    pub open spec fn spec_read(&self, now: Timestamp) -> Value {
        match self {
            SimulatedDataObject::DurationBased(db) => db.spec_read(now),
        }
    }

    /// Whether every reading is a flag.
    pub open spec fn reads_flags(&self) -> bool {
        match self {
            SimulatedDataObject::DurationBased(db) => db.initial is Bool && db.eventual is Bool,
        }
    }

    /// Whether every reading is a number.
    pub open spec fn reads_numbers(&self) -> bool {
        match self {
            SimulatedDataObject::DurationBased(db) => db.initial is F32 && db.eventual is F32,
        }
    }

    /// Whether the readings have the shape that checks of kind `kind` expect.
    pub open spec fn fits(&self, kind: CheckKind) -> bool {
        if kind.is_numeric() {
            self.reads_numbers()
        } else {
            self.reads_flags()
        }
    }

    /// Whether the readings have the shape that checks of kind `kind` expect.
    pub fn is_fit_for(&self, kind: CheckKind) -> (fit: bool)
        ensures
            fit == self.fits(kind),
    {
        match self {
            SimulatedDataObject::DurationBased(db) => match kind {
                CheckKind::Altitude => matches!(db.initial, Value::F32(_)) && matches!(
                    db.eventual,
                    Value::F32(_)
                ),
                _ => matches!(db.initial, Value::Bool(_)) && matches!(db.eventual, Value::Bool(_)),
            },
        }
    }
}

impl DataObject for SimulatedDataObject {
    fn read(&self, now: Timestamp) -> (value: Value)
        ensures
            value == self.spec_read(now),
    {
        match self {
            Self::DurationBased(db) => db.read(now),
        }
    }
}

/// The latest readings of everything that a check can test. A reading of the
/// altitude is always a number, and every other reading a flag.
#[derive(Debug)]
pub struct DataWorkspace {
    altitude: SimulatedDataObject,
    apogee: SimulatedDataObject,
    pyro1: SimulatedDataObject,
    pyro2: SimulatedDataObject,
    pyro3: SimulatedDataObject,
}

impl DataWorkspace {
    #[verifier::type_invariant]
    spec fn shapes_fit(self) -> bool {
        forall|kind: CheckKind| (#[trigger] self.object(kind)).fits(kind)
    }

    /// The source that readings of kind `kind` come from.
    pub closed spec fn object(&self, kind: CheckKind) -> SimulatedDataObject {
        match kind {
            CheckKind::Altitude => self.altitude,
            CheckKind::ApogeeFlag => self.apogee,
            CheckKind::Pyro1Continuity => self.pyro1,
            CheckKind::Pyro2Continuity => self.pyro2,
            CheckKind::Pyro3Continuity => self.pyro3,
        }
    }

    /// The reading of kind `kind` at the time `now`.
    pub open spec fn reading(&self, kind: CheckKind, now: Timestamp) -> Value {
        self.object(kind).spec_read(now)
    }

    /// A simulated flight that starts at `now`, on a clock of `tick_rate`
    /// ticks per second: the altitude stays at zero, and the apogee flag and
    /// the three continuities are false until two seconds have passed, and
    /// true after that.
    pub fn new(now: Timestamp, tick_rate: u32) -> (workspace: Self)
        requires
            now@ + 2 * tick_rate <= usize::MAX,
        ensures
            workspace.object(CheckKind::Altitude) == SimulatedDataObject::DurationBased(
                DurationBased {
                    initial: Value::F32(Float32(0)),
                    eventual: Value::F32(Float32(0)),
                    transition_at: now,
                },
            ),
            forall|kind: CheckKind|
                !kind.is_numeric() ==> {
                    &&& #[trigger] workspace.object(kind) is DurationBased
                    &&& workspace.object(kind)->0.initial == Value::Bool(false)
                    &&& workspace.object(kind)->0.eventual == Value::Bool(true)
                    &&& workspace.object(kind)->0.transition_at@ == now@ + 2 * tick_rate
                },
    {
        let change = Timestamp::new(now.ticks() + 2 * (tick_rate as usize));

        let altitude = SimulatedDataObject::DurationBased(
            DurationBased::new(
                Value::F32(Float32::from_bits(0)),
                Value::F32(Float32::from_bits(0)),
                now,
            ),
        );

        let apogee = SimulatedDataObject::DurationBased(
            DurationBased::new(Value::Bool(false), Value::Bool(true), change),
        );
        let pyro1 = SimulatedDataObject::DurationBased(
            DurationBased::new(Value::Bool(false), Value::Bool(true), change),
        );
        let pyro2 = SimulatedDataObject::DurationBased(
            DurationBased::new(Value::Bool(false), Value::Bool(true), change),
        );
        let pyro3 = SimulatedDataObject::DurationBased(
            DurationBased::new(Value::Bool(false), Value::Bool(true), change),
        );

        Self { altitude, apogee, pyro1, pyro2, pyro3 }
    }

    /// The sources given, if the altitude reads numbers and all others read
    /// flags; `None` if one of them does not.
    pub fn with_objects(
        altitude: SimulatedDataObject,
        apogee: SimulatedDataObject,
        pyro1: SimulatedDataObject,
        pyro2: SimulatedDataObject,
        pyro3: SimulatedDataObject,
    ) -> (workspace: Option<Self>)
        ensures
            workspace.is_some() <==> altitude.reads_numbers() && apogee.reads_flags()
                && pyro1.reads_flags() && pyro2.reads_flags() && pyro3.reads_flags(),
            workspace matches Some(w) ==> {
                &&& w.object(CheckKind::Altitude) == altitude
                &&& w.object(CheckKind::ApogeeFlag) == apogee
                &&& w.object(CheckKind::Pyro1Continuity) == pyro1
                &&& w.object(CheckKind::Pyro2Continuity) == pyro2
                &&& w.object(CheckKind::Pyro3Continuity) == pyro3
            },
    {
        if altitude.is_fit_for(CheckKind::Altitude) && apogee.is_fit_for(CheckKind::ApogeeFlag)
            && pyro1.is_fit_for(CheckKind::Pyro1Continuity) && pyro2.is_fit_for(
            CheckKind::Pyro2Continuity,
        ) && pyro3.is_fit_for(CheckKind::Pyro3Continuity) {
            Some(Self { altitude, apogee, pyro1, pyro2, pyro3 })
        } else {
            None
        }
    }

    /// The reading of kind `object` at the time `now`: a number for the
    /// altitude, a flag for every other kind.
    pub fn get_object(&self, object: CheckKind, now: Timestamp) -> (value: Value)
        ensures
            value == self.reading(object, now),
            object.is_numeric() ==> value is F32,
            !object.is_numeric() ==> value is Bool,
    {
        proof {
            use_type_invariant(self);
            assert(self.object(object).fits(object));
        }
        match object {
            CheckKind::Altitude => self.altitude.read(now),
            CheckKind::ApogeeFlag => self.apogee.read(now),
            CheckKind::Pyro1Continuity => self.pyro1.read(now),
            CheckKind::Pyro2Continuity => self.pyro2.read(now),
            CheckKind::Pyro3Continuity => self.pyro3.read(now),
        }
    }
}

} // verus!
