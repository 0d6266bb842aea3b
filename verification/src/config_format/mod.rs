use vstd::prelude::*;

pub mod float32;
pub mod conversions;
pub mod frozen;
pub mod index;
pub mod reference;

pub use float32::Float32;

verus! {

/// Upper bound on the number of states in one configuration.
pub const MAX_STATES: usize = 16;

/// Upper bound on the number of checks attached to one state.
pub const MAX_CHECKS_PER_STATE: usize = 3;

/// Upper bound on the number of commands attached to one state.
pub const MAX_COMMANDS_PER_STATE: usize = 3;

/// A duration in seconds: a number that is never NaN, so that any two
/// durations are comparable.
#[derive(Clone, Copy, Debug, PartialEq, Eq, Structural)]
pub struct Seconds(Float32);

impl View for Seconds {
    type V = Float32;

    closed spec fn view(&self) -> Float32 {
        self.0
    }
}

impl Seconds {
    #[verifier::type_invariant]
    spec fn never_nan(self) -> bool {
        !self.0.spec_is_nan()
    }

    pub open spec fn spec_le(self, other: Seconds) -> bool {
        self@.spec_le(other@)
    }

    pub open spec fn spec_ge(self, other: Seconds) -> bool {
        other@.spec_le(self@)
    }

    /// Wraps a number of seconds. A NaN is no duration.
    pub fn new(seconds: Float32) -> (duration: Seconds)
        requires
            !seconds.spec_is_nan(),
        ensures
            duration@ == seconds,
    {
        Seconds(seconds)
    }

    /// The number of seconds.
    pub fn value(self) -> (seconds: Float32)
        ensures
            seconds == self@,
            !seconds.spec_is_nan(),
    {
        proof {
            use_type_invariant(&self);
        }
        self.0
    }

    /// Whether this duration is no longer than `other`.
    #[verifier::when_used_as_spec(spec_le)]
    pub fn le(self, other: Seconds) -> (at_most: bool)
        ensures
            at_most == self.spec_le(other),
    {
        self.0.le(other.0)
    }

    /// Whether this duration is at least as long as `other`.
    #[verifier::when_used_as_spec(spec_ge)]
    pub fn ge(self, other: Seconds) -> (at_least: bool)
        ensures
            at_least == self.spec_ge(other),
    {
        self.0.ge(other.0)
    }
}

/// The expected value of a flag that the flight computer works out itself.
#[derive(Clone, Copy, Debug, PartialEq, Eq, Structural)]
pub struct NativeFlagCondition(pub bool);

impl NativeFlagCondition {
    pub open spec fn spec_is_met_by(self, actual: bool) -> bool {
        self.0 == actual
    }

    /// Whether the flag as read has the expected value.
    #[verifier::when_used_as_spec(spec_is_met_by)]
    pub fn is_met_by(self, actual: bool) -> (met: bool)
        ensures
            met == (self.0 == actual),
    {
        self.0 == actual
    }
}

/// The expected continuity of an igniter circuit.
#[derive(Clone, Copy, Debug, PartialEq, Eq, Structural)]
pub struct PyroContinuityCondition(pub bool);

impl PyroContinuityCondition {
    pub open spec fn spec_is_met_by(self, actual: bool) -> bool {
        self.0 == actual
    }

    /// Whether the continuity as read has the expected value.
    #[verifier::when_used_as_spec(spec_is_met_by)]
    pub fn is_met_by(self, actual: bool) -> (met: bool)
        ensures
            met == (self.0 == actual),
    {
        self.0 == actual
    }
}

/// A condition on a number.
#[derive(Clone, Copy, Debug, PartialEq, Eq, Structural)]
pub enum FloatCondition {
    /// Strictly above the bound.
    GreaterThan(Float32),
    /// Strictly below the bound.
    LessThan(Float32),
    /// Inside the closed interval from `lower_bound` to `upper_bound`.
    Between { upper_bound: Float32, lower_bound: Float32 },
}

impl FloatCondition {
    pub open spec fn spec_is_met_by(self, actual: Float32) -> bool {
        match self {
            FloatCondition::GreaterThan(bound) => actual.spec_gt(bound),
            FloatCondition::LessThan(bound) => actual.spec_lt(bound),
            FloatCondition::Between { upper_bound, lower_bound } => lower_bound.spec_le(actual)
                && actual.spec_le(upper_bound),
        }
    }

    /// Whether `actual` meets the condition. Both ends of `Between` belong to
    /// the interval, and no condition is met by a NaN.
    #[verifier::when_used_as_spec(spec_is_met_by)]
    pub fn is_met_by(self, actual: Float32) -> (met: bool)
        ensures
            met == self.spec_is_met_by(actual),
    {
        match self {
            FloatCondition::GreaterThan(bound) => actual.gt(bound),
            FloatCondition::LessThan(bound) => actual.lt(bound),
            FloatCondition::Between { upper_bound, lower_bound } => lower_bound.le(actual)
                && actual.le(upper_bound),
        }
    }
}

/// What a check tests, and against what.
#[derive(Clone, Copy, Debug, PartialEq, Eq, Structural)]
pub enum CheckData {
    Altitude(FloatCondition),
    ApogeeFlag(NativeFlagCondition),
    Pyro1Continuity(PyroContinuityCondition),
    Pyro2Continuity(PyroContinuityCondition),
    Pyro3Continuity(PyroContinuityCondition),
}

/// The things that a check can read.
#[derive(Clone, Copy, Debug, PartialEq, Eq, Structural)]
pub enum CheckKind {
    Altitude,
    ApogeeFlag,
    Pyro1Continuity,
    Pyro2Continuity,
    Pyro3Continuity,
}

impl CheckKind {
    /// Whether a reading of this kind is a number rather than a flag.
    pub open spec fn is_numeric(self) -> bool {
        self is Altitude
    }
}

impl CheckData {
    pub open spec fn spec_kind(&self) -> CheckKind {
        match *self {
            CheckData::Altitude(_) => CheckKind::Altitude,
            CheckData::ApogeeFlag(_) => CheckKind::ApogeeFlag,
            CheckData::Pyro1Continuity(_) => CheckKind::Pyro1Continuity,
            CheckData::Pyro2Continuity(_) => CheckKind::Pyro2Continuity,
            CheckData::Pyro3Continuity(_) => CheckKind::Pyro3Continuity,
        }
    }

    /// The kind of reading that this check is evaluated on.
    #[verifier::when_used_as_spec(spec_kind)]
    pub fn kind(&self) -> (kind: CheckKind)
        ensures
            kind == self.spec_kind(),
    {
        match self {
            CheckData::Altitude(_) => CheckKind::Altitude,
            CheckData::ApogeeFlag(_) => CheckKind::ApogeeFlag,
            CheckData::Pyro1Continuity(_) => CheckKind::Pyro1Continuity,
            CheckData::Pyro2Continuity(_) => CheckKind::Pyro2Continuity,
            CheckData::Pyro3Continuity(_) => CheckKind::Pyro3Continuity,
        }
    }
}

/// A value that a check reads or that a command sets.
#[derive(Clone, Copy, Debug, PartialEq, Eq, Structural)]
pub enum Value {
    /// On or off.
    Bool(bool),
    /// A number.
    F32(Float32),
    /// A rate selector.
    U16(u16),
}

/// A target of a command together with the value to set it to.
#[derive(Clone, Copy, Debug, PartialEq, Eq, Structural)]
pub enum CommandValue {
    Pyro1(bool),
    Pyro2(bool),
    Pyro3(bool),
    Beacon(bool),
    DataRate(u16),
}

/// A target of a command together with the value to set it to.
pub type CommandObject = CommandValue;

/// A value that a check reads or that a command sets.
pub type ObjectState = Value;

/// The things that a command can act on.
#[derive(Clone, Copy, Debug, PartialEq, Eq, Structural)]
pub enum CommandKind {
    Pyro1,
    Pyro2,
    Pyro3,
    Beacon,
    DataRate,
}

impl CommandValue {
    /// The target of the command.
    pub open spec fn kind(self) -> CommandKind {
        match self {
            CommandValue::Pyro1(_) => CommandKind::Pyro1,
            CommandValue::Pyro2(_) => CommandKind::Pyro2,
            CommandValue::Pyro3(_) => CommandKind::Pyro3,
            CommandValue::Beacon(_) => CommandKind::Beacon,
            CommandValue::DataRate(_) => CommandKind::DataRate,
        }
    }

    pub open spec fn spec_to_value(self) -> Value {
        match self {
            CommandValue::Pyro1(b) => Value::Bool(b),
            CommandValue::Pyro2(b) => Value::Bool(b),
            CommandValue::Pyro3(b) => Value::Bool(b),
            CommandValue::Beacon(b) => Value::Bool(b),
            CommandValue::DataRate(r) => Value::U16(r),
        }
    }

    /// The value of the command, without its target.
    #[verifier::when_used_as_spec(spec_to_value)]
    pub fn to_value(self) -> (value: Value)
        ensures
            value == self.spec_to_value(),
    {
        match self {
            CommandValue::Pyro1(b) => Value::Bool(b),
            CommandValue::Pyro2(b) => Value::Bool(b),
            CommandValue::Pyro3(b) => Value::Bool(b),
            CommandValue::Beacon(b) => Value::Bool(b),
            CommandValue::DataRate(r) => Value::U16(r),
        }
    }
}

impl CommandKind {
    /// Whether a target of this kind takes a value of this shape.
    pub open spec fn accepts(self, state: Value) -> bool {
        match state {
            Value::Bool(_) => self !is DataRate,
            Value::U16(_) => self is DataRate,
            Value::F32(_) => false,
        }
    }

    /// This target set to the flag `val`. The data rate takes no flag.
    pub fn with_bool(self, val: bool) -> (command: CommandValue)
        requires
            self !is DataRate,
        ensures
            command.kind() == self,
            command.spec_to_value() == Value::Bool(val),
    {
        match self {
            CommandKind::Pyro1 => CommandValue::Pyro1(val),
            CommandKind::Pyro2 => CommandValue::Pyro2(val),
            CommandKind::Pyro3 => CommandValue::Pyro3(val),
            CommandKind::Beacon => CommandValue::Beacon(val),
            CommandKind::DataRate => unreached(),
        }
    }

    /// This target set to the rate `val`. Only the data rate takes a rate.
    pub fn with_u16(self, val: u16) -> (command: CommandValue)
        requires
            self is DataRate,
        ensures
            command == CommandValue::DataRate(val),
    {
        CommandValue::DataRate(val)
    }

    /// This target set to `state`, which has to be of the shape that the
    /// target takes.
    pub fn with_state(self, state: Value) -> (command: CommandValue)
        requires
            self.accepts(state),
        ensures
            command.kind() == self,
            command.spec_to_value() == state,
    {
        match state {
            Value::Bool(val) => self.with_bool(val),
            Value::U16(val) => self.with_u16(val),
            Value::F32(_) => unreached(),
        }
    }
}

/// A command value is its target and its value, and nothing else.
pub proof fn lemma_command_value_round_trip(command: CommandValue)
    ensures
        command.kind().accepts(command.spec_to_value()),
        forall|other: CommandValue|
            other.kind() == command.kind() && other.spec_to_value() == command.spec_to_value()
                ==> other == command,
{
}

} // verus!
