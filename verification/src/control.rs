//! The command sink: where the commands of the state machine end up.

use crate::config_format::{CommandKind, CommandValue, Value};
use vstd::prelude::*;

verus! {

/// The values among those of `commands` that go to the target `kind`, in the
/// order of `commands`.
pub open spec fn values_for(kind: CommandKind, commands: Seq<CommandValue>) -> Seq<Value>
    decreases commands.len(),
{
    if commands.len() == 0 {
        Seq::empty()
    } else {
        let before = values_for(kind, commands.drop_last());
        if commands.last().kind() == kind {
            before.push(commands.last().spec_to_value())
        } else {
            before
        }
    }
}

/// An effector that does nothing but remember what it was set to.
#[derive(Debug)]
pub struct Dummy {
    name: String,
    values: Vec<Value>,
}

impl Dummy {
    /// The name that the effector was made with.
    pub closed spec fn name(&self) -> Seq<char> {
        self.name@
    }

    /// The values that the effector was set to, first to last.
    pub closed spec fn history(&self) -> Seq<Value> {
        self.values@
    }

    /// An effector that was not set yet.
    pub fn new(name: String) -> (dummy: Self)
        ensures
            dummy.name() == name@,
            dummy.history() == Seq::<Value>::empty(),
    {
        Self { name, values: Vec::new() }
    }

    /// Sets the effector to `state`.
    pub fn set(&mut self, state: Value)
        ensures
            final(self).name() == old(self).name(),
            final(self).history() == old(self).history().push(state),
    {
        self.values.push(state);
    }

    /// The name that the effector was made with.
    pub fn label(&self) -> (name: &String)
        ensures
            name@ == self.name(),
    {
        &self.name
    }

    /// The values that the effector was set to, first to last.
    pub fn values(&self) -> (values: &Vec<Value>)
        ensures
            values@ == self.history(),
    {
        &self.values
    }
}

/// One effector of the flight computer.
#[derive(Debug)]
pub enum ControlObject {
    Dummy(Dummy),
}

impl ControlObject {
    /// The name of the effector.
    pub open spec fn name(&self) -> Seq<char> {
        match self {
            ControlObject::Dummy(d) => d.name(),
        }
    }

    /// The values that the effector was set to, first to last.
    pub open spec fn history(&self) -> Seq<Value> {
        match self {
            ControlObject::Dummy(d) => d.history(),
        }
    }

    /// Sets the effector to `state`.
    pub fn set(&mut self, state: Value)
        ensures
            final(self).name() == old(self).name(),
            final(self).history() == old(self).history().push(state),
    {
        match self {
            ControlObject::Dummy(d) => d.set(state),
        }
    }

    /// The values that the effector was set to, first to last.
    pub fn values(&self) -> (values: &Vec<Value>)
        ensures
            values@ == self.history(),
    {
        match self {
            ControlObject::Dummy(d) => d.values(),
        }
    }
}

/// The effectors of the flight computer, one for each target of a command.
#[derive(Debug)]
pub struct Controls {
    pyro1: ControlObject,
    pyro2: ControlObject,
    pyro3: ControlObject,
    beacon: ControlObject,
    data_rate: ControlObject,
}

impl Controls {
    /// The effector that commands to `kind` go to.
    pub closed spec fn object(&self, kind: CommandKind) -> ControlObject {
        match kind {
            CommandKind::Pyro1 => self.pyro1,
            CommandKind::Pyro2 => self.pyro2,
            CommandKind::Pyro3 => self.pyro3,
            CommandKind::Beacon => self.beacon,
            CommandKind::DataRate => self.data_rate,
        }
    }

    /// The values that the target `kind` was set to, first to last.
    pub open spec fn history(&self, kind: CommandKind) -> Seq<Value> {
        self.object(kind).history()
    }

    /// Whether this is what `before` becomes when `commands` reach it one
    /// after the other: each target was set to the values of the commands to
    /// it, in their order, and no effector changed its name.
    pub open spec fn follows(&self, before: &Controls, commands: Seq<CommandValue>) -> bool {
        forall|kind: CommandKind|
            #![trigger self.object(kind)]
            {
                &&& self.object(kind).name() == before.object(kind).name()
                &&& self.history(kind) == before.history(kind) + values_for(kind, commands)
            }
    }

    /// Five effectors that were not set yet, named after their targets.
    pub fn new() -> (controls: Self)
        ensures
            controls.object(CommandKind::Pyro1).name() == "Pyro1"@,
            controls.object(CommandKind::Pyro2).name() == "Pyro2"@,
            controls.object(CommandKind::Pyro3).name() == "Pyro3"@,
            controls.object(CommandKind::Beacon).name() == "Beacon"@,
            controls.object(CommandKind::DataRate).name() == "DataRate"@,
            forall|kind: CommandKind| #[trigger] controls.history(kind) == Seq::<Value>::empty(),
    {
        let pyro1 = ControlObject::Dummy(Dummy::new("Pyro1".to_owned()));
        let pyro2 = ControlObject::Dummy(Dummy::new("Pyro2".to_owned()));
        let pyro3 = ControlObject::Dummy(Dummy::new("Pyro3".to_owned()));

        let beacon = ControlObject::Dummy(Dummy::new("Beacon".to_owned()));
        let data_rate = ControlObject::Dummy(Dummy::new("DataRate".to_owned()));

        Self { pyro1, pyro2, pyro3, beacon, data_rate }
    }

    /// Sets the target of `object` to its value, and leaves the other targets
    /// as they are.
    pub fn set(&mut self, object: CommandValue)
        ensures
            final(self).follows(old(self), seq![object]),
            final(self).history(object.kind()) == old(self).history(object.kind()).push(
                object.spec_to_value(),
            ),
            forall|kind: CommandKind|
                kind != object.kind() ==> #[trigger] final(self).history(kind) == old(self).history(
                    kind,
                ),
    {
        let state = object.to_value();
        proof {
            lemma_values_for_one(object);
        }
        match object {
            CommandValue::Pyro1(_) => self.pyro1.set(state),
            CommandValue::Pyro2(_) => self.pyro2.set(state),
            CommandValue::Pyro3(_) => self.pyro3.set(state),
            CommandValue::Beacon(_) => self.beacon.set(state),
            CommandValue::DataRate(_) => self.data_rate.set(state),
        }
        proof {
            assert forall|kind: CommandKind| #![trigger self.object(kind)] {
                &&& self.object(kind).name() == old(self).object(kind).name()
                &&& self.history(kind) == old(self).history(kind) + values_for(kind, seq![object])
            } by {
                let before = old(self).history(kind);
                if kind == object.kind() {
                    assert(before + seq![state] =~= before.push(state));
                } else {
                    assert(before + Seq::<Value>::empty() =~= before);
                }
            }
        }
    }

    /// The values that the target `kind` was set to, first to last.
    pub fn values(&self, kind: CommandKind) -> (values: &Vec<Value>)
        ensures
            values@ == self.history(kind),
    {
        match kind {
            CommandKind::Pyro1 => self.pyro1.values(),
            CommandKind::Pyro2 => self.pyro2.values(),
            CommandKind::Pyro3 => self.pyro3.values(),
            CommandKind::Beacon => self.beacon.values(),
            CommandKind::DataRate => self.data_rate.values(),
        }
    }
}

/// One command goes to its own target and to no other.
pub proof fn lemma_values_for_one(command: CommandValue)
    ensures
        values_for(command.kind(), seq![command]) == seq![command.spec_to_value()],
        forall|kind: CommandKind|
            kind != command.kind() ==> #[trigger] values_for(kind, seq![command]) == Seq::<
                Value,
            >::empty(),
{
    let one = seq![command];
    assert(one.drop_last() =~= Seq::<CommandValue>::empty());
    assert(values_for(command.kind(), one.drop_last()) == Seq::<Value>::empty());
    assert(values_for(command.kind(), one) =~= seq![command.spec_to_value()]);
    assert forall|kind: CommandKind| kind != command.kind() implies #[trigger] values_for(
        kind,
        one,
    ) == Seq::<Value>::empty() by {
        assert(values_for(kind, one.drop_last()) == Seq::<Value>::empty());
    }
}

/// What goes to a target from a list of commands with one more at its end is
/// what went to it from the list, and then the value of the last if that is
/// its target.
pub proof fn lemma_values_for_push(
    kind: CommandKind,
    commands: Seq<CommandValue>,
    last: CommandValue,
)
    ensures
        values_for(kind, commands.push(last)) == if last.kind() == kind {
            values_for(kind, commands).push(last.spec_to_value())
        } else {
            values_for(kind, commands)
        },
{
    assert(commands.push(last).drop_last() =~= commands);
}

/// A sink that nothing reached is as it was.
pub proof fn lemma_follows_nothing(controls: &Controls)
    ensures
        controls.follows(controls, Seq::<CommandValue>::empty()),
{
    assert forall|kind: CommandKind| #![trigger controls.object(kind)] {
        &&& controls.object(kind).name() == controls.object(kind).name()
        &&& controls.history(kind) == controls.history(kind) + values_for(
            kind,
            Seq::<CommandValue>::empty(),
        )
    } by {
        assert(controls.history(kind) + Seq::<Value>::empty() =~= controls.history(kind));
    }
}

/// Commands that reach the sink one after the other leave it as the whole
/// list does.
pub proof fn lemma_follows_push(
    before: &Controls,
    between: &Controls,
    after: &Controls,
    commands: Seq<CommandValue>,
    last: CommandValue,
)
    requires
        between.follows(before, commands),
        after.follows(between, seq![last]),
    ensures
        after.follows(before, commands.push(last)),
{
    lemma_values_for_one(last);
    assert forall|kind: CommandKind| #![trigger after.object(kind)] {
        &&& after.object(kind).name() == before.object(kind).name()
        &&& after.history(kind) == before.history(kind) + values_for(kind, commands.push(last))
    } by {
        lemma_values_for_push(kind, commands, last);
        assert(between.object(kind).name() == before.object(kind).name());
        assert(after.history(kind) == between.history(kind) + values_for(kind, seq![last]));
        assert(between.history(kind) == before.history(kind) + values_for(kind, commands));
        if last.kind() == kind {
            assert(after.history(kind) =~= before.history(kind) + values_for(
                kind,
                commands.push(last),
            ));
        } else {
            assert(after.history(kind) =~= before.history(kind) + values_for(
                kind,
                commands.push(last),
            ));
        }
    }
}

} // verus!
