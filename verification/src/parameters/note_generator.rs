use vstd::prelude::*;
use vstd::std_specs::convert::FromSpecImpl;

verus! {

/// Parameters of the note generator.
#[derive(Clone, Copy, Debug, PartialEq, Eq, Structural)]
pub enum Parameter {
    Channel,
    Pitch,
    Velocity,
    NoteOffVelocity,
    Pressure,
    PitchBend,
    Trigger,
    TriggeredPitch,
    TriggeredChannel,
}

/// How many parameters there are.
pub const PARAMETER_COUNT: usize = 9;

/// The index the host knows a parameter by.
pub open spec fn parameter_index(p: Parameter) -> i32 {
    match p {
        Parameter::Channel => 0,
        Parameter::Pitch => 1,
        Parameter::Velocity => 2,
        Parameter::NoteOffVelocity => 3,
        Parameter::Pressure => 4,
        Parameter::PitchBend => 5,
        Parameter::Trigger => 6,
        Parameter::TriggeredPitch => 7,
        Parameter::TriggeredChannel => 8,
    }
}

impl Parameter {
    /// The parameter of a host index.
    pub fn from_index(i: i32) -> (r: Parameter)
        requires
            0 <= i < 9,
        ensures
            parameter_index(r) == i,
    {
        if i == 0 {
            Parameter::Channel
        } else if i == 1 {
            Parameter::Pitch
        } else if i == 2 {
            Parameter::Velocity
        } else if i == 3 {
            Parameter::NoteOffVelocity
        } else if i == 4 {
            Parameter::Pressure
        } else if i == 5 {
            Parameter::PitchBend
        } else if i == 6 {
            Parameter::Trigger
        } else if i == 7 {
            Parameter::TriggeredPitch
        } else {
            Parameter::TriggeredChannel
        }
    }
}

impl From<Parameter> for i32 {
    fn from(p: Parameter) -> (r: i32) {
        match p {
            Parameter::Channel => 0,
            Parameter::Pitch => 1,
            Parameter::Velocity => 2,
            Parameter::NoteOffVelocity => 3,
            Parameter::Pressure => 4,
            Parameter::PitchBend => 5,
            Parameter::Trigger => 6,
            Parameter::TriggeredPitch => 7,
            Parameter::TriggeredChannel => 8,
        }
    }
}

impl FromSpecImpl<Parameter> for i32 {
    open spec fn obeys_from_spec() -> bool {
        true
    }

    open spec fn from_spec(p: Parameter) -> i32 {
        parameter_index(p)
    }
}

} // verus!
