use vstd::prelude::*;
use vstd::std_specs::convert::FromSpecImpl;

verus! {

/// Parameters of the note off delay.
#[derive(Clone, Copy, Debug, PartialEq, Eq, Structural)]
pub enum Parameter {
    DelayOffset,
    MaxNotes,
    MaxNotesAppliesToDelayedNotesOnly,
    MultiplyLength,
}

/// How many parameters there are.
pub const PARAMETER_COUNT: usize = 4;

/// The index the host knows a parameter by.
pub open spec fn parameter_index(p: Parameter) -> i32 {
    match p {
        Parameter::DelayOffset => 0,
        Parameter::MaxNotes => 1,
        Parameter::MaxNotesAppliesToDelayedNotesOnly => 2,
        Parameter::MultiplyLength => 3,
    }
}

impl Parameter {
    /// The parameter of a host index.
    pub fn from_index(i: i32) -> (r: Parameter)
        requires
            0 <= i < 4,
        ensures
            parameter_index(r) == i,
    {
        if i == 0 {
            Parameter::DelayOffset
        } else if i == 1 {
            Parameter::MaxNotes
        } else if i == 2 {
            Parameter::MaxNotesAppliesToDelayedNotesOnly
        } else {
            Parameter::MultiplyLength
        }
    }
}

impl From<Parameter> for i32 {
    fn from(p: Parameter) -> (r: i32) {
        match p {
            Parameter::DelayOffset => 0,
            Parameter::MaxNotes => 1,
            Parameter::MaxNotesAppliesToDelayedNotesOnly => 2,
            Parameter::MultiplyLength => 3,
        }
    }
}

impl FromSpecImpl<Parameter> for i32 {
    open spec fn obeys_from_spec() -> bool {
        true
    }

    open spec fn from_spec(p: Parameter) -> i32 {
        parameter_index(p)
    }
}

} // verus!
