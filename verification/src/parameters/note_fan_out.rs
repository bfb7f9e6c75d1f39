use vstd::prelude::*;
use vstd::std_specs::convert::FromSpecImpl;

verus! {

/// Parameters of the note fan-out.
#[derive(Clone, Copy, Debug, PartialEq, Eq, Structural)]
pub enum Parameter {
    Steps,
    Selection,
    CurrentStep,
}

/// How many parameters there are.
pub const PARAMETER_COUNT: usize = 3;

/// The index the host knows a parameter by.
pub open spec fn parameter_index(p: Parameter) -> i32 {
    match p {
        Parameter::Steps => 0,
        Parameter::Selection => 1,
        Parameter::CurrentStep => 2,
    }
}

impl Parameter {
    /// The parameter of a host index.
    pub fn from_index(i: i32) -> (r: Parameter)
        requires
            0 <= i < 3,
        ensures
            parameter_index(r) == i,
    {
        if i == 0 {
            Parameter::Steps
        } else if i == 1 {
            Parameter::Selection
        } else {
            Parameter::CurrentStep
        }
    }
}

impl From<Parameter> for i32 {
    fn from(p: Parameter) -> (r: i32) {
        match p {
            Parameter::Steps => 0,
            Parameter::Selection => 1,
            Parameter::CurrentStep => 2,
        }
    }
}

impl FromSpecImpl<Parameter> for i32 {
    open spec fn obeys_from_spec() -> bool {
        true
    }

    open spec fn from_spec(p: Parameter) -> i32 {
        parameter_index(p)
    }
}

} // verus!
