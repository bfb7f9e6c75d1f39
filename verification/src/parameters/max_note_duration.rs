use vstd::prelude::*;
use vstd::std_specs::convert::FromSpecImpl;

verus! {

/// Parameters of the maximum note duration plugin.
#[derive(Clone, Copy, Debug, PartialEq, Eq, Structural)]
pub enum Parameter {
    MaxDuration,
}

/// How many parameters there are.
pub const PARAMETER_COUNT: usize = 1;

/// The index the host knows a parameter by.
pub open spec fn parameter_index(p: Parameter) -> i32 {
    match p {
        Parameter::MaxDuration => 0,
    }
}

impl Parameter {
    /// The parameter of a host index.
    pub fn from_index(i: i32) -> (r: Parameter)
        requires
            0 <= i < 1,
        ensures
            parameter_index(r) == i,
    {
        Parameter::MaxDuration
    }
}

impl From<Parameter> for i32 {
    fn from(p: Parameter) -> (r: i32) {
        match p {
            Parameter::MaxDuration => 0,
        }
    }
}

impl FromSpecImpl<Parameter> for i32 {
    open spec fn obeys_from_spec() -> bool {
        true
    }

    open spec fn from_spec(p: Parameter) -> i32 {
        parameter_index(p)
    }
}

} // verus!
