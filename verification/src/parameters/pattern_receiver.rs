use vstd::prelude::*;
use vstd::std_specs::convert::FromSpecImpl;

verus! {

/// Parameters of the pattern receiver.
#[derive(Clone, Copy, Debug, PartialEq, Eq, Structural)]
pub enum Parameter {
    PortIndex,
}

/// How many parameters there are.
pub const PARAMETER_COUNT: usize = 1;

/// The index the host knows a parameter by.
pub open spec fn parameter_index(p: Parameter) -> i32 {
    match p {
        Parameter::PortIndex => 0,
    }
}

impl Parameter {
    /// The parameter of a host index.
    pub fn from_index(i: i32) -> (r: Parameter)
        requires
            0 <= i < 1,
        ensures
            parameter_index(r) == i,
    {
        Parameter::PortIndex
    }
}

impl From<Parameter> for i32 {
    fn from(p: Parameter) -> (r: i32) {
        match p {
            Parameter::PortIndex => 0,
        }
    }
}

impl FromSpecImpl<Parameter> for i32 {
    open spec fn obeys_from_spec() -> bool {
        true
    }

    open spec fn from_spec(p: Parameter) -> i32 {
        parameter_index(p)
    }
}

/// First port of the range the pattern link listens on.
pub const BASE_PORT: u16 = 6000;

/// The port selected by the port index parameter's byte value.
pub fn port_for_index(index: u8) -> (r: u16)
    ensures
        r == BASE_PORT + index,
{
    BASE_PORT + index as u16
}

} // verus!
