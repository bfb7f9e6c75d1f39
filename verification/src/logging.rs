use vstd::prelude::*;

verus! {

/// Installs logging; the plugins are built with logging off, so nothing is
/// installed.
pub fn logging_setup() {
}

} // verus!
