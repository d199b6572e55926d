//! The project's fixed names. The concrete cache, log and configuration
//! locations depend on the environment and the operating system, so their
//! computation lives with the program around the library; the names here
//! are what those locations are derived from.

use vstd::prelude::*;

verus! {

/// The project's name, used for file names.
pub fn project_name() -> (r: &'static str)
    ensures
        r@ == "nox"@,
{
    "nox"
}

/// The project's name in upper case, the prefix of its environment
/// variables.
pub fn project_env_name() -> (r: &'static str)
    ensures
        r@ == "NOX"@,
{
    "NOX"
}

} // verus!
