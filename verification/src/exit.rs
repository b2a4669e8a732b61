//! Documented exit codes.
//!
//! Callers, including the Herdr plugin and the agent skill, branch on these
//! numbers, so an assigned value never changes meaning.
use vstd::prelude::*;

verus! {

/// Success.
pub const SUCCESS: i32 = 0;

/// A generic runtime failure.
pub const FAILURE: i32 = 1;

/// The command line was invalid, or an option is not supported for this
/// command.
pub const USAGE: i32 = 2;

/// The command exists in the published contract but its behavior has not
/// shipped yet.
pub const UNIMPLEMENTED: i32 = 3;

/// The operation crosses the human authorization boundary and must be
/// completed in the trusted local interface.
pub const AUTHORIZATION_REQUIRED: i32 = 4;

} // verus!
