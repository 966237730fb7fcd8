//! Process exit codes used by the command-line front end.
//!
//! The values follow the common Unix conventions: 0 for success, 1 for a
//! general error, the sysexits-style codes for data, availability and I/O
//! failures, and 128 + SIGINT for a user interrupt.

use vstd::prelude::*;

verus! {

/// Successful execution.
pub const EXIT_SUCCESS: i32 = 0;

/// General error.
pub const EXIT_GENERAL_ERROR: i32 = 1;

/// Command-line argument error.
pub const EXIT_USAGE_ERROR: i32 = 2;

/// Data error, such as invalid input format.
pub const EXIT_DATA_ERROR: i32 = 65;

/// A required resource is unavailable, such as a missing dependency.
pub const EXIT_UNAVAILABLE: i32 = 69;

/// Input/output error.
pub const EXIT_IO_ERROR: i32 = 74;

/// User interrupt: 128 + SIGINT (2).
pub const EXIT_INTERRUPTED: i32 = 130;

} // verus!
