//! The error kinds the library reports.
//!
//! Four things can go wrong: the scan root does not exist, a cache file
//! cannot be read or written, a candidate path is not a readable repository
//! at preview time, or the configuration carries out-of-range values. Each
//! error renders to a single message line.

use vstd::prelude::*;
use vstd::string::StringExecFns;

verus! {

/// One error of the navigation core.
#[derive(Debug, Clone, PartialEq, Eq)]
pub enum NavError {
    /// The scan root does not exist; fatal to that scan call.
    PathNotFound { path: String },
    /// A cache read, write or clear failed; the caller may fall back to a
    /// fresh scan.
    IoError { message: String },
    /// The candidate path is not a readable repository; fatal to that single
    /// preview only.
    RepositoryOpenError { path: String },
    /// The configuration carries an out-of-range value; reported before any
    /// scan or cache work begins.
    ConfigValidationError { message: String },
}

impl NavError {
    /// The message line for this error.
    pub fn message(&self) -> (r: String)
        ensures
            self matches NavError::PathNotFound { path } ==> r@ == "Base path does not exist: "@
                + path@,
            self matches NavError::IoError { message } ==> r@ == message@,
            self matches NavError::RepositoryOpenError { path } ==> r@
                == "Failed to open repository: "@ + path@,
            self matches NavError::ConfigValidationError { message } ==> r@ == message@,
    {
        match self {
            NavError::PathNotFound { path } => {
                let mut r: String = "Base path does not exist: ".to_owned();
                r.append(path.as_str());
                r
            },
            NavError::IoError { message } => message.clone(),
            NavError::RepositoryOpenError { path } => {
                let mut r: String = "Failed to open repository: ".to_owned();
                r.append(path.as_str());
                r
            },
            NavError::ConfigValidationError { message } => message.clone(),
        }
    }
}

} // verus!
