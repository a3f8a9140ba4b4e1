//! The typed failures of the library.

use vstd::prelude::*;

verus! {

/// What can go wrong while materializing history.
#[derive(Debug)]
pub enum Error {
    /// A log record held fewer fields than the fixed schema requires.
    /// Malformed process output is an expected failure, never a crash.
    Parse,
    /// A query process could not be run or exited non-zero: its exit
    /// code and message.
    Process { code: i32, message: String },
    /// A count query matched no revisions: the distinguished,
    /// non-fatal outcome behind exit code 128.
    NoRevisionsMatch,
}

impl Error {
    /// Whether this is the distinguished empty-result outcome.
    pub fn is_no_revisions_match(&self) -> (r: bool)
        ensures
            r == (self matches Error::NoRevisionsMatch),
    {
        match self {
            Error::NoRevisionsMatch => true,
            _ => false,
        }
    }
}

} // verus!
