//! How a run can fail.

use vstd::prelude::*;

verus! {

/// The ways in which a run fails.
#[derive(Clone, Copy, Debug, PartialEq, Eq, Hash, Structural)]
pub enum RunError {
    /// The index of a pair could not be had: the download failed, or the
    /// local file is not there.
    Fetch,
    /// The store of the package table failed, or holds what cannot be read.
    Storage,
    /// Something that the run needs was not configured.
    Config,
}

impl RunError {
    /// A short description of the failure.
    pub fn describe(self) -> (r: &'static str)
        ensures
            r@ == match self {
                RunError::Fetch => "the package index could not be fetched"@,
                RunError::Storage => "the package table could not be read or written"@,
                RunError::Config => "the configuration is incomplete"@,
            },
    {
        match self {
            RunError::Fetch => "the package index could not be fetched",
            RunError::Storage => "the package table could not be read or written",
            RunError::Config => "the configuration is incomplete",
        }
    }
}

} // verus!
