//! The edition of the language specification is detached from the
//! implementation version. This allows different editions to be run in the
//! same project, by specifying which sources belong to which edition.

use vstd::prelude::*;

verus! {

/// The edition that is used for a particular source.
#[derive(Clone, Copy, Debug, PartialEq, Eq, Structural)]
pub enum Edition {
    /// Edition 1.
    Edition1,
}

impl Edition {
    /// Returns a value that should be used for the default edition. This is
    /// always the latest.
    pub fn latest() -> (r: Edition)
        ensures
            r == Edition::Edition1,
    {
        Edition::Edition1
    }
}

} // verus!
