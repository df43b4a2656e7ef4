//! The errors that the repository and the guid-prefix lookup report.

use vstd::prelude::*;

verus! {

/// Why a repository call could not do what was asked.
#[derive(Clone, Copy, Debug, PartialEq, Eq, Structural)]
pub enum RepoError {
    /// No record carries the requested key, or a guid prefix matched nothing.
    NotFound,
    /// A guid prefix matched more than one note.
    AmbiguousPrefix,
    /// Inserting a project whose guid or name is already taken.
    Conflict,
}

} // verus!
