//! The failures of a repository operation.

use crate::domain::mapping::MappingError;
use vstd::prelude::*;

verus! {

/// Why a repository operation gave no record.
#[derive(Debug, Clone, Copy, PartialEq, Eq, Structural)]
pub enum RepositoryError {
    /// A row that the operation had to return holds a timestamp that does
    /// not match the fixed pattern.
    Mapping(MappingError),
    /// No row has the id that the operation names.
    NotFound,
    /// The write would break a rule of the store: no id is left to assign.
    Constraint,
}

impl RepositoryError {
    /// A sentence for the user.
    pub fn message(&self) -> (text: String)
        ensures
            match *self {
                RepositoryError::Mapping(e) => e.message_spec(text@),
                RepositoryError::NotFound => text@ == "no record has this id"@,
                RepositoryError::Constraint => text@ == "the store has no id left to assign"@,
            },
    {
        match self {
            RepositoryError::Mapping(e) => e.message(),
            RepositoryError::NotFound => String::from_str("no record has this id"),
            RepositoryError::Constraint => String::from_str("the store has no id left to assign"),
        }
    }
}

} // verus!
