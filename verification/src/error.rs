//! The errors of the OrbitalOS core and the text each is shown as.

use vstd::prelude::*;
use vstd::string::*;
use crate::text::owned;

verus! {

/// What went wrong in the OrbitalOS core. Errors of outside libraries are
/// carried as the text they display as.
#[derive(Debug, Clone, PartialEq, Eq)]
pub enum OrbitalError {
    DataInvariant(&'static str),
    Database(String),
    MissingHomeDirectory,
    Io(String),
    NotFound { entity: &'static str, id: String },
    Time(String),
}

pub type OrbitalResult<T> = Result<T, OrbitalError>;

/// The text an error is shown as.
pub open spec fn error_message(e: OrbitalError) -> Seq<char> {
    match e {
        OrbitalError::DataInvariant(m) => "data invariant violated: "@ + m@,
        OrbitalError::Database(m) => "database error: "@ + m@,
        OrbitalError::MissingHomeDirectory => "could not determine the current user's home directory"@,
        OrbitalError::Io(m) => "i/o error: "@ + m@,
        OrbitalError::NotFound { entity, id } => entity@ + " with id '"@ + id@ + "' was not found"@,
        OrbitalError::Time(m) => "system time error: "@ + m@,
    }
}

impl OrbitalError {
    /// The text this error is shown as.
    pub fn message(&self) -> (text: String)
        ensures
            text@ == error_message(*self),
    {
        match self {
            OrbitalError::DataInvariant(m) => owned("data invariant violated: ").concat(m),
            OrbitalError::Database(m) => owned("database error: ").concat(m.as_str()),
            OrbitalError::MissingHomeDirectory => owned(
                "could not determine the current user's home directory",
            ),
            OrbitalError::Io(m) => owned("i/o error: ").concat(m.as_str()),
            OrbitalError::NotFound { entity, id } => owned(entity).concat(" with id '").concat(
                id.as_str(),
            ).concat("' was not found"),
            OrbitalError::Time(m) => owned("system time error: ").concat(m.as_str()),
        }
    }
}

} // verus!
