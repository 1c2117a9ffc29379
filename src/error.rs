//! The failures that an operation of the store reports.

use vstd::prelude::*;

verus! {

/// One failure, with a message for the user.
#[derive(Debug)]
pub enum AppError {
    /// A required field is empty, a value is out of range, or a referenced row is missing.
    Validation(String),
    /// A lookup by id found no row.
    NotFound(String),
    /// A write would break a uniqueness or reference rule of the store.
    Constraint(String),
    /// Reading or writing a file failed.
    Io(String),
}

impl AppError {
    /// The message shown to the user.
    pub fn message(&self) -> (r: String)
        ensures
            r@ == self.spec_message()@,
    {
        match self {
            AppError::Validation(m) => m.clone(),
            AppError::NotFound(m) => m.clone(),
            AppError::Constraint(m) => m.clone(),
            AppError::Io(m) => m.clone(),
        }
    }

    pub open spec fn spec_message(&self) -> String {
        match self {
            AppError::Validation(m) => *m,
            AppError::NotFound(m) => *m,
            AppError::Constraint(m) => *m,
            AppError::Io(m) => *m,
        }
    }
}

/// The result of an operation of the store.
pub type CmdResult<T> = Result<T, AppError>;

} // verus!
