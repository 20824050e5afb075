//! The library's error type.

use vstd::prelude::*;

verus! {

/// What can go wrong in the library's operations.
pub enum AppError {
    /// A described failure.
    Custom(String),
    /// A stored JSON value does not have the shape that was expected of it.
    Serde(String),
}

impl AppError {
    /// The text that describes the error.
    pub open spec fn message_view(&self) -> Seq<char> {
        match self {
            AppError::Custom(m) => m@,
            AppError::Serde(m) => m@,
        }
    }

    /// The text that describes the error.
    pub fn message(&self) -> (r: String)
        ensures
            r@ == self.message_view(),
    {
        match self {
            AppError::Custom(m) => m.clone(),
            AppError::Serde(m) => m.clone(),
        }
    }
}

} // verus!
