//! The error categories that every operation reports.

use vstd::prelude::*;

verus! {

/// What kind of condition an error reports.
#[derive(Clone, Copy, Debug, PartialEq, Eq, Structural)]
pub enum Category {
    /// Device selection or caller option error.
    Selection,
    /// Device, driver, filesystem, or stream access error.
    Access,
    /// Device protocol or embedded-resource error.
    Protocol,
    /// A bounded operation did not complete in time.
    Timeout,
    /// Requested and realized configuration differ beyond tolerance.
    Validation,
}

/// An error as a category and the text of its diagnostic.
#[verifier::ext_equal]
pub struct ErrorView {
    pub category: Category,
    pub message: Seq<char>,
}

/// Error categories shared by UART providers and sessions.
#[derive(Debug)]
pub enum Error {
    /// Device selection or caller option error.
    Selection(String),
    /// Device, driver, filesystem, or stream access error.
    Access(String),
    /// Device protocol or embedded-resource error.
    Protocol(String),
    /// A bounded operation did not complete in time.
    Timeout(String),
    /// Requested and realized configuration differ beyond tolerance.
    Validation(String),
}

impl DeepView for Error {
    type V = ErrorView;

    open spec fn deep_view(&self) -> ErrorView {
        match self {
            Error::Selection(message) => error_view(Category::Selection, message@),
            Error::Access(message) => error_view(Category::Access, message@),
            Error::Protocol(message) => error_view(Category::Protocol, message@),
            Error::Timeout(message) => error_view(Category::Timeout, message@),
            Error::Validation(message) => error_view(Category::Validation, message@),
        }
    }
}

/// An error of the given category with the given diagnostic.
pub open spec fn error_view(category: Category, message: Seq<char>) -> ErrorView {
    ErrorView { category, message }
}

/// A result whose error is taken by its category and diagnostic.
pub open spec fn result_view<T>(result: Result<T, Error>) -> Result<T, ErrorView> {
    match result {
        Ok(value) => Ok(value),
        Err(error) => Err(error.deep_view()),
    }
}

impl Error {
    /// The category of this error.
    pub fn category(&self) -> (category: Category)
        ensures
            category == self.deep_view().category,
    {
        match self {
            Error::Selection(_) => Category::Selection,
            Error::Access(_) => Category::Access,
            Error::Protocol(_) => Category::Protocol,
            Error::Timeout(_) => Category::Timeout,
            Error::Validation(_) => Category::Validation,
        }
    }

    /// The diagnostic text of this error.
    pub fn message(&self) -> (message: &str)
        ensures
            message@ == self.deep_view().message,
    {
        match self {
            Error::Selection(message) => message.as_str(),
            Error::Access(message) => message.as_str(),
            Error::Protocol(message) => message.as_str(),
            Error::Timeout(message) => message.as_str(),
            Error::Validation(message) => message.as_str(),
        }
    }
}

}
