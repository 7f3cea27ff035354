use vstd::prelude::*;

use crate::analysis::SemError;
use crate::parse_error::{ParseError, Span};

verus! {

/// What every diagnostic offers: a code, a headline, the source it points
/// at, and a note.
pub trait ErrorTrait {
    fn code(&self) -> u64;

    fn message(&self) -> &'static str;

    fn label(&self) -> Option<Span>;

    fn note(&self) -> Option<&'static str>;
}

impl ErrorTrait for ParseError {
    fn code(&self) -> u64 {
        ParseError::code(self)
    }

    fn message(&self) -> &'static str {
        ParseError::message(self)
    }

    fn label(&self) -> Option<Span> {
        Some(self.span())
    }

    fn note(&self) -> Option<&'static str> {
        ParseError::note(self)
    }
}

impl ErrorTrait for SemError {
    fn code(&self) -> u64 {
        SemError::code(self)
    }

    fn message(&self) -> &'static str {
        SemError::message(self)
    }

    fn label(&self) -> Option<Span> {
        None
    }

    fn note(&self) -> Option<&'static str> {
        SemError::note(self)
    }
}

/// An error of either stage.
#[derive(Clone, Debug, PartialEq, Eq)]
pub enum Error {
    ParseError(ParseError),
    SemError(SemError),
}

impl Error {
    /// `P` for a parse error, `S` for a semantic one.
    pub fn tag(&self) -> (r: &'static str)
        ensures
            self is ParseError ==> r@ == "P"@,
            self is SemError ==> r@ == "S"@,
    {
        match self {
            Error::ParseError(_) => "P",
            Error::SemError(_) => "S",
        }
    }
}

impl ErrorTrait for Error {
    fn code(&self) -> u64 {
        match self {
            Error::ParseError(e) => e.code(),
            Error::SemError(e) => e.code(),
        }
    }

    fn message(&self) -> &'static str {
        match self {
            Error::ParseError(e) => e.message(),
            Error::SemError(e) => e.message(),
        }
    }

    fn label(&self) -> Option<Span> {
        match self {
            Error::ParseError(e) => Some(e.span()),
            Error::SemError(_) => None,
        }
    }

    fn note(&self) -> Option<&'static str> {
        match self {
            Error::ParseError(e) => e.note(),
            Error::SemError(e) => e.note(),
        }
    }
}

} // verus!
