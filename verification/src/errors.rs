//! The error taxonomy: unreadable files, unparseable source, malformed
//! interchange documents and bad user input, each carrying the message of
//! its underlying cause so operators can tell them apart at a glance.

use vstd::prelude::*;

use vstd::string::StringExecFns;

verus! {

/// One application-level error. Per-item problems inside an otherwise
/// valid document recover locally and never surface here; these are the
/// fatal kinds.
#[derive(Debug, PartialEq)]
pub enum AppError {
    /// A file could not be read or written; carries the cause's message.
    IoError(String),
    /// Source text is not syntactically valid; carries the cause's message.
    ParseError(String),
    /// The interchange document is malformed; carries the cause's message.
    FormatError(String),
    /// A bad user-supplied path or similar input; carries a description.
    InvalidInput(String),
}

impl AppError {
    /// The kind prefix of the user-visible message.
    pub open spec fn spec_kind_text(self) -> Seq<char> {
        match self {
            AppError::IoError(_) => "IO Error: "@,
            AppError::ParseError(_) => "Parse Error: "@,
            AppError::FormatError(_) => "Format Error: "@,
            AppError::InvalidInput(_) => "Invalid Input: "@,
        }
    }

    /// The payload carried by the error.
    pub open spec fn spec_payload(self) -> Seq<char> {
        match self {
            AppError::IoError(s) => s@,
            AppError::ParseError(s) => s@,
            AppError::FormatError(s) => s@,
            AppError::InvalidInput(s) => s@,
        }
    }

    /// The user-visible message: the kind, then the underlying cause.
    pub open spec fn spec_message(self) -> Seq<char> {
        self.spec_kind_text() + self.spec_payload()
    }

    /// Renders the error for an operator: kind first, cause after.
    pub fn message(&self) -> (r: String)
        ensures
            r@ == self.spec_message(),
    {
        match self {
            AppError::IoError(s) => {
                let mut out = String::from_str("IO Error: ");
                out.append(s.as_str());
                out
            },
            AppError::ParseError(s) => {
                let mut out = String::from_str("Parse Error: ");
                out.append(s.as_str());
                out
            },
            AppError::FormatError(s) => {
                let mut out = String::from_str("Format Error: ");
                out.append(s.as_str());
                out
            },
            AppError::InvalidInput(s) => {
                let mut out = String::from_str("Invalid Input: ");
                out.append(s.as_str());
                out
            },
        }
    }

    /// The underlying cause, for chained-cause reporting. Bad user input
    /// has no underlying cause of its own.
    pub fn cause(&self) -> (r: Option<&String>)
        ensures
            match self {
                AppError::IoError(s) => r matches Some(c) && c@ == s@,
                AppError::ParseError(s) => r matches Some(c) && c@ == s@,
                AppError::FormatError(s) => r matches Some(c) && c@ == s@,
                AppError::InvalidInput(_) => r is None,
            },
    {
        match self {
            AppError::IoError(s) => Option::Some(s),
            AppError::ParseError(s) => Option::Some(s),
            AppError::FormatError(s) => Option::Some(s),
            AppError::InvalidInput(_) => Option::None,
        }
    }
}

} // verus!
