//! The failure taxonomy of the library: reading problems reported by the
//! caller, structural grammar failures, required keys that are absent, and
//! fields holding a value outside their allowed set.

use vstd::prelude::*;

verus! {

/// The abstract value of a [`DesktopFileError`], over character sequences.
pub enum ErrorView {
    IoError(Seq<char>),
    ParseError(Seq<char>),
    MissingField(Seq<char>),
    InvalidValue(Seq<char>, Seq<char>),
}

/// A failure of parsing, validation, or of a read or write made on the
/// library's behalf.
#[derive(Debug, Clone)]
pub enum DesktopFileError {
    /// A file could not be read or written; holds the reporter's message.
    IoError(String),
    /// Reserved for structural grammar failures; the permissive grammar
    /// never raises it.
    ParseError(String),
    /// A required key is absent; holds the key's name.
    MissingField(String),
    /// A field holds a value outside its allowed set; holds the field's
    /// name and the offending value.
    InvalidValue(String, String),
}

impl View for DesktopFileError {
    type V = ErrorView;

    open spec fn view(&self) -> ErrorView {
        match self {
            DesktopFileError::IoError(m) => ErrorView::IoError(m@),
            DesktopFileError::ParseError(m) => ErrorView::ParseError(m@),
            DesktopFileError::MissingField(f) => ErrorView::MissingField(f@),
            DesktopFileError::InvalidValue(f, v) => ErrorView::InvalidValue(f@, v@),
        }
    }
}

impl DesktopFileError {
    /// A short human-readable description of the failure.
    pub fn message(&self) -> (r: String)
        ensures
            match self@ {
                ErrorView::IoError(m) => r@ == "Failed to read file: "@ + m,
                ErrorView::ParseError(m) => r@ == "Invalid desktop file format: "@ + m,
                ErrorView::MissingField(f) => r@ == "Missing required field: "@ + f,
                ErrorView::InvalidValue(f, v) => r@ == "Invalid value for field "@ + f + ": "@
                    + v,
            },
    {
        match self {
            DesktopFileError::IoError(m) => {
                let mut s = "Failed to read file: ".to_owned();
                s.append(m.as_str());
                s
            },
            DesktopFileError::ParseError(m) => {
                let mut s = "Invalid desktop file format: ".to_owned();
                s.append(m.as_str());
                s
            },
            DesktopFileError::MissingField(f) => {
                let mut s = "Missing required field: ".to_owned();
                s.append(f.as_str());
                s
            },
            DesktopFileError::InvalidValue(f, v) => {
                let mut s = "Invalid value for field ".to_owned();
                s.append(f.as_str());
                s.append(": ");
                s.append(v.as_str());
                s
            },
        }
    }
}

} // verus!
