//! Why a run fails.

use vstd::prelude::*;
use vstd::string::*;

verus! {

/// A failure that ends a run.
#[derive(Debug, Clone, PartialEq, Eq)]
pub enum Error {
    /// Nothing stands at the path.
    PathMissing { path: String },
    /// What stands at the path is neither a directory nor a Python source file.
    UnsupportedEntry { path: String },
    /// The file at the path gave no syntax: the parser rejected its text, or
    /// the text is longer than the parser takes. The message says which.
    ParseFailed { path: String, message: String },
    /// The file at the path could not be read, with the message of the failure.
    ReadFailed { path: String, message: String },
    /// The file at the path could not be written, with the message of the failure.
    WriteFailed { path: String, message: String },
}

/// The mathematical form of an `Error`.
pub enum ErrorView {
    PathMissing { path: Seq<char> },
    UnsupportedEntry { path: Seq<char> },
    ParseFailed { path: Seq<char>, message: Seq<char> },
    ReadFailed { path: Seq<char>, message: Seq<char> },
    WriteFailed { path: Seq<char>, message: Seq<char> },
}

impl View for Error {
    type V = ErrorView;

    open spec fn view(&self) -> ErrorView {
        match self {
            Error::PathMissing { path } => ErrorView::PathMissing { path: path@ },
            Error::UnsupportedEntry { path } => ErrorView::UnsupportedEntry { path: path@ },
            Error::ParseFailed { path, message } => ErrorView::ParseFailed {
                path: path@,
                message: message@,
            },
            Error::ReadFailed { path, message } => ErrorView::ReadFailed {
                path: path@,
                message: message@,
            },
            Error::WriteFailed { path, message } => ErrorView::WriteFailed {
                path: path@,
                message: message@,
            },
        }
    }
}

/// The line that reports an error.
pub open spec fn description(error: ErrorView) -> Seq<char> {
    match error {
        ErrorView::PathMissing { path } => "Path "@ + path + " does not exist"@,
        ErrorView::UnsupportedEntry { path } => "Path "@ + path
            + " is not a directory or Python source file"@,
        ErrorView::ParseFailed { path, message } => "Failed to parse file "@ + path + ": "@
            + message,
        ErrorView::ReadFailed { path, message } => "Failed to read file "@ + path + ": "@
            + message,
        ErrorView::WriteFailed { path, message } => "Failed to write file "@ + path + ": "@
            + message,
    }
}

impl Error {
    /// The line that reports the error: what failed, at which path, and the
    /// underlying message where there is one.
    pub fn describe(&self) -> (line: String)
        ensures
            line@ == description(self@),
    {
        match self {
            Error::PathMissing { path } => {
                let mut line = String::from_str("Path ");
                line.append(path.as_str());
                line.append(" does not exist");
                line
            },
            Error::UnsupportedEntry { path } => {
                let mut line = String::from_str("Path ");
                line.append(path.as_str());
                line.append(" is not a directory or Python source file");
                line
            },
            Error::ParseFailed { path, message } => {
                let mut line = String::from_str("Failed to parse file ");
                line.append(path.as_str());
                line.append(": ");
                line.append(message.as_str());
                line
            },
            Error::ReadFailed { path, message } => {
                let mut line = String::from_str("Failed to read file ");
                line.append(path.as_str());
                line.append(": ");
                line.append(message.as_str());
                line
            },
            Error::WriteFailed { path, message } => {
                let mut line = String::from_str("Failed to write file ");
                line.append(path.as_str());
                line.append(": ");
                line.append(message.as_str());
                line
            },
        }
    }
}

} // verus!
