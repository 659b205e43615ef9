//! From source text to syntax, by way of the Ruff parser.

use vstd::prelude::*;
use vstd::string::*;
use vstd::utf8::encode_utf8;
use crate::ruff_tree::{failure_text, parse_source, syntax_of};
use crate::syntax::{Syntax, SyntaxView};

verus! {

/// A target language version, handed to the parser as it is.
#[derive(Debug, Clone, Copy, PartialEq, Eq)]
pub struct PythonVersion {
    pub major: u8,
    pub minor: u8,
}

/// The length in bytes of the longest text that the parser takes.
pub const MAX_SOURCE_BYTES: usize = 0xFFFF_FFFF;

/// Why a text gives no syntax.
#[derive(Debug, Clone, PartialEq, Eq)]
pub enum ParseFailure {
    /// The text is longer than the parser takes.
    TooLong,
    /// The parser rejected the text, with this message.
    Rejected(String),
}

/// The mathematical form of a `ParseFailure`.
pub enum ParseFailureView {
    TooLong,
    Rejected(Seq<char>),
}

impl View for ParseFailure {
    type V = ParseFailureView;

    open spec fn view(&self) -> ParseFailureView {
        match self {
            ParseFailure::TooLong => ParseFailureView::TooLong,
            ParseFailure::Rejected(message) => ParseFailureView::Rejected(message@),
        }
    }
}

/// The message that reports a failure: the parser's own, where it has one.
pub open spec fn failure_description(failure: ParseFailureView) -> Seq<char> {
    match failure {
        ParseFailureView::TooLong => "Source text is longer than 4294967295 bytes"@,
        ParseFailureView::Rejected(message) => message,
    }
}

impl ParseFailure {
    /// The message that reports the failure.
    pub fn describe(&self) -> (message: String)
        ensures
            message@ == failure_description(self@),
    {
        match self {
            ParseFailure::TooLong => String::from_str(
                "Source text is longer than 4294967295 bytes",
            ),
            ParseFailure::Rejected(message) => message.clone(),
        }
    }
}

/// What `ruff_python_parser::parse` makes of a source text as a module under
/// a target version: the tree's view, or the message of the parser's error.
/// It stands for the parser's answer on texts that the parser takes.
pub uninterp spec fn parse_outcome(source: Seq<char>, major: u8, minor: u8) -> Result<
    SyntaxView,
    Seq<char>,
>;

/// Whether the parser takes a text: whether the text, encoded as UTF-8, is
/// no longer than `MAX_SOURCE_BYTES`.
pub open spec fn fits_parser(source: Seq<char>) -> bool {
    encode_utf8(source).len() <= MAX_SOURCE_BYTES
}

/// What parsing a source text as a module under a target version gives: no
/// syntax for a text that the parser does not take; else the parser's
/// answer.
pub open spec fn parsed(source: Seq<char>, major: u8, minor: u8) -> Result<
    SyntaxView,
    ParseFailureView,
> {
    if !fits_parser(source) {
        Err(ParseFailureView::TooLong)
    } else {
        match parse_outcome(source, major, minor) {
            Ok(syntax) => Ok(syntax),
            Err(message) => Err(ParseFailureView::Rejected(message)),
        }
    }
}

/// The view of what `parse_module` returns.
pub open spec fn outcome_view(outcome: Result<Syntax, ParseFailure>) -> Result<
    SyntaxView,
    ParseFailureView,
> {
    match outcome {
        Ok(syntax) => Ok(syntax@),
        Err(failure) => Err(failure@),
    }
}

/// Parses `source` as a module under the target `version`.
///
/// A text of more than `MAX_SOURCE_BYTES` bytes is not handed to the
/// parser, and fails as `TooLong`. Of any other text the function returns
/// the syntax that the parser finds, or fails as `Rejected` with the message
/// of the error with which the parser rejects the text. Which of the two,
/// and what they hold, is the parser's to say: `parse_outcome` stands for
/// its answer, and the same text and version always get the same one.
pub fn parse_module(source: &str, version: PythonVersion) -> (outcome: Result<
    Syntax,
    ParseFailure,
>)
    ensures
        outcome_view(outcome) == parsed(source@, version.major, version.minor),
{
    if source.as_bytes().len() > MAX_SOURCE_BYTES {
        return Err(ParseFailure::TooLong);
    }
    match parse_source(source, version.major, version.minor) {
        Ok(syntax) => Ok(syntax_of(&syntax)),
        Err(error) => Err(ParseFailure::Rejected(failure_text(&error))),
    }
}

} // verus!
