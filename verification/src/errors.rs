//! The failures of the library, by the stage at which they arise.

use vstd::prelude::*;

verus! {

/// A failure on the way from a manifest to the entry file of its package.
#[derive(Debug, PartialEq, Eq)]
pub enum Error {
    /// The manifest could not be read; the text says why.
    Io(String),
    /// The manifest is not valid TOML; the text says why.
    ParseToml(String),
    /// The package has neither a library nor a binary entry file.
    EntryNotFound,
}

/// Why a scan failed.
#[derive(Clone, Copy, Debug, PartialEq, Eq, Structural)]
pub enum ScanError {
    /// The entry file is named neither `lib.rs` nor `main.rs`.
    UnrecognizedEntry,
    /// A source file could not be read.
    Io,
    /// A source file is not valid source text.
    Parse,
}

/// Why a template could not be expanded.
#[derive(Clone, Copy, Debug, PartialEq, Eq, Structural)]
pub enum ExpandError {
    /// The template ends with the escape marker.
    UnexpectedEnd,
    /// The escape marker stands before a token that starts no expression.
    UnsupportedExpression,
    /// A variable has no binding in the current context.
    UnboundVariable,
    /// An identifier was to be synthesized from a group.
    InvalidSynthesisInput,
    /// A repetition stands in a context without a repeatable list.
    RepetitionContextMissing,
    /// A `+` repetition stands in a context whose repeatable list is empty.
    EmptyRequiredRepetition,
}

/// Why the input of the macro is not of the form `(Capability) => { template }`.
#[derive(Clone, Copy, Debug, PartialEq, Eq, Structural)]
pub enum InputError {
    /// The input does not begin with a parenthesized group.
    ExpectedParentheses,
    /// No `=>` follows the parentheses.
    ExpectedArrow,
    /// No group in braces follows the arrow.
    ExpectedBraces,
    /// The parentheses do not begin with an identifier.
    ExpectedIdentifier,
    /// Something follows the identifier in the parentheses, or the braces.
    UnexpectedToken,
}

/// The mathematical value of an [`Error`].
pub enum ErrorView {
    Io(Seq<char>),
    ParseToml(Seq<char>),
    EntryNotFound,
}

impl View for Error {
    type V = ErrorView;

    open spec fn view(&self) -> ErrorView {
        match self {
            Error::Io(reason) => ErrorView::Io(reason@),
            Error::ParseToml(reason) => ErrorView::ParseToml(reason@),
            Error::EntryNotFound => ErrorView::EntryNotFound,
        }
    }
}

impl Error {
    /// A line of text that describes the failure.
    pub fn message(&self) -> (text: String)
        ensures
            text@ == match self@ {
                ErrorView::Io(reason) => "IO error: "@ + reason,
                ErrorView::ParseToml(reason) => "parsing toml failed: "@ + reason,
                ErrorView::EntryNotFound => "could not resolve entry file"@,
            },
    {
        match self {
            Error::Io(reason) => {
                let mut text = "IO error: ".to_owned();
                text.append(reason.as_str());
                text
            },
            Error::ParseToml(reason) => {
                let mut text = "parsing toml failed: ".to_owned();
                text.append(reason.as_str());
                text
            },
            Error::EntryNotFound => "could not resolve entry file".to_owned(),
        }
    }
}

} // verus!
