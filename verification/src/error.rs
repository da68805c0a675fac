//! Why a line of configuration was refused.

use vstd::prelude::*;
use crate::control::{ControlParseError, ControlParseErrorView};

verus! {

/// A fault in one line. It voids that line and no other.
#[derive(Debug, Clone, PartialEq, Eq)]
pub enum PamConfigSyntaxError {
    HasNewLine,
    CommentLine,
    EmptyLine,
    /// A field opens with `[` and the line ends before the `]`.
    UnclosedBracket,
    /// The name of a service is empty, or holds something else than letters
    /// and digits of ASCII, `_` and `-`.
    WrongServiceName(String),
    /// The field is none of `account`, `auth`, `password`, `session`.
    WrongDomain(String),
    /// The control field is no preset and no selection.
    WrongControl(ControlParseError),
    /// The module path is empty.
    WrongModulePath(String),
    /// The argument holds white space and no `=`, or starts with `=`.
    WrongModuleArgs(String),
}

/// A `PamConfigSyntaxError` with its texts as sequences of characters.
pub enum PamConfigSyntaxErrorView {
    HasNewLine,
    CommentLine,
    EmptyLine,
    UnclosedBracket,
    WrongServiceName(Seq<char>),
    WrongDomain(Seq<char>),
    WrongControl(ControlParseErrorView),
    WrongModulePath(Seq<char>),
    WrongModuleArgs(Seq<char>),
}

impl View for PamConfigSyntaxError {
    type V = PamConfigSyntaxErrorView;

    open spec fn view(&self) -> PamConfigSyntaxErrorView {
        match self {
            PamConfigSyntaxError::HasNewLine => PamConfigSyntaxErrorView::HasNewLine,
            PamConfigSyntaxError::CommentLine => PamConfigSyntaxErrorView::CommentLine,
            PamConfigSyntaxError::EmptyLine => PamConfigSyntaxErrorView::EmptyLine,
            PamConfigSyntaxError::UnclosedBracket => PamConfigSyntaxErrorView::UnclosedBracket,
            PamConfigSyntaxError::WrongServiceName(s) => PamConfigSyntaxErrorView::WrongServiceName(
                s@,
            ),
            PamConfigSyntaxError::WrongDomain(s) => PamConfigSyntaxErrorView::WrongDomain(s@),
            PamConfigSyntaxError::WrongControl(e) => PamConfigSyntaxErrorView::WrongControl(e@),
            PamConfigSyntaxError::WrongModulePath(s) => PamConfigSyntaxErrorView::WrongModulePath(
                s@,
            ),
            PamConfigSyntaxError::WrongModuleArgs(s) => PamConfigSyntaxErrorView::WrongModuleArgs(
                s@,
            ),
        }
    }
}

/// `std::io::Error`, which this crate carries and never looks into.
#[verifier::external_type_specification]
#[verifier::external_body]
pub struct ExIoError(std::io::Error);

/// Why no configuration could be had.
#[derive(Debug)]
pub enum PamConfigError {
    /// A line is at fault.
    Syntax(PamConfigSyntaxError),
    /// A file could not be read.
    Io(std::io::Error),
    NotAFilename,
    NonUTF8Filename,
    /// A directory was to give the configuration and holds no service file.
    EmptyFileList,
}

/// A `PamConfigError` with its texts as sequences of characters, and without
/// what an I/O error holds.
pub enum PamConfigErrorView {
    Syntax(PamConfigSyntaxErrorView),
    Io,
    NotAFilename,
    NonUTF8Filename,
    EmptyFileList,
}

impl View for PamConfigError {
    type V = PamConfigErrorView;

    open spec fn view(&self) -> PamConfigErrorView {
        match self {
            PamConfigError::Syntax(e) => PamConfigErrorView::Syntax(e@),
            PamConfigError::Io(_) => PamConfigErrorView::Io,
            PamConfigError::NotAFilename => PamConfigErrorView::NotAFilename,
            PamConfigError::NonUTF8Filename => PamConfigErrorView::NonUTF8Filename,
            PamConfigError::EmptyFileList => PamConfigErrorView::EmptyFileList,
        }
    }
}

impl From<std::io::Error> for PamConfigError {
    fn from(value: std::io::Error) -> (r: Self)
    {
        PamConfigError::Io(value)
    }
}

impl vstd::std_specs::convert::FromSpecImpl<std::io::Error> for PamConfigError {
    open spec fn obeys_from_spec() -> bool {
        true
    }

    open spec fn from_spec(value: std::io::Error) -> PamConfigError {
        PamConfigError::Io(value)
    }
}

impl From<PamConfigSyntaxError> for PamConfigError {
    fn from(value: PamConfigSyntaxError) -> (r: Self)
    {
        PamConfigError::Syntax(value)
    }
}

impl vstd::std_specs::convert::FromSpecImpl<PamConfigSyntaxError> for PamConfigError {
    open spec fn obeys_from_spec() -> bool {
        true
    }

    open spec fn from_spec(value: PamConfigSyntaxError) -> PamConfigError {
        PamConfigError::Syntax(value)
    }
}

} // verus!
