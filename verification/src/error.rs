//! The ways in which preprocessing fails. Every failure aborts the run: none
//! is recovered from, and no partial output is produced.

use crate::token::{Location, LocationView};
use vstd::prelude::*;

verus! {

/// Which shape a directive was required to have and did not.
#[derive(Debug, Clone, Copy, PartialEq, Eq, Structural)]
pub enum SyntaxProblem {
    /// `#ifdef` or `#ifndef` is not followed by a macro name.
    ConditionalName,
    /// A conditional has no `#endif`.
    UnterminatedConditional,
    /// `#define` is not followed by a macro name.
    DefinitionName,
    /// Nothing follows the name in a `#define`.
    DefinitionForm,
    /// The name in a `#define` is followed by something other than `=`, an
    /// opening bracket or `#end`.
    DefinitionShape,
    /// The parameter list of a function macro is malformed, or neither `=`
    /// nor `#end` follows it.
    FunctionMacro,
    /// `#undef` is not followed by a macro name.
    UndefName,
    /// `#include` is not followed by a string literal.
    IncludePath,
}

/// A failure of the preprocessor.
#[derive(Debug)]
pub enum Error {
    /// No lexical pattern matches the input at some position.
    TokenizationError,
    /// A directive does not have the shape it must have.
    SyntaxError { problem: SyntaxProblem, location: Location },
    /// A macro is invoked that is not defined.
    UndefinedMacroError { name: String, location: Location },
    /// The argument list of a function macro's call has no opening bracket
    /// or is not closed.
    ArgumentParseError { location: Location },
    /// An included file is not among the sources at hand.
    IncludeIOError { path: String, location: Location },
    /// Expansion nests deeper than the ceiling it was given.
    ExpansionTooDeep { location: Location },
}

/// The value of an [`Error`].
pub ghost enum ErrorView {
    TokenizationError,
    SyntaxError { problem: SyntaxProblem, location: LocationView },
    UndefinedMacroError { name: Seq<char>, location: LocationView },
    ArgumentParseError { location: LocationView },
    IncludeIOError { path: Seq<char>, location: LocationView },
    ExpansionTooDeep { location: LocationView },
}

impl View for Error {
    type V = ErrorView;

    open spec fn view(&self) -> ErrorView {
        match *self {
            Error::TokenizationError => ErrorView::TokenizationError,
            Error::SyntaxError { problem, location } => ErrorView::SyntaxError {
                problem,
                location: location@,
            },
            Error::UndefinedMacroError { name, location } => ErrorView::UndefinedMacroError {
                name: name@,
                location: location@,
            },
            Error::ArgumentParseError { location } => ErrorView::ArgumentParseError {
                location: location@,
            },
            Error::IncludeIOError { path, location } => ErrorView::IncludeIOError {
                path: path@,
                location: location@,
            },
            Error::ExpansionTooDeep { location } => ErrorView::ExpansionTooDeep {
                location: location@,
            },
        }
    }
}

/// A syntax error at `location`.
pub open spec fn syntax_error(problem: SyntaxProblem, location: LocationView) -> ErrorView {
    ErrorView::SyntaxError { problem, location }
}

} // verus!
