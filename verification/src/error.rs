//! Error types: everything the parser, the rule compiler and the generator
//! can report, with a specification-level model for each.

use fancy_regex::Error as RegexError;
use vstd::prelude::*;

verus! {

/// Specification-level model of a `ParseError`: the same variants over
/// character sequences, with the regex engine's own diagnostic dropped.
pub enum PErr {
    ModeAlreadyDefined,
    InvalidModeSpecifier,
    NoClassName,
    InvalidClassName(Seq<char>),
    ClassAlreadyExists(Seq<char>),
    NoClassPattern(Seq<char>),
    InvalidTestIntent,
    EmptyNote,
    UnknownStatementOperator(char),
    UnexpectedClassNameOpen,
    UnexpectedClassNameClose,
    ClassNotFound(Seq<char>),
    UnexpectedPatternEnd,
    RecursiveClassReference,
    RegexParseFail,
}

/// An error found while parsing a source file.
#[derive(Debug)]
pub enum ParseError {
    /// A mode statement appeared although a mode was already set
    ModeAlreadyDefined,
    /// A mode statement did not name one of the recognized bracket pairs
    InvalidModeSpecifier,
    /// A class definition gave no name
    NoClassName,
    /// A class name is not a legal identifier
    InvalidClassName(String),
    /// A class with this name was already defined
    ClassAlreadyExists(String),
    /// A class definition gave no pattern
    NoClassPattern(String),
    /// A test statement did not state a valid intent
    InvalidTestIntent,
    /// A note statement was empty
    EmptyNote,
    /// A statement began with an unknown operator character
    UnknownStatementOperator(char),
    /// A class-reference opening bracket inside a name being read
    UnexpectedClassNameOpen,
    /// A class-reference closing bracket with no name being read
    UnexpectedClassNameClose,
    /// A referenced class is not defined
    ClassNotFound(String),
    /// A pattern ended while a class name was still being read
    UnexpectedPatternEnd,
    /// Class references nest deeper than the number of defined classes, so
    /// some class is referenced from its own expansion
    RecursiveClassReference,
    /// The substituted pattern was rejected by the regex engine; carries the
    /// engine's own diagnostic
    RegexParseFail(RegexError),
}

impl View for ParseError {
    type V = PErr;

    open spec fn view(&self) -> PErr {
        match self {
            ParseError::ModeAlreadyDefined => PErr::ModeAlreadyDefined,
            ParseError::InvalidModeSpecifier => PErr::InvalidModeSpecifier,
            ParseError::NoClassName => PErr::NoClassName,
            ParseError::InvalidClassName(s) => PErr::InvalidClassName(s@),
            ParseError::ClassAlreadyExists(s) => PErr::ClassAlreadyExists(s@),
            ParseError::NoClassPattern(s) => PErr::NoClassPattern(s@),
            ParseError::InvalidTestIntent => PErr::InvalidTestIntent,
            ParseError::EmptyNote => PErr::EmptyNote,
            ParseError::UnknownStatementOperator(c) => PErr::UnknownStatementOperator(*c),
            ParseError::UnexpectedClassNameOpen => PErr::UnexpectedClassNameOpen,
            ParseError::UnexpectedClassNameClose => PErr::UnexpectedClassNameClose,
            ParseError::ClassNotFound(s) => PErr::ClassNotFound(s@),
            ParseError::UnexpectedPatternEnd => PErr::UnexpectedPatternEnd,
            ParseError::RecursiveClassReference => PErr::RecursiveClassReference,
            ParseError::RegexParseFail(_) => PErr::RegexParseFail,
        }
    }
}

/// Specification-level model of an `Error`.
pub enum ErrV {
    Parse(PErr, usize),
    MissingAnyClass,
}

/// Any error this library reports.
#[derive(Debug)]
pub enum Error {
    /// A parse error, with the line number it arose on
    Parse(ParseError, usize),
    /// Word generation was asked for, but no alphabet class is defined
    MissingAnyClass,
}

impl View for Error {
    type V = ErrV;

    open spec fn view(&self) -> ErrV {
        match self {
            Error::Parse(pe, line) => ErrV::Parse(pe@, *line),
            Error::MissingAnyClass => ErrV::MissingAnyClass,
        }
    }
}

} // verus!
