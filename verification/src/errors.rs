//! The assembler's source-error taxonomy and its diagnostic tips.
//! Every error carries its line and, where known, the offending column,
//! so the driver can format a precise diagnostic.

use vstd::prelude::*;

verus! {

/// A source error from the lexer or the line-level checks: the text of
/// the complaint, the line, and the column where it was raised.
pub enum Error<'a> {
    InvalidSyntax(&'a str, u32, Option<u32>),
    ExpectedArgument(&'a str, u32, Option<u32>),
    NonexistentData(&'a str, u32, Option<u32>),
    UnknownCharacter(String, u32, Option<u32>),
    OtherError(&'a str, u32, Option<u32>),
    LineLessError(&'a str),
}

impl<'a> Error<'a> {
    /// The message of an error that carries no line number; empty for
    /// the line-tagged kinds, which format their own text.
    pub fn message(&self) -> (r: &'a str)
        ensures
            (self matches Error::LineLessError(s) ==> r == s),
    {
        match self {
            Error::LineLessError(s) => s,
            _ => "",
        }
    }

    /// The line an error points at; zero for a line-less error.
    pub fn line(&self) -> (r: u32)
        ensures
            match *self {
                Error::InvalidSyntax(_, n, _) => r == n,
                Error::ExpectedArgument(_, n, _) => r == n,
                Error::NonexistentData(_, n, _) => r == n,
                Error::UnknownCharacter(_, n, _) => r == n,
                Error::OtherError(_, n, _) => r == n,
                Error::LineLessError(_) => r == 0,
            },
    {
        match self {
            Error::InvalidSyntax(_, n, _) => *n,
            Error::ExpectedArgument(_, n, _) => *n,
            Error::NonexistentData(_, n, _) => *n,
            Error::UnknownCharacter(_, n, _) => *n,
            Error::OtherError(_, n, _) => *n,
            Error::LineLessError(_) => 0,
        }
    }
}

/// A hint shown beside an error when tips are enabled.
pub enum Tip<'a> {
    Try(&'a str),
    Maybe(&'a str),
    NoIdea(&'a str),
}

impl<'a> Tip<'a> {
    /// The hint's text.
    pub fn text(&self) -> (r: &'a str)
        ensures
            match *self {
                Tip::Try(s) => r == s,
                Tip::Maybe(s) => r == s,
                Tip::NoIdea(s) => r == s,
            },
    {
        match self {
            Tip::Try(s) => s,
            Tip::Maybe(s) => s,
            Tip::NoIdea(s) => s,
        }
    }
}

} // verus!
