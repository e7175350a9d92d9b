//! The lexical tokens of one assembly source line.

use crate::numtext::{i16_str, spec_int_str};
use vstd::prelude::*;

verus! {

/// A tagged value produced by the lexer.  Numeric payloads are the raw
/// field values; a `Literal` payload is the sign-magnitude byte in which
/// the lexer stores a literal (bit 7 the sign, bits 6..0 the magnitude).
pub enum Token {
    Ident(String),
    Register(i16),
    Comma,
    Literal(i16),
    NewLine,
    Eol,
    SRCall(String),
    SR(String),
    MemAddr(i16),
    Label(String),
    RegPointer(i16),
    MemPointer(i16),
}

impl Token {
    /// The text a token shows in diagnostics: its own string for the
    /// string-carrying kinds, the decimal value for the numeric kinds.
    pub open spec fn spec_raw(self) -> Seq<char> {
        match self {
            Token::Ident(s) => s@,
            Token::Register(n) => spec_int_str(n as int),
            Token::Comma => "comma"@,
            Token::Literal(n) => spec_int_str(n as int),
            Token::NewLine => "newline"@,
            Token::Eol => "eol"@,
            Token::SRCall(s) => s@,
            Token::SR(s) => s@,
            Token::MemAddr(n) => spec_int_str(n as int),
            Token::Label(s) => s@,
            Token::RegPointer(n) => spec_int_str(n as int),
            Token::MemPointer(n) => spec_int_str(n as int),
        }
    }

    pub fn get_raw(&self) -> (r: String)
        ensures
            r@ == self.spec_raw(),
    {
        match self {
            Token::Ident(s) => s.clone(),
            Token::Register(n) => i16_str(*n),
            Token::Comma => "comma".to_owned(),
            Token::Literal(n) => i16_str(*n),
            Token::NewLine => "newline".to_owned(),
            Token::Eol => "eol".to_owned(),
            Token::SRCall(s) => s.clone(),
            Token::SR(s) => s.clone(),
            Token::MemAddr(n) => i16_str(*n),
            Token::Label(s) => s.clone(),
            Token::RegPointer(n) => i16_str(*n),
            Token::MemPointer(n) => i16_str(*n),
        }
    }

    /// The numeric payload of a numeric token; `-1` for the others.
    pub open spec fn spec_num(self) -> i16 {
        match self {
            Token::Register(n) => n,
            Token::Literal(n) => n,
            Token::MemAddr(n) => n,
            Token::RegPointer(n) => n,
            Token::MemPointer(n) => n,
            _ => (-1) as i16,
        }
    }

    pub fn get_num(&self) -> (r: i16)
        ensures
            r == self.spec_num(),
    {
        match self {
            Token::Register(n) => *n,
            Token::Literal(n) => *n,
            Token::MemAddr(n) => *n,
            Token::RegPointer(n) => *n,
            Token::MemPointer(n) => *n,
            _ => -1,
        }
    }
}

} // verus!
