//! The verifier: confirms an instruction's shape — operand count,
//! operand kind, and numeric field range — before the encoder is
//! trusted to run.

use crate::strutil::{chars_of, eq_ignore_ascii_case, spec_eq_ci};
use crate::tokens::Token;
use vstd::prelude::*;
use vstd::string::StringExecFns;

verus! {

impl Token {
    pub fn is_register(&self) -> (r: bool)
        ensures
            r == (self matches Token::Register(_)),
    {
        matches!(self, Token::Register(_))
    }

    pub fn is_literal(&self) -> (r: bool)
        ensures
            r == (self matches Token::Literal(_)),
    {
        matches!(self, Token::Literal(_))
    }

    pub fn is_memory_address(&self) -> (r: bool)
        ensures
            r == (self matches Token::MemAddr(_)),
    {
        matches!(self, Token::MemAddr(_))
    }

    pub fn is_memory_address_pointer(&self) -> (r: bool)
        ensures
            r == (self matches Token::MemPointer(_)),
    {
        matches!(self, Token::MemPointer(_))
    }

    pub fn is_register_pointer(&self) -> (r: bool)
        ensures
            r == (self matches Token::RegPointer(_)),
    {
        matches!(self, Token::RegPointer(_))
    }

    pub fn is_srcall(&self) -> (r: bool)
        ensures
            r == (self matches Token::SRCall(_)),
    {
        matches!(self, Token::SRCall(_))
    }

    /// Whether a token can stand as an operand at all.
    pub fn is_valid_arg(&self) -> (r: bool)
        ensures
            r == (self matches Token::Register(_) || self matches Token::Literal(_)
                || self matches Token::SRCall(_) || self matches Token::MemAddr(_)
                || self matches Token::MemPointer(_) || self matches Token::RegPointer(_)),
    {
        self.is_register() || self.is_literal() || self.is_srcall() || self.is_memory_address()
            || self.is_memory_address_pointer() || self.is_register_pointer()
    }
}

/// Whether a token may stand as the source of a two-operand arithmetic
/// or move instruction: a register, a literal inside its sign-magnitude
/// byte, a register pointer, or a memory pointer inside its seven-bit
/// field.
pub open spec fn spec_mov_src_ok(t: Token) -> bool {
    match t {
        Token::Register(_) => true,
        Token::Literal(b) => 0 <= b <= 255,
        Token::RegPointer(_) => true,
        Token::MemPointer(m) => 0 <= m <= 127,
        _ => false,
    }
}

/// The shape contract of one instruction line, per mnemonic:
/// no-operand `HLT`/`RET`; two-operand `ADD`/`LD`/`ST`/`MOV`/`MUL`/
/// `CMP`/`DIV`; one-operand `JO`/`JMP`/`JZ`/`PUSH`/`POP`; zero-or-one
/// `INT`.  Kinds and field ranges per instruction: `LD` reads a
/// nine-bit direct address, `ST` writes a direct address or through a
/// register pointer, jumps take a direct target inside twelve bits (the
/// INDIRECT flag clear), a register pointer or a subroutine reference,
/// and `INT` takes a non-negative literal.  A line whose first token is
/// not one of these mnemonics is passed through unchecked.
pub open spec fn spec_verify_ok(ins: Token, a1: Option<Token>, a2: Option<Token>) -> bool {
    match ins {
        Token::Ident(name) => {
            let s = name@;
            if spec_eq_ci(s, "HLT"@) || spec_eq_ci(s, "RET"@) {
                a1 is None && a2 is None
            } else if spec_eq_ci(s, "LD"@) {
                match (a1, a2) {
                    (Some(Token::Register(_)), Some(Token::MemAddr(n))) => 0 <= n <= 511,
                    _ => false,
                }
            } else if spec_eq_ci(s, "ST"@) {
                match (a1, a2) {
                    (Some(Token::MemAddr(n)), Some(Token::Register(_))) => 0 <= n <= 511,
                    (Some(Token::RegPointer(_)), Some(Token::Register(_))) => true,
                    _ => false,
                }
            } else if spec_eq_ci(s, "MOV"@) || spec_eq_ci(s, "MUL"@) || spec_eq_ci(s, "DIV"@)
                || spec_eq_ci(s, "ADD"@) || spec_eq_ci(s, "CMP"@) {
                match (a1, a2) {
                    (Some(Token::Register(_)), Some(src)) => spec_mov_src_ok(src),
                    _ => false,
                }
            } else if spec_eq_ci(s, "INT"@) {
                a2 is None && match a1 {
                    None => true,
                    Some(Token::Literal(b)) => 0 <= b <= 127,
                    Some(_) => false,
                }
            } else if spec_eq_ci(s, "JZ"@) || spec_eq_ci(s, "JO"@) || spec_eq_ci(s, "JMP"@) {
                a2 is None && match a1 {
                    Some(Token::RegPointer(_)) => true,
                    Some(Token::SRCall(_)) => true,
                    Some(Token::MemAddr(n)) => 0 <= n <= 2047,
                    _ => false,
                }
            } else if spec_eq_ci(s, "PUSH"@) || spec_eq_ci(s, "POP"@) {
                a2 is None && match a1 {
                    Some(Token::Register(_)) => true,
                    Some(Token::Literal(b)) => 0 <= b <= 255,
                    _ => false,
                }
            } else {
                true
            }
        },
        _ => true,
    }
}

/// Checks one instruction line against its mnemonic's shape contract.
/// Accepts exactly the lines of `spec_verify_ok`; every rejection names
/// the instruction and the line.
pub fn verify(ins: &Token, arg1: Option<&Token>, arg2: Option<&Token>, line_num: u32) -> (r:
    Result<(), String>)
    ensures
        (r is Ok) == spec_verify_ok(*ins, crate::encoder::deref_opt(arg1), crate::encoder::deref_opt(arg2)),
{
    match ins {
        Token::Ident(name) => {
            let up = chars_of(name.as_str());
            if eq_ignore_ascii_case(&up, "HLT") || eq_ignore_ascii_case(&up, "RET") {
                only_none(arg1, arg2, "HLT/RET", line_num)
            } else if eq_ignore_ascii_case(&up, "LD") {
                match only_two(arg1, arg2, "LD", line_num) {
                    Ok(()) => ld_args(arg1, arg2, line_num),
                    Err(e) => Err(e),
                }
            } else if eq_ignore_ascii_case(&up, "ST") {
                match only_two(arg1, arg2, "ST", line_num) {
                    Ok(()) => st_args(arg1, arg2, line_num),
                    Err(e) => Err(e),
                }
            } else if eq_ignore_ascii_case(&up, "MOV") || eq_ignore_ascii_case(&up, "MUL")
                || eq_ignore_ascii_case(&up, "DIV") || eq_ignore_ascii_case(&up, "ADD")
                || eq_ignore_ascii_case(&up, "CMP") {
                match only_two(arg1, arg2, "MOV/MUL/DIV/ADD/CMP", line_num) {
                    Ok(()) => mov_args(arg1, arg2, line_num),
                    Err(e) => Err(e),
                }
            } else if eq_ignore_ascii_case(&up, "INT") {
                match one_none(arg1, arg2, "INT", line_num) {
                    Ok(()) => int_args(arg1, arg2, line_num),
                    Err(e) => Err(e),
                }
            } else if eq_ignore_ascii_case(&up, "JZ") || eq_ignore_ascii_case(&up, "JO")
                || eq_ignore_ascii_case(&up, "JMP") {
                match only_one(arg1, arg2, "JMP/JZ/JO", line_num) {
                    Ok(()) => jump_args(arg1, line_num),
                    Err(e) => Err(e),
                }
            } else if eq_ignore_ascii_case(&up, "PUSH") || eq_ignore_ascii_case(&up, "POP") {
                match only_one(arg1, arg2, "PUSH/POP", line_num) {
                    Ok(()) => push_args(arg1, line_num),
                    Err(e) => Err(e),
                }
            } else {
                Ok(())
            }
        },
        _ => Ok(()),
    }
}

fn shape_err(instruction: &str, what: &str, line_num: u32) -> (r: String) {
    let mut s = instruction.to_owned();
    s.append(" ");
    s.append(what);
    s.append(" at line ");
    let n = crate::numtext::u32_str(line_num);
    s.append(n.as_str());
    s
}

fn only_none(arg1: Option<&Token>, arg2: Option<&Token>, instruction: &str, line_num: u32) -> (r:
    Result<(), String>)
    ensures
        (r is Ok) == (arg1 is None && arg2 is None),
{
    if arg1.is_some() || arg2.is_some() {
        Err(shape_err(instruction, "requires no arguments", line_num))
    } else {
        Ok(())
    }
}

fn only_two(arg1: Option<&Token>, arg2: Option<&Token>, instruction: &str, line_num: u32) -> (r:
    Result<(), String>)
    ensures
        (r is Ok) == (arg1 is Some && arg2 is Some),
{
    if arg1.is_none() || arg2.is_none() {
        Err(shape_err(instruction, "requires two arguments", line_num))
    } else {
        Ok(())
    }
}

fn one_none(arg1: Option<&Token>, arg2: Option<&Token>, instruction: &str, line_num: u32) -> (r:
    Result<(), String>)
    ensures
        (r is Ok) == !(arg1 is Some && arg2 is Some),
{
    if arg1.is_some() && arg2.is_some() {
        Err(shape_err(instruction, "requires one or no arguments", line_num))
    } else {
        Ok(())
    }
}

fn only_one(arg1: Option<&Token>, arg2: Option<&Token>, instruction: &str, line_num: u32) -> (r:
    Result<(), String>)
    ensures
        (r is Ok) == (arg1 is Some && arg2 is None),
{
    if arg1.is_none() || arg2.is_some() {
        Err(shape_err(instruction, "requires one argument", line_num))
    } else {
        Ok(())
    }
}

fn ld_args(arg1: Option<&Token>, arg2: Option<&Token>, line_num: u32) -> (r: Result<(), String>)
    requires
        arg1 is Some,
        arg2 is Some,
    ensures
        (r is Ok) == match (arg1, arg2) {
            (Some(Token::Register(_)), Some(Token::MemAddr(n))) => 0 <= *n <= 511,
            _ => false,
        },
{
    match (arg1, arg2) {
        (Some(Token::Register(_)), Some(Token::MemAddr(n))) => {
            if *n < 0 || *n > 511 {
                Err(shape_err("LD", "address does not fit nine bits", line_num))
            } else {
                Ok(())
            }
        },
        (Some(Token::Register(_)), _) => {
            Err(shape_err("LD", "requires RHS to be a Memory address", line_num))
        },
        _ => Err(shape_err("LD", "requires LHS to be a Register", line_num)),
    }
}

fn st_args(arg1: Option<&Token>, arg2: Option<&Token>, line_num: u32) -> (r: Result<(), String>)
    requires
        arg1 is Some,
        arg2 is Some,
    ensures
        (r is Ok) == match (arg1, arg2) {
            (Some(Token::MemAddr(n)), Some(Token::Register(_))) => 0 <= *n <= 511,
            (Some(Token::RegPointer(_)), Some(Token::Register(_))) => true,
            _ => false,
        },
{
    match (arg1, arg2) {
        (Some(Token::MemAddr(n)), Some(Token::Register(_))) => {
            if *n < 0 || *n > 511 {
                Err(shape_err("ST", "address does not fit nine bits", line_num))
            } else {
                Ok(())
            }
        },
        (Some(Token::RegPointer(_)), Some(Token::Register(_))) => Ok(()),
        (Some(Token::MemAddr(_)), _) | (Some(Token::RegPointer(_)), _) => {
            Err(shape_err("ST", "requires RHS to be a Register", line_num))
        },
        _ => Err(
            shape_err("ST", "requires LHS to be a Register pointer or Memory address", line_num),
        ),
    }
}

fn mov_args(arg1: Option<&Token>, arg2: Option<&Token>, line_num: u32) -> (r: Result<(), String>)
    requires
        arg1 is Some,
        arg2 is Some,
    ensures
        (r is Ok) == match (arg1, arg2) {
            (Some(Token::Register(_)), Some(src)) => spec_mov_src_ok(*src),
            _ => false,
        },
{
    match arg1 {
        Some(Token::Register(_)) => {},
        _ => {
            return Err(
                shape_err("MOV/MUL/DIV/ADD/CMP", "requires LHS to be a Register", line_num),
            );
        },
    }
    match arg2 {
        Some(Token::Register(_)) => Ok(()),
        Some(Token::RegPointer(_)) => Ok(()),
        Some(Token::Literal(b)) => {
            if *b < 0 || *b > 255 {
                Err(
                    shape_err(
                        "MOV/MUL/DIV/ADD/CMP",
                        "literal does not fit its sign-magnitude byte",
                        line_num,
                    ),
                )
            } else {
                Ok(())
            }
        },
        Some(Token::MemPointer(m)) => {
            if *m < 0 || *m > 127 {
                Err(
                    shape_err(
                        "MOV/MUL/DIV/ADD/CMP",
                        "memory pointer does not fit seven bits",
                        line_num,
                    ),
                )
            } else {
                Ok(())
            }
        },
        _ => Err(
            shape_err(
                "MOV/MUL/DIV/ADD/CMP",
                "requires RHS to be a Register, literal, register pointer, or memory address pointer",
                line_num,
            ),
        ),
    }
}

fn int_args(arg1: Option<&Token>, arg2: Option<&Token>, line_num: u32) -> (r: Result<(), String>)
    requires
        !(arg1 is Some && arg2 is Some),
    ensures
        (r is Ok) == (arg2 is None && match arg1 {
            None => true,
            Some(Token::Literal(b)) => 0 <= *b <= 127,
            Some(_) => false,
        }),
{
    match arg1 {
        None => {
            if arg2.is_some() {
                Err(shape_err("INT", "takes its operand first", line_num))
            } else {
                Ok(())
            }
        },
        Some(Token::Literal(b)) => {
            if *b < 0 || *b > 127 {
                Err(shape_err("INT", "requires a non-negative interrupt number", line_num))
            } else {
                Ok(())
            }
        },
        Some(_) => Err(shape_err("INT", "requires SRC to be a Literal", line_num)),
    }
}

fn push_args(arg1: Option<&Token>, line_num: u32) -> (r: Result<(), String>)
    requires
        arg1 is Some,
    ensures
        (r is Ok) == match arg1 {
            Some(Token::Register(_)) => true,
            Some(Token::Literal(b)) => 0 <= *b <= 255,
            _ => false,
        },
{
    match arg1 {
        Some(Token::Register(_)) => Ok(()),
        Some(Token::Literal(b)) => {
            if *b < 0 || *b > 255 {
                Err(
                    shape_err(
                        "PUSH/POP",
                        "literal does not fit its sign-magnitude byte",
                        line_num,
                    ),
                )
            } else {
                Ok(())
            }
        },
        _ => Err(shape_err("PUSH/POP", "requires SRC to be a Register or Literal", line_num)),
    }
}

fn jump_args(arg1: Option<&Token>, line_num: u32) -> (r: Result<(), String>)
    requires
        arg1 is Some,
    ensures
        (r is Ok) == match arg1 {
            Some(Token::RegPointer(_)) => true,
            Some(Token::SRCall(_)) => true,
            Some(Token::MemAddr(n)) => 0 <= *n <= 2047,
            _ => false,
        },
{
    match arg1 {
        Some(Token::RegPointer(_)) => Ok(()),
        Some(Token::SRCall(_)) => Ok(()),
        Some(Token::MemAddr(n)) => {
            if *n < 0 || *n > 2047 {
                Err(shape_err("JMP/JZ/JO", "target does not fit twelve bits", line_num))
            } else {
                Ok(())
            }
        },
        _ => Err(
            shape_err(
                "JMP/JZ/JO",
                "requires DEST to be a Register pointer, Memory address, or SRCall",
                line_num,
            ),
        ),
    }
}

} // verus!
