//! The encoder: maps a verified (mnemonic, operand, operand) triple into
//! one 16-bit instruction word, resolving subroutine references through
//! the symbol table.  The exact inverse of the decoder in `isa`.

use crate::numtext::u32_str;
use crate::strutil::{chars_of, eq_ignore_ascii_case, spec_eq_ci};
use crate::symbols::SymbolTable;
use crate::tokens::Token;
use vstd::prelude::*;
use vstd::string::StringExecFns;

verus! {

/// The token an `Option<&Token>` argument denotes.
pub open spec fn deref_opt(a: Option<&Token>) -> Option<Token> {
    match a {
        Some(t) => Some(*t),
        None => None,
    }
}

/// The directive code a `.`-label keyword maps to: 1 sets the load
/// address, 2 the stack pointer, 3 the base pointer.
pub open spec fn spec_label_code(k: Seq<char>) -> Option<u16> {
    if k == "start"@ {
        Some(1u16)
    } else if k == "ssp"@ {
        Some(2u16)
    } else if k == "sbp"@ {
        Some(3u16)
    } else {
        None
    }
}

/// The binary field one operand token encodes to, with its addressing
/// mode bit.  `None` is an encoding error: a register outside 0..=7, a
/// literal outside its sign-magnitude byte, a pointer outside its field,
/// a negative address, an unresolved subroutine name, or an unknown
/// label keyword.  An absent operand encodes to 0.
pub open spec fn spec_arg_bin(a: Option<Token>, tab: SymbolTable) -> Option<u16> {
    match a {
        None => Some(0u16),
        Some(Token::Register(n)) => if 0 <= n <= 7 {
            Some(n as u16)
        } else {
            None
        },
        Some(Token::Literal(l)) => if 0 <= l <= 255 {
            Some((256 + l) as u16)
        } else {
            None
        },
        Some(Token::SRCall(s)) => tab.spec_get(s@),
        Some(Token::SR(s)) => tab.spec_get(s@),
        Some(Token::MemAddr(n)) => if n >= 0 {
            Some(n as u16)
        } else {
            None
        },
        Some(Token::Label(k)) => spec_label_code(k@),
        Some(Token::MemPointer(m)) => if 0 <= m <= 127 {
            Some((128 + m) as u16)
        } else {
            None
        },
        Some(Token::RegPointer(r)) => if 0 <= r <= 7 {
            Some((64 + r) as u16)
        } else {
            None
        },
        Some(_) => Some(0u16),
    }
}

/// The opcode a mnemonic selects, matched without regard to ASCII case.
/// `JGE`, `CL`, `JNZ` and `ET` are accepted legacy spellings of `JO`,
/// `POP`, `JZ` and `RET`.
pub open spec fn spec_mnemonic_op(s: Seq<char>) -> Option<u16> {
    if spec_eq_ci(s, "HLT"@) {
        Some(crate::isa::HLT_OP)
    } else if spec_eq_ci(s, "ADD"@) {
        Some(crate::isa::ADD_OP)
    } else if spec_eq_ci(s, "JO"@) || spec_eq_ci(s, "JGE"@) {
        Some(crate::isa::JO_OP)
    } else if spec_eq_ci(s, "POP"@) || spec_eq_ci(s, "CL"@) {
        Some(crate::isa::POP_OP)
    } else if spec_eq_ci(s, "DIV"@) {
        Some(crate::isa::DIV_OP)
    } else if spec_eq_ci(s, "RET"@) || spec_eq_ci(s, "ET"@) {
        Some(crate::isa::RET_OP)
    } else if spec_eq_ci(s, "LD"@) {
        Some(crate::isa::LD_OP)
    } else if spec_eq_ci(s, "ST"@) {
        Some(crate::isa::ST_OP)
    } else if spec_eq_ci(s, "JMP"@) {
        Some(crate::isa::JMP_OP)
    } else if spec_eq_ci(s, "JZ"@) || spec_eq_ci(s, "JNZ"@) {
        Some(crate::isa::JZ_OP)
    } else if spec_eq_ci(s, "CMP"@) {
        Some(crate::isa::CMP_OP)
    } else if spec_eq_ci(s, "MUL"@) {
        Some(crate::isa::MUL_OP)
    } else if spec_eq_ci(s, "PUSH"@) {
        Some(crate::isa::PUSH_OP)
    } else if spec_eq_ci(s, "INT"@) {
        Some(crate::isa::INT_OP)
    } else if spec_eq_ci(s, "NOP"@) {
        Some(crate::isa::NOP_OP)
    } else if spec_eq_ci(s, "MOV"@) {
        Some(crate::isa::MOV_OP)
    } else {
        None
    }
}

/// Whether an opcode takes the one-operand field layout on its own.
pub open spec fn spec_is_one_arg(op: u16) -> bool {
    op == crate::isa::POP_OP || op == crate::isa::PUSH_OP || op == crate::isa::INT_OP
}

/// The word an instruction line encodes to, given the opcode its
/// mnemonic selects.  The layout is a pure function of the mnemonic:
/// two-operand forms place the destination register in bits 11..9 and
/// the mode-tagged source in the low bits; one-operand forms place the
/// operand in the low 12 bits; the jump family sets bit 11 for a
/// register-indirect target; `ST` has its own direct and indirect forms.
pub open spec fn spec_encode_with_op(
    op: u16,
    a1: Option<Token>,
    a2: Option<Token>,
    tab: SymbolTable,
) -> Option<u16> {
    let sel = if a1 is Some {
        a1
    } else {
        a2
    };
    if crate::isa::spec_is_jump(op) {
        match sel {
            Some(Token::SRCall(_)) => match spec_arg_bin(a1, tab) {
                Some(addr) => if addr <= 4095 {
                    Some((op * 4096 + addr) as u16)
                } else {
                    None
                },
                None => None,
            },
            Some(Token::RegPointer(_)) => match a1 {
                Some(t) => {
                    let r = t.spec_num();
                    if 0 <= r <= 7 {
                        Some((op * 4096 + 2048 + r) as u16)
                    } else {
                        None
                    }
                },
                None => None,
            },
            _ => match spec_arg_bin(a1, tab) {
                Some(ab) => if ab <= 4095 {
                    Some((op * 4096 + ab) as u16)
                } else {
                    None
                },
                None => None,
            },
        }
    } else if spec_is_one_arg(op) {
        match spec_arg_bin(a1, tab) {
            Some(ab) => if ab <= 4095 {
                Some((op * 4096 + ab) as u16)
            } else {
                None
            },
            None => None,
        }
    } else if op == crate::isa::ST_OP {
        match sel {
            Some(Token::RegPointer(_)) => match (a1, spec_arg_bin(a2, tab)) {
                (Some(t), Some(a2b)) => {
                    let r = t.spec_num();
                    if 0 <= r <= 7 && a2b <= 7 {
                        Some((op * 4096 + 2048 + r * 128 + a2b) as u16)
                    } else {
                        None
                    }
                },
                _ => None,
            },
            _ => match (spec_arg_bin(a1, tab), spec_arg_bin(a2, tab)) {
                (Some(a1b), Some(a2b)) => if a1b <= 511 && a2b <= 7 {
                    Some((op * 4096 + a1b * 8 + a2b) as u16)
                } else {
                    None
                },
                _ => None,
            },
        }
    } else {
        match (spec_arg_bin(a1, tab), spec_arg_bin(a2, tab)) {
            (Some(a1b), Some(a2b)) => if a1b <= 7 && a2b <= 511 {
                Some((op * 4096 + a1b * 512 + a2b) as u16)
            } else {
                None
            },
            _ => None,
        }
    }
}

/// The word a whole line encodes to: an instruction for a mnemonic
/// identifier, a directive word for a `.`-label, an error otherwise.
pub open spec fn spec_encode(
    ins: Token,
    a1: Option<Token>,
    a2: Option<Token>,
    tab: SymbolTable,
) -> Option<u16> {
    match ins {
        Token::Ident(name) => match spec_mnemonic_op(name@) {
            Some(op) => spec_encode_with_op(op, a1, a2, tab),
            None => None,
        },
        Token::Label(k) => match (spec_label_code(k@), spec_arg_bin(a1, tab)) {
            (Some(code), Some(p)) => if p <= 511 {
                Some((code * 512 + p) as u16)
            } else {
                None
            },
            _ => None,
        },
        _ => None,
    }
}

/// A 16-bit word carried in an `i16` keeps its bits: casting back to
/// `u16` restores it.
proof fn lemma_u16_i16_round(w: u16)
    ensures
        (#[verifier::truncate] (w as i16)) as u16 == w,
{
    assert((#[verifier::truncate] (w as i16)) as u16 == w) by (bit_vector);
}

/// A diagnostic of the shape `<msg> at line <n>`.
fn err_at(msg: &str, line_num: u32) -> (r: String) {
    let mut s = msg.to_owned();
    s.append(" at line ");
    let n = u32_str(line_num);
    s.append(n.as_str());
    s
}

/// Encodes one operand token to its binary field.  See `spec_arg_bin`
/// for the exact mapping; every error is reported, none is truncated
/// away.
pub fn argument_to_binary(arg: Option<&Token>, tab: &SymbolTable, line_num: u32) -> (r: Result<
    i16,
    String,
>)
    ensures
        match (r, spec_arg_bin(deref_opt(arg), *tab)) {
            (Ok(v), Some(w)) => v as u16 == w,
            (Err(_), None) => true,
            _ => false,
        },
{
    match arg {
        Some(Token::Register(num)) => {
            if *num > 7 || *num < 0 {
                Err(err_at("Register number cannot be greater than 7", line_num))
            } else {
                Ok(*num)
            }
        },
        Some(Token::Literal(literal)) => {
            if *literal < 0 || *literal > 255 {
                Err(err_at("Literal does not fit its sign-magnitude byte", line_num))
            } else {
                Ok(256 + *literal)
            }
        },
        Some(Token::SRCall(sr)) => {
            let cs = chars_of(sr.as_str());
            match tab.get(&cs) {
                Some(address) => {
                    proof {
                        lemma_u16_i16_round(address);
                    }
                    Ok(#[verifier::truncate] (address as i16))
                },
                None => Err(err_at("Subroutine does not exist", line_num)),
            }
        },
        Some(Token::SR(sr)) => {
            let cs = chars_of(sr.as_str());
            match tab.get(&cs) {
                Some(address) => {
                    proof {
                        lemma_u16_i16_round(address);
                    }
                    Ok(#[verifier::truncate] (address as i16))
                },
                None => Err(err_at("Subroutine does not exist", line_num)),
            }
        },
        Some(Token::MemAddr(n)) => {
            if *n < 0 {
                Err(err_at("Memory address cannot be negative", line_num))
            } else {
                Ok(*n)
            }
        },
        Some(Token::Label(keyword)) => {
            if *keyword == "start".to_owned() {
                Ok(1)
            } else if *keyword == "ssp".to_owned() {
                Ok(2)
            } else if *keyword == "sbp".to_owned() {
                Ok(3)
            } else {
                Err(err_at("Label not recognized after '.'", line_num))
            }
        },
        Some(Token::MemPointer(mem)) => {
            if *mem < 0 || *mem > 127 {
                Err(err_at("Memory pointer does not fit its field", line_num))
            } else {
                Ok(128 + *mem)
            }
        },
        Some(Token::RegPointer(reg)) => {
            if *reg < 0 || *reg > 7 {
                Err(err_at("Register pointer does not fit its field", line_num))
            } else {
                Ok(64 + *reg)
            }
        },
        _ => Ok(0),
    }
}

/// Encodes one instruction line into its 16-bit word.  See
/// `spec_encode`: a word comes back exactly when the line is an
/// instruction or directive whose operands fit their fields, and its
/// value is pinned by the layout of `spec_encode_with_op`.
pub fn encode_instruction(
    ins: &Token,
    arg1: Option<&Token>,
    arg2: Option<&Token>,
    tab: &SymbolTable,
    line_num: u32,
) -> (r: Result<Option<i16>, String>)
    ensures
        match (r, spec_encode(*ins, deref_opt(arg1), deref_opt(arg2), *tab)) {
            (Ok(Some(v)), Some(w)) => v as u16 == w,
            (Err(_), None) => true,
            _ => false,
        },
{
    match ins {
        Token::Ident(instruction) => {
            let up = chars_of(instruction.as_str());
            let op: u16 = if eq_ignore_ascii_case(&up, "HLT") {
                crate::isa::HLT_OP
            } else if eq_ignore_ascii_case(&up, "ADD") {
                crate::isa::ADD_OP
            } else if eq_ignore_ascii_case(&up, "JO") || eq_ignore_ascii_case(&up, "JGE") {
                crate::isa::JO_OP
            } else if eq_ignore_ascii_case(&up, "POP") || eq_ignore_ascii_case(&up, "CL") {
                crate::isa::POP_OP
            } else if eq_ignore_ascii_case(&up, "DIV") {
                crate::isa::DIV_OP
            } else if eq_ignore_ascii_case(&up, "RET") || eq_ignore_ascii_case(&up, "ET") {
                crate::isa::RET_OP
            } else if eq_ignore_ascii_case(&up, "LD") {
                crate::isa::LD_OP
            } else if eq_ignore_ascii_case(&up, "ST") {
                crate::isa::ST_OP
            } else if eq_ignore_ascii_case(&up, "JMP") {
                crate::isa::JMP_OP
            } else if eq_ignore_ascii_case(&up, "JZ") || eq_ignore_ascii_case(&up, "JNZ") {
                crate::isa::JZ_OP
            } else if eq_ignore_ascii_case(&up, "CMP") {
                crate::isa::CMP_OP
            } else if eq_ignore_ascii_case(&up, "MUL") {
                crate::isa::MUL_OP
            } else if eq_ignore_ascii_case(&up, "PUSH") {
                crate::isa::PUSH_OP
            } else if eq_ignore_ascii_case(&up, "INT") {
                crate::isa::INT_OP
            } else if eq_ignore_ascii_case(&up, "NOP") {
                crate::isa::NOP_OP
            } else if eq_ignore_ascii_case(&up, "MOV") {
                crate::isa::MOV_OP
            } else {
                return Err(err_at("Instruction not recognized", line_num));
            };
            encode_with_op(op, arg1, arg2, tab, line_num)
        },
        Token::Label(_) => {
            let code = match argument_to_binary(Some(ins), tab, line_num) {
                Ok(c) => c,
                Err(e) => {
                    return Err(e);
                },
            };
            let payload = match argument_to_binary(arg1, tab, line_num) {
                Ok(p) => p,
                Err(e) => {
                    return Err(e);
                },
            };
            let p: u16 = #[verifier::truncate] (payload as u16);
            if p > 511 {
                return Err(err_at("Directive payload does not fit nine bits", line_num));
            }
            let word: u16 = (code as u16) * 512 + p;
            proof {
                lemma_u16_i16_round(word);
            }
            Ok(Some(#[verifier::truncate] (word as i16)))
        },
        _ => Err(err_at("Invalid instruction type", line_num)),
    }
}

/// Encodes the operands of one instruction under its opcode's layout.
fn encode_with_op(
    op: u16,
    arg1: Option<&Token>,
    arg2: Option<&Token>,
    tab: &SymbolTable,
    line_num: u32,
) -> (r: Result<Option<i16>, String>)
    requires
        op <= 15,
    ensures
        match (r, spec_encode_with_op(op, deref_opt(arg1), deref_opt(arg2), *tab)) {
            (Ok(Some(v)), Some(w)) => v as u16 == w,
            (Err(_), None) => true,
            _ => false,
        },
{
    let sel: Option<&Token> = if arg1.is_some() {
        arg1
    } else {
        arg2
    };
    let is_jump = op == crate::isa::JO_OP || op == crate::isa::JMP_OP || op == crate::isa::JZ_OP;
    let is_one_arg = op == crate::isa::POP_OP || op == crate::isa::PUSH_OP || op
        == crate::isa::INT_OP;
    if is_jump {
        match sel {
            Some(Token::SRCall(_)) => {
                let addr = match argument_to_binary(arg1, tab, line_num) {
                    Ok(a) => a,
                    Err(e) => {
                        return Err(e);
                    },
                };
                let a: u16 = #[verifier::truncate] (addr as u16);
                if a > 4095 {
                    return Err(err_at("Jump target does not fit twelve bits", line_num));
                }
                let word: u16 = op * 4096 + a;
                proof {
                    lemma_u16_i16_round(word);
                }
                Ok(Some(#[verifier::truncate] (word as i16)))
            },
            Some(Token::RegPointer(_)) => {
                match arg1 {
                    Some(t) => {
                        let r = t.get_num();
                        if r < 0 || r > 7 {
                            Err(err_at("Register pointer does not fit its field", line_num))
                        } else {
                            let word: u16 = op * 4096 + 2048 + r as u16;
                            proof {
                                lemma_u16_i16_round(word);
                            }
                            Ok(Some(#[verifier::truncate] (word as i16)))
                        }
                    },
                    None => Err(err_at("Missing argument for indirect jump", line_num)),
                }
            },
            _ => {
                let ab = match argument_to_binary(arg1, tab, line_num) {
                    Ok(a) => a,
                    Err(e) => {
                        return Err(e);
                    },
                };
                let a: u16 = #[verifier::truncate] (ab as u16);
                if a > 4095 {
                    return Err(err_at("Jump target does not fit twelve bits", line_num));
                }
                let word: u16 = op * 4096 + a;
                proof {
                    lemma_u16_i16_round(word);
                }
                Ok(Some(#[verifier::truncate] (word as i16)))
            },
        }
    } else if is_one_arg {
        let ab = match argument_to_binary(arg1, tab, line_num) {
            Ok(a) => a,
            Err(e) => {
                return Err(e);
            },
        };
        let a: u16 = #[verifier::truncate] (ab as u16);
        if a > 4095 {
            return Err(err_at("Operand does not fit twelve bits", line_num));
        }
        let word: u16 = op * 4096 + a;
        proof {
            lemma_u16_i16_round(word);
        }
        Ok(Some(#[verifier::truncate] (word as i16)))
    } else if op == crate::isa::ST_OP {
        match sel {
            Some(Token::RegPointer(_)) => {
                match arg1 {
                    Some(t) => {
                        let r = t.get_num();
                        let a2b = match argument_to_binary(arg2, tab, line_num) {
                            Ok(a) => a,
                            Err(e) => {
                                return Err(e);
                            },
                        };
                        let b: u16 = #[verifier::truncate] (a2b as u16);
                        if r < 0 || r > 7 {
                            return Err(
                                err_at("Register pointer does not fit its field", line_num),
                            );
                        }
                        if b > 7 {
                            return Err(err_at("Source register does not fit its field", line_num));
                        }
                        let word: u16 = op * 4096 + 2048 + (r as u16) * 128 + b;
                        proof {
                            lemma_u16_i16_round(word);
                        }
                        Ok(Some(#[verifier::truncate] (word as i16)))
                    },
                    None => Err(err_at("Missing argument for indirect store", line_num)),
                }
            },
            _ => {
                let a1b = match argument_to_binary(arg1, tab, line_num) {
                    Ok(a) => a,
                    Err(e) => {
                        return Err(e);
                    },
                };
                let a2b = match argument_to_binary(arg2, tab, line_num) {
                    Ok(a) => a,
                    Err(e) => {
                        return Err(e);
                    },
                };
                let a: u16 = #[verifier::truncate] (a1b as u16);
                let b: u16 = #[verifier::truncate] (a2b as u16);
                if a > 511 {
                    return Err(err_at("Store address does not fit nine bits", line_num));
                }
                if b > 7 {
                    return Err(err_at("Source register does not fit its field", line_num));
                }
                let word: u16 = op * 4096 + a * 8 + b;
                proof {
                    lemma_u16_i16_round(word);
                }
                Ok(Some(#[verifier::truncate] (word as i16)))
            },
        }
    } else {
        let a1b = match argument_to_binary(arg1, tab, line_num) {
            Ok(a) => a,
            Err(e) => {
                return Err(e);
            },
        };
        let a2b = match argument_to_binary(arg2, tab, line_num) {
            Ok(a) => a,
            Err(e) => {
                return Err(e);
            },
        };
        let a: u16 = #[verifier::truncate] (a1b as u16);
        let b: u16 = #[verifier::truncate] (a2b as u16);
        if a > 7 {
            return Err(err_at("Destination must name a register", line_num));
        }
        if b > 511 {
            return Err(err_at("Source operand does not fit nine bits", line_num));
        }
        let word: u16 = op * 4096 + a * 512 + b;
        proof {
            lemma_u16_i16_round(word);
        }
        Ok(Some(#[verifier::truncate] (word as i16)))
    }
}

} // verus!
