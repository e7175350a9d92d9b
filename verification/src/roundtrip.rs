//! The round-trip law: decoding the word the encoder produces gives
//! back the instruction that was encoded, for every operand within its
//! field's valid range.

use crate::encoder::{spec_encode, spec_encode_with_op, spec_mnemonic_op};
use crate::isa::{
    decode_spec, spec_is_jump, spec_part, Argument, Instruction, ADD_OP, CMP_OP, DIV_OP, HLT_OP,
    INT_OP, JMP_OP, JO_OP, JZ_OP, LD_OP, MOV_OP, MUL_OP, NOP_OP, POP_OP, PUSH_OP, RET_OP, ST_OP,
};
use crate::symbols::SymbolTable;
use crate::tokens::Token;
use vstd::prelude::*;

verus! {

/// The signed value of a sign-magnitude literal byte: bit 7 the sign,
/// bits 6..0 the magnitude.
pub open spec fn spec_sm_signed(b: int) -> int {
    if b >= 128 {
        -(b - 128)
    } else {
        b
    }
}

/// Whether a token can stand as the mode-tagged source of a two-operand
/// instruction, with its payload inside the encoded field.
pub open spec fn spec_src_ok(t: Token) -> bool {
    match t {
        Token::Register(n) => 0 <= n <= 7,
        Token::Literal(b) => 0 <= b <= 255,
        Token::RegPointer(r) => 0 <= r <= 7,
        Token::MemPointer(m) => 0 <= m <= 127,
        _ => false,
    }
}

/// The decoded argument a mode-tagged source token corresponds to.
pub open spec fn spec_src_arg(t: Token) -> Argument {
    match t {
        Token::Register(n) => Argument::Register(n),
        Token::Literal(b) => Argument::Literal(spec_sm_signed(b as int) as i16),
        Token::RegPointer(r) => Argument::RegPtr(r),
        Token::MemPointer(m) => Argument::MemPtr(m),
        _ => Argument::Nothing,
    }
}

/// The domain of the round-trip law: the verifier-shaped instruction
/// lines whose operands fit the encoded fields so that the word decodes
/// back to the same structure.  A direct `ST` address is capped at 255:
/// its nine-bit field shares its top bit with the INDIRECT flag, so a
/// larger direct address would decode as the indirect form.
pub open spec fn rt_encodable(
    ins: Token,
    a1: Option<Token>,
    a2: Option<Token>,
    tab: SymbolTable,
) -> bool {
    match ins {
        Token::Ident(name) => match spec_mnemonic_op(name@) {
            Some(op) => if op == HLT_OP || op == RET_OP || op == NOP_OP {
                a1 is None && a2 is None
            } else if op == ADD_OP || op == DIV_OP || op == CMP_OP || op == MUL_OP || op
                == MOV_OP {
                match (a1, a2) {
                    (Some(Token::Register(d)), Some(src)) => 0 <= d <= 7 && spec_src_ok(src),
                    _ => false,
                }
            } else if op == LD_OP {
                match (a1, a2) {
                    (Some(Token::Register(d)), Some(Token::MemAddr(n))) => 0 <= d <= 7 && 0 <= n
                        <= 511,
                    _ => false,
                }
            } else if op == ST_OP {
                match (a1, a2) {
                    (Some(Token::MemAddr(n)), Some(Token::Register(s))) => 0 <= n <= 255 && 0 <= s
                        <= 7,
                    (Some(Token::RegPointer(r)), Some(Token::Register(s))) => 0 <= r <= 7 && 0 <= s
                        <= 7,
                    _ => false,
                }
            } else if spec_is_jump(op) {
                a2 is None && match a1 {
                    Some(Token::MemAddr(n)) => 0 <= n <= 2047,
                    Some(Token::RegPointer(r)) => 0 <= r <= 7,
                    Some(Token::SRCall(s)) => match tab.spec_get(s@) {
                        Some(addr) => addr <= 2047,
                        None => false,
                    },
                    _ => false,
                }
            } else if op == POP_OP || op == PUSH_OP {
                a2 is None && match a1 {
                    Some(Token::Register(r)) => 0 <= r <= 7,
                    Some(Token::Literal(b)) => 0 <= b <= 255,
                    _ => false,
                }
            } else if op == INT_OP {
                a2 is None && match a1 {
                    Some(Token::Literal(b)) => 0 <= b <= 255,
                    None => true,
                    _ => false,
                }
            } else {
                false
            },
            None => false,
        },
        _ => false,
    }
}

/// The structured instruction a well-shaped line denotes: the reading
/// the decoder must reconstruct from the encoded word.
pub open spec fn rt_expected(
    ins: Token,
    a1: Option<Token>,
    a2: Option<Token>,
    tab: SymbolTable,
) -> Instruction {
    let op = match ins {
        Token::Ident(name) => spec_mnemonic_op(name@)->Some_0,
        _ => 0u16,
    };
    let dest = match a1 {
        Some(Token::Register(d)) => Argument::Register(d),
        _ => Argument::Nothing,
    };
    let src = match a2 {
        Some(t) => spec_src_arg(t),
        None => Argument::Nothing,
    };
    if op == HLT_OP {
        Instruction::HLT
    } else if op == RET_OP {
        Instruction::RET
    } else if op == NOP_OP {
        Instruction::NOP
    } else if op == ADD_OP {
        Instruction::ADD(dest, src)
    } else if op == DIV_OP {
        Instruction::DIV(dest, src)
    } else if op == CMP_OP {
        Instruction::CMP(dest, src)
    } else if op == MUL_OP {
        Instruction::MUL(dest, src)
    } else if op == MOV_OP {
        Instruction::MOV(dest, src)
    } else if op == LD_OP {
        Instruction::LD(
            dest,
            match a2 {
                Some(Token::MemAddr(n)) => Argument::MemAddr(n),
                _ => Argument::Nothing,
            },
        )
    } else if op == ST_OP {
        let st_dest = match a1 {
            Some(Token::MemAddr(n)) => Argument::MemAddr(n),
            Some(Token::RegPointer(r)) => Argument::RegPtr(r),
            _ => Argument::Nothing,
        };
        let st_src = match a2 {
            Some(Token::Register(s)) => Argument::Register(s),
            _ => Argument::Nothing,
        };
        Instruction::ST(st_dest, st_src)
    } else {
        let one = match a1 {
            Some(Token::MemAddr(n)) => Argument::MemAddr(n),
            Some(Token::RegPointer(r)) => Argument::RegPtr(r),
            Some(Token::SRCall(s)) => Argument::MemAddr(tab.spec_get(s@)->Some_0 as i16),
            Some(t) => spec_src_arg(t),
            None => Argument::Literal(0),
        };
        if op == JO_OP {
            Instruction::JO(one)
        } else if op == JMP_OP {
            Instruction::JMP(one)
        } else if op == JZ_OP {
            Instruction::JZ(one)
        } else if op == POP_OP {
            Instruction::POP(one)
        } else if op == PUSH_OP {
            Instruction::PUSH(one)
        } else {
            Instruction::INT(
                match a1 {
                    Some(Token::Literal(b)) => Argument::Literal(spec_sm_signed(b as int) as i16),
                    _ => Argument::Literal(0),
                },
            )
        }
    }
}


/// Literal round trip: a literal stored in its sign-magnitude byte
/// always encodes, and the word decodes back to the same signed value.
/// The byte 128 stands for a negative zero, whose signed value is 0;
/// only the source-level literal -128, which the lexer stores as that
/// byte, loses its sign this way.
pub proof fn lemma_literal_round_trip(ins: Token, d: i16, b: i16, tab: SymbolTable)
    requires
        ins matches Token::Ident(nm) && spec_mnemonic_op(nm@) == Some(MOV_OP),
        0 <= d <= 7,
        0 <= b <= 255,
    ensures
        ({
            let w = spec_encode(ins, Some(Token::Register(d)), Some(Token::Literal(b)), tab);
            &&& w is Some
            &&& decode_spec(w->0) == Instruction::MOV(
                Argument::Register(d),
                Argument::Literal(spec_sm_signed(b as int) as i16),
            )
        }),
{
    lemma_round_trip(ins, Some(Token::Register(d)), Some(Token::Literal(b)), tab);
}

/// The fields of a word laid out as opcode, destination and a nine-bit
/// low part.
proof fn lemma_word_fields(w: u16, op: u16, d: u16, low: u16)
    requires
        op <= 15,
        d <= 7,
        low <= 511,
        w == op * 4096 + d * 512 + low,
    ensures
        w / 4096 == op,
        (w / 512) % 8 == d,
        w % 512 == low,
        (w / 2048) % 2 == d / 4,
        (w / 256) % 2 == low / 256,
        (w / 128) % 2 == (low / 128) % 2,
        (w / 64) % 2 == (low / 64) % 2,
        w % 128 == low % 128,
        w % 8 == low % 8,
        (w / 8) % 512 == (d * 512 + low) / 8,
{
    assert(op <= 15 && d <= 7 && low <= 511 && w == op * 4096 + d * 512 + low ==> w / 4096 == op
        && (w / 512) % 8 == d && w % 512 == low && (w / 2048) % 2 == d / 4 && (w / 256) % 2 == low
        / 256 && (w / 128) % 2 == (low / 128) % 2 && (w / 64) % 2 == (low / 64) % 2 && w % 128
        == low % 128 && w % 8 == low % 8 && (w / 8) % 512 == (d * 512 + low) / 8) by (bit_vector);
}

/// The fields of a word laid out as opcode and a twelve-bit low part.
proof fn lemma_word_fields12(w: u16, op: u16, low: u16)
    requires
        op <= 15,
        low <= 4095,
        w == op * 4096 + low,
    ensures
        w / 4096 == op,
        w % 4096 == low,
        (w / 2048) % 2 == low / 2048,
        w % 16 == low % 16,
        (w / 128) % 8 == (low / 128) % 8,
        w % 8 == low % 8,
        (w / 512) % 8 == (low / 512) % 8,
        (w / 256) % 2 == (low / 256) % 2,
        (w / 128) % 2 == (low / 128) % 2,
        (w / 64) % 2 == (low / 64) % 2,
        w % 128 == low % 128,
        w % 512 == low % 512,
{
    assert(op <= 15 && low <= 4095 && w == op * 4096 + low ==> w / 4096 == op && w % 4096 == low
        && (w / 2048) % 2 == low / 2048 && w % 16 == low % 16 && (w / 128) % 8 == (low / 128) % 8
        && w % 8 == low % 8 && (w / 512) % 8 == (low / 512) % 8 && (w / 256) % 2 == (low / 256) % 2
        && (w / 128) % 2 == (low / 128) % 2 && (w / 64) % 2 == (low / 64) % 2 && w % 128 == low
        % 128 && w % 512 == low % 512) by (bit_vector);
}

/// The nine-bit field value a mode-tagged source token encodes to.
pub open spec fn spec_src_low(t: Token) -> u16 {
    match t {
        Token::Register(n) => n as u16,
        Token::Literal(b) => (256 + b) as u16,
        Token::RegPointer(r) => (64 + r) as u16,
        Token::MemPointer(m) => (128 + m) as u16,
        _ => 0u16,
    }
}

/// The mode-tagged source field round-trips: the nine-bit field a source
/// token encodes to decodes back to the corresponding argument.
proof fn lemma_src_field(w: u16, src: Token)
    requires
        spec_src_ok(src),
        w % 512 == spec_src_low(src),
        (w / 256) % 2 == (w % 512) / 256,
        (w / 128) % 2 == ((w % 512) / 128) % 2,
        (w / 64) % 2 == ((w % 512) / 64) % 2,
        w % 128 == (w % 512) % 128,
    ensures
        spec_part(w) == spec_src_arg(src),
{
    match src {
        Token::Register(n) => {},
        Token::Literal(b) => {
            if b >= 128 {
                assert((256 + b) % 128 == b - 128);
            }
        },
        Token::RegPointer(r) => {
            assert((64 + r) % 128 == 64 + r);
            assert(((64 + r as int) % 128) % 8 == r);
        },
        Token::MemPointer(m) => {},
        _ => {},
    }
}

/// Round trip of the codec: for every instruction line in the law's
/// domain the encoder yields a word, and decoding that word gives the
/// structured instruction the line denotes.  The one shape excluded by
/// the domain is a direct `ST` to an address above 255, whose field
/// would collide with the INDIRECT flag.
pub proof fn lemma_round_trip(ins: Token, a1: Option<Token>, a2: Option<Token>, tab: SymbolTable)
    requires
        rt_encodable(ins, a1, a2, tab),
    ensures
        spec_encode(ins, a1, a2, tab) is Some,
        decode_spec(spec_encode(ins, a1, a2, tab)->Some_0) == rt_expected(ins, a1, a2, tab),
{
    reveal(crate::isa::decode_spec);
    let name = ins->Ident_0;
    let op = spec_mnemonic_op(name@)->Some_0;
    let w = spec_encode(ins, a1, a2, tab)->Some_0;
    if op == HLT_OP || op == RET_OP || op == NOP_OP {
        lemma_word_fields(w, op, 0, 0);
    } else if op == ADD_OP || op == DIV_OP || op == CMP_OP || op == MUL_OP || op == MOV_OP {
        let d = a1->Some_0->Register_0 as u16;
        let src = a2->Some_0;
        let low = crate::encoder::spec_arg_bin(a2, tab)->Some_0;
        assert(low <= 511);
        lemma_word_fields(w, op, d, low);
        lemma_src_field(w, src);
    } else if op == LD_OP {
        let d = a1->Some_0->Register_0 as u16;
        let n = a2->Some_0->MemAddr_0 as u16;
        lemma_word_fields(w, op, d, n);
    } else if op == ST_OP {
        match a1 {
            Some(Token::MemAddr(n)) => {
                let s = a2->Some_0->Register_0 as u16;
                let low12 = ((n as u16) * 8 + s) as u16;
                lemma_word_fields12(w, op, low12);
                assert(low12 / 2048 == 0) by (bit_vector)
                    requires
                        low12 == (n as u16) * 8 + s,
                        n as u16 <= 255,
                        s <= 7,
                ;
                assert((w / 8) % 512 == n as u16 && w % 8 == s) by (bit_vector)
                    requires
                        w % 4096 == low12,
                        w / 4096 == 7,
                        low12 == (n as u16) * 8 + s,
                        n as u16 <= 255,
                        s <= 7,
                ;
            },
            Some(Token::RegPointer(r)) => {
                let s = a2->Some_0->Register_0 as u16;
                let low12 = (2048 + (r as u16) * 128 + s) as u16;
                lemma_word_fields12(w, op, low12);
                assert(low12 / 2048 == 1 && (low12 / 128) % 8 == r as u16 && low12 % 8 == s)
                    by (bit_vector)
                    requires
                        low12 == 2048 + (r as u16) * 128 + s,
                        r as u16 <= 7,
                        s <= 7,
                ;
            },
            _ => {},
        }
    } else if spec_is_jump(op) {
        match a1 {
            Some(Token::MemAddr(n)) => {
                lemma_word_fields12(w, op, n as u16);
                assert((n as u16) / 2048 == 0);
            },
            Some(Token::RegPointer(r)) => {
                let low12 = (2048 + r as u16) as u16;
                lemma_word_fields12(w, op, low12);
                assert(low12 / 2048 == 1 && low12 % 16 == r as u16) by (bit_vector)
                    requires
                        low12 == 2048 + r as u16,
                        r as u16 <= 7,
                ;
            },
            Some(Token::SRCall(s)) => {
                let addr = tab.spec_get(s@)->Some_0;
                lemma_word_fields12(w, op, addr);
                assert(addr / 2048 == 0);
            },
            _ => {},
        }
    } else if op == POP_OP || op == PUSH_OP {
        let low = crate::encoder::spec_arg_bin(a1, tab)->Some_0;
        assert(low <= 511);
        lemma_word_fields(w, op, 0, low);
        lemma_src_field(w, a1->Some_0);
    } else if op == INT_OP {
        match a1 {
            Some(Token::Literal(b)) => {
                let low = (256 + b) as u16;
                lemma_word_fields(w, op, 0, low);
                if b >= 128 {
                    assert((256 + b) % 128 == b - 128);
                }
            },
            None => {
                lemma_word_fields(w, op, 0, 0);
            },
            _ => {},
        }
    }
}

} // verus!
