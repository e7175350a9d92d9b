//! The instruction set: structured instructions, the opcode numbers, the
//! decoder from a 16-bit word, and the byte-level wire format.

use vstd::prelude::*;

verus! {

pub const HLT_OP: u16 = 0;

pub const ADD_OP: u16 = 1;

pub const JO_OP: u16 = 2;

pub const POP_OP: u16 = 3;

pub const DIV_OP: u16 = 4;

pub const RET_OP: u16 = 5;

pub const LD_OP: u16 = 6;

pub const ST_OP: u16 = 7;

pub const JMP_OP: u16 = 8;

pub const JZ_OP: u16 = 9;

pub const CMP_OP: u16 = 10;

pub const MUL_OP: u16 = 11;

pub const PUSH_OP: u16 = 12;

pub const INT_OP: u16 = 13;

pub const MOV_OP: u16 = 14;

pub const NOP_OP: u16 = 15;

/// One decoded operand.
#[derive(Clone, Copy, PartialEq, Eq, Structural, Debug)]
pub enum Argument {
    Register(i16),
    MemAddr(i16),
    Literal(i16),
    RegPtr(i16),
    MemPtr(i16),
    SR(i16),
    Flag(i16),
    Nothing,
}

/// One structured instruction, as the decoder reconstructs it from a
/// 16-bit word.
#[derive(Clone, Copy, PartialEq, Eq, Structural, Debug)]
pub enum Instruction {
    HLT,
    ADD(Argument, Argument),
    JO(Argument),
    POP(Argument),
    DIV(Argument, Argument),
    RET,
    LD(Argument, Argument),
    ST(Argument, Argument),
    JMP(Argument),
    JZ(Argument),
    CMP(Argument, Argument),
    MUL(Argument, Argument),
    PUSH(Argument),
    INT(Argument),
    MOV(Argument, Argument),
    NOP,
}

/// The opcode: bits 15..12 of the word.
pub open spec fn spec_opcode(w: u16) -> u16 {
    w / 4096
}

/// The destination register field: bits 11..9.
pub open spec fn spec_dest(w: u16) -> u16 {
    (w / 512) % 8
}

/// Whether the addressing-mode bit for a literal (bit 8) is set.
pub open spec fn spec_lit_bit(w: u16) -> bool {
    (w / 256) % 2 == 1
}

/// Whether the addressing-mode bit for a memory pointer (bit 7) is set.
pub open spec fn spec_memptr_bit(w: u16) -> bool {
    (w / 128) % 2 == 1
}

/// Whether the addressing-mode bit for a register pointer (bit 6) is set.
pub open spec fn spec_regptr_bit(w: u16) -> bool {
    (w / 64) % 2 == 1
}

/// Whether the INDIRECT flag (bit 11) is set; the jump family and `ST`
/// repurpose it.
pub open spec fn spec_indirect_bit(w: u16) -> bool {
    (w / 2048) % 2 == 1
}

/// Whether the opcode belongs to the jump family, whose operand field
/// ignores the addressing-mode bits.
pub open spec fn spec_is_jump(op: u16) -> bool {
    op == JO_OP || op == JMP_OP || op == JZ_OP
}

/// The mode-selected operand of the two-operand and stack forms: a
/// register, a signed literal, a memory pointer, or a register pointer.
pub open spec fn spec_part(w: u16) -> Argument {
    if spec_lit_bit(w) {
        if spec_memptr_bit(w) {
            Argument::Literal((-((w % 128) as int)) as i16)
        } else {
            Argument::Literal((w % 128) as i16)
        }
    } else if spec_memptr_bit(w) {
        Argument::MemPtr((w % 128) as i16)
    } else if spec_regptr_bit(w) {
        Argument::RegPtr(((w % 128) % 8) as i16)
    } else {
        Argument::Register((w % 128) as i16)
    }
}

/// The operand of a jump: a register pointer when INDIRECT is set, else a
/// direct memory target in the low 12 bits.
pub open spec fn spec_jump_arg(w: u16) -> Argument {
    if spec_indirect_bit(w) {
        Argument::RegPtr((w % 16) as i16)
    } else {
        Argument::MemAddr((w % 4096) as i16)
    }
}

/// The structured instruction denoted by a 16-bit word.  Total: every
/// word decodes to some instruction.
#[verifier::opaque]
pub open spec fn decode_spec(w: u16) -> Instruction {
    let op = spec_opcode(w);
    let dest = Argument::Register(spec_dest(w) as i16);
    if op == HLT_OP {
        Instruction::HLT
    } else if op == ADD_OP {
        Instruction::ADD(dest, spec_part(w))
    } else if op == JO_OP {
        Instruction::JO(spec_jump_arg(w))
    } else if op == POP_OP {
        Instruction::POP(spec_part(w))
    } else if op == DIV_OP {
        Instruction::DIV(dest, spec_part(w))
    } else if op == RET_OP {
        Instruction::RET
    } else if op == LD_OP {
        Instruction::LD(dest, Argument::MemAddr((w % 512) as i16))
    } else if op == ST_OP {
        if spec_indirect_bit(w) {
            Instruction::ST(
                Argument::RegPtr(((w / 128) % 8) as i16),
                Argument::Register((w % 8) as i16),
            )
        } else {
            Instruction::ST(
                Argument::MemAddr(((w / 8) % 512) as i16),
                Argument::Register((w % 8) as i16),
            )
        }
    } else if op == JMP_OP {
        Instruction::JMP(spec_jump_arg(w))
    } else if op == JZ_OP {
        Instruction::JZ(spec_jump_arg(w))
    } else if op == CMP_OP {
        Instruction::CMP(dest, spec_part(w))
    } else if op == MUL_OP {
        Instruction::MUL(dest, spec_part(w))
    } else if op == PUSH_OP {
        Instruction::PUSH(spec_part(w))
    } else if op == INT_OP {
        if spec_lit_bit(w) && spec_memptr_bit(w) {
            Instruction::INT(Argument::Literal((-((w % 128) as int)) as i16))
        } else {
            Instruction::INT(Argument::Literal((w % 128) as i16))
        }
    } else if op == MOV_OP {
        Instruction::MOV(dest, spec_part(w))
    } else {
        Instruction::NOP
    }
}

/// Decodes one 16-bit word into a structured instruction.  The exact
/// inverse of the encoder on every word the encoder emits.
pub fn parse_word(w: u16) -> (r: Instruction)
    ensures
        r == decode_spec(w),
{
    proof {
        reveal(decode_spec);
    }
    let op = w / 4096;
    let dest = Argument::Register(((w / 512) % 8) as i16);
    let lit_bit = (w / 256) % 2 == 1;
    let memptr_bit = (w / 128) % 2 == 1;
    let regptr_bit = (w / 64) % 2 == 1;
    let indirect = (w / 2048) % 2 == 1;
    let part = if lit_bit {
        if memptr_bit {
            Argument::Literal(-((w % 128) as i16))
        } else {
            Argument::Literal((w % 128) as i16)
        }
    } else if memptr_bit {
        Argument::MemPtr((w % 128) as i16)
    } else if regptr_bit {
        Argument::RegPtr(((w % 128) % 8) as i16)
    } else {
        Argument::Register((w % 128) as i16)
    };
    let jump_arg = if indirect {
        Argument::RegPtr((w % 16) as i16)
    } else {
        Argument::MemAddr((w % 4096) as i16)
    };
    if op == HLT_OP {
        Instruction::HLT
    } else if op == ADD_OP {
        Instruction::ADD(dest, part)
    } else if op == JO_OP {
        Instruction::JO(jump_arg)
    } else if op == POP_OP {
        Instruction::POP(part)
    } else if op == DIV_OP {
        Instruction::DIV(dest, part)
    } else if op == RET_OP {
        Instruction::RET
    } else if op == LD_OP {
        Instruction::LD(dest, Argument::MemAddr((w % 512) as i16))
    } else if op == ST_OP {
        if indirect {
            Instruction::ST(
                Argument::RegPtr(((w / 128) % 8) as i16),
                Argument::Register((w % 8) as i16),
            )
        } else {
            Instruction::ST(
                Argument::MemAddr(((w / 8) % 512) as i16),
                Argument::Register((w % 8) as i16),
            )
        }
    } else if op == JMP_OP {
        Instruction::JMP(jump_arg)
    } else if op == JZ_OP {
        Instruction::JZ(jump_arg)
    } else if op == CMP_OP {
        Instruction::CMP(dest, part)
    } else if op == MUL_OP {
        Instruction::MUL(dest, part)
    } else if op == PUSH_OP {
        Instruction::PUSH(part)
    } else if op == INT_OP {
        if lit_bit && memptr_bit {
            Instruction::INT(Argument::Literal(-((w % 128) as i16)))
        } else {
            Instruction::INT(Argument::Literal((w % 128) as i16))
        }
    } else if op == MOV_OP {
        Instruction::MOV(dest, part)
    } else {
        Instruction::NOP
    }
}

/// The big-endian two-byte wire form of each word, in program order.
pub open spec fn spec_word_bytes(w: u16) -> Seq<u8> {
    seq![(w / 256) as u8, (w % 256) as u8]
}

/// Writes a word stream in its wire form: each 16-bit word as two
/// big-endian bytes.
pub fn words_to_bytes(words: &Vec<i16>) -> (r: Vec<u8>)
    ensures
        r@.len() == 2 * words@.len(),
        forall|i: int|
            0 <= i < words@.len() ==> r@.subrange(2 * i, 2 * i + 2) == spec_word_bytes(
                words@[i] as u16,
            ),
{
    let mut r: Vec<u8> = Vec::new();
    let mut i: usize = 0;
    while i < words.len()
        invariant
            i <= words@.len(),
            r@.len() == 2 * i,
            forall|k: int|
                0 <= k < i ==> r@.subrange(2 * k, 2 * k + 2) == spec_word_bytes(words@[k] as u16),
        decreases words@.len() - i,
    {
        let w = words[i] as u16;
        r.push((w / 256) as u8);
        r.push((w % 256) as u8);
        i = i + 1;
        proof {
            assert(forall|k: int|
                0 <= k < i ==> r@.subrange(2 * k, 2 * k + 2) =~= spec_word_bytes(
                    words@[k] as u16,
                ));
        }
    }
    r
}

/// Reads a byte stream back into words: each big-endian byte pair is one
/// word.  A trailing odd byte is ignored.
pub fn bytes_to_words(bytes: &Vec<u8>) -> (r: Vec<i16>)
    ensures
        r@.len() == bytes@.len() / 2,
        forall|i: int|
            0 <= i < r@.len() ==> r@[i] as u16 == (bytes@[2 * i] as u16) * 256 + (bytes@[2 * i
                + 1] as u16),
{
    let mut r: Vec<i16> = Vec::new();
    let mut i: usize = 0;
    while i + 1 < bytes.len()
        invariant
            r@.len() == i / 2,
            i % 2 == 0,
            i <= bytes@.len(),
            forall|k: int|
                0 <= k < r@.len() ==> r@[k] as u16 == (bytes@[2 * k] as u16) * 256 + (bytes@[2 * k
                    + 1] as u16),
        decreases bytes@.len() - i,
    {
        let w: u16 = (bytes[i] as u16) * 256 + (bytes[i + 1] as u16);
        let x: i16 = #[verifier::truncate] (w as i16);
        proof {
            assert((#[verifier::truncate] (w as i16)) as u16 == w) by (bit_vector);
        }
        r.push(x);
        i = i + 2;
    }
    r
}

/// Round trip of the wire form: the bytes written for a word stream read
/// back as the same stream.
pub proof fn lemma_wire_round_trip(words: Seq<i16>, bytes: Seq<u8>)
    requires
        bytes.len() == 2 * words.len(),
        forall|i: int|
            0 <= i < words.len() ==> bytes.subrange(2 * i, 2 * i + 2) == spec_word_bytes(
                words[i] as u16,
            ),
    ensures
        forall|i: int|
            0 <= i < words.len() ==> (bytes[2 * i] as u16) * 256 + (bytes[2 * i + 1] as u16)
                == words[i] as u16,
{
    assert forall|i: int| 0 <= i < words.len() implies (bytes[2 * i] as u16) * 256 + (bytes[2 * i
        + 1] as u16) == words[i] as u16 by {
        let w = words[i] as u16;
        assert(bytes.subrange(2 * i, 2 * i + 2)[0] == bytes[2 * i]);
        assert(bytes.subrange(2 * i, 2 * i + 2)[1] == bytes[2 * i + 1]);
        assert(bytes[2 * i] == (w / 256) as u8);
        assert(bytes[2 * i + 1] == (w % 256) as u8);
    };
}

} // verus!
