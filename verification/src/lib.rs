//! BELLE: a 16-bit instruction set architecture with a matched
//! assembler and emulator.
//!
//! The assembler half lexes one line of source text into tokens, checks
//! each instruction's shape, resolves subroutine names to addresses, and
//! encodes every verified line into one 16-bit instruction word.  The
//! emulator half loads a word stream into memory, decodes each word back
//! into a structured instruction, and executes it against simulated CPU
//! state.  The two halves share one contract, the bit layout of an
//! instruction word, and the encoder/decoder pair is proved to round-trip.

pub mod numtext;
pub mod strutil;
pub mod tokens;
pub mod isa;
pub mod symbols;
pub mod encoder;
pub mod verify;
pub mod roundtrip;
pub mod faults;
pub mod cpu;
pub mod loader;
pub mod execute;
pub mod errors;
pub mod dbg_cmds;
pub mod config;
