//! The commands a line-stepping debugger hands the core: load a binary
//! image, run, single-step, and read or write memory and registers
//! through the core's public operations.

use vstd::prelude::*;

verus! {

/// One debugger command, parsed by the embedding program.
pub enum Command {
    Quit(),
    Help(),
    Load(),
    Run(),
    Step(),
    StepBack(),
    PrintMem(u16),
    SetBreak(u16),
    PrintBreak(),
    RemoveBreak(u16),
    RemoveAllBreak(),
    Info(),
    Unknown(),
}

impl Command {
    /// The address an addressed command carries; zero for the others.
    pub fn get_value(&self) -> (r: u16)
        ensures
            match *self {
                Command::PrintMem(n) => r == n,
                Command::SetBreak(n) => r == n,
                Command::RemoveBreak(n) => r == n,
                _ => r == 0,
            },
    {
        match self {
            Command::PrintMem(n) => *n,
            Command::SetBreak(n) => *n,
            Command::RemoveBreak(n) => *n,
            _ => 0,
        }
    }
}

} // verus!
