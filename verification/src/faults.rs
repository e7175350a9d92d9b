//! The fault taxonomy: unrecoverable faults stop the run loop and are
//! surfaced to the caller; recoverable conditions are recorded and
//! execution continues.  Each carries the program counter at the time
//! of the fault and an optional human-readable cause.

use vstd::prelude::*;

verus! {

/// A runtime fault that ends execution: the run loop stops and the
/// caller decides how to report it.  Execution is never restarted from
/// the load address after one of these.
#[derive(Debug)]
pub enum UnrecoverableError {
    SegmentationFault(u16, Option<String>),
    IllegalInstruction(u16, Option<String>),
    DivideByZero(u16, Option<String>),
    InvalidRegister(u16, Option<String>),
    StackOverflow(u16, Option<String>),
    StackUnderflow(u16, Option<String>),
}

/// A runtime condition that is recorded and survived.
#[derive(Debug)]
pub enum RecoverableError {
    UnknownFlag(u16, Option<String>),
    Overflow(u16, Option<String>),
    BackwardStack(u16, Option<String>),
}

impl UnrecoverableError {
    /// The program counter the fault carries.
    pub open spec fn spec_loc(self) -> u16 {
        match self {
            UnrecoverableError::SegmentationFault(loc, _) => loc,
            UnrecoverableError::IllegalInstruction(loc, _) => loc,
            UnrecoverableError::DivideByZero(loc, _) => loc,
            UnrecoverableError::InvalidRegister(loc, _) => loc,
            UnrecoverableError::StackOverflow(loc, _) => loc,
            UnrecoverableError::StackUnderflow(loc, _) => loc,
        }
    }

    /// The fault's name, location and cause, for a caller that reports
    /// it.
    pub fn details(&self) -> (r: (&'static str, u16, &Option<String>))
        ensures
            r.1 == self.spec_loc(),
    {
        match self {
            UnrecoverableError::SegmentationFault(loc, msg) => ("Segmentation fault", *loc, msg),
            UnrecoverableError::IllegalInstruction(loc, msg) => ("Illegal instruction", *loc, msg),
            UnrecoverableError::DivideByZero(loc, msg) => ("Divide by zero", *loc, msg),
            UnrecoverableError::InvalidRegister(loc, msg) => ("Invalid register", *loc, msg),
            UnrecoverableError::StackOverflow(loc, msg) => ("Stack overflow", *loc, msg),
            UnrecoverableError::StackUnderflow(loc, msg) => ("Stack underflow", *loc, msg),
        }
    }
}

impl RecoverableError {
    /// The program counter the condition carries.
    pub open spec fn spec_loc(self) -> u16 {
        match self {
            RecoverableError::UnknownFlag(loc, _) => loc,
            RecoverableError::Overflow(loc, _) => loc,
            RecoverableError::BackwardStack(loc, _) => loc,
        }
    }

    /// The condition's name, location and cause.
    pub fn details(&self) -> (r: (&'static str, u16, &Option<String>))
        ensures
            r.1 == self.spec_loc(),
    {
        match self {
            RecoverableError::UnknownFlag(loc, msg) => ("Unknown flag", *loc, msg),
            RecoverableError::Overflow(loc, msg) => ("Overflow", *loc, msg),
            RecoverableError::BackwardStack(loc, msg) => ("Backwards stack", *loc, msg),
        }
    }
}

/// An error of the emulator outside execution proper: a bad input file,
/// an image that cannot fit, a duplicate directive, or an impossible
/// configuration.
#[derive(Debug)]
pub enum EmuError {
    FileNotFound(),
    IsDirectory(),
    MemoryOverflow(),
    Duplicate(String),
    ReadFail(String),
    Impossible(String),
}

} // verus!
