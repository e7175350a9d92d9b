//! The CPU state: register file, memory, flags, stack pointers and
//! run-control, with the operand-resolution and register-class rules
//! every instruction handler shares.
//!
//! The register file has four signed 16-bit registers (0..=3), two
//! unsigned 16-bit registers (4..=5) and two wide registers (6..=7).
//! The wide pair stands where the hardware design places its
//! floating-point registers; this core models their contents as wide
//! integers, since floating point stays outside the verified library,
//! and their overflow bound (the `f32` finite range, far beyond any
//! 16-bit source) never triggers.

use crate::faults::{RecoverableError, UnrecoverableError};
use crate::isa::Argument;
use vstd::prelude::*;

verus! {

/// One past the highest memory address.
pub const MEMORY_SIZE: usize = 65535;

/// What a running program emitted through a software interrupt, for
/// the embedding program to print or act on.
pub enum OutEvent {
    /// A register value to print.
    Number(i64),
    /// A memory range to print as characters: the raw cell values.
    Chars(Vec<i16>),
    /// A request to pause for one second.
    Sleep,
}

/// The numeric class of a register, by index: 0..=3 signed, 4..=5
/// unsigned, 6..=7 wide.  One shared lookup, so no handler re-derives
/// the ranges.
pub enum RegisterClass {
    Signed,
    Unsigned,
    Float,
}

pub open spec fn spec_reg_class(n: int) -> RegisterClass {
    if 0 <= n <= 3 {
        RegisterClass::Signed
    } else if 4 <= n <= 5 {
        RegisterClass::Unsigned
    } else {
        RegisterClass::Float
    }
}

/// The register-class lookup shared by every handler that touches a
/// register.
pub fn register_class(n: u16) -> (r: RegisterClass)
    ensures
        r == spec_reg_class(n as int),
{
    if n <= 3 {
        RegisterClass::Signed
    } else if n <= 5 {
        RegisterClass::Unsigned
    } else {
        RegisterClass::Float
    }
}

/// The mathematical model of the CPU state.
#[verifier::ext_equal]
pub ghost struct CpuView {
    pub int_reg: Seq<i16>,
    pub uint_reg: Seq<u16>,
    pub float_reg: Seq<i64>,
    pub memory: Seq<Option<i16>>,
    pub pc: u16,
    pub ir: i16,
    pub starts_at: u16,
    pub running: bool,
    pub has_ran: bool,
    pub zflag: bool,
    pub oflag: bool,
    pub rflag: bool,
    pub sflag: bool,
    pub hlt_on_overflow: bool,
    pub sp: u16,
    pub bp: u16,
    pub backward_stack: bool,
    pub max_clk: Option<usize>,
    pub hit_max_clk: bool,
    pub do_not_run: bool,
    pub err: bool,
    pub clk: usize,
    pub input: Seq<i16>,
    pub in_ptr: usize,
    pub output: Seq<OutEvent>,
    pub warnings: Seq<RecoverableError>,
}

impl CpuView {
    /// Well-formedness: the register banks and memory have their fixed
    /// sizes and the input cursor is inside the queue.
    pub open spec fn wf(self) -> bool {
        &&& self.int_reg.len() == 4
        &&& self.uint_reg.len() == 2
        &&& self.float_reg.len() == 2
        &&& self.memory.len() == MEMORY_SIZE
        &&& self.in_ptr <= self.input.len()
    }

    /// The value register `n` holds, read through its class.
    pub open spec fn reg(self, n: int) -> i64 {
        match spec_reg_class(n) {
            RegisterClass::Signed => self.int_reg[n] as i64,
            RegisterClass::Unsigned => self.uint_reg[n - 4] as i64,
            RegisterClass::Float => self.float_reg[n - 6],
        }
    }

    /// The state after writing `v` to register `n`, truncated to the
    /// register's class.
    pub open spec fn with_reg(self, n: int, v: i64) -> CpuView {
        match spec_reg_class(n) {
            RegisterClass::Signed => CpuView { int_reg: self.int_reg.update(n, v as i16), ..self },
            RegisterClass::Unsigned => CpuView {
                uint_reg: self.uint_reg.update(n - 4, v as u16),
                ..self
            },
            RegisterClass::Float => CpuView { float_reg: self.float_reg.update(n - 6, v), ..self },
        }
    }

    /// Whether a value overflows the class of register `n`: the signed
    /// or unsigned 16-bit range; the wide pair never overflows.
    pub open spec fn spec_overflows(v: i64, n: int) -> bool {
        if 0 <= n <= 3 {
            v > i16::MAX || v < i16::MIN
        } else if 4 <= n <= 5 {
            v > u16::MAX || v < 0
        } else if 6 <= n <= 7 {
            false
        } else {
            true
        }
    }

    /// Whether an operand resolves to a value in this state: a named
    /// register must exist, and every memory cell read on the way —
    /// directly or through one level of pointer indirection — must be
    /// present and in bounds.
    pub open spec fn arg_ok(self, a: Argument) -> bool {
        match a {
            Argument::Register(n) => 0 <= n <= 7,
            Argument::Literal(_) => true,
            Argument::MemAddr(n) => 0 <= n && self.memory[n as int] is Some,
            Argument::RegPtr(n) => 0 <= n <= 7 && {
                let addr = self.reg(n as int);
                0 <= addr < MEMORY_SIZE && self.memory[addr as int] is Some
            },
            Argument::MemPtr(n) => 0 <= n && self.memory[n as int] is Some && {
                let t = self.memory[n as int]->0;
                0 <= t < MEMORY_SIZE && self.memory[t as int] is Some
            },
            _ => false,
        }
    }

    /// The value an operand resolves to, when it resolves.
    pub open spec fn arg_val(self, a: Argument) -> i64 {
        match a {
            Argument::Register(n) => self.reg(n as int),
            Argument::Literal(l) => l as i64,
            Argument::MemAddr(n) => self.memory[n as int]->0 as i64,
            Argument::RegPtr(n) => self.memory[self.reg(n as int) as int]->0 as i64,
            Argument::MemPtr(n) => self.memory[self.memory[n as int]->0 as int]->0 as i64,
            _ => 0,
        }
    }

    /// When resolution fails, whether the failure is a segmentation
    /// fault (an absent or out-of-bounds cell); otherwise it is an
    /// illegal instruction (a bad register index, a wild pointer value,
    /// or an operand kind no instruction resolves).
    pub open spec fn arg_seg(self, a: Argument) -> bool {
        match a {
            Argument::Register(_) => false,
            Argument::Literal(_) => false,
            Argument::MemAddr(_) => true,
            Argument::RegPtr(n) => 0 <= n <= 7,
            Argument::MemPtr(n) => {
                let t = self.memory[n as int]->0;
                !(0 <= n && self.memory[n as int] is Some && !(0 <= t < MEMORY_SIZE))
            },
            _ => false,
        }
    }
}

/// The sole mutable entity of the executor: created once per run,
/// populated by the loader, then mutated by the executor until the
/// running flag clears or an unrecoverable fault surfaces.
pub struct CPU {
    pub int_reg: Vec<i16>,
    pub uint_reg: Vec<u16>,
    pub float_reg: Vec<i64>,
    pub memory: Vec<Option<i16>>,
    pub pc: u16,
    pub ir: i16,
    pub starts_at: u16,
    pub running: bool,
    pub has_ran: bool,
    pub zflag: bool,
    pub oflag: bool,
    pub rflag: bool,
    pub sflag: bool,
    pub hlt_on_overflow: bool,
    pub sp: u16,
    pub bp: u16,
    pub backward_stack: bool,
    pub max_clk: Option<usize>,
    pub hit_max_clk: bool,
    pub do_not_run: bool,
    pub err: bool,
    pub clk: usize,
    pub input: Vec<i16>,
    pub in_ptr: usize,
    pub output: Vec<OutEvent>,
    pub warnings: Vec<RecoverableError>,
}

impl View for CPU {
    type V = CpuView;

    open spec fn view(&self) -> CpuView {
        CpuView {
            int_reg: self.int_reg@,
            uint_reg: self.uint_reg@,
            float_reg: self.float_reg@,
            memory: self.memory@,
            pc: self.pc,
            ir: self.ir,
            starts_at: self.starts_at,
            running: self.running,
            has_ran: self.has_ran,
            zflag: self.zflag,
            oflag: self.oflag,
            rflag: self.rflag,
            sflag: self.sflag,
            hlt_on_overflow: self.hlt_on_overflow,
            sp: self.sp,
            bp: self.bp,
            backward_stack: self.backward_stack,
            max_clk: self.max_clk,
            hit_max_clk: self.hit_max_clk,
            do_not_run: self.do_not_run,
            err: self.err,
            clk: self.clk,
            input: self.input@,
            in_ptr: self.in_ptr,
            output: self.output@,
            warnings: self.warnings@,
        }
    }
}

impl CPU {
    /// A fresh CPU: zeroed registers, empty memory, the program counter
    /// at zero and the default load address and stack position.
    pub fn new() -> (r: CPU)
        ensures
            r@.wf(),
            r@.int_reg =~= seq![0i16, 0i16, 0i16, 0i16],
            r@.uint_reg =~= seq![0u16, 0u16],
            r@.float_reg =~= seq![0i64, 0i64],
            forall|i: int| 0 <= i < MEMORY_SIZE ==> r@.memory[i] is None,
            r@.pc == 0 && r@.ir == 0 && r@.starts_at == 100,
            !r@.running && !r@.has_ran,
            !r@.zflag && !r@.oflag && !r@.rflag && !r@.sflag,
            !r@.hlt_on_overflow,
            r@.sp == 99 && r@.bp == 99 && !r@.backward_stack,
            r@.max_clk is None && !r@.hit_max_clk && !r@.do_not_run && !r@.err,
            r@.clk == 0,
            r@.input.len() == 0 && r@.in_ptr == 0,
            r@.output.len() == 0 && r@.warnings.len() == 0,
    {
        let mut memory: Vec<Option<i16>> = Vec::new();
        while memory.len() < MEMORY_SIZE
            invariant
                memory@.len() <= MEMORY_SIZE,
                forall|i: int| 0 <= i < memory@.len() ==> memory@[i] is None,
            decreases MEMORY_SIZE - memory@.len(),
        {
            memory.push(None);
        }
        let mut int_reg: Vec<i16> = Vec::new();
        int_reg.push(0);
        int_reg.push(0);
        int_reg.push(0);
        int_reg.push(0);
        let mut uint_reg: Vec<u16> = Vec::new();
        uint_reg.push(0);
        uint_reg.push(0);
        let mut float_reg: Vec<i64> = Vec::new();
        float_reg.push(0);
        float_reg.push(0);
        CPU {
            int_reg,
            uint_reg,
            float_reg,
            memory,
            pc: 0,
            ir: 0,
            starts_at: 100,
            running: false,
            has_ran: false,
            zflag: false,
            oflag: false,
            rflag: false,
            sflag: false,
            hlt_on_overflow: false,
            sp: 99,
            bp: 99,
            backward_stack: false,
            max_clk: None,
            hit_max_clk: false,
            do_not_run: false,
            err: false,
            clk: 0,
            input: Vec::new(),
            in_ptr: 0,
            output: Vec::new(),
            warnings: Vec::new(),
        }
    }

    /// The value of one register, read through its class; `None` for an
    /// index past the file.
    pub fn get_register_value(&self, register: u16) -> (r: Option<i64>)
        requires
            self@.wf(),
        ensures
            register <= 7 ==> r == Some(self@.reg(register as int)),
            register > 7 ==> r is None,
    {
        if register > 7 {
            None
        } else {
            match register_class(register) {
                RegisterClass::Signed => Some(self.int_reg[register as usize] as i64),
                RegisterClass::Unsigned => Some(self.uint_reg[(register - 4) as usize] as i64),
                RegisterClass::Float => Some(self.float_reg[(register - 6) as usize]),
            }
        }
    }

    /// Writes a value to the register an argument names, truncating to
    /// the register's class.  A non-register argument is left alone; a
    /// register index past the file is an InvalidRegister fault.
    pub fn set_register_value(&mut self, arg: &Argument, value: i64) -> (r: Result<
        (),
        UnrecoverableError,
    >)
        requires
            old(self)@.wf(),
        ensures
            final(self)@.wf(),
            match *arg {
                Argument::Register(n) => if 0 <= n <= 7 {
                    r is Ok && final(self)@ == old(self)@.with_reg(n as int, value)
                } else {
                    r matches Err(e) && e matches UnrecoverableError::InvalidRegister(loc, _)
                        && loc == old(self)@.pc && final(self)@ == old(self)@
                },
                _ => r is Ok && final(self)@ == old(self)@,
            },
    {
        match arg {
            Argument::Register(n) => {
                if *n < 0 || *n > 7 {
                    return Err(
                        UnrecoverableError::InvalidRegister(
                            self.pc,
                            Some("The register number is too large.".to_owned()),
                        ),
                    );
                }
                let idx = *n as u16;
                match register_class(idx) {
                    RegisterClass::Signed => {
                        self.int_reg.set(idx as usize, #[verifier::truncate] (value as i16));
                    },
                    RegisterClass::Unsigned => {
                        self.uint_reg.set(
                            (idx - 4) as usize,
                            #[verifier::truncate] (value as u16),
                        );
                    },
                    RegisterClass::Float => {
                        self.float_reg.set((idx - 6) as usize, value);
                    },
                }
                Ok(())
            },
            _ => Ok(()),
        }
    }

    /// Runs the overflow check after an arithmetic write: a result out
    /// of the destination class's range records a recoverable Overflow
    /// condition and sets the overflow flag, and stops the run when the
    /// halt-on-overflow policy is enabled.
    pub fn check_overflow(&mut self, new_value: i64, register: u16)
        requires
            old(self)@.wf(),
        ensures
            final(self)@.wf(),
            CpuView::spec_overflows(new_value, register as int) ==> final(self)@ == (CpuView {
                oflag: true,
                running: old(self)@.running && !old(self)@.hlt_on_overflow,
                warnings: old(self)@.warnings.push(
                    RecoverableError::Overflow(old(self)@.pc, None),
                ),
                ..old(self)@
            }),
            !CpuView::spec_overflows(new_value, register as int) ==> final(self)@ == old(self)@,
    {
        let overflowed: bool = if register <= 3 {
            new_value > i16::MAX as i64 || new_value < i16::MIN as i64
        } else if register <= 5 {
            new_value > u16::MAX as i64 || new_value < 0
        } else if register <= 7 {
            false
        } else {
            true
        };
        if overflowed {
            self.warnings.push(RecoverableError::Overflow(self.pc, None));
            self.oflag = true;
            if self.hlt_on_overflow {
                self.running = false;
            }
        }
    }

    /// Resolves an operand to its numeric value, without touching the
    /// state.  Fails with SegmentationFault when a cell read directly
    /// or through one level of pointer indirection is absent or out of
    /// bounds, and with IllegalInstruction on a register index past the
    /// file, a wild memory-pointer target, or an operand kind that
    /// carries no value.
    pub fn get_value(&self, arg: &Argument) -> (r: Result<i64, UnrecoverableError>)
        requires
            self@.wf(),
        ensures
            (r is Ok) == self@.arg_ok(*arg),
            r matches Ok(v) ==> v == self@.arg_val(*arg),
            r matches Err(e) ==> e.spec_loc() == self@.pc,
            r matches Err(e) ==> if self@.arg_seg(*arg) {
                e matches UnrecoverableError::SegmentationFault(_, _)
            } else {
                e matches UnrecoverableError::IllegalInstruction(_, _)
            },
    {
        match arg {
            Argument::Register(n) => {
                if *n < 0 || *n > 7 {
                    Err(
                        UnrecoverableError::IllegalInstruction(
                            self.pc,
                            Some("Illegal register".to_owned()),
                        ),
                    )
                } else {
                    match self.get_register_value(*n as u16) {
                        Some(v) => Ok(v),
                        None => Err(UnrecoverableError::IllegalInstruction(self.pc, None)),
                    }
                }
            },
            Argument::Literal(l) => Ok(*l as i64),
            Argument::MemAddr(n) => {
                if *n < 0 {
                    Err(
                        UnrecoverableError::SegmentationFault(
                            self.pc,
                            Some("Memory address is negative.".to_owned()),
                        ),
                    )
                } else {
                    match self.memory[*n as usize] {
                        Some(v) => Ok(v as i64),
                        None => Err(
                            UnrecoverableError::SegmentationFault(
                                self.pc,
                                Some("Memory address is empty.".to_owned()),
                            ),
                        ),
                    }
                }
            },
            Argument::RegPtr(n) => {
                if *n < 0 || *n > 7 {
                    return Err(
                        UnrecoverableError::IllegalInstruction(
                            self.pc,
                            Some("Illegal register pointer".to_owned()),
                        ),
                    );
                }
                let addr = match self.get_register_value(*n as u16) {
                    Some(v) => v,
                    None => {
                        return Err(UnrecoverableError::IllegalInstruction(self.pc, None));
                    },
                };
                if addr < 0 || addr >= MEMORY_SIZE as i64 {
                    return Err(
                        UnrecoverableError::SegmentationFault(
                            self.pc,
                            Some("The pointer leaves memory.".to_owned()),
                        ),
                    );
                }
                match self.memory[addr as usize] {
                    Some(v) => Ok(v as i64),
                    None => Err(
                        UnrecoverableError::SegmentationFault(
                            self.pc,
                            Some("The address the pointer references is empty.".to_owned()),
                        ),
                    ),
                }
            },
            Argument::MemPtr(n) => {
                if *n < 0 {
                    return Err(
                        UnrecoverableError::SegmentationFault(
                            self.pc,
                            Some("Memory address is negative.".to_owned()),
                        ),
                    );
                }
                let t = match self.memory[*n as usize] {
                    Some(v) => v,
                    None => {
                        return Err(
                            UnrecoverableError::SegmentationFault(
                                self.pc,
                                Some("The pointer's location is empty.".to_owned()),
                            ),
                        );
                    },
                };
                if t < 0 || t as usize >= MEMORY_SIZE {
                    return Err(
                        UnrecoverableError::IllegalInstruction(
                            self.pc,
                            Some("Memory address invalid.".to_owned()),
                        ),
                    );
                }
                match self.memory[t as usize] {
                    Some(v) => Ok(v as i64),
                    None => Err(
                        UnrecoverableError::SegmentationFault(
                            self.pc,
                            Some("The address the pointer references is empty.".to_owned()),
                        ),
                    ),
                }
            },
            _ => Err(
                UnrecoverableError::IllegalInstruction(
                    self.pc,
                    Some("The operand kind carries no value.".to_owned()),
                ),
            ),
        }
    }

    /// Records an unknown-flag condition: logged, execution continues.
    pub fn report_unknown_flag(&mut self)
        requires
            old(self)@.wf(),
        ensures
            final(self)@.wf(),
            final(self)@ == (CpuView {
                warnings: old(self)@.warnings.push(
                    RecoverableError::UnknownFlag(old(self)@.pc, None),
                ),
                ..old(self)@
            }),
    {
        self.warnings.push(RecoverableError::UnknownFlag(self.pc, None));
    }

    /// The InvalidRegister fault, at the current program counter.
    pub fn report_invalid_register(&self) -> (r: UnrecoverableError)
        ensures
            r matches UnrecoverableError::InvalidRegister(loc, _) && loc == self@.pc,
    {
        UnrecoverableError::InvalidRegister(
            self.pc,
            Some("The register number is too large.".to_owned()),
        )
    }

    /// The DivideByZero fault, at the current program counter.
    pub fn report_divide_by_zero(&self) -> (r: UnrecoverableError)
        ensures
            r matches UnrecoverableError::DivideByZero(loc, _) && loc == self@.pc,
    {
        UnrecoverableError::DivideByZero(
            self.pc,
            Some("Attempted to divide by zero.".to_owned()),
        )
    }

    /// The SegmentationFault fault, at the current program counter.
    pub fn handle_segmentation_fault(&self, message: &str) -> (r: UnrecoverableError)
        ensures
            r matches UnrecoverableError::SegmentationFault(loc, _) && loc == self@.pc,
    {
        UnrecoverableError::SegmentationFault(self.pc, Some(message.to_owned()))
    }
}

impl Default for CPU {
    /// The same state `CPU::new` builds.
    fn default() -> (r: CPU)
        ensures
            r@.wf(),
    {
        CPU::new()
    }
}

} // verus!
