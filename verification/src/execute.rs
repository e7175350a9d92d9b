//! The executor: dispatches each decoded instruction to its semantic
//! handler, mutating the CPU state.  Arithmetic is combined in a wide
//! integer intermediate, overflow-checked against the destination
//! register's class, and written back truncated.

use crate::cpu::{CpuView, CPU, MEMORY_SIZE, OutEvent};
use crate::faults::{RecoverableError, UnrecoverableError};
use crate::isa::Argument;
use vstd::prelude::*;

verus! {

/// A wide result clamped to the `i64` range.
pub open spec fn clamp64(x: int) -> i64 {
    if x > i64::MAX {
        i64::MAX
    } else if x < i64::MIN {
        i64::MIN
    } else {
        x as i64
    }
}

/// The wide sum of two values, clamped.
pub open spec fn spec_sat_add(a: i64, b: i64) -> i64 {
    clamp64(a + b)
}

/// The wide product of two values, clamped.
pub open spec fn spec_sat_mul(a: i64, b: i64) -> i64 {
    clamp64(a * b)
}

pub open spec fn spec_abs(x: int) -> int {
    if x < 0 {
        -x
    } else {
        x
    }
}

/// The quotient of truncating division, clamped: magnitudes divided,
/// the sign restored.
pub open spec fn spec_div_trunc(a: i64, b: i64) -> i64 {
    let q = spec_abs(a as int) / spec_abs(b as int);
    clamp64(
        if (a < 0) != (b < 0) {
            -q
        } else {
            q
        },
    )
}

/// Whether truncating division leaves a remainder.
pub open spec fn spec_rem_nonzero(a: i64, b: i64) -> bool {
    spec_abs(a as int) % spec_abs(b as int) != 0
}

fn sat_add(a: i64, b: i64) -> (r: i64)
    ensures
        r == spec_sat_add(a, b),
{
    match a.checked_add(b) {
        Some(v) => v,
        None => if a > 0 {
            i64::MAX
        } else {
            i64::MIN
        },
    }
}

fn sat_mul(a: i64, b: i64) -> (r: i64)
    ensures
        r == spec_sat_mul(a, b),
{
    match a.checked_mul(b) {
        Some(v) => v,
        None => {
            proof {
                assert(a != 0 && b != 0);
                if a > 0 && b > 0 {
                    assert(a * b > 0) by (nonlinear_arith)
                        requires
                            a > 0,
                            b > 0,
                    ;
                } else if a < 0 && b < 0 {
                    assert(a * b > 0) by (nonlinear_arith)
                        requires
                            a < 0,
                            b < 0,
                    ;
                } else if a > 0 && b < 0 {
                    assert(a * b < 0) by (nonlinear_arith)
                        requires
                            a > 0,
                            b < 0,
                    ;
                } else {
                    assert(a * b < 0) by (nonlinear_arith)
                        requires
                            a < 0,
                            b > 0,
                    ;
                }
            }
            if (a > 0) == (b > 0) {
                i64::MAX
            } else {
                i64::MIN
            }
        },
    }
}

fn abs_u64(a: i64) -> (r: u64)
    ensures
        r as int == spec_abs(a as int),
{
    if a == i64::MIN {
        9223372036854775808u64
    } else if a < 0 {
        (-a) as u64
    } else {
        a as u64
    }
}

/// Truncating division with its remainder test.
fn div_trunc(a: i64, b: i64) -> (r: (i64, bool))
    requires
        b != 0,
    ensures
        r.0 == spec_div_trunc(a, b),
        r.1 == spec_rem_nonzero(a, b),
{
    let am = abs_u64(a);
    let bm = abs_u64(b);
    let qm = am / bm;
    let rem = am % bm;
    let neg = (a < 0) != (b < 0);
    let q: i64 = if neg {
        if qm >= 9223372036854775808u64 {
            proof {
                assert(qm <= am) by (nonlinear_arith)
                    requires
                        bm >= 1,
                        qm == am / bm,
                ;
            }
            i64::MIN
        } else {
            -(qm as i64)
        }
    } else {
        if qm > i64::MAX as u64 {
            i64::MAX
        } else {
            qm as i64
        }
    };
    (q, rem != 0)
}

/// Whether an unrecoverable fault is the one operand resolution raises
/// in a state: located at that state's program counter, a segmentation
/// fault for an absent cell, an illegal instruction otherwise.
pub open spec fn spec_fault_at(pre: CpuView, a: Argument, e: UnrecoverableError) -> bool {
    &&& e.spec_loc() == pre.pc
    &&& if pre.arg_seg(a) {
        e matches UnrecoverableError::SegmentationFault(_, _)
    } else {
        e matches UnrecoverableError::IllegalInstruction(_, _)
    }
}

/// The state after an arithmetic write to register `n`: the overflow
/// check runs on the wide result first, then the truncated value is
/// stored through the register's class.
pub open spec fn spec_write_back(pre: CpuView, n: int, res: i64) -> CpuView {
    let flagged = if CpuView::spec_overflows(res, n) {
        CpuView {
            oflag: true,
            running: pre.running && !pre.hlt_on_overflow,
            warnings: pre.warnings.push(RecoverableError::Overflow(pre.pc, None)),
            ..pre
        }
    } else {
        pre
    };
    flagged.with_reg(n, res)
}

/// The shared outcome shape of the register-writing handlers: a source
/// that does not resolve faults and changes nothing; a well-named
/// destination register takes the written-back result; a destination
/// register past the file is an InvalidRegister fault; any other
/// destination leaves the state alone.
pub open spec fn spec_binop_post(
    pre: CpuView,
    post: CpuView,
    r: Result<(), UnrecoverableError>,
    a1: Argument,
    a2: Argument,
    res_of: spec_fn(int) -> i64,
) -> bool {
    if !pre.arg_ok(a2) {
        &&& r matches Err(e) && spec_fault_at(pre, a2, e)
        &&& post == pre
    } else {
        match a1 {
            Argument::Register(n) => if 0 <= n <= 7 {
                r is Ok && post == spec_write_back(pre, n as int, res_of(n as int))
            } else {
                &&& r matches Err(e) && e matches UnrecoverableError::InvalidRegister(loc, _)
                    && loc == pre.pc
                &&& post == pre
            },
            _ => r is Ok && post == pre,
        }
    }
}


/// The outcome of `DIV`: an unresolvable source faults and changes
/// nothing; a zero-valued source raises DivideByZero and writes
/// nothing back; otherwise the truncating quotient is written back,
/// with the remainder flag set on a non-exact division.
pub open spec fn spec_div_post(
    pre: CpuView,
    post: CpuView,
    r: Result<(), UnrecoverableError>,
    a1: Argument,
    a2: Argument,
) -> bool {
    &&& (!pre.arg_ok(a2) ==> (r matches Err(e) && spec_fault_at(pre, a2, e)) && post == pre)
    &&& (pre.arg_ok(a2) && pre.arg_val(a2) == 0 ==> (r matches Err(e)
        && e matches UnrecoverableError::DivideByZero(loc, _) && loc == pre.pc) && post == pre)
    &&& (pre.arg_ok(a2) && pre.arg_val(a2) != 0 ==> match a1 {
        Argument::Register(n) => if 0 <= n <= 7 {
            r is Ok && post == spec_write_back(
                if spec_rem_nonzero(pre.reg(n as int), pre.arg_val(a2)) {
                    CpuView { rflag: true, ..pre }
                } else {
                    pre
                },
                n as int,
                spec_div_trunc(pre.reg(n as int), pre.arg_val(a2)),
            )
        } else {
            (r matches Err(e) && e matches UnrecoverableError::InvalidRegister(loc, _) && loc
                == pre.pc) && post == pre
        },
        _ => r is Ok && post == pre,
    })
}

/// The outcome of `CMP`: the zero flag records equality of destination
/// and source, the sign flag a negative difference; nothing is written
/// back.
pub open spec fn spec_cmp_post(
    pre: CpuView,
    post: CpuView,
    r: Result<(), UnrecoverableError>,
    a1: Argument,
    a2: Argument,
) -> bool {
    &&& (!pre.arg_ok(a2) ==> (r matches Err(e) && spec_fault_at(pre, a2, e)) && post == pre)
    &&& (pre.arg_ok(a2) ==> match a1 {
        Argument::Register(n) => if 0 <= n <= 7 {
            r is Ok && post == (CpuView {
                zflag: pre.reg(n as int) == pre.arg_val(a2),
                sflag: pre.reg(n as int) < pre.arg_val(a2),
                ..pre
            })
        } else {
            (r matches Err(e) && e matches UnrecoverableError::IllegalInstruction(loc, _) && loc
                == pre.pc) && post == pre
        },
        _ => r is Ok && post == pre,
    })
}

/// The outcome of `ST`: the source register's value is written to the
/// destination cell, named directly or through a register pointer.
pub open spec fn spec_st_post(
    pre: CpuView,
    post: CpuView,
    r: Result<(), UnrecoverableError>,
    a1: Argument,
    a2: Argument,
) -> bool {
    &&& (!pre.arg_ok(a2) ==> (r matches Err(e) && spec_fault_at(pre, a2, e)) && post == pre)
    &&& (pre.arg_ok(a2) ==> {
        let src = pre.arg_val(a2);
        match a1 {
            Argument::MemAddr(n) => if n >= 0 {
                r is Ok && post == (CpuView {
                    memory: pre.memory.update(n as int, Some(#[verifier::truncate] (src as i16))),
                    ..pre
                })
            } else {
                (r matches Err(e) && e matches UnrecoverableError::SegmentationFault(loc, _)
                    && loc == pre.pc) && post == pre
            },
            Argument::RegPtr(n) => if !(0 <= n <= 7) {
                (r matches Err(e) && e matches UnrecoverableError::IllegalInstruction(loc, _)
                    && loc == pre.pc) && post == pre
            } else if 0 <= pre.reg(n as int) < MEMORY_SIZE {
                r is Ok && post == (CpuView {
                    memory: pre.memory.update(
                        pre.reg(n as int) as int,
                        Some(#[verifier::truncate] (src as i16)),
                    ),
                    ..pre
                })
            } else {
                (r matches Err(e) && e matches UnrecoverableError::SegmentationFault(loc, _)
                    && loc == pre.pc) && post == pre
            },
            _ => r is Ok && post == pre,
        }
    })
}

/// The outcome of `PUSH`: a register's value or a literal goes onto
/// the stack per the growth discipline, or StackOverflow with nothing
/// written.
pub open spec fn spec_push_post(
    pre: CpuView,
    post: CpuView,
    r: Result<(), UnrecoverableError>,
    arg: Argument,
) -> bool {
    if (arg matches Argument::Register(_)) && !pre.arg_ok(arg) {
        (r matches Err(e) && spec_fault_at(pre, arg, e)) && post == pre
    } else {
        let val: i64 = match arg {
            Argument::Literal(l) => l as i64,
            Argument::Register(_) => pre.arg_val(arg),
            _ => 0,
        };
        if spec_push_overflows(pre) {
            (r matches Err(e) && e matches UnrecoverableError::StackOverflow(loc, _) && loc
                == pre.pc) && post == pre
        } else {
            r is Ok && post == spec_push(pre, #[verifier::truncate] (val as i16))
        }
    }
}

/// The outcome of `POP`: the top cell moves into the named register
/// and the stack steps back; an absent cell is a StackUnderflow.  A
/// non-register operand is left alone.
pub open spec fn spec_pop_post(
    pre: CpuView,
    post: CpuView,
    r: Result<(), UnrecoverableError>,
    arg: Argument,
) -> bool {
    match arg {
        Argument::Register(n) => if spec_pop_underflows(pre) {
            (r matches Err(e) && e matches UnrecoverableError::StackUnderflow(loc, _) && loc
                == pre.pc) && post == pre
        } else if !(0 <= n <= 7) {
            (r matches Err(e) && e matches UnrecoverableError::InvalidRegister(loc, _) && loc
                == pre.pc) && post == pre
        } else {
            r is Ok && post == spec_pop(pre, n as int)
        },
        _ => r is Ok && post == pre,
    }
}

/// The outcome of `RET`: the top cell goes to the program counter and
/// the stack steps back; an absent cell is a StackUnderflow.
pub open spec fn spec_ret_post(
    pre: CpuView,
    post: CpuView,
    r: Result<(), UnrecoverableError>,
) -> bool {
    &&& (spec_pop_underflows(pre) ==> (r matches Err(e)
        && e matches UnrecoverableError::StackUnderflow(loc, _) && loc == pre.pc) && post == pre)
    &&& (!spec_pop_underflows(pre) ==> r is Ok && post == spec_ret(pre))
}

impl CPU {
    /// `ADD`: destination plus source, written back through the class.
    pub fn handle_add(&mut self, arg1: &Argument, arg2: &Argument) -> (r: Result<
        (),
        UnrecoverableError,
    >)
        requires
            old(self)@.wf(),
        ensures
            final(self)@.wf(),
            spec_binop_post(
                old(self)@,
                final(self)@,
                r,
                *arg1,
                *arg2,
                (|n: int| spec_sat_add(old(self)@.reg(n), old(self)@.arg_val(*arg2))),
            ),
    {
        let value = match self.get_value(arg2) {
            Ok(v) => v,
            Err(e) => {
                return Err(e);
            },
        };
        match arg1 {
            Argument::Register(n) => {
                if *n < 0 || *n > 7 {
                    return Err(self.report_invalid_register());
                }
                let cur = match self.get_register_value(*n as u16) {
                    Some(v) => v,
                    None => {
                        return Err(self.report_invalid_register());
                    },
                };
                let res = sat_add(cur, value);
                self.check_overflow(res, *n as u16);
                match self.set_register_value(arg1, res) {
                    Ok(()) => Ok(()),
                    Err(e) => Err(e),
                }
            },
            _ => Ok(()),
        }
    }

    /// `MUL`: destination times source, written back through the class.
    pub fn handle_mul(&mut self, arg1: &Argument, arg2: &Argument) -> (r: Result<
        (),
        UnrecoverableError,
    >)
        requires
            old(self)@.wf(),
        ensures
            final(self)@.wf(),
            spec_binop_post(
                old(self)@,
                final(self)@,
                r,
                *arg1,
                *arg2,
                (|n: int| spec_sat_mul(old(self)@.reg(n), old(self)@.arg_val(*arg2))),
            ),
    {
        let value = match self.get_value(arg2) {
            Ok(v) => v,
            Err(e) => {
                return Err(e);
            },
        };
        match arg1 {
            Argument::Register(n) => {
                if *n < 0 || *n > 7 {
                    return Err(self.report_invalid_register());
                }
                let cur = match self.get_register_value(*n as u16) {
                    Some(v) => v,
                    None => {
                        return Err(self.report_invalid_register());
                    },
                };
                let res = sat_mul(cur, value);
                self.check_overflow(res, *n as u16);
                match self.set_register_value(arg1, res) {
                    Ok(()) => Ok(()),
                    Err(e) => Err(e),
                }
            },
            _ => Ok(()),
        }
    }

    /// `MOV`: the source value replaces the destination, written back
    /// through the class after the overflow check.
    pub fn handle_mov(&mut self, arg1: &Argument, arg2: &Argument) -> (r: Result<
        (),
        UnrecoverableError,
    >)
        requires
            old(self)@.wf(),
        ensures
            final(self)@.wf(),
            spec_binop_post(
                old(self)@,
                final(self)@,
                r,
                *arg1,
                *arg2,
                (|n: int| old(self)@.arg_val(*arg2)),
            ),
    {
        let value = match self.get_value(arg2) {
            Ok(v) => v,
            Err(e) => {
                return Err(e);
            },
        };
        match arg1 {
            Argument::Register(n) => {
                if *n < 0 || *n > 7 {
                    return Err(self.report_invalid_register());
                }
                self.check_overflow(value, *n as u16);
                match self.set_register_value(arg1, value) {
                    Ok(()) => Ok(()),
                    Err(e) => Err(e),
                }
            },
            _ => Ok(()),
        }
    }

    /// `LD`: loads the cell at a direct memory address into the
    /// destination register; the same write-back discipline as `MOV`.
    pub fn handle_ld(&mut self, arg1: &Argument, arg2: &Argument) -> (r: Result<
        (),
        UnrecoverableError,
    >)
        requires
            old(self)@.wf(),
        ensures
            final(self)@.wf(),
            spec_binop_post(
                old(self)@,
                final(self)@,
                r,
                *arg1,
                *arg2,
                (|n: int| old(self)@.arg_val(*arg2)),
            ),
    {
        self.handle_mov(arg1, arg2)
    }

    /// `DIV`: destination divided by source.  A zero-valued source
    /// raises DivideByZero and writes nothing back; a non-exact
    /// division sets the remainder flag.
    pub fn handle_div(&mut self, arg1: &Argument, arg2: &Argument) -> (r: Result<
        (),
        UnrecoverableError,
    >)
        requires
            old(self)@.wf(),
        ensures
            final(self)@.wf(),
            spec_div_post(old(self)@, final(self)@, r, *arg1, *arg2),
    {
        let divisor = match self.get_value(arg2) {
            Ok(v) => v,
            Err(e) => {
                return Err(e);
            },
        };
        if divisor == 0 {
            return Err(self.report_divide_by_zero());
        }
        match arg1 {
            Argument::Register(n) => {
                if *n < 0 || *n > 7 {
                    return Err(self.report_invalid_register());
                }
                let cur = match self.get_register_value(*n as u16) {
                    Some(v) => v,
                    None => {
                        return Err(self.report_invalid_register());
                    },
                };
                let (q, rem_nz) = div_trunc(cur, divisor);
                if rem_nz {
                    self.rflag = true;
                }
                self.check_overflow(q, *n as u16);
                match self.set_register_value(arg1, q) {
                    Ok(()) => Ok(()),
                    Err(e) => Err(e),
                }
            },
            _ => Ok(()),
        }
    }

    /// `CMP`: computes destination minus source; the zero flag records
    /// equality, the sign flag a negative difference.  Writes nothing
    /// back.
    pub fn handle_cmp(&mut self, arg1: &Argument, arg2: &Argument) -> (r: Result<
        (),
        UnrecoverableError,
    >)
        requires
            old(self)@.wf(),
        ensures
            final(self)@.wf(),
            spec_cmp_post(old(self)@, final(self)@, r, *arg1, *arg2),
    {
        let src = match self.get_value(arg2) {
            Ok(v) => v,
            Err(e) => {
                return Err(e);
            },
        };
        match arg1 {
            Argument::Register(_) => {
                let value = match self.get_value(arg1) {
                    Ok(v) => v,
                    Err(e) => {
                        return Err(e);
                    },
                };
                self.zflag = value == src;
                self.sflag = value < src;
                Ok(())
            },
            _ => Ok(()),
        }
    }

    /// `ST`: resolves the source register and writes its value to the
    /// destination cell, named directly or through a register pointer.
    pub fn handle_st(&mut self, arg1: &Argument, arg2: &Argument) -> (r: Result<
        (),
        UnrecoverableError,
    >)
        requires
            old(self)@.wf(),
        ensures
            final(self)@.wf(),
            spec_st_post(old(self)@, final(self)@, r, *arg1, *arg2),
    {
        let src = match self.get_value(arg2) {
            Ok(v) => v,
            Err(e) => {
                return Err(e);
            },
        };
        let cell: i16 = #[verifier::truncate] (src as i16);
        match arg1 {
            Argument::MemAddr(n) => {
                if *n < 0 {
                    return Err(
                        self.handle_segmentation_fault("Store address is negative."),
                    );
                }
                self.memory.set(*n as usize, Some(cell));
                Ok(())
            },
            Argument::RegPtr(n) => {
                if *n < 0 || *n > 7 {
                    return Err(
                        UnrecoverableError::IllegalInstruction(
                            self.pc,
                            Some("Illegal register pointer".to_owned()),
                        ),
                    );
                }
                let addr = match self.get_register_value(*n as u16) {
                    Some(v) => v,
                    None => {
                        return Err(UnrecoverableError::IllegalInstruction(self.pc, None));
                    },
                };
                if addr < 0 || addr >= MEMORY_SIZE as i64 {
                    return Err(
                        self.handle_segmentation_fault("Store target leaves memory."),
                    );
                }
                self.memory.set(addr as usize, Some(cell));
                Ok(())
            },
            _ => Ok(()),
        }
    }
}

/// Whether the stack is in its upward regime: the stack pointer above
/// the base pointer, or the crossing already recorded.
pub open spec fn spec_upward(pre: CpuView) -> bool {
    pre.sp > pre.bp || pre.backward_stack
}

/// Whether a push moves the stack pointer before writing: it stays in
/// place only for the first write at the base pointer's empty cell.
pub open spec fn spec_push_inc(pre: CpuView) -> bool {
    pre.sp != pre.bp || pre.memory[pre.bp as int] is Some
}

/// Whether a push would run the stack pointer out of memory bounds.
pub open spec fn spec_push_overflows(pre: CpuView) -> bool {
    pre.sp >= MEMORY_SIZE || pre.bp >= MEMORY_SIZE || if spec_upward(pre) {
        (if spec_push_inc(pre) {
            pre.sp + 1
        } else {
            pre.sp as int
        }) >= MEMORY_SIZE
    } else {
        pre.sp == 0
    }
}

/// The state after a successful push of one cell: upward growth writes
/// at the incremented stack pointer, and the first time the stack is
/// seen in its upward regime the crossing is logged once as a
/// recoverable BackwardStack condition; downward growth writes at the
/// decremented pointer.
pub open spec fn spec_push(pre: CpuView, cell: i16) -> CpuView {
    if spec_upward(pre) {
        let nsp = if spec_push_inc(pre) {
            (pre.sp + 1) as u16
        } else {
            pre.sp
        };
        let warnings = if pre.backward_stack {
            pre.warnings
        } else {
            pre.warnings.push(RecoverableError::BackwardStack(pre.pc, None))
        };
        CpuView {
            sp: nsp,
            memory: pre.memory.update(nsp as int, Some(cell)),
            backward_stack: true,
            warnings,
            ..pre
        }
    } else {
        let nsp = if spec_push_inc(pre) {
            (pre.sp - 1) as u16
        } else {
            pre.sp
        };
        CpuView { sp: nsp, memory: pre.memory.update(nsp as int, Some(cell)), ..pre }
    }
}

/// Whether a pop or return finds no value at the stack pointer.
pub open spec fn spec_pop_underflows(pre: CpuView) -> bool {
    pre.sp >= MEMORY_SIZE || pre.memory[pre.sp as int] is None
}

/// The cell a successful pop or return reads.
pub open spec fn spec_pop_cell(pre: CpuView) -> i16 {
    pre.memory[pre.sp as int]->0
}

/// The stack step of a pop or return: the top cell is cleared and the
/// stack pointer steps back toward the base pointer.
pub open spec fn spec_pop_move(mid: CpuView) -> CpuView {
    if mid.sp > mid.bp {
        CpuView {
            memory: mid.memory.update(mid.sp as int, None),
            sp: (mid.sp - 1) as u16,
            ..mid
        }
    } else {
        CpuView {
            memory: mid.memory.update(mid.sp as int, None),
            sp: if mid.sp != mid.bp {
                (mid.sp + 1) as u16
            } else {
                mid.sp
            },
            ..mid
        }
    }
}

/// The state after a successful pop into register `n`: the top cell is
/// stored through the register's class, then cleared as the stack
/// steps back.
pub open spec fn spec_pop(pre: CpuView, n: int) -> CpuView {
    spec_pop_move(pre.with_reg(n, spec_pop_cell(pre) as i64))
}

/// The state after a successful return: the top cell goes to the
/// program counter, is cleared, and the stack steps back; no register
/// changes and no crossing is recorded.
pub open spec fn spec_ret(pre: CpuView) -> CpuView {
    let v = spec_pop_cell(pre);
    let moved = CpuView {
        memory: pre.memory.update(pre.sp as int, None),
        sp: if pre.sp > pre.bp {
            (pre.sp - 1) as u16
        } else if pre.sp != pre.bp {
            (pre.sp + 1) as u16
        } else {
            pre.sp
        },
        ..pre
    };
    CpuView { pc: v as u16, ..moved }
}

/// The outcome of a taken jump: the pre-jump program counter is pushed,
/// then the target is assigned, compensated for the generic advance
/// that follows every successful dispatch.
pub open spec fn spec_jmp_post(
    pre: CpuView,
    post: CpuView,
    r: Result<(), UnrecoverableError>,
    arg: Argument,
) -> bool {
    if spec_push_overflows(pre) {
        &&& r matches Err(e) && e matches UnrecoverableError::StackOverflow(loc, _) && loc
            == pre.pc
        &&& post == pre
    } else {
        let pushed = spec_push(pre, #[verifier::truncate] (pre.pc as i16));
        match arg {
            Argument::MemAddr(n) => if n <= 0 {
                (r matches Err(e) && e matches UnrecoverableError::IllegalInstruction(loc, _)
                    && loc == pushed.pc) && post == pushed
            } else {
                r is Ok && post == (CpuView { pc: (n - 1) as u16, ..pushed })
            },
            Argument::RegPtr(n) => if !(0 <= n <= 7) {
                (r matches Err(e) && e matches UnrecoverableError::IllegalInstruction(loc, _)
                    && loc == pushed.pc) && post == pushed
            } else {
                let v = pre.reg(n as int);
                if v < 1 || v > 65535 {
                    (r matches Err(e) && e matches UnrecoverableError::IllegalInstruction(loc, _)
                        && loc == pushed.pc) && post == pushed
                } else {
                    r is Ok && post == (CpuView { pc: (v - 1) as u16, ..pushed })
                }
            },
            _ => r is Ok && post == pushed,
        }
    }
}

impl CPU {
    /// `PUSH`: writes a register's value or a literal onto the stack,
    /// growing it per the stack discipline.
    #[verifier::rlimit(100)]
    #[verifier::spinoff_prover]
    pub fn handle_push(&mut self, arg: &Argument) -> (r: Result<(), UnrecoverableError>)
        requires
            old(self)@.wf(),
        ensures
            final(self)@.wf(),
            spec_push_post(old(self)@, final(self)@, r, *arg),
    {
        let mut val: i64 = 0;
        match arg {
            Argument::Literal(l) => {
                val = *l as i64;
            },
            Argument::Register(_) => {
                val = match self.get_value(arg) {
                    Ok(v) => v,
                    Err(e) => {
                        return Err(e);
                    },
                };
            },
            _ => {},
        }
        let cell: i16 = #[verifier::truncate] (val as i16);
        if self.sp as usize >= MEMORY_SIZE || self.bp as usize >= MEMORY_SIZE {
            return Err(
                UnrecoverableError::StackOverflow(
                    self.pc,
                    Some("Overflowed while pushing onto stack".to_owned()),
                ),
            );
        }
        if self.sp > self.bp || self.backward_stack {
            let inc = self.sp != self.bp || self.memory[self.bp as usize].is_some();
            let nsp_wide: usize = self.sp as usize + if inc {
                1
            } else {
                0
            };
            if nsp_wide >= MEMORY_SIZE {
                return Err(
                    UnrecoverableError::StackOverflow(
                        self.pc,
                        Some("Overflowed while pushing onto stack".to_owned()),
                    ),
                );
            }
            if !self.backward_stack {
                self.warnings.push(RecoverableError::BackwardStack(self.pc, None));
            }
            self.sp = nsp_wide as u16;
            self.memory.set(self.sp as usize, Some(cell));
            self.backward_stack = true;
            Ok(())
        } else {
            if self.sp == 0 {
                return Err(
                    UnrecoverableError::StackOverflow(
                        self.pc,
                        Some("Overflowed while pushing onto stack".to_owned()),
                    ),
                );
            }
            if self.sp != self.bp || self.memory[self.bp as usize].is_some() {
                self.sp = self.sp - 1;
            }
            self.memory.set(self.sp as usize, Some(cell));
            Ok(())
        }
    }

    /// `POP`: moves the cell at the stack pointer into the named
    /// register and steps the stack back; an absent cell is a
    /// StackUnderflow.
    #[verifier::rlimit(100)]
    #[verifier::spinoff_prover]
    pub fn handle_pop(&mut self, arg: &Argument) -> (r: Result<(), UnrecoverableError>)
        requires
            old(self)@.wf(),
        ensures
            final(self)@.wf(),
            spec_pop_post(old(self)@, final(self)@, r, *arg),
    {
        match arg {
            Argument::Register(n) => self.pop_into_register(*n),
            _ => Ok(()),
        }
    }

    /// The working half of `POP`, for a register operand.
    #[verifier::rlimit(100)]
    #[verifier::spinoff_prover]
    fn pop_into_register(&mut self, n: i16) -> (r: Result<(), UnrecoverableError>)
        requires
            old(self)@.wf(),
        ensures
            final(self)@.wf(),
            ({
                let pre = old(self)@;
                if spec_pop_underflows(pre) {
                    (r matches Err(e) && e matches UnrecoverableError::StackUnderflow(loc, _)
                        && loc == pre.pc) && final(self)@ == pre
                } else if !(0 <= n <= 7) {
                    (r matches Err(e) && e matches UnrecoverableError::InvalidRegister(loc, _)
                        && loc == pre.pc) && final(self)@ == pre
                } else {
                    r is Ok && final(self)@ == spec_pop(pre, n as int)
                }
            }),
    {
        if self.sp as usize >= MEMORY_SIZE {
            return Err(UnrecoverableError::StackUnderflow(self.pc, None));
        }
        let v = match self.memory[self.sp as usize] {
            Some(v) => v,
            None => {
                return Err(UnrecoverableError::StackUnderflow(self.pc, None));
            },
        };
        if n < 0 || n > 7 {
            return Err(
                UnrecoverableError::InvalidRegister(
                    self.pc,
                    Some("The register number is too large.".to_owned()),
                ),
            );
        }
        match crate::cpu::register_class(n as u16) {
            crate::cpu::RegisterClass::Signed => {
                self.int_reg.set(n as usize, v);
            },
            crate::cpu::RegisterClass::Unsigned => {
                self.uint_reg.set((n - 4) as usize, #[verifier::truncate] (v as u16));
            },
            crate::cpu::RegisterClass::Float => {
                self.float_reg.set((n - 6) as usize, v as i64);
            },
        }
        proof {
            assert(self@ == old(self)@.with_reg(n as int, v as i64));
        }
        if self.sp > self.bp {
            self.memory.set(self.sp as usize, None);
            self.sp = self.sp - 1;
        } else {
            self.memory.set(self.sp as usize, None);
            if self.sp != self.bp {
                self.sp = self.sp + 1;
            }
        }
        Ok(())
    }

    /// `RET`: pops a return address into the program counter; an
    /// absent cell is a StackUnderflow.
    #[verifier::rlimit(100)]
    #[verifier::spinoff_prover]
    pub fn handle_ret(&mut self) -> (r: Result<(), UnrecoverableError>)
        requires
            old(self)@.wf(),
        ensures
            final(self)@.wf(),
            spec_ret_post(old(self)@, final(self)@, r),
    {
        if self.sp as usize >= MEMORY_SIZE {
            return Err(UnrecoverableError::StackUnderflow(self.pc, None));
        }
        let v = match self.memory[self.sp as usize] {
            Some(v) => v,
            None => {
                return Err(UnrecoverableError::StackUnderflow(self.pc, None));
            },
        };
        self.pc = #[verifier::truncate] (v as u16);
        if self.sp > self.bp {
            self.memory.set(self.sp as usize, None);
            self.sp = self.sp - 1;
        } else {
            self.memory.set(self.sp as usize, None);
            if self.sp != self.bp {
                self.sp = self.sp + 1;
            }
        }
        Ok(())
    }

    /// A taken jump: pushes the pre-jump program counter, then assigns
    /// the target, direct or register-indirect.
    #[verifier::rlimit(100)]
    #[verifier::spinoff_prover]
    fn jmp(&mut self, arg: &Argument) -> (r: Result<(), UnrecoverableError>)
        requires
            old(self)@.wf(),
        ensures
            final(self)@.wf(),
            spec_jmp_post(old(self)@, final(self)@, r, *arg),
    {
        let cell: i16 = #[verifier::truncate] (self.pc as i16);
        match self.handle_push(&Argument::Literal(cell)) {
            Ok(()) => {},
            Err(e) => {
                return Err(e);
            },
        }
        match arg {
            Argument::MemAddr(n) => {
                if *n <= 0 {
                    return Err(
                        UnrecoverableError::IllegalInstruction(
                            self.pc,
                            Some("attempted to jump to an invalid address".to_owned()),
                        ),
                    );
                }
                self.pc = (*n - 1) as u16;
                Ok(())
            },
            Argument::RegPtr(n) => {
                if *n < 0 || *n > 7 {
                    return Err(
                        UnrecoverableError::IllegalInstruction(
                            self.pc,
                            Some("Illegal register pointer".to_owned()),
                        ),
                    );
                }
                let v = match self.get_register_value(*n as u16) {
                    Some(v) => v,
                    None => {
                        return Err(UnrecoverableError::IllegalInstruction(self.pc, None));
                    },
                };
                if v < 1 || v > 65535 {
                    return Err(
                        UnrecoverableError::IllegalInstruction(
                            self.pc,
                            Some("attempted to jump to an invalid address".to_owned()),
                        ),
                    );
                }
                self.pc = (v - 1) as u16;
                Ok(())
            },
            _ => Ok(()),
        }
    }

    /// `JO`: jumps only when the overflow flag is set.
    pub fn handle_jo(&mut self, arg: &Argument) -> (r: Result<(), UnrecoverableError>)
        requires
            old(self)@.wf(),
        ensures
            final(self)@.wf(),
            !old(self)@.oflag ==> r is Ok && final(self)@ == old(self)@,
            old(self)@.oflag ==> spec_jmp_post(old(self)@, final(self)@, r, *arg),
    {
        if !self.oflag {
            return Ok(());
        }
        self.jmp(arg)
    }

    /// `JZ`: jumps only when the zero flag is set.
    pub fn handle_jz(&mut self, arg: &Argument) -> (r: Result<(), UnrecoverableError>)
        requires
            old(self)@.wf(),
        ensures
            final(self)@.wf(),
            !old(self)@.zflag ==> r is Ok && final(self)@ == old(self)@,
            old(self)@.zflag ==> spec_jmp_post(old(self)@, final(self)@, r, *arg),
    {
        if !self.zflag {
            return Ok(());
        }
        self.jmp(arg)
    }

    /// `JMP`: the unconditional jump.
    pub fn handle_jmp(&mut self, arg: &Argument) -> (r: Result<(), UnrecoverableError>)
        requires
            old(self)@.wf(),
        ensures
            final(self)@.wf(),
            spec_jmp_post(old(self)@, final(self)@, r, *arg),
    {
        self.jmp(arg)
    }
}

/// Whether a memory range read by the print-range interrupt is whole:
/// empty, or entirely present from its first to its last cell.
pub open spec fn spec_int_range_ok(pre: CpuView, s: int, e: int) -> bool {
    s > e || (0 <= s && forall|i: int| s <= i <= e ==> pre.memory[i] is Some)
}

/// The cell values of a whole memory range.
pub open spec fn spec_mem_vals(pre: CpuView, s: int, e: int) -> Seq<i16> {
    if s > e {
        Seq::empty()
    } else {
        Seq::new((e - s + 1) as nat, |i: int| pre.memory[s + i]->0)
    }
}

/// The outcome of `INT`: the full interrupt table, from printing a
/// register or a memory range through flag toggles to the stack and
/// clock settings; an unrecognized code records an unknown-flag
/// condition.
pub open spec fn spec_int_post(
    pre: CpuView,
    post: CpuView,
    r: Result<(), UnrecoverableError>,
    arg: Argument,
) -> bool {

    if !pre.arg_ok(arg) {
        (r matches Err(e) && spec_fault_at(pre, arg, e)) && post == pre
    } else {
        let c = pre.arg_val(arg) as u16;
        if c <= 3 {
            r is Ok && post == (CpuView {
                output: pre.output.push(OutEvent::Number(pre.int_reg[c as int] as i64)),
                ..pre
            })
        } else if c <= 5 {
            r is Ok && post == (CpuView {
                output: pre.output.push(
                    OutEvent::Number(pre.uint_reg[c as int - 4] as i64),
                ),
                ..pre
            })
        } else if c <= 7 {
            r is Ok && post == (CpuView {
                output: pre.output.push(OutEvent::Number(pre.float_reg[c as int - 6])),
                ..pre
            })
        } else if c == 8 {
            let s0 = pre.int_reg[0] as int;
            let e0 = pre.int_reg[1] as int;
            if spec_int_range_ok(pre, s0, e0) {
                &&& r is Ok
                &&& post.output.len() == pre.output.len() + 1
                &&& post.output.drop_last() =~= pre.output
                &&& (post.output.last() matches OutEvent::Chars(v) && v@
                    =~= spec_mem_vals(pre, s0, e0))
                &&& post == (CpuView { output: post.output, ..pre })
            } else {
                (r matches Err(e) && e matches UnrecoverableError::SegmentationFault(
                    loc,
                    _,
                ) && loc == pre.pc) && post == pre
            }
        } else if c == 9 {
            r is Ok && post == (if pre.in_ptr < pre.input.len() {
                CpuView {
                    int_reg: pre.int_reg.update(0, pre.input[pre.in_ptr as int]),
                    in_ptr: (pre.in_ptr + 1) as usize,
                    ..pre
                }
            } else {
                CpuView { int_reg: pre.int_reg.update(0, 0i16), ..pre }
            })
        } else if c == 10 {
            r is Ok && post == (CpuView {
                output: pre.output.push(OutEvent::Sleep),
                ..pre
            })
        } else if c == 11 {
            r is Ok && post == (CpuView { zflag: true, ..pre })
        } else if c == 12 {
            r is Ok && post == (CpuView { zflag: false, ..pre })
        } else if c == 13 {
            r is Ok && post == (CpuView { zflag: !pre.zflag, ..pre })
        } else if c == 20 {
            r is Ok && post == (CpuView {
                max_clk: Some(pre.int_reg[0] as usize),
                ..pre
            })
        } else if c == 21 {
            r is Ok && post == (CpuView { oflag: true, ..pre })
        } else if c == 22 {
            r is Ok && post == (CpuView { oflag: false, ..pre })
        } else if c == 23 {
            r is Ok && post == (CpuView { oflag: !pre.oflag, ..pre })
        } else if c == 31 {
            r is Ok && post == (CpuView { rflag: true, ..pre })
        } else if c == 32 {
            r is Ok && post == (CpuView { rflag: false, ..pre })
        } else if c == 33 {
            r is Ok && post == (CpuView { rflag: !pre.rflag, ..pre })
        } else if c == 41 {
            r is Ok && post == (CpuView { sflag: true, ..pre })
        } else if c == 42 {
            r is Ok && post == (CpuView { sflag: false, ..pre })
        } else if c == 43 {
            r is Ok && post == (CpuView { sflag: !pre.sflag, ..pre })
        } else if c == 51 {
            r is Ok && post == (CpuView { hlt_on_overflow: true, ..pre })
        } else if c == 52 {
            r is Ok && post == (CpuView { hlt_on_overflow: false, ..pre })
        } else if c == 53 {
            r is Ok && post == (CpuView {
                hlt_on_overflow: !pre.hlt_on_overflow,
                ..pre
            })
        } else if c == 60 {
            r is Ok && post == (CpuView { sp: pre.uint_reg[0], ..pre })
        } else if c == 61 {
            r is Ok && post == (CpuView { bp: pre.uint_reg[0], ..pre })
        } else {
            r is Ok && post == (CpuView {
                warnings: pre.warnings.push(
                    RecoverableError::UnknownFlag(pre.pc, None),
                ),
                ..pre
            })
        }
    }

}

/// The per-opcode outcome of one dispatch, tying result and final
/// state to the dispatched handler's exact postcondition.  `HLT`
/// clears the running flag; `NOP` changes nothing.
#[verifier::opaque]
pub open spec fn spec_dispatch_post(
    pre: CpuView,
    post: CpuView,
    r: Result<(), UnrecoverableError>,
    ins: crate::isa::Instruction,
) -> bool {
    match ins {
        crate::isa::Instruction::HLT => r is Ok && post == (CpuView { running: false, ..pre }),
        crate::isa::Instruction::NOP => r is Ok && post == pre,
        crate::isa::Instruction::ADD(a1, a2) => spec_binop_post(
            pre,
            post,
            r,
            a1,
            a2,
            (|n: int| spec_sat_add(pre.reg(n), pre.arg_val(a2))),
        ),
        crate::isa::Instruction::MUL(a1, a2) => spec_binop_post(
            pre,
            post,
            r,
            a1,
            a2,
            (|n: int| spec_sat_mul(pre.reg(n), pre.arg_val(a2))),
        ),
        crate::isa::Instruction::MOV(a1, a2) => spec_binop_post(
            pre,
            post,
            r,
            a1,
            a2,
            (|n: int| pre.arg_val(a2)),
        ),
        crate::isa::Instruction::LD(a1, a2) => spec_binop_post(
            pre,
            post,
            r,
            a1,
            a2,
            (|n: int| pre.arg_val(a2)),
        ),
        crate::isa::Instruction::DIV(a1, a2) => spec_div_post(pre, post, r, a1, a2),
        crate::isa::Instruction::CMP(a1, a2) => spec_cmp_post(pre, post, r, a1, a2),
        crate::isa::Instruction::ST(a1, a2) => spec_st_post(pre, post, r, a1, a2),
        crate::isa::Instruction::JO(a) => if pre.oflag {
            spec_jmp_post(pre, post, r, a)
        } else {
            r is Ok && post == pre
        },
        crate::isa::Instruction::JZ(a) => if pre.zflag {
            spec_jmp_post(pre, post, r, a)
        } else {
            r is Ok && post == pre
        },
        crate::isa::Instruction::JMP(a) => spec_jmp_post(pre, post, r, a),
        crate::isa::Instruction::PUSH(a) => spec_push_post(pre, post, r, a),
        crate::isa::Instruction::POP(a) => spec_pop_post(pre, post, r, a),
        crate::isa::Instruction::RET => spec_ret_post(pre, post, r),
        crate::isa::Instruction::INT(a) => spec_int_post(pre, post, r, a),
    }
}

/// The generic advance after a dispatch: a handler fault stops the run
/// and surfaces unmodified; on success the program counter advances by
/// one, or faults at the top of memory.
pub open spec fn spec_advanced(
    mid: CpuView,
    hr: Result<(), UnrecoverableError>,
    post: CpuView,
    r: Result<(), UnrecoverableError>,
) -> bool {
    match hr {
        Err(e) => post == (CpuView { running: false, err: true, ..mid }) && r == Err::<
            (),
            UnrecoverableError,
        >(e),
        Ok(()) => if mid.pc == 65535 {
            &&& r matches Err(e2) && e2 matches UnrecoverableError::IllegalInstruction(loc, _)
                && loc == mid.pc
            &&& post == (CpuView { running: false, err: true, ..mid })
        } else {
            r is Ok && post == (CpuView { pc: (mid.pc + 1) as u16, ..mid })
        },
    }
}

/// The outcome of executing one decoded instruction: some dispatch
/// outcome of `spec_dispatch_post`, followed by the generic advance.
#[verifier::opaque]
pub open spec fn spec_execute_post(
    pre: CpuView,
    post: CpuView,
    r: Result<(), UnrecoverableError>,
    ins: crate::isa::Instruction,
) -> bool {
    exists|mid: CpuView, hr: Result<(), UnrecoverableError>|
        #[trigger] spec_dispatch_post(pre, mid, hr, ins) && spec_advanced(mid, hr, post, r)
}

/// No dispatched handler touches the has-run marker or the clock.
#[verifier::rlimit(100)]
#[verifier::spinoff_prover]
pub proof fn lemma_dispatch_frame(
    pre: CpuView,
    post: CpuView,
    r: Result<(), UnrecoverableError>,
    ins: crate::isa::Instruction,
)
    requires
        spec_dispatch_post(pre, post, r, ins),
    ensures
        post.has_ran == pre.has_ran,
        post.clk == pre.clk,
{
    reveal(spec_dispatch_post);
}

impl CPU {
    /// `INT`: the software interrupt.  The operand selects a function
    /// from a fixed table: print a register (0..=7), print a memory
    /// range as characters (8), read one input value (9), sleep (10),
    /// set, clear or toggle a flag (11..=13, 21..=23, 31..=33, 41..=43,
    /// 51..=53), set the clock limit (20), or set the stack or base
    /// pointer from the first unsigned register (60, 61).  What a
    /// program prints is recorded as output events for the embedding
    /// program; input is served from the queued input values.  An
    /// unrecognized code is a recoverable unknown-flag condition.
    #[verifier::rlimit(100)]
    #[verifier::spinoff_prover]
    pub fn handle_int(&mut self, arg: &Argument) -> (r: Result<(), UnrecoverableError>)
        requires
            old(self)@.wf(),
        ensures
            final(self)@.wf(),
            spec_int_post(old(self)@, final(self)@, r, *arg),
    {
        let code = match self.get_value(arg) {
            Ok(v) => v,
            Err(e) => {
                return Err(e);
            },
        };
        let c: u16 = #[verifier::truncate] (code as u16);
        if c <= 3 {
            let v = self.int_reg[c as usize] as i64;
            self.output.push(OutEvent::Number(v));
            Ok(())
        } else if c <= 5 {
            let v = self.uint_reg[(c - 4) as usize] as i64;
            self.output.push(OutEvent::Number(v));
            Ok(())
        } else if c <= 7 {
            let v = self.float_reg[(c - 6) as usize];
            self.output.push(OutEvent::Number(v));
            Ok(())
        } else if c == 8 {
            self.int_print_range()
        } else if c == 9 {
            if self.in_ptr < self.input.len() {
                let x = self.input[self.in_ptr];
                self.int_reg.set(0, x);
                self.in_ptr = self.in_ptr + 1;
            } else {
                self.int_reg.set(0, 0);
            }
            Ok(())
        } else if c == 10 {
            self.output.push(OutEvent::Sleep);
            Ok(())
        } else if c == 11 {
            self.zflag = true;
            Ok(())
        } else if c == 12 {
            self.zflag = false;
            Ok(())
        } else if c == 13 {
            self.zflag = !self.zflag;
            Ok(())
        } else if c == 20 {
            let lim: usize = #[verifier::truncate] (self.int_reg[0] as usize);
            self.max_clk = Some(lim);
            Ok(())
        } else if c == 21 {
            self.oflag = true;
            Ok(())
        } else if c == 22 {
            self.oflag = false;
            Ok(())
        } else if c == 23 {
            self.oflag = !self.oflag;
            Ok(())
        } else if c == 31 {
            self.rflag = true;
            Ok(())
        } else if c == 32 {
            self.rflag = false;
            Ok(())
        } else if c == 33 {
            self.rflag = !self.rflag;
            Ok(())
        } else if c == 41 {
            self.sflag = true;
            Ok(())
        } else if c == 42 {
            self.sflag = false;
            Ok(())
        } else if c == 43 {
            self.sflag = !self.sflag;
            Ok(())
        } else if c == 51 {
            self.hlt_on_overflow = true;
            Ok(())
        } else if c == 52 {
            self.hlt_on_overflow = false;
            Ok(())
        } else if c == 53 {
            self.hlt_on_overflow = !self.hlt_on_overflow;
            Ok(())
        } else if c == 60 {
            self.sp = self.uint_reg[0];
            Ok(())
        } else if c == 61 {
            self.bp = self.uint_reg[0];
            Ok(())
        } else {
            self.report_unknown_flag();
            Ok(())
        }
    }


    /// The print-range interrupt: the cells from the first signed
    /// register's value through the second's, emitted as one character
    /// event; a hole in the range is a segmentation fault and nothing
    /// is emitted.
    #[verifier::rlimit(100)]
    #[verifier::spinoff_prover]
    fn int_print_range(&mut self) -> (r: Result<(), UnrecoverableError>)
        requires
            old(self)@.wf(),
        ensures
            final(self)@.wf(),
            ({
                let pre = old(self)@;
                let s0 = pre.int_reg[0] as int;
                let e0 = pre.int_reg[1] as int;
                if spec_int_range_ok(pre, s0, e0) {
                    &&& r is Ok
                    &&& final(self)@.output.len() == pre.output.len() + 1
                    &&& final(self)@.output.drop_last() =~= pre.output
                    &&& (final(self)@.output.last() matches OutEvent::Chars(v) && v@
                        =~= spec_mem_vals(pre, s0, e0))
                    &&& final(self)@ == (CpuView { output: final(self)@.output, ..pre })
                } else {
                    (r matches Err(e) && e matches UnrecoverableError::SegmentationFault(loc, _)
                        && loc == pre.pc) && final(self)@ == pre
                }
            }),
    {
        let s0 = self.int_reg[0];
        let e0 = self.int_reg[1];
        if s0 > e0 {
            self.output.push(OutEvent::Chars(Vec::new()));
            proof {
                assert(Seq::<i16>::empty() =~= spec_mem_vals(old(self)@, s0 as int, e0 as int));
                assert(self@.output.drop_last() =~= old(self)@.output);
                assert(self@ =~= (CpuView { output: self@.output, ..old(self)@ }));
            }
            return Ok(());
        }
        if s0 < 0 {
            return Err(
                self.handle_segmentation_fault(
                    "Memory index out of bounds on the print-range interrupt.",
                ),
            );
        }
        let mut i: i32 = s0 as i32;
        while i <= e0 as i32
            invariant
                self@.wf(),
                self@ == old(self)@,
                s0 == self@.int_reg[0],
                e0 == self@.int_reg[1],
                s0 as i32 <= i <= e0 as i32 + 1,
                0 <= s0 <= e0,
                forall|k: int| s0 <= k < i ==> self@.memory[k] is Some,
            decreases e0 as i32 + 1 - i,
        {
            if self.memory[i as usize].is_none() {
                return Err(
                    self.handle_segmentation_fault(
                        "Memory index out of bounds on the print-range interrupt.",
                    ),
                );
            }
            i = i + 1;
        }
        let mut vals: Vec<i16> = Vec::new();
        let mut j: i32 = s0 as i32;
        while j <= e0 as i32
            invariant
                self@.wf(),
                self@ == old(self)@,
                s0 == self@.int_reg[0],
                e0 == self@.int_reg[1],
                s0 as i32 <= j <= e0 as i32 + 1,
                0 <= s0 <= e0,
                forall|k: int| s0 <= k <= e0 ==> self@.memory[k] is Some,
                vals@.len() == j - s0,
                forall|k: int| 0 <= k < vals@.len() ==> vals@[k] == self@.memory[s0 + k]->0,
            decreases e0 as i32 + 1 - j,
        {
            let v = match self.memory[j as usize] {
                Some(v) => v,
                None => {
                    return Err(
                        self.handle_segmentation_fault(
                            "Memory index out of bounds on the print-range interrupt.",
                        ),
                    );
                },
            };
            vals.push(v);
            j = j + 1;
        }
        proof {
            assert(vals@ =~= spec_mem_vals(self@, s0 as int, e0 as int));
        }
        self.output.push(OutEvent::Chars(vals));
        proof {
            assert(self@.output.drop_last() =~= old(self)@.output);
            assert(self@ =~= (CpuView { output: self@.output, ..old(self)@ }));
        }
        Ok(())
    }

    /// Decodes the word in the instruction register.  Total: every
    /// 16-bit value decodes to some structured instruction.
    pub fn parse_instruction(&self) -> (r: crate::isa::Instruction)
        ensures
            r == crate::isa::decode_spec(self@.ir as u16),
    {
        crate::isa::parse_word(#[verifier::truncate] (self.ir as u16))
    }

    /// Hands one instruction to the handler that carries its exact
    /// contract; every outcome is the named handler's.
    #[verifier::rlimit(100)]
    #[verifier::spinoff_prover]
    fn dispatch(&mut self, ins: &crate::isa::Instruction) -> (r: Result<(), UnrecoverableError>)
        requires
            old(self)@.wf(),
        ensures
            final(self)@.wf(),
            spec_dispatch_post(old(self)@, final(self)@, r, *ins),
    {
        proof {
            reveal(spec_dispatch_post);
        }
        match ins {
            crate::isa::Instruction::HLT => {
                self.running = false;
                Ok(())
            },
            crate::isa::Instruction::ADD(arg1, arg2) => self.handle_add(arg1, arg2),
            crate::isa::Instruction::JO(arg) => self.handle_jo(arg),
            crate::isa::Instruction::POP(arg) => self.handle_pop(arg),
            crate::isa::Instruction::DIV(arg1, arg2) => self.handle_div(arg1, arg2),
            crate::isa::Instruction::RET => self.handle_ret(),
            crate::isa::Instruction::LD(arg1, arg2) => self.handle_ld(arg1, arg2),
            crate::isa::Instruction::ST(arg1, arg2) => self.handle_st(arg1, arg2),
            crate::isa::Instruction::JMP(arg) => self.handle_jmp(arg),
            crate::isa::Instruction::JZ(arg) => self.handle_jz(arg),
            crate::isa::Instruction::CMP(arg1, arg2) => self.handle_cmp(arg1, arg2),
            crate::isa::Instruction::MUL(arg1, arg2) => self.handle_mul(arg1, arg2),
            crate::isa::Instruction::PUSH(arg) => self.handle_push(arg),
            crate::isa::Instruction::INT(arg) => self.handle_int(arg),
            crate::isa::Instruction::MOV(arg1, arg2) => self.handle_mov(arg1, arg2),
            crate::isa::Instruction::NOP => Ok(()),
        }
    }

    /// The generic advance after a dispatch: a handler fault stops the
    /// run and surfaces unmodified; on success the program counter
    /// advances by one, or faults at the top of memory.
    fn apply_advance(&mut self, res: Result<(), UnrecoverableError>) -> (r: Result<
        (),
        UnrecoverableError,
    >)
        requires
            old(self)@.wf(),
        ensures
            final(self)@.wf(),
            spec_advanced(old(self)@, res, final(self)@, r),
            final(self)@.has_ran == old(self)@.has_ran,
            final(self)@.clk == old(self)@.clk,
            r is Err ==> !final(self)@.running && final(self)@.err,
    {
        match res {
            Err(e) => {
                self.running = false;
                self.err = true;
                Err(e)
            },
            Ok(()) => {
                if self.pc == 65535 {
                    self.running = false;
                    self.err = true;
                    return Err(
                        UnrecoverableError::IllegalInstruction(
                            self.pc,
                            Some("program counter is too large".to_owned()),
                        ),
                    );
                }
                self.pc = self.pc + 1;
                Ok(())
            },
        }
    }

    /// Dispatches one decoded instruction to its handler.  After a
    /// successful dispatch the program counter advances by one; jump
    /// handlers pre-compensate.  A handler fault stops the run and is
    /// surfaced to the caller; see `spec_execute_post` for the exact
    /// per-opcode outcome.
    pub fn execute_instruction(&mut self, ins: &crate::isa::Instruction) -> (r: Result<
        (),
        UnrecoverableError,
    >)
        requires
            old(self)@.wf(),
        ensures
            final(self)@.wf(),
            final(self)@.has_ran,
            final(self)@.clk == old(self)@.clk,
            r is Err ==> !final(self)@.running && final(self)@.err,
            spec_execute_post(CpuView { has_ran: true, ..old(self)@ }, final(self)@, r, *ins),
    {
        self.has_ran = true;
        let ghost pre1 = self@;
        let res: Result<(), UnrecoverableError> = self.dispatch(ins);
        let ghost mid = self@;
        let ghost hr = res;
        proof {
            lemma_dispatch_frame(pre1, mid, hr, *ins);
        }
        let rr = self.apply_advance(res);
        let ghost grr = rr;
        proof {
            reveal(spec_execute_post);
            assert(spec_dispatch_post(pre1, mid, hr, *ins) && spec_advanced(
                mid,
                hr,
                self@,
                grr,
            ));
            assert(spec_execute_post(pre1, self@, grr, *ins));
        }
        rr
    }
}

/// The stop checks after a successful cycle: the overflow-halt policy
/// and the clock limit each clear the running flag.
pub open spec fn spec_apply_stops(mid: CpuView) -> CpuView {
    let s1 = if mid.oflag && mid.hlt_on_overflow {
        CpuView { running: false, ..mid }
    } else {
        mid
    };
    if s1.max_clk == Some(s1.clk) {
        CpuView { running: false, hit_max_clk: true, ..s1 }
    } else {
        s1
    }
}

/// One cycle of the run loop, from a running state: the clock ticks
/// (a saturated clock stops the run cleanly); an absent or out-of-
/// bounds cell at the program counter is a SegmentationFault carrying
/// that counter; otherwise the cell is loaded into the instruction
/// register, decoded, and executed per `spec_execute_post`, and a
/// successful cycle ends with the stop checks.  `f` is the fault the
/// cycle surfaces, if any.
#[verifier::opaque]
pub open spec fn spec_cycle(pre: CpuView, post: CpuView, f: Option<UnrecoverableError>) -> bool {
    if pre.clk == usize::MAX {
        f is None && post == (CpuView { running: false, ..pre })
    } else {
        let ticked = CpuView { clk: (pre.clk + 1) as usize, ..pre };
        if pre.pc as int >= MEMORY_SIZE as int || pre.memory[pre.pc as int] is None {
            &&& f matches Some(e) && e matches UnrecoverableError::SegmentationFault(loc, _)
                && loc == pre.pc
            &&& post == (CpuView { running: false, err: true, ..ticked })
        } else {
            let loaded = CpuView { ir: pre.memory[pre.pc as int]->0, ..ticked };
            exists|mid: CpuView, er: Result<(), UnrecoverableError>|
                #[trigger] spec_execute_post(
                    CpuView { has_ran: true, ..loaded },
                    mid,
                    er,
                    crate::isa::decode_spec(loaded.ir as u16),
                ) && match er {
                    Ok(()) => f is None && post == spec_apply_stops(mid),
                    Err(e) => (f matches Some(e2) && e2 == e) && post == mid,
                }
        }
    }
}

/// The run loop's whole behaviour: a trace of states, each reached
/// from the one before by a faultless `spec_cycle`, every state but
/// the last still running; a successful run ends at the trace's last
/// state with the running flag clear, and a failed run ends with one
/// more cycle that surfaces exactly the returned fault.
#[verifier::opaque]
pub open spec fn spec_run_post(
    start: CpuView,
    post: CpuView,
    r: Result<(), UnrecoverableError>,
) -> bool {
    exists|trace: Seq<CpuView>|
        #![trigger trace.len()]
        {
            &&& trace.len() >= 1
            &&& trace[0] == start
            &&& (forall|i: int| 0 <= i < trace.len() - 1 ==> trace[i].running)
            &&& (forall|i: int|
                0 <= i < trace.len() - 1 ==> #[trigger] spec_cycle(trace[i], trace[i + 1], None))
            &&& match r {
                Ok(()) => post == trace.last() && !post.running,
                Err(e) => trace.last().running && spec_cycle(trace.last(), post, Some(e)),
            }
        }
}

/// A saturated clock makes a clean stopping cycle.
proof fn lemma_cycle_saturate(pre: CpuView, post: CpuView)
    requires
        pre.clk == usize::MAX,
        post == (CpuView { running: false, ..pre }),
    ensures
        spec_cycle(pre, post, None),
{
    reveal(spec_cycle);
}

/// A failed fetch makes a faulting cycle.
proof fn lemma_cycle_fetch_fault(pre: CpuView, post: CpuView, e: UnrecoverableError)
    requires
        pre.clk < usize::MAX,
        pre.pc as int >= MEMORY_SIZE as int || pre.memory[pre.pc as int] is None,
        e matches UnrecoverableError::SegmentationFault(loc, _) && loc == pre.pc,
        post == (CpuView {
            running: false,
            err: true,
            clk: (pre.clk + 1) as usize,
            ..pre
        }),
    ensures
        spec_cycle(pre, post, Some(e)),
{
    reveal(spec_cycle);
}

/// A fetched, decoded and executed instruction makes a cycle: a
/// faultless one ending at the stop checks, or one surfacing the
/// execution fault.
proof fn lemma_cycle_exec(
    pre: CpuView,
    post: CpuView,
    r: Result<(), UnrecoverableError>,
    f: Option<UnrecoverableError>,
)
    requires
        pre.clk < usize::MAX,
        (pre.pc as int) < MEMORY_SIZE as int,
        pre.memory[pre.pc as int] is Some,
        ({
            let ticked = CpuView { clk: (pre.clk + 1) as usize, ..pre };
            let loaded = CpuView { ir: pre.memory[pre.pc as int]->0, ..ticked };
            exists|mid: CpuView, er: Result<(), UnrecoverableError>|
                #[trigger] spec_execute_post(
                    CpuView { has_ran: true, ..loaded },
                    mid,
                    er,
                    crate::isa::decode_spec(loaded.ir as u16),
                ) && match er {
                    Ok(()) => r is Ok && post == spec_apply_stops(mid),
                    Err(e) => (r matches Err(e2) && e2 == e) && post == mid,
                }
        }),
        match r {
            Ok(()) => f is None,
            Err(e) => f matches Some(e2) && e2 == e,
        },
    ensures
        spec_cycle(pre, post, f),
{
    reveal(spec_cycle);
}

/// A trace of faultless cycles from the start state establishes the
/// run loop's whole-behaviour statement.
proof fn lemma_run_post_intro(
    start: CpuView,
    post: CpuView,
    r: Result<(), UnrecoverableError>,
    trace: Seq<CpuView>,
)
    requires
        trace.len() >= 1,
        trace[0] == start,
        forall|i: int| 0 <= i < trace.len() - 1 ==> trace[i].running,
        forall|i: int|
            0 <= i < trace.len() - 1 ==> #[trigger] spec_cycle(trace[i], trace[i + 1], None),
        match r {
            Ok(()) => post == trace.last() && !post.running,
            Err(e) => trace.last().running && spec_cycle(trace.last(), post, Some(e)),
        },
    ensures
        spec_run_post(start, post, r),
{
    reveal(spec_run_post);
}

/// Introduces the fetch-and-execute outcome: a witness pair for the
/// executed instruction's outcome establishes the existential form.
proof fn lemma_fe_post_intro(
    pre: CpuView,
    post: CpuView,
    r: Result<(), UnrecoverableError>,
    loaded: CpuView,
    mid: CpuView,
    er: Result<(), UnrecoverableError>,
    ins: crate::isa::Instruction,
)
    requires
        (pre.pc as int) < MEMORY_SIZE as int,
        pre.memory[pre.pc as int] is Some,
        loaded == (CpuView { ir: pre.memory[pre.pc as int]->0, ..pre }),
        ins == crate::isa::decode_spec(loaded.ir as u16),
        spec_execute_post(CpuView { has_ran: true, ..loaded }, mid, er, ins),
        match er {
            Ok(()) => r is Ok && post == spec_apply_stops(mid),
            Err(e) => (r matches Err(e2) && e2 == e) && post == mid,
        },
    ensures
        ({
            let loaded2 = CpuView { ir: pre.memory[pre.pc as int]->0, ..pre };
            exists|mid2: CpuView, er2: Result<(), UnrecoverableError>|
                #[trigger] spec_execute_post(
                    CpuView { has_ran: true, ..loaded2 },
                    mid2,
                    er2,
                    crate::isa::decode_spec(loaded2.ir as u16),
                ) && match er2 {
                    Ok(()) => r is Ok && post == spec_apply_stops(mid2),
                    Err(e) => (r matches Err(e2) && e2 == e) && post == mid2,
                }
        }),
{
}

impl CPU {
    /// The stop checks after a successful cycle; see `spec_apply_stops`.
    fn apply_stops_exec(&mut self)
        requires
            old(self)@.wf(),
        ensures
            final(self)@.wf(),
            final(self)@ == spec_apply_stops(old(self)@),
    {
        if self.oflag && self.hlt_on_overflow {
            self.running = false;
        }
        match self.max_clk {
            Some(v) => {
                if self.clk == v {
                    self.running = false;
                    self.hit_max_clk = true;
                }
            },
            None => {},
        }
    }

    /// Fetches the cell at the program counter into the instruction
    /// register, decodes it and executes it, then applies the stop
    /// checks.
    #[verifier::rlimit(100)]
    #[verifier::spinoff_prover]
    fn fetch_and_execute(&mut self) -> (r: Result<(), UnrecoverableError>)
        requires
            old(self)@.wf(),
            old(self)@.has_ran,
            (old(self)@.pc as int) < MEMORY_SIZE as int,
            old(self)@.memory[old(self)@.pc as int] is Some,
        ensures
            final(self)@.wf(),
            final(self)@.has_ran,
            final(self)@.clk == old(self)@.clk,
            r is Err ==> !final(self)@.running && final(self)@.err,
            ({
                let loaded = CpuView {
                    ir: old(self)@.memory[old(self)@.pc as int]->0,
                    ..old(self)@
                };
                exists|mid: CpuView, er: Result<(), UnrecoverableError>|
                    #[trigger] spec_execute_post(
                        CpuView { has_ran: true, ..loaded },
                        mid,
                        er,
                        crate::isa::decode_spec(loaded.ir as u16),
                    ) && match er {
                        Ok(()) => r is Ok && final(self)@ == spec_apply_stops(mid),
                        Err(e) => (r matches Err(e2) && e2 == e) && final(self)@ == mid,
                    }
            }),
    {
        let w = match self.memory[self.pc as usize] {
            Some(w) => w,
            None => {
                proof {
                    assert(false);
                }
                return Err(UnrecoverableError::SegmentationFault(self.pc, None));
            },
        };
        self.ir = w;
        let ghost loaded = self@;
        let parsed = self.parse_instruction();
        let ghost gparsed = parsed;
        let res = self.execute_instruction(&parsed);
        let ghost mid0 = self@;
        let ghost gres = res;
        if res.is_ok() {
            self.apply_stops_exec();
            proof {
                lemma_fe_post_intro(old(self)@, self@, gres, loaded, mid0, gres, gparsed);
            }
        } else {
            proof {
                lemma_fe_post_intro(old(self)@, self@, gres, loaded, mid0, gres, gparsed);
            }
        }
        res
    }

    /// One cycle of the run loop; see `spec_cycle`.
    #[verifier::rlimit(100)]
    #[verifier::spinoff_prover]
    fn run_cycle(&mut self) -> (r: Result<(), UnrecoverableError>)
        requires
            old(self)@.wf(),
            old(self)@.has_ran,
            old(self)@.running,
        ensures
            final(self)@.wf(),
            final(self)@.has_ran,
            final(self)@.clk == (if old(self)@.clk == usize::MAX {
                old(self)@.clk
            } else {
                (old(self)@.clk + 1) as usize
            }),
            old(self)@.clk == usize::MAX ==> !final(self)@.running,
            match r {
                Ok(()) => spec_cycle(old(self)@, final(self)@, None),
                Err(e) => spec_cycle(old(self)@, final(self)@, Some(e)) && !final(self)@.running
                    && final(self)@.err,
            },
    {
        let ghost pre_it = self@;
        if self.clk == usize::MAX {
            self.running = false;
            proof {
                lemma_cycle_saturate(pre_it, self@);
            }
            return Ok(());
        }
        self.clk = self.clk + 1;
        if self.pc as usize >= MEMORY_SIZE {
            self.running = false;
            self.err = true;
            let e = UnrecoverableError::SegmentationFault(
                self.pc,
                Some("Segmentation fault while finding next instruction".to_owned()),
            );
            proof {
                lemma_cycle_fetch_fault(pre_it, self@, e);
            }
            return Err(e);
        }
        if self.memory[self.pc as usize].is_none() {
            self.running = false;
            self.err = true;
            let e = UnrecoverableError::SegmentationFault(
                self.pc,
                Some("Segmentation fault while finding next instruction".to_owned()),
            );
            proof {
                lemma_cycle_fetch_fault(pre_it, self@, e);
            }
            return Err(e);
        }
        let ghost ticked = self@;
        proof {
            assert(ticked == (CpuView { clk: (pre_it.clk + 1) as usize, ..pre_it }));
        }
        let r = self.fetch_and_execute();
        let ghost gr = r;
        proof {
            match gr {
                Ok(()) => {
                    lemma_cycle_exec(pre_it, self@, gr, None);
                },
                Err(e) => {
                    lemma_cycle_exec(pre_it, self@, gr, Some(e));
                },
            }
        }
        r
    }

    /// The fetch-decode-execute cycle: while the running flag holds,
    /// fault if the cell at the program counter is absent, else load it
    /// into the instruction register, decode and execute; an
    /// unrecoverable fault stops the loop and is surfaced to the
    /// caller, and the clock limit and the halt-on-overflow policy stop
    /// it cleanly.  Every cycle advances the explicit clock, whose
    /// finite range bounds the loop; the whole run is a chain of
    /// `spec_cycle` steps from the starting state, per `spec_run_post`.
    #[verifier::rlimit(100)]
    #[verifier::spinoff_prover]
    pub fn run(&mut self) -> (r: Result<(), UnrecoverableError>)
        requires
            old(self)@.wf(),
        ensures
            final(self)@.wf(),
            final(self)@.has_ran,
            old(self)@.do_not_run ==> r is Ok && final(self)@ == (CpuView {
                has_ran: true,
                running: true,
                ..old(self)@
            }),
            !old(self)@.do_not_run ==> spec_run_post(
                CpuView { has_ran: true, running: true, ..old(self)@ },
                final(self)@,
                r,
            ),
            r is Ok ==> old(self)@.do_not_run || !final(self)@.running,
            r is Err ==> !final(self)@.running && final(self)@.err,
    {
        self.has_ran = true;
        self.running = true;
        if self.do_not_run {
            return Ok(());
        }
        let ghost start = self@;
        let ghost mut trace: Seq<CpuView> = seq![start];
        while self.running
            invariant
                self@.wf(),
                self@.has_ran,
                !old(self)@.do_not_run,
                start == (CpuView { has_ran: true, running: true, ..old(self)@ }),
                trace.len() >= 1,
                trace[0] == start,
                trace.last() == self@,
                forall|i: int| 0 <= i < trace.len() - 1 ==> trace[i].running,
                forall|i: int|
                    0 <= i < trace.len() - 1 ==> #[trigger] spec_cycle(
                        trace[i],
                        trace[i + 1],
                        None,
                    ),
            decreases usize::MAX - self@.clk + (if self@.running {
                1int
            } else {
                0int
            }),
        {
            let ghost pre_it = self@;
            match self.run_cycle() {
                Ok(()) => {
                    proof {
                        trace = trace.push(self@);
                    }
                },
                Err(e) => {
                    proof {
                        lemma_run_post_intro(start, self@, Err(e), trace);
                    }
                    return Err(e);
                },
            }
        }
        proof {
            lemma_run_post_intro(start, self@, Ok(()), trace);
        }
        Ok(())
    }
}

} // verus!