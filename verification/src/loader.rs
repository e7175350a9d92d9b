//! The loader: places a binary instruction stream into CPU memory,
//! honoring the load-address and pointer directives.  Loading never
//! executes anything.

use crate::cpu::{CpuView, CPU, MEMORY_SIZE};
use crate::faults::EmuError;
use vstd::prelude::*;

verus! {

/// Whether a word is a directive word: bits 15..9 hold a small code,
/// 1 to set the load address, 2 the stack pointer, 3 the base pointer.
pub open spec fn spec_is_directive(w: i16) -> bool {
    1 <= (w as u16) / 512 <= 3
}

/// A directive word's code.
pub open spec fn spec_dir_code(w: i16) -> u16 {
    (w as u16) / 512
}

/// A directive word's nine-bit payload.
pub open spec fn spec_dir_payload(w: i16) -> u16 {
    (w as u16) % 512
}

/// The ordinary (non-directive) words of a stream, in order.
pub open spec fn spec_ordinary(words: Seq<i16>) -> Seq<i16>
    decreases words.len(),
{
    if words.len() == 0 {
        Seq::empty()
    } else {
        let rest = spec_ordinary(words.drop_last());
        if spec_is_directive(words.last()) {
            rest
        } else {
            rest.push(words.last())
        }
    }
}

/// How many directives of one code a stream holds.
pub open spec fn spec_count_code(words: Seq<i16>, code: u16) -> int
    decreases words.len(),
{
    if words.len() == 0 {
        0
    } else {
        spec_count_code(words.drop_last(), code) + if spec_is_directive(words.last())
            && spec_dir_code(words.last()) == code {
            1int
        } else {
            0int
        }
    }
}

/// The payload of the last directive of one code, if any.
pub open spec fn spec_last_code(words: Seq<i16>, code: u16) -> Option<u16>
    decreases words.len(),
{
    if words.len() == 0 {
        None
    } else if spec_is_directive(words.last()) && spec_dir_code(words.last()) == code {
        Some(spec_dir_payload(words.last()))
    } else {
        spec_last_code(words.drop_last(), code)
    }
}

impl CPU {
    /// Scans the word stream once: each directive word sets the load
    /// address, stack pointer or base pointer; a second load-address
    /// directive is rejected.  The ordinary words are placed into
    /// memory starting at the load address, in stream order, one per
    /// increasing address, and the program counter is set to the load
    /// address.  The stack and base pointers default to one past the
    /// end of the image unless directives override them.  An image
    /// that would run past the end of memory is rejected with nothing
    /// written.
    #[verifier::rlimit(100)]
    #[verifier::spinoff_prover]
    pub fn load_binary(&mut self, binary: &Vec<i16>) -> (r: Result<(), EmuError>)
        requires
            old(self)@.wf(),
        ensures
            final(self)@.wf(),
            ({
                let pre = old(self)@;
                let words = binary@;
                let sa = match spec_last_code(words, 1) {
                    Some(p) => p,
                    None => pre.starts_at,
                };
                let ord = spec_ordinary(words);
                if spec_count_code(words, 1) >= 2 {
                    (r matches Err(e) && e matches EmuError::Duplicate(_)) && final(self)@
                        == (CpuView { do_not_run: true, ..pre })
                } else if sa + ord.len() > MEMORY_SIZE {
                    (r matches Err(e) && e matches EmuError::MemoryOverflow()) && final(self)@
                        == pre
                } else {
                    &&& r is Ok
                    &&& final(self)@.starts_at == sa
                    &&& final(self)@.pc == sa
                    &&& final(self)@.sp == (match spec_last_code(words, 2) {
                        Some(p) => p,
                        None => (sa + ord.len()) as u16,
                    })
                    &&& final(self)@.bp == (match spec_last_code(words, 3) {
                        Some(p) => p,
                        None => (sa + ord.len()) as u16,
                    })
                    &&& final(self)@.memory.len() == pre.memory.len()
                    &&& forall|i: int|
                        0 <= i < ord.len() ==> final(self)@.memory[sa + i] == Some(ord[i])
                    &&& forall|j: int|
                        0 <= j < pre.memory.len() && !(sa <= j < sa + ord.len())
                            ==> final(self)@.memory[j] == pre.memory[j]
                    &&& final(self)@ == (CpuView {
                        starts_at: final(self)@.starts_at,
                        pc: final(self)@.pc,
                        sp: final(self)@.sp,
                        bp: final(self)@.bp,
                        memory: final(self)@.memory,
                        ..pre
                    })
                }
            }),
    {
        let ghost words = binary@;
        let mut start_found = false;
        let mut sa: u16 = self.starts_at;
        let mut new_sp: Option<u16> = None;
        let mut new_bp: Option<u16> = None;
        let mut count: usize = 0;
        let mut i: usize = 0;
        while i < binary.len()
            invariant
                self@.wf(),
                i <= words.len(),
                words == binary@,
                count == spec_ordinary(words.subrange(0, i as int)).len(),
                count <= i,
                start_found == (spec_count_code(words.subrange(0, i as int), 1) == 1),
                0 <= spec_count_code(words.subrange(0, i as int), 1) <= 1,
                sa == (match spec_last_code(words.subrange(0, i as int), 1) {
                    Some(p) => p,
                    None => old(self)@.starts_at,
                }),
                new_sp == spec_last_code(words.subrange(0, i as int), 2),
                new_bp == spec_last_code(words.subrange(0, i as int), 3),
                self@ == old(self)@,
            decreases words.len() - i,
        {
            let w = binary[i];
            let u: u16 = #[verifier::truncate] (w as u16);
            let code = u / 512;
            proof {
                assert(words.subrange(0, i + 1).drop_last() =~= words.subrange(0, i as int));
                assert(words.subrange(0, i + 1).last() == words[i as int]);
            }
            if code == 1 {
                if start_found {
                    self.do_not_run = true;
                    proof {
                        lemma_count_code_grows(words, i + 1, 1);
                    }
                    return Err(EmuError::Duplicate(".start directives".to_owned()));
                }
                start_found = true;
                sa = u % 512;
            } else if code == 2 {
                new_sp = Some(u % 512);
            } else if code == 3 {
                new_bp = Some(u % 512);
            } else {
                count = count + 1;
            }
            i = i + 1;
        }
        proof {
            assert(words.subrange(0, words.len() as int) =~= words);
        }
        if count > MEMORY_SIZE {
            return Err(EmuError::MemoryOverflow());
        }
        if sa as usize + count > MEMORY_SIZE {
            return Err(EmuError::MemoryOverflow());
        }
        let mut placed: usize = 0;
        let mut j: usize = 0;
        while j < binary.len()
            invariant
                j <= words.len(),
                words == binary@,
                placed == spec_ordinary(words.subrange(0, j as int)).len(),
                spec_ordinary(words).len() <= MEMORY_SIZE - sa as usize,
                placed <= spec_ordinary(words).len(),
                self@.wf(),
                self@ == (CpuView { memory: self@.memory, ..old(self)@ }),
                self@.memory.len() == old(self)@.memory.len(),
                forall|k: int|
                    0 <= k < placed ==> self@.memory[sa as int + k] == Some(
                        spec_ordinary(words.subrange(0, j as int))[k],
                    ),
                forall|m: int|
                    0 <= m < self@.memory.len() && !(sa as int <= m < sa as int + placed)
                        ==> self@.memory[m] == old(self)@.memory[m],
            decreases words.len() - j,
        {
            let w = binary[j];
            let u: u16 = #[verifier::truncate] (w as u16);
            let code = u / 512;
            proof {
                assert(words.subrange(0, j + 1).drop_last() =~= words.subrange(0, j as int));
                assert(words.subrange(0, j + 1).last() == words[j as int]);
                lemma_ordinary_prefix(words, j + 1);
            }
            if !(code >= 1 && code <= 3) {
                self.memory.set(sa as usize + placed, Some(w));
                placed = placed + 1;
            }
            j = j + 1;
        }
        proof {
            assert(words.subrange(0, words.len() as int) =~= words);
        }
        self.starts_at = sa;
        self.pc = sa;
        let one_past_end: u16 = (sa as usize + count) as u16;
        self.sp = match new_sp {
            Some(p) => p,
            None => one_past_end,
        };
        self.bp = match new_bp {
            Some(p) => p,
            None => one_past_end,
        };
        Ok(())
    }
}

/// Once a stream's prefix holds two load-address directives, so does
/// the stream.
proof fn lemma_count_code_grows(words: Seq<i16>, i: int, code: u16)
    requires
        0 <= i <= words.len(),
        spec_count_code(words.subrange(0, i), code) >= 2,
    ensures
        spec_count_code(words, code) >= 2,
    decreases words.len() - i,
{
    if i == words.len() {
        assert(words.subrange(0, i) =~= words);
    } else {
        assert(words.subrange(0, i + 1).drop_last() =~= words.subrange(0, i));
        lemma_count_code_grows(words, i + 1, code);
    }
}

/// The ordinary words of a prefix never outnumber those of the stream.
proof fn lemma_ordinary_prefix(words: Seq<i16>, i: int)
    requires
        0 <= i <= words.len(),
    ensures
        spec_ordinary(words.subrange(0, i)).len() <= spec_ordinary(words).len(),
    decreases words.len() - i,
{
    if i == words.len() {
        assert(words.subrange(0, i) =~= words);
    } else {
        assert(words.subrange(0, i + 1).drop_last() =~= words.subrange(0, i));
        lemma_ordinary_prefix(words, i + 1);
    }
}

} // verus!
