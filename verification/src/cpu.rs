//! The CPU: a seven-register file, five flags, and a flat DRAM of
//! [`DRAM_SIZE`] 32-bit cells shared by code, data and stack. One cycle
//! fetches the word at `PC` into `IR`, decodes it (a second word is fetched
//! into `TR` for the long variants), and executes.
//!
//! The whole machine is modelled by [`CpuView`]; every step of the
//! interpreter is stated against pure functions over that model. A step
//! that would leave DRAM (or name no register) is a fault: the interpreter
//! returns the fault instead of stepping, since a well-formed image never
//! produces one.

use vstd::prelude::*;
use crate::constants::{
    ACC, CR, PC, IR, OR, SP, TR, DRAM_SIZE, EMPTY_REGISTER, MOVER, IMOVEL, CMP, ICMP, ICMPL, JE,
    JGT, JLT, JZ, JOV, JMP, IADD, ADD, IADDL, ISUB, SUB, IPUSH, PUSH, IPUSHL, POP, LEA, MOVEA,
    LEAR, SHL, SHR, DUMP, DUMPR,
};
use crate::instruction::{Instruction, spec_encode, spec_decode};
use crate::{mask_bit_group, spec_mask_bit_group};

verus! {

/// The mathematical model of the whole machine.
pub struct CpuView {
    pub acc: u32,
    pub cr: u32,
    pub pc: u32,
    pub ir: u32,
    pub or: u32,
    pub sp: u32,
    pub tr: u32,
    pub dram: Seq<u32>,
    pub zero_flag: bool,
    pub lt_flag: bool,
    pub gt_flag: bool,
    pub eq_flag: bool,
    pub ov_flag: bool,
}

impl CpuView {
    /// DRAM always holds exactly [`DRAM_SIZE`] cells.
    pub open spec fn wf(self) -> bool {
        self.dram.len() == DRAM_SIZE
    }
}

/// A runtime fault: the step would read or write outside DRAM, or an
/// executed word names no register. Both mean a miscompiled image.
#[derive(Clone, Copy, Debug, PartialEq, Eq, Structural)]
pub enum CpuError {
    /// A DRAM index (program counter, stack pointer or address operand)
    /// fell outside the memory
    DramOutOfRange,
    /// An operand byte named no register
    BadRegister,
}

/// The initial stack pointer: three quarters into DRAM; the stack grows
/// upward from there.
pub open spec fn spec_default_sp() -> u32 {
    (DRAM_SIZE - DRAM_SIZE / 4) as u32
}

/// The state of a freshly created CPU: zeroed registers and flags, zeroed
/// DRAM, stack pointer at its default.
pub open spec fn spec_new_cpu() -> CpuView {
    CpuView {
        acc: EMPTY_REGISTER,
        cr: EMPTY_REGISTER,
        pc: EMPTY_REGISTER,
        ir: EMPTY_REGISTER,
        or: EMPTY_REGISTER,
        sp: spec_default_sp(),
        tr: EMPTY_REGISTER,
        dram: Seq::new(DRAM_SIZE as nat, |i: int| 0u32),
        zero_flag: false,
        lt_flag: false,
        gt_flag: false,
        eq_flag: false,
        ov_flag: false,
    }
}

/// Whether a byte names one of the seven registers. No register identifier
/// is zero, so a zero operand byte means "absent".
pub open spec fn spec_is_reg_id(r: u8) -> bool {
    r == ACC || r == PC || r == IR || r == OR || r == SP || r == TR || r == CR
}

/// Read a register by identifier.
pub open spec fn spec_reg_read(s: CpuView, r: u8) -> u32 {
    if r == ACC {
        s.acc
    } else if r == PC {
        s.pc
    } else if r == IR {
        s.ir
    } else if r == OR {
        s.or
    } else if r == SP {
        s.sp
    } else if r == TR {
        s.tr
    } else if r == CR {
        s.cr
    } else {
        0
    }
}

/// Write a register by identifier; an invalid identifier writes nothing.
pub open spec fn spec_reg_write(s: CpuView, r: u8, v: u32) -> CpuView {
    if r == ACC {
        CpuView { acc: v, ..s }
    } else if r == PC {
        CpuView { pc: v, ..s }
    } else if r == IR {
        CpuView { ir: v, ..s }
    } else if r == OR {
        CpuView { or: v, ..s }
    } else if r == SP {
        CpuView { sp: v, ..s }
    } else if r == TR {
        CpuView { tr: v, ..s }
    } else if r == CR {
        CpuView { cr: v, ..s }
    } else {
        s
    }
}

/// 32-bit wrapping addition.
pub open spec fn spec_wrap_add(a: u32, b: u32) -> u32 {
    if a + b > u32::MAX {
        (a + b - 0x1_0000_0000) as u32
    } else {
        (a + b) as u32
    }
}

/// 32-bit wrapping subtraction.
pub open spec fn spec_wrap_sub(a: u32, b: u32) -> u32 {
    if a - b < 0 {
        (a - b + 0x1_0000_0000) as u32
    } else {
        (a - b) as u32
    }
}

/// The flag state after comparing `a` with `b`: exactly one of the
/// less-than, equal and greater-than flags is set, by unsigned comparison.
pub open spec fn spec_cmp_flags(s: CpuView, a: u32, b: u32) -> CpuView {
    CpuView { lt_flag: a < b, eq_flag: a == b, gt_flag: a > b, ..s }
}

/// `dram` with `words` written at `idx..idx + words.len()`.
pub open spec fn spec_splice(dram: Seq<u32>, idx: int, words: Seq<u32>) -> Seq<u32> {
    Seq::new(dram.len(), |j: int| if idx <= j < idx + words.len() {
        words[j - idx]
    } else {
        dram[j]
    })
}

/// Whether the cells `[i, i + len)` all lie in DRAM and are all zero.
pub open spec fn spec_window_free(dram: Seq<u32>, i: int, len: int) -> bool {
    i + len <= dram.len() && forall|j: int| i <= j < i + len ==> dram[j] == 0
}

/// The lowest index at or after `from` whose `len`-cell window is entirely
/// zero, if any: where the appender puts the next instruction.
pub open spec fn spec_find_fit(dram: Seq<u32>, len: int, from: int) -> Option<int>
    decreases dram.len() - from,
{
    if from < 0 || from + len > dram.len() {
        None
    } else if spec_window_free(dram, from, len) {
        Some(from)
    } else {
        spec_find_fit(dram, len, from + 1)
    }
}

/// What appending an instruction does: its words are written over the
/// lowest all-zero window that holds them; with no such window DRAM is
/// left unchanged.
pub open spec fn spec_add_to_end(s: CpuView, i: Instruction) -> CpuView {
    let words = spec_encode(i);
    match spec_find_fit(s.dram, words.len() as int, 0) {
        Some(idx) => CpuView { dram: spec_splice(s.dram, idx, words), ..s },
        None => s,
    }
}

/// The little-endian word at cell `i` of a byte image.
pub open spec fn spec_word_at(bytes: Seq<u8>, i: int) -> u32 {
    (bytes[4 * i] as u32) | ((bytes[4 * i + 1] as u32) << 8) | ((bytes[4 * i + 2] as u32) << 16)
        | ((bytes[4 * i + 3] as u32) << 24)
}

/// The DRAM a byte image loads to: cell `i` takes bytes `4i..4i+4`
/// little-endian; a partial trailing word is discarded and the rest of
/// DRAM stays zero.
pub open spec fn spec_load_dram(bytes: Seq<u8>) -> Seq<u32> {
    Seq::new(DRAM_SIZE as nat, |i: int| if 4 * i + 4 <= bytes.len() {
        spec_word_at(bytes, i)
    } else {
        0u32
    })
}

/// The little-endian byte image of a DRAM: four bytes per cell.
pub open spec fn spec_dram_bytes(dram: Seq<u32>) -> Seq<u8> {
    Seq::new(dram.len() * 4, |j: int| spec_mask_bit_group(dram[j / 4], (j % 4) as u8))
}

/// The decode half of a cycle, after the fetched word has landed in `IR`:
/// a long variant fetches its literal from the next cell into `TR`
/// (advancing `PC` over it), a jump leaves its target in `TR`, an
/// immediate add or subtract leaves its operand in `TR`.
pub open spec fn spec_decode_step(s: CpuView) -> Result<(CpuView, Instruction), CpuError> {
    let w = s.ir;
    let op = spec_mask_bit_group(w, 0);
    let g1 = spec_mask_bit_group(w, 1);
    let g2 = spec_mask_bit_group(w, 2);
    if op == IMOVEL || op == IADDL || op == ICMPL || op == IPUSHL {
        if s.pc >= DRAM_SIZE {
            Err(CpuError::DramOutOfRange)
        } else {
            let w1 = s.dram[s.pc as int];
            Ok((CpuView { tr: w1, pc: (s.pc + 1) as u32, ..s }, spec_decode(w, w1)))
        }
    } else if op == JE || op == JGT || op == JLT || op == JZ || op == JOV || op == JMP {
        let v16 = (g1 as u16) | ((g2 as u16) << 8);
        Ok((CpuView { tr: v16 as u32, ..s }, spec_decode(w, 0)))
    } else if op == IADD || op == ISUB {
        Ok((CpuView { tr: g2 as u32, ..s }, spec_decode(w, 0)))
    } else {
        Ok((s, spec_decode(w, 0)))
    }
}

/// One fetch: `IR` takes the cell at `PC`, `PC` advances, and the word is
/// decoded. Fetching from outside DRAM is a fault.
pub open spec fn spec_fetch_decode(s: CpuView) -> Result<(CpuView, Instruction), CpuError> {
    if s.pc >= DRAM_SIZE {
        Err(CpuError::DramOutOfRange)
    } else {
        spec_decode_step(CpuView { ir: s.dram[s.pc as int], pc: (s.pc + 1) as u32, ..s })
    }
}

/// Push one value: it lands at the stack pointer, which then moves up; the
/// zero flag reports whether the pushed value was zero.
pub open spec fn spec_exec_push(s: CpuView, v: u32) -> Result<CpuView, CpuError> {
    if s.sp >= DRAM_SIZE {
        Err(CpuError::DramOutOfRange)
    } else {
        Ok(
            CpuView {
                dram: s.dram.update(s.sp as int, v),
                sp: (s.sp + 1) as u32,
                zero_flag: v == 0,
                ..s
            },
        )
    }
}

/// Immediate add into the accumulator: the operand sits in `TR`; the
/// overflow flag reports wraparound and the zero flag the new value.
pub open spec fn spec_exec_acc_add(s: CpuView) -> CpuView {
    let v = spec_wrap_add(s.acc, s.tr);
    CpuView { acc: v, ov_flag: s.acc + s.tr > u32::MAX, zero_flag: v == 0, ..s }
}

/// Immediate subtract from the accumulator, mirroring [`spec_exec_acc_add`].
pub open spec fn spec_exec_acc_sub(s: CpuView) -> CpuView {
    let v = spec_wrap_sub(s.acc, s.tr);
    CpuView { acc: v, ov_flag: s.acc < s.tr, zero_flag: v == 0, ..s }
}

/// What executing one decoded instruction does to the machine.
///
/// Register operands must name registers and every DRAM access must land
/// inside memory, else the step is a fault. The immediate add and subtract
/// take their operand from `TR`, where decoding left it; every other
/// variant works from its own operands.
pub open spec fn spec_execute(s: CpuView, i: Instruction) -> Result<CpuView, CpuError> {
    match i {
        Instruction::IAdd(_) => Ok(spec_exec_acc_add(s)),
        Instruction::IAddL(_) => Ok(spec_exec_acc_add(s)),
        Instruction::ISub(_) => Ok(spec_exec_acc_sub(s)),
        Instruction::Unknown => match spec_fetch_decode(s) {
            Ok((s2, _)) => Ok(s2),
            Err(e) => Err(e),
        },
        Instruction::Dump => Ok(s),
        Instruction::DumpR(_) => Ok(s),
        Instruction::IPush(v) => spec_exec_push(s, v as u32),
        Instruction::IPushL(v) => spec_exec_push(s, v),
        Instruction::Push(r) => if !spec_is_reg_id(r) {
            Err(CpuError::BadRegister)
        } else {
            spec_exec_push(s, spec_reg_read(s, r))
        },
        Instruction::Pop => if s.sp == 0 || s.sp > DRAM_SIZE {
            Err(CpuError::DramOutOfRange)
        } else {
            let v = s.dram[s.sp - 1];
            Ok(
                CpuView {
                    sp: (s.sp - 1) as u32,
                    or: v,
                    dram: s.dram.update(s.sp - 1, 0u32),
                    zero_flag: v == 0,
                    ..s
                },
            )
        },
        Instruction::Add(a, b) => if !spec_is_reg_id(a) || !spec_is_reg_id(b) {
            Err(CpuError::BadRegister)
        } else {
            let va = spec_reg_read(s, a);
            let vb = spec_reg_read(s, b);
            let v = spec_wrap_add(va, vb);
            Ok(
                CpuView {
                    ov_flag: va + vb > u32::MAX,
                    zero_flag: v == 0,
                    ..spec_reg_write(s, a, v)
                },
            )
        },
        Instruction::Sub(a, b) => if !spec_is_reg_id(a) || !spec_is_reg_id(b) {
            Err(CpuError::BadRegister)
        } else {
            let va = spec_reg_read(s, a);
            let vb = spec_reg_read(s, b);
            let v = spec_wrap_sub(va, vb);
            Ok(CpuView { ov_flag: va < vb, zero_flag: v == 0, ..spec_reg_write(s, a, v) })
        },
        Instruction::MoveR(a, b) => if !spec_is_reg_id(a) || !spec_is_reg_id(b) {
            Err(CpuError::BadRegister)
        } else {
            let v = spec_reg_read(s, b);
            Ok(CpuView { zero_flag: v == 0, ..spec_reg_write(s, a, v) })
        },
        Instruction::IMoveL(r, imm) => if !spec_is_reg_id(r) {
            Err(CpuError::BadRegister)
        } else {
            Ok(CpuView { zero_flag: imm == 0, ..spec_reg_write(s, r, imm) })
        },
        Instruction::Cmp(a, b) => if !spec_is_reg_id(a) || !spec_is_reg_id(b) {
            Err(CpuError::BadRegister)
        } else {
            Ok(spec_cmp_flags(s, spec_reg_read(s, a), spec_reg_read(s, b)))
        },
        Instruction::ICmp(a, v) => if !spec_is_reg_id(a) {
            Err(CpuError::BadRegister)
        } else {
            Ok(spec_cmp_flags(s, spec_reg_read(s, a), v as u32))
        },
        Instruction::ICmpL(a, v) => if !spec_is_reg_id(a) {
            Err(CpuError::BadRegister)
        } else {
            Ok(spec_cmp_flags(s, spec_reg_read(s, a), v))
        },
        Instruction::JE(t) => Ok(
            if s.eq_flag {
                CpuView { pc: t as u32, ..s }
            } else {
                s
            },
        ),
        Instruction::JGT(t) => Ok(
            if s.gt_flag {
                CpuView { pc: t as u32, ..s }
            } else {
                s
            },
        ),
        Instruction::JLT(t) => Ok(
            if s.lt_flag {
                CpuView { pc: t as u32, ..s }
            } else {
                s
            },
        ),
        Instruction::JZ(t) => Ok(
            if s.zero_flag {
                CpuView { pc: t as u32, ..s }
            } else {
                s
            },
        ),
        Instruction::JOV(t) => Ok(
            if s.ov_flag {
                CpuView { pc: t as u32, ..s }
            } else {
                s
            },
        ),
        Instruction::JMP(t) => Ok(CpuView { pc: t as u32, ..s }),
        Instruction::Lea(addr) => if addr >= DRAM_SIZE {
            Err(CpuError::DramOutOfRange)
        } else {
            Ok(CpuView { or: s.dram[addr as int], ..s })
        },
        Instruction::LeaR(r) => if !spec_is_reg_id(r) {
            Err(CpuError::BadRegister)
        } else if spec_reg_read(s, r) >= DRAM_SIZE {
            Err(CpuError::DramOutOfRange)
        } else {
            Ok(CpuView { or: s.dram[spec_reg_read(s, r) as int], ..s })
        },
        Instruction::MoveA(addr, r) => if !spec_is_reg_id(r) {
            Err(CpuError::BadRegister)
        } else if addr >= DRAM_SIZE {
            Err(CpuError::DramOutOfRange)
        } else {
            Ok(CpuView { dram: s.dram.update(addr as int, spec_reg_read(s, r)), ..s })
        },
        Instruction::Shl(r, k) => if !spec_is_reg_id(r) {
            Err(CpuError::BadRegister)
        } else {
            let v = if k < 32 {
                spec_reg_read(s, r) << k
            } else {
                0u32
            };
            Ok(CpuView { zero_flag: v == 0, ..spec_reg_write(s, r, v) })
        },
        Instruction::Shr(r, k) => if !spec_is_reg_id(r) {
            Err(CpuError::BadRegister)
        } else {
            let v = if k < 32 {
                spec_reg_read(s, r) >> k
            } else {
                0u32
            };
            Ok(CpuView { zero_flag: v == 0, ..spec_reg_write(s, r, v) })
        },
    }
}

/// One full cycle: fetch, decode, execute.
pub open spec fn spec_cycle(s: CpuView) -> Result<CpuView, CpuError> {
    match spec_fetch_decode(s) {
        Ok((s1, i)) => spec_execute(s1, i),
        Err(e) => Err(e),
    }
}

/// `n` cycles in a row; the first fault, if any, ends the run.
pub open spec fn spec_run_cycles(s: CpuView, n: nat) -> Result<CpuView, CpuError>
    decreases n,
{
    if n == 0 {
        Ok(s)
    } else {
        match spec_cycle(s) {
            Ok(s2) => spec_run_cycles(s2, (n - 1) as nat),
            Err(e) => Err(e),
        }
    }
}

/// How a bounded run ends: cleanly on an `Unknown` decode (whose execution
/// performs one more fetch, the two-word sentinel), with a fault, or with
/// fuel exhausted.
pub enum RunState {
    /// An `Unknown` was decoded and executed; the machine stopped here
    Halted(CpuView),
    /// Every cycle of the budget ran without reaching an `Unknown`
    OutOfFuel(CpuView),
    /// A cycle faulted
    Fault(CpuError),
}

/// Run until an `Unknown` decode, a fault, or `fuel` spent cycles.
pub open spec fn spec_run_to_halt(s: CpuView, fuel: nat) -> RunState
    decreases fuel,
{
    if fuel == 0 {
        RunState::OutOfFuel(s)
    } else {
        match spec_fetch_decode(s) {
            Err(e) => RunState::Fault(e),
            Ok((s1, i)) => match spec_execute(s1, i) {
                Err(e) => RunState::Fault(e),
                Ok(s2) => if i is Unknown {
                    RunState::Halted(s2)
                } else {
                    spec_run_to_halt(s2, (fuel - 1) as nat)
                },
            },
        }
    }
}

/// How [`Cpu::execute_until_unknown`] reports its end: the counterpart of
/// [`RunState`] without the model state.
#[derive(Clone, Copy, Debug, PartialEq, Eq, Structural)]
pub enum RunOutcome {
    /// The program ended cleanly on the two-word sentinel
    Halted,
    /// The cycle budget ran out first
    OutOfFuel,
    /// A cycle faulted
    Fault(CpuError),
}

/// The CPU itself: the register file, the flags and the DRAM they operate
/// on.
#[derive(Debug, Clone)]
pub struct Cpu {
    /// Accumulator
    acc: u32,
    /// Counting register
    cr: u32,
    /// Program counter: the DRAM index the next instruction is read from
    pc: u32,
    /// Instruction register: the word currently being executed
    ir: u32,
    /// Output register
    or: u32,
    /// Stack pointer: the DRAM index the next push writes
    sp: u32,
    /// Temporary register: second words and decoded operands land here
    tr: u32,
    /// RAM, also used as stack memory
    dram: Vec<u32>,
    zero_flag: bool,
    lt_flag: bool,
    gt_flag: bool,
    eq_flag: bool,
    ov_flag: bool,
}

impl View for Cpu {
    type V = CpuView;

    closed spec fn view(&self) -> CpuView {
        CpuView {
            acc: self.acc,
            cr: self.cr,
            pc: self.pc,
            ir: self.ir,
            or: self.or,
            sp: self.sp,
            tr: self.tr,
            dram: self.dram@,
            zero_flag: self.zero_flag,
            lt_flag: self.lt_flag,
            gt_flag: self.gt_flag,
            eq_flag: self.eq_flag,
            ov_flag: self.ov_flag,
        }
    }
}

impl Default for Cpu {
    /// The default machine is a freshly created one.
    fn default() -> (cpu: Cpu)
        ensures
            cpu@ == spec_new_cpu(),
            cpu@.wf(),
    {
        Cpu::new()
    }
}

impl Cpu {
    /// A fresh CPU: everything zeroed, stack pointer three quarters in.
    pub fn new() -> (cpu: Cpu)
        ensures
            cpu@ == spec_new_cpu(),
            cpu@.wf(),
    {
        let mut dram: Vec<u32> = Vec::new();
        let mut i: usize = 0;
        while i < DRAM_SIZE as usize
            invariant
                i <= DRAM_SIZE,
                dram@.len() == i,
                forall|j: int| 0 <= j < i ==> dram@[j] == 0,
            decreases DRAM_SIZE - i,
        {
            dram.push(0);
            i = i + 1;
        }
        let cpu = Cpu {
            acc: EMPTY_REGISTER,
            cr: EMPTY_REGISTER,
            pc: EMPTY_REGISTER,
            ir: EMPTY_REGISTER,
            or: EMPTY_REGISTER,
            sp: DRAM_SIZE - (DRAM_SIZE / 4),
            tr: EMPTY_REGISTER,
            dram,
            zero_flag: false,
            lt_flag: false,
            gt_flag: false,
            eq_flag: false,
            ov_flag: false,
        };
        proof {
            assert(cpu@.dram =~= spec_new_cpu().dram);
        }
        cpu
    }

    /// The whole DRAM, for observation.
    pub fn get_dram(&self) -> (r: &Vec<u32>)
        ensures
            r@ == self@.dram,
    {
        &self.dram
    }

    /// The accumulator's value.
    pub fn get_acc(&self) -> (r: u32)
        ensures
            r == self@.acc,
    {
        self.acc
    }

    /// The program counter's value.
    pub fn get_pc(&self) -> (r: u32)
        ensures
            r == self@.pc,
    {
        self.pc
    }

    /// The output register's value.
    pub fn get_or(&self) -> (r: u32)
        ensures
            r == self@.or,
    {
        self.or
    }

    /// The stack pointer's value.
    pub fn get_sp(&self) -> (r: u32)
        ensures
            r == self@.sp,
    {
        self.sp
    }

    /// The zero, less-than, greater-than, equal and overflow flags.
    pub fn get_flags(&self) -> (r: (bool, bool, bool, bool, bool))
        ensures
            r.0 == self@.zero_flag,
            r.1 == self@.lt_flag,
            r.2 == self@.gt_flag,
            r.3 == self@.eq_flag,
            r.4 == self@.ov_flag,
    {
        (self.zero_flag, self.lt_flag, self.gt_flag, self.eq_flag, self.ov_flag)
    }

    /// Reserve the cell at the stack pointer for a variable: write the
    /// value there, bump the pointer, and hand back the cell's index.
    pub fn push_variable(&mut self, value: u32) -> (r: u32)
        requires
            old(self)@.wf(),
            old(self)@.sp < DRAM_SIZE,
        ensures
            final(self)@.wf(),
            r == old(self)@.sp,
            final(self)@ == (CpuView {
                sp: (old(self)@.sp + 1) as u32,
                dram: old(self)@.dram.update(old(self)@.sp as int, value),
                ..old(self)@
            }),
    {
        let sp = self.sp;
        self.dram[sp as usize] = value;
        self.sp = sp + 1;
        sp
    }

    /// Put the stack pointer back to its default.
    pub fn reset_sp(&mut self)
        ensures
            final(self)@ == (CpuView { sp: spec_default_sp(), ..old(self)@ }),
    {
        self.sp = DRAM_SIZE - (DRAM_SIZE / 4);
    }

    /// Force a word into a given DRAM cell, overwriting whatever is there.
    pub fn add_instruction(&mut self, inst: u32, location: u32)
        requires
            old(self)@.wf(),
            location < DRAM_SIZE,
        ensures
            final(self)@ == (CpuView {
                dram: old(self)@.dram.update(location as int, inst),
                ..old(self)@
            }),
    {
        self.dram[location as usize] = inst;
    }

    /// Append an instruction at the lowest stretch of zero cells that
    /// holds all its words; with no such stretch DRAM is left as it is
    /// (the caller is responsible for not overflowing DRAM).
    pub fn add_to_end(&mut self, inst: &Instruction)
        requires
            old(self)@.wf(),
        ensures
            final(self)@.wf(),
            final(self)@ == spec_add_to_end(old(self)@, *inst),
    {
        let words = inst.to_instruction_data();
        let len = words.len();
        let ghost d = self@.dram;
        let mut index: usize = 0;
        while index < DRAM_SIZE as usize
            invariant
                0 <= index <= DRAM_SIZE,
                self@ == old(self)@,
                d == self@.dram,
                d.len() == DRAM_SIZE,
                words@ == spec_encode(*inst),
                len == words@.len(),
                spec_find_fit(d, len as int, 0) == spec_find_fit(d, len as int, index as int),
            decreases DRAM_SIZE as usize - index,
        {
            if index + len <= DRAM_SIZE as usize {
                let mut free = true;
                let mut j: usize = index;
                while j < index + len
                    invariant
                        index <= j <= index + len,
                        index + len <= DRAM_SIZE,
                        d == self@.dram,
                        d.len() == DRAM_SIZE,
                        free == (forall|m: int| index <= m < j ==> d[m] == 0),
                    decreases index + len - j,
                {
                    if self.dram[j] != 0 {
                        free = false;
                    }
                    j = j + 1;
                }
                if free {
                    assert(spec_window_free(d, index as int, len as int));
                    assert(spec_find_fit(d, len as int, index as int) == Some(index as int));
                    let mut k: usize = 0;
                    while k < len
                        invariant
                            0 <= k <= len,
                            index + len <= DRAM_SIZE,
                            self@.dram.len() == DRAM_SIZE,
                            words@.len() == len,
                            self@ == (CpuView { dram: self@.dram, ..old(self)@ }),
                            forall|m: int|
                                0 <= m < DRAM_SIZE && !(index <= m < index + k)
                                    ==> self@.dram[m] == d[m],
                            forall|m: int|
                                index <= m < index + k ==> self@.dram[m] == words@[m - index],
                        decreases len - k,
                    {
                        self.dram[index + k] = words[k];
                        k = k + 1;
                    }
                    proof {
                        assert(final(self)@.dram =~= spec_splice(d, index as int, words@));
                    }
                    return;
                }
                proof {
                    assert(!spec_window_free(d, index as int, len as int));
                }
            } else {
                proof {
                    assert(!spec_window_free(d, index as int, len as int));
                    assert(spec_find_fit(d, len as int, index as int) == spec_find_fit(
                        d,
                        len as int,
                        index + 1,
                    ));
                }
            }
            index = index + 1;
        }
        proof {
            assert(spec_find_fit(d, len as int, DRAM_SIZE as int) is None);
        }
    }

    /// Build a CPU from a binary image: each group of four bytes becomes
    /// one DRAM cell, little-endian, starting at cell 0. Trailing bytes
    /// that do not fill a word are discarded; the image's content is not
    /// interpreted.
    pub fn from_binary(bytes: &Vec<u8>) -> (cpu: Cpu)
        ensures
            cpu@.wf(),
            cpu@ == (CpuView { dram: spec_load_dram(bytes@), ..spec_new_cpu() }),
    {
        let mut cpu = Cpu::new();
        let n = bytes.len();
        let mut i: usize = 0;
        while i < DRAM_SIZE as usize && 4 * i + 4 <= n
            invariant
                0 <= i <= DRAM_SIZE,
                n == bytes@.len(),
                cpu@.dram.len() == DRAM_SIZE,
                cpu@ == (CpuView { dram: cpu@.dram, ..spec_new_cpu() }),
                forall|j: int| 0 <= j < i ==> cpu@.dram[j] == spec_load_dram(bytes@)[j],
                forall|j: int| i <= j < DRAM_SIZE ==> cpu@.dram[j] == 0,
            decreases DRAM_SIZE as usize - i,
        {
            let b0 = bytes[4 * i];
            let b1 = bytes[4 * i + 1];
            let b2 = bytes[4 * i + 2];
            let b3 = bytes[4 * i + 3];
            let w: u32 = (b0 as u32) | ((b1 as u32) << 8) | ((b2 as u32) << 16) | ((b3 as u32)
                << 24);
            cpu.dram[i] = w;
            proof {
                assert(w == spec_word_at(bytes@, i as int));
            }
            i = i + 1;
        }
        proof {
            assert forall|j: int| 0 <= j < DRAM_SIZE implies cpu@.dram[j] == spec_load_dram(
                bytes@,
            )[j] by {
                if j >= i {
                    assert(4 * j + 4 > n);
                }
            }
            assert(cpu@.dram =~= spec_load_dram(bytes@));
        }
        cpu
    }

    /// The DRAM as a little-endian byte image: four bytes per cell, cell 0
    /// first. Loading these bytes back reproduces the DRAM.
    pub fn dram_bytes(&self) -> (r: Vec<u8>)
        ensures
            r@ == spec_dram_bytes(self@.dram),
    {
        let n = self.dram.len();
        let mut out: Vec<u8> = Vec::new();
        let mut i: usize = 0;
        while i < n
            invariant
                0 <= i <= n,
                n == self@.dram.len(),
                out@.len() == 4 * i,
                forall|j: int|
                    0 <= j < 4 * i ==> out@[j] == spec_mask_bit_group(
                        self@.dram[j / 4],
                        (j % 4) as u8,
                    ),
            decreases n - i,
        {
            let w = self.dram[i];
            out.push(mask_bit_group(w, 0));
            out.push(mask_bit_group(w, 1));
            out.push(mask_bit_group(w, 2));
            out.push(mask_bit_group(w, 3));
            proof {
                let b: int = 4 * (i as int);
                assert(b / 4 == i && b % 4 == 0);
                assert((b + 1) / 4 == i && (b + 1) % 4 == 1);
                assert((b + 2) / 4 == i && (b + 2) % 4 == 2);
                assert((b + 3) / 4 == i && (b + 3) % 4 == 3);
            }
            i = i + 1;
        }
        proof {
            assert(out@ =~= spec_dram_bytes(self@.dram));
        }
        out
    }
}

/// The instruction tag an opcode byte decodes to, operands zeroed; the
/// decode table of the ISA.
pub open spec fn spec_decode_inst(op: u8) -> Instruction {
    if op == IADD {
        Instruction::IAdd(0)
    } else if op == ADD {
        Instruction::Add(0, 0)
    } else if op == ISUB {
        Instruction::ISub(0)
    } else if op == DUMP {
        Instruction::Dump
    } else if op == IPUSH {
        Instruction::IPush(0)
    } else if op == POP {
        Instruction::Pop
    } else if op == IADDL {
        Instruction::IAddL(0)
    } else if op == MOVER {
        Instruction::MoveR(0, 0)
    } else if op == IMOVEL {
        Instruction::IMoveL(0, 0)
    } else if op == CMP {
        Instruction::Cmp(0, 0)
    } else if op == JE {
        Instruction::JE(0)
    } else if op == JGT {
        Instruction::JGT(0)
    } else if op == JLT {
        Instruction::JLT(0)
    } else if op == JZ {
        Instruction::JZ(0)
    } else if op == JOV {
        Instruction::JOV(0)
    } else if op == JMP {
        Instruction::JMP(0)
    } else if op == SUB {
        Instruction::Sub(0, 0)
    } else if op == ICMP {
        Instruction::ICmp(0, 0)
    } else if op == ICMPL {
        Instruction::ICmpL(0, 0)
    } else if op == IPUSHL {
        Instruction::IPushL(0)
    } else if op == PUSH {
        Instruction::Push(0)
    } else if op == DUMPR {
        Instruction::DumpR(0)
    } else if op == LEA {
        Instruction::Lea(0)
    } else if op == MOVEA {
        Instruction::MoveA(0, 0)
    } else if op == LEAR {
        Instruction::LeaR(0)
    } else if op == SHL {
        Instruction::Shl(0, 0)
    } else if op == SHR {
        Instruction::Shr(0, 0)
    } else {
        Instruction::Unknown
    }
}

/// Whether a byte names one of the seven registers; the executable face of
/// [`spec_is_reg_id`].
pub fn is_reg_id(reg: u8) -> (b: bool)
    ensures
        b == spec_is_reg_id(reg),
{
    reg == ACC || reg == PC || reg == IR || reg == OR || reg == SP || reg == TR || reg == CR
}

impl Cpu {
    /// Read a register by its identifier.
    pub fn get_reg(&self, reg: u8) -> (r: u32)
        requires
            spec_is_reg_id(reg),
        ensures
            r == spec_reg_read(self@, reg),
    {
        if reg == ACC {
            self.acc
        } else if reg == PC {
            self.pc
        } else if reg == IR {
            self.ir
        } else if reg == OR {
            self.or
        } else if reg == SP {
            self.sp
        } else if reg == TR {
            self.tr
        } else {
            self.cr
        }
    }

    /// Write a register by its identifier.
    fn set_reg(&mut self, reg: u8, v: u32)
        requires
            spec_is_reg_id(reg),
        ensures
            final(self)@ == spec_reg_write(old(self)@, reg, v),
    {
        if reg == ACC {
            self.acc = v;
        } else if reg == PC {
            self.pc = v;
        } else if reg == IR {
            self.ir = v;
        } else if reg == OR {
            self.or = v;
        } else if reg == SP {
            self.sp = v;
        } else if reg == TR {
            self.tr = v;
        } else {
            self.cr = v;
        }
    }

    /// Compare two values and set the ordering flags: exactly one of the
    /// less-than, equal and greater-than flags comes out set.
    pub fn cmp_num(&mut self, num1: u32, num2: u32)
        ensures
            final(self)@ == spec_cmp_flags(old(self)@, num1, num2),
    {
        if num1 < num2 {
            self.lt_flag = true;
            self.eq_flag = false;
            self.gt_flag = false;
        } else if num1 == num2 {
            self.lt_flag = false;
            self.eq_flag = true;
            self.gt_flag = false;
        } else {
            self.lt_flag = false;
            self.eq_flag = false;
            self.gt_flag = true;
        }
    }

    /// Decode a single opcode byte into an instruction tag with zeroed
    /// operands, for pattern matching and disassembly.
    pub fn decode_inst(inst: u8) -> (r: Instruction)
        ensures
            r == spec_decode_inst(inst),
    {
        if inst == IADD {
            Instruction::IAdd(0)
        } else if inst == ADD {
            Instruction::Add(0, 0)
        } else if inst == ISUB {
            Instruction::ISub(0)
        } else if inst == DUMP {
            Instruction::Dump
        } else if inst == IPUSH {
            Instruction::IPush(0)
        } else if inst == POP {
            Instruction::Pop
        } else if inst == IADDL {
            Instruction::IAddL(0)
        } else if inst == MOVER {
            Instruction::MoveR(0, 0)
        } else if inst == IMOVEL {
            Instruction::IMoveL(0, 0)
        } else if inst == CMP {
            Instruction::Cmp(0, 0)
        } else if inst == JE {
            Instruction::JE(0)
        } else if inst == JGT {
            Instruction::JGT(0)
        } else if inst == JLT {
            Instruction::JLT(0)
        } else if inst == JZ {
            Instruction::JZ(0)
        } else if inst == JOV {
            Instruction::JOV(0)
        } else if inst == JMP {
            Instruction::JMP(0)
        } else if inst == SUB {
            Instruction::Sub(0, 0)
        } else if inst == ICMP {
            Instruction::ICmp(0, 0)
        } else if inst == ICMPL {
            Instruction::ICmpL(0, 0)
        } else if inst == IPUSHL {
            Instruction::IPushL(0)
        } else if inst == PUSH {
            Instruction::Push(0)
        } else if inst == DUMPR {
            Instruction::DumpR(0)
        } else if inst == LEA {
            Instruction::Lea(0)
        } else if inst == MOVEA {
            Instruction::MoveA(0, 0)
        } else if inst == LEAR {
            Instruction::LeaR(0)
        } else if inst == SHL {
            Instruction::Shl(0, 0)
        } else if inst == SHR {
            Instruction::Shr(0, 0)
        } else {
            Instruction::Unknown
        }
    }

    /// Decode the word in `IR`, filling `TR` as [`spec_decode_step`] says:
    /// a long variant fetches its literal word, a jump parks its target.
    pub fn decode(&mut self) -> (r: Result<Instruction, CpuError>)
        requires
            old(self)@.wf(),
        ensures
            final(self)@.wf(),
            match spec_decode_step(old(self)@) {
                Ok(si) => r == Ok::<Instruction, CpuError>(si.1) && final(self)@ == si.0,
                Err(e) => r == Err::<Instruction, CpuError>(e) && final(self)@ == old(self)@,
            },
    {
        let op = mask_bit_group(self.ir, 0);
        let g1 = mask_bit_group(self.ir, 1);
        let g2 = mask_bit_group(self.ir, 2);
        let g3 = mask_bit_group(self.ir, 3);
        if op == IMOVEL || op == IADDL || op == ICMPL || op == IPUSHL {
            if self.pc >= DRAM_SIZE {
                return Err(CpuError::DramOutOfRange);
            }
            let w1 = self.dram[self.pc as usize];
            self.tr = w1;
            self.pc = self.pc + 1;
            if op == IMOVEL {
                Ok(Instruction::IMoveL(g1, w1))
            } else if op == IADDL {
                Ok(Instruction::IAddL(w1))
            } else if op == ICMPL {
                Ok(Instruction::ICmpL(g1, w1))
            } else {
                Ok(Instruction::IPushL(w1))
            }
        } else if op == JE || op == JGT || op == JLT || op == JZ || op == JOV || op == JMP {
            let v16: u16 = (g1 as u16) | ((g2 as u16) << 8);
            self.tr = v16 as u32;
            if op == JE {
                Ok(Instruction::JE(v16))
            } else if op == JGT {
                Ok(Instruction::JGT(v16))
            } else if op == JLT {
                Ok(Instruction::JLT(v16))
            } else if op == JZ {
                Ok(Instruction::JZ(v16))
            } else if op == JOV {
                Ok(Instruction::JOV(v16))
            } else {
                Ok(Instruction::JMP(v16))
            }
        } else if op == IADD {
            self.tr = g2 as u32;
            Ok(Instruction::IAdd(g2))
        } else if op == ISUB {
            self.tr = g2 as u32;
            Ok(Instruction::ISub(g2))
        } else if op == MOVER {
            Ok(Instruction::MoveR(g1, g2))
        } else if op == CMP {
            Ok(Instruction::Cmp(g1, g2))
        } else if op == ICMP {
            Ok(Instruction::ICmp(g1, (g2 as u16) | ((g3 as u16) << 8)))
        } else if op == ADD {
            Ok(Instruction::Add(g1, g2))
        } else if op == SUB {
            Ok(Instruction::Sub(g1, g2))
        } else if op == IPUSH {
            Ok(Instruction::IPush((g1 as u16) | ((g2 as u16) << 8)))
        } else if op == POP {
            Ok(Instruction::Pop)
        } else if op == DUMP {
            Ok(Instruction::Dump)
        } else if op == DUMPR {
            Ok(Instruction::DumpR(g1))
        } else if op == PUSH {
            Ok(Instruction::Push(g1))
        } else if op == LEA {
            Ok(Instruction::Lea((g1 as u16) | ((g2 as u16) << 8)))
        } else if op == MOVEA {
            Ok(Instruction::MoveA((g1 as u16) | ((g2 as u16) << 8), g3))
        } else if op == LEAR {
            Ok(Instruction::LeaR(g1))
        } else if op == SHL {
            Ok(Instruction::Shl(g1, g2))
        } else if op == SHR {
            Ok(Instruction::Shr(g1, g2))
        } else {
            Ok(Instruction::Unknown)
        }
    }

    /// Fetch the word at `PC` into `IR`, advance `PC`, and decode.
    pub fn fetch(&mut self) -> (r: Result<Instruction, CpuError>)
        requires
            old(self)@.wf(),
        ensures
            final(self)@.wf(),
            match spec_fetch_decode(old(self)@) {
                Ok(si) => r == Ok::<Instruction, CpuError>(si.1) && final(self)@ == si.0,
                Err(e) => r == Err::<Instruction, CpuError>(e),
            },
    {
        if self.pc >= DRAM_SIZE {
            return Err(CpuError::DramOutOfRange);
        }
        self.ir = self.dram[self.pc as usize];
        self.pc = self.pc + 1;
        self.decode()
    }

    /// Push one value onto the stack.
    fn push_value(&mut self, v: u32) -> (r: Result<(), CpuError>)
        requires
            old(self)@.wf(),
        ensures
            final(self)@.wf(),
            match spec_exec_push(old(self)@, v) {
                Ok(s2) => r == Ok::<(), CpuError>(()) && final(self)@ == s2,
                Err(e) => r == Err::<(), CpuError>(e) && final(self)@ == old(self)@,
            },
    {
        if self.sp >= DRAM_SIZE {
            return Err(CpuError::DramOutOfRange);
        }
        let sp = self.sp;
        self.dram[sp as usize] = v;
        self.zero_flag = v == 0;
        self.sp = sp + 1;
        Ok(())
    }

    /// Add `TR` into the accumulator, wrapping, with flags.
    fn exec_acc_add(&mut self)
        ensures
            final(self)@ == spec_exec_acc_add(old(self)@),
    {
        let a = self.acc;
        let t = self.tr;
        let v = a.wrapping_add(t);
        self.acc = v;
        self.ov_flag = t > 0 && a > u32::MAX - t;
        self.zero_flag = v == 0;
    }

    /// Subtract `TR` from the accumulator, wrapping, with flags.
    fn exec_acc_sub(&mut self)
        ensures
            final(self)@ == spec_exec_acc_sub(old(self)@),
    {
        let a = self.acc;
        let t = self.tr;
        let v = a.wrapping_sub(t);
        self.acc = v;
        self.ov_flag = a < t;
        self.zero_flag = v == 0;
    }

    /// Pop the stack top into the output register, zeroing the cell.
    fn exec_pop(&mut self) -> (r: Result<(), CpuError>)
        requires
            old(self)@.wf(),
        ensures
            final(self)@.wf(),
            match spec_execute(old(self)@, Instruction::Pop) {
                Ok(s2) => r == Ok::<(), CpuError>(()) && final(self)@ == s2,
                Err(e) => r == Err::<(), CpuError>(e),
            },
    {
        if self.sp == 0 || self.sp > DRAM_SIZE {
            return Err(CpuError::DramOutOfRange);
        }
        let sp = self.sp - 1;
        self.sp = sp;
        let v = self.dram[sp as usize];
        self.or = v;
        self.dram[sp as usize] = 0;
        self.zero_flag = v == 0;
        Ok(())
    }

    /// Add register `b` into register `a`, wrapping, with flags.
    fn exec_add_regs(&mut self, a: u8, b: u8) -> (r: Result<(), CpuError>)
        requires
            old(self)@.wf(),
        ensures
            final(self)@.wf(),
            match spec_execute(old(self)@, Instruction::Add(a, b)) {
                Ok(s2) => r == Ok::<(), CpuError>(()) && final(self)@ == s2,
                Err(e) => r == Err::<(), CpuError>(e),
            },
    {
        if !is_reg_id(a) || !is_reg_id(b) {
            return Err(CpuError::BadRegister);
        }
        let va = self.get_reg(a);
        let vb = self.get_reg(b);
        let v = va.wrapping_add(vb);
        let ov = vb > 0 && va > u32::MAX - vb;
        self.set_reg(a, v);
        self.ov_flag = ov;
        self.zero_flag = v == 0;
        Ok(())
    }

    /// Subtract register `b` from register `a`, wrapping, with flags.
    fn exec_sub_regs(&mut self, a: u8, b: u8) -> (r: Result<(), CpuError>)
        requires
            old(self)@.wf(),
        ensures
            final(self)@.wf(),
            match spec_execute(old(self)@, Instruction::Sub(a, b)) {
                Ok(s2) => r == Ok::<(), CpuError>(()) && final(self)@ == s2,
                Err(e) => r == Err::<(), CpuError>(e),
            },
    {
        if !is_reg_id(a) || !is_reg_id(b) {
            return Err(CpuError::BadRegister);
        }
        let va = self.get_reg(a);
        let vb = self.get_reg(b);
        let v = va.wrapping_sub(vb);
        let ov = va < vb;
        self.set_reg(a, v);
        self.ov_flag = ov;
        self.zero_flag = v == 0;
        Ok(())
    }

    /// Copy register `b` into register `a`, setting the zero flag.
    fn exec_move_regs(&mut self, a: u8, b: u8) -> (r: Result<(), CpuError>)
        requires
            old(self)@.wf(),
        ensures
            final(self)@.wf(),
            match spec_execute(old(self)@, Instruction::MoveR(a, b)) {
                Ok(s2) => r == Ok::<(), CpuError>(()) && final(self)@ == s2,
                Err(e) => r == Err::<(), CpuError>(e),
            },
    {
        if !is_reg_id(a) || !is_reg_id(b) {
            return Err(CpuError::BadRegister);
        }
        let v = self.get_reg(b);
        self.set_reg(a, v);
        self.zero_flag = v == 0;
        Ok(())
    }

    /// Move an immediate into a register, setting the zero flag.
    fn exec_imovel(&mut self, reg: u8, imm: u32) -> (r: Result<(), CpuError>)
        requires
            old(self)@.wf(),
        ensures
            final(self)@.wf(),
            match spec_execute(old(self)@, Instruction::IMoveL(reg, imm)) {
                Ok(s2) => r == Ok::<(), CpuError>(()) && final(self)@ == s2,
                Err(e) => r == Err::<(), CpuError>(e),
            },
    {
        if !is_reg_id(reg) {
            return Err(CpuError::BadRegister);
        }
        self.set_reg(reg, imm);
        self.zero_flag = imm == 0;
        Ok(())
    }

    /// Store a register into a DRAM cell.
    fn exec_movea(&mut self, addr: u16, reg: u8) -> (r: Result<(), CpuError>)
        requires
            old(self)@.wf(),
        ensures
            final(self)@.wf(),
            match spec_execute(old(self)@, Instruction::MoveA(addr, reg)) {
                Ok(s2) => r == Ok::<(), CpuError>(()) && final(self)@ == s2,
                Err(e) => r == Err::<(), CpuError>(e),
            },
    {
        if !is_reg_id(reg) {
            return Err(CpuError::BadRegister);
        }
        if addr as u32 >= DRAM_SIZE {
            return Err(CpuError::DramOutOfRange);
        }
        let v = self.get_reg(reg);
        self.dram[addr as usize] = v;
        Ok(())
    }

    /// Load the cell a register points at into the output register.
    fn exec_lear(&mut self, reg: u8) -> (r: Result<(), CpuError>)
        requires
            old(self)@.wf(),
        ensures
            final(self)@.wf(),
            match spec_execute(old(self)@, Instruction::LeaR(reg)) {
                Ok(s2) => r == Ok::<(), CpuError>(()) && final(self)@ == s2,
                Err(e) => r == Err::<(), CpuError>(e),
            },
    {
        if !is_reg_id(reg) {
            return Err(CpuError::BadRegister);
        }
        let ad = self.get_reg(reg);
        if ad >= DRAM_SIZE {
            return Err(CpuError::DramOutOfRange);
        }
        self.or = self.dram[ad as usize];
        Ok(())
    }

    /// Shift a register left by an immediate count; a count of 32 or more
    /// leaves zero.
    fn exec_shl(&mut self, reg: u8, k: u8) -> (r: Result<(), CpuError>)
        requires
            old(self)@.wf(),
        ensures
            final(self)@.wf(),
            match spec_execute(old(self)@, Instruction::Shl(reg, k)) {
                Ok(s2) => r == Ok::<(), CpuError>(()) && final(self)@ == s2,
                Err(e) => r == Err::<(), CpuError>(e),
            },
    {
        if !is_reg_id(reg) {
            return Err(CpuError::BadRegister);
        }
        let cur = self.get_reg(reg);
        let v = if k < 32 {
            cur << k
        } else {
            0
        };
        self.set_reg(reg, v);
        self.zero_flag = v == 0;
        Ok(())
    }

    /// Shift a register right by an immediate count; a count of 32 or more
    /// leaves zero.
    fn exec_shr(&mut self, reg: u8, k: u8) -> (r: Result<(), CpuError>)
        requires
            old(self)@.wf(),
        ensures
            final(self)@.wf(),
            match spec_execute(old(self)@, Instruction::Shr(reg, k)) {
                Ok(s2) => r == Ok::<(), CpuError>(()) && final(self)@ == s2,
                Err(e) => r == Err::<(), CpuError>(e),
            },
    {
        if !is_reg_id(reg) {
            return Err(CpuError::BadRegister);
        }
        let cur = self.get_reg(reg);
        let v = if k < 32 {
            cur >> k
        } else {
            0
        };
        self.set_reg(reg, v);
        self.zero_flag = v == 0;
        Ok(())
    }

    /// Compare a register with a value, setting the ordering flags.
    fn exec_cmp_value(&mut self, reg: u8, v: u32) -> (r: Result<(), CpuError>)
        requires
            old(self)@.wf(),
        ensures
            final(self)@.wf(),
            spec_is_reg_id(reg) ==> r == Ok::<(), CpuError>(()) && final(self)@ == spec_cmp_flags(
                old(self)@,
                spec_reg_read(old(self)@, reg),
                v,
            ),
            !spec_is_reg_id(reg) ==> r == Err::<(), CpuError>(CpuError::BadRegister)
                && final(self)@ == old(self)@,
    {
        if !is_reg_id(reg) {
            return Err(CpuError::BadRegister);
        }
        let va = self.get_reg(reg);
        self.cmp_num(va, v);
        Ok(())
    }

    /// Execute one decoded instruction, exactly as [`spec_execute`] steps
    /// the model. A fault is returned instead of performed; the machine
    /// then stops meaning anything and the run is over.
    #[verifier::rlimit(100)]
    #[verifier::spinoff_prover]
    pub fn execute(&mut self, inst: Instruction) -> (r: Result<(), CpuError>)
        requires
            old(self)@.wf(),
        ensures
            final(self)@.wf(),
            match spec_execute(old(self)@, inst) {
                Ok(s2) => r == Ok::<(), CpuError>(()) && final(self)@ == s2,
                Err(e) => r == Err::<(), CpuError>(e),
            },
    {
        match inst {
            Instruction::IAdd(_) => {
                self.exec_acc_add();
                return Ok(());
            },
            Instruction::IAddL(_) => {
                self.exec_acc_add();
                return Ok(());
            },
            Instruction::ISub(_) => {
                self.exec_acc_sub();
                return Ok(());
            },
            Instruction::Unknown => {
                match self.fetch() {
                    Ok(_) => {
                        return Ok(());
                    },
                    Err(e) => {
                        return Err(e);
                    },
                }
            },
            Instruction::Dump => {
                return Ok(());
            },
            Instruction::DumpR(_) => {
                return Ok(());
            },
            Instruction::IPush(v) => {
                return self.push_value(v as u32);
            },
            Instruction::IPushL(v) => {
                return self.push_value(v);
            },
            Instruction::Push(r) => {
                if !is_reg_id(r) {
                    return Err(CpuError::BadRegister);
                }
                let v = self.get_reg(r);
                return self.push_value(v);
            },
            Instruction::Pop => {
                return self.exec_pop();
            },
            Instruction::Add(a, b) => {
                return self.exec_add_regs(a, b);
            },
            Instruction::Sub(a, b) => {
                return self.exec_sub_regs(a, b);
            },
            Instruction::MoveR(a, b) => {
                return self.exec_move_regs(a, b);
            },
            Instruction::IMoveL(r, imm) => {
                return self.exec_imovel(r, imm);
            },
            Instruction::Cmp(a, b) => {
                if !is_reg_id(b) {
                    return Err(CpuError::BadRegister);
                }
                let vb = self.get_reg(b);
                return self.exec_cmp_value(a, vb);
            },
            Instruction::ICmp(a, v) => {
                return self.exec_cmp_value(a, v as u32);
            },
            Instruction::ICmpL(a, v) => {
                return self.exec_cmp_value(a, v);
            },
            Instruction::JE(t) => {
                if self.eq_flag {
                    self.pc = t as u32;
                }
                return Ok(());
            },
            Instruction::JGT(t) => {
                if self.gt_flag {
                    self.pc = t as u32;
                }
                return Ok(());
            },
            Instruction::JLT(t) => {
                if self.lt_flag {
                    self.pc = t as u32;
                }
                return Ok(());
            },
            Instruction::JZ(t) => {
                if self.zero_flag {
                    self.pc = t as u32;
                }
                return Ok(());
            },
            Instruction::JOV(t) => {
                if self.ov_flag {
                    self.pc = t as u32;
                }
                return Ok(());
            },
            Instruction::JMP(t) => {
                self.pc = t as u32;
                return Ok(());
            },
            Instruction::Lea(addr) => {
                if addr as u32 >= DRAM_SIZE {
                    return Err(CpuError::DramOutOfRange);
                }
                self.or = self.dram[addr as usize];
                return Ok(());
            },
            Instruction::LeaR(r) => {
                return self.exec_lear(r);
            },
            Instruction::MoveA(addr, r) => {
                return self.exec_movea(addr, r);
            },
            Instruction::Shl(r, k) => {
                return self.exec_shl(r, k);
            },
            Instruction::Shr(r, k) => {
                return self.exec_shr(r, k);
            },
        }
    }

    /// Run a fixed number of fetch-decode-execute cycles. The first fault
    /// ends the run early and is returned.
    pub fn execute_cycles(&mut self, cycle_count: usize) -> (r: Result<(), CpuError>)
        requires
            old(self)@.wf(),
        ensures
            final(self)@.wf(),
            match spec_run_cycles(old(self)@, cycle_count as nat) {
                Ok(s2) => r == Ok::<(), CpuError>(()) && final(self)@ == s2,
                Err(e) => r == Err::<(), CpuError>(e),
            },
    {
        let mut i: usize = 0;
        while i < cycle_count
            invariant
                0 <= i <= cycle_count,
                self@.wf(),
                spec_run_cycles(old(self)@, cycle_count as nat) == spec_run_cycles(
                    self@,
                    (cycle_count - i) as nat,
                ),
            decreases cycle_count - i,
        {
            let inst = match self.fetch() {
                Ok(inst) => inst,
                Err(e) => {
                    return Err(e);
                },
            };
            match self.execute(inst) {
                Ok(u) => u,
                Err(e) => {
                    return Err(e);
                },
            };
            i = i + 1;
        }
        Ok(())
    }

    /// Run until an `Unknown` decode ends the program (its execution does
    /// one more fetch: the two-word sentinel), a fault ends it abnormally,
    /// or the cycle budget runs out.
    pub fn execute_until_unknown(&mut self, fuel: u64) -> (r: RunOutcome)
        requires
            old(self)@.wf(),
        ensures
            final(self)@.wf(),
            match spec_run_to_halt(old(self)@, fuel as nat) {
                RunState::Halted(s2) => r == RunOutcome::Halted && final(self)@ == s2,
                RunState::OutOfFuel(s2) => r == RunOutcome::OutOfFuel && final(self)@ == s2,
                RunState::Fault(e) => r == RunOutcome::Fault(e),
            },
    {
        let mut i: u64 = 0;
        while i < fuel
            invariant
                0 <= i <= fuel,
                self@.wf(),
                spec_run_to_halt(old(self)@, fuel as nat) == spec_run_to_halt(
                    self@,
                    (fuel - i) as nat,
                ),
            decreases fuel - i,
        {
            let inst = match self.fetch() {
                Ok(inst) => inst,
                Err(e) => {
                    return RunOutcome::Fault(e);
                },
            };
            let halting = match inst {
                Instruction::Unknown => true,
                _ => false,
            };
            match self.execute(inst) {
                Ok(u) => u,
                Err(e) => {
                    return RunOutcome::Fault(e);
                },
            };
            if halting {
                return RunOutcome::Halted;
            }
            i = i + 1;
        }
        RunOutcome::OutOfFuel
    }
}

/// Loading the byte image of a DRAM reproduces that DRAM exactly.
pub proof fn lemma_load_dram_bytes(dram: Seq<u32>)
    requires
        dram.len() == DRAM_SIZE,
    ensures
        spec_load_dram(spec_dram_bytes(dram)) == dram,
{
    let bytes = spec_dram_bytes(dram);
    assert forall|i: int| 0 <= i < DRAM_SIZE implies spec_load_dram(bytes)[i] == dram[i] by {
        assert(bytes.len() == 4 * DRAM_SIZE);
        assert((4 * i) / 4 == i && (4 * i) % 4 == 0);
        assert((4 * i + 1) / 4 == i && (4 * i + 1) % 4 == 1);
        assert((4 * i + 2) / 4 == i && (4 * i + 2) % 4 == 2);
        assert((4 * i + 3) / 4 == i && (4 * i + 3) % 4 == 3);
        lemma_word_from_groups(dram[i]);
    }
    assert(spec_load_dram(bytes) =~= dram);
}

proof fn lemma_word_from_groups(w: u32)
    by (bit_vector)
    ensures
        ((spec_mask_bit_group(w, 0) as u32) | ((spec_mask_bit_group(w, 1) as u32) << 8) | ((
        spec_mask_bit_group(w, 2) as u32) << 16) | ((spec_mask_bit_group(w, 3) as u32) << 24))
            == w,
{
}

} // verus!
