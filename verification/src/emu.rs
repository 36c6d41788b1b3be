//! A reduced machine for the interactive emulator front-end: single-word
//! instructions only (add, subtract, push, pop, dump), one zero flag, and
//! a decoder that reads one word at a time. The front-end steps it one
//! cycle per key press and renders its memory between frames.

use vstd::prelude::*;
use crate::constants::DRAM_SIZE;
use crate::cpu::{CpuError, RunOutcome};
use crate::{mask_bit_group, spec_mask_bit_group};

verus! {

/// Add instruction opcode
pub const ADD: u8 = 0x0A;
/// Subtract instruction opcode; same word layout as `ADD`
pub const SUB: u8 = 0x0B;
/// Push instruction opcode
pub const PUSH: u8 = 0x0C;
/// Pop instruction opcode
pub const POP: u8 = 0x1C;
/// Dump instruction opcode
pub const DUMP: u8 = 0xFF;

/// One instruction of the reduced machine.
#[derive(Clone, Copy, Debug, PartialEq, Eq, Structural)]
pub enum Instruction {
    /// Add an 8-bit immediate into the accumulator
    Add(u8),
    /// Subtract an 8-bit immediate from the accumulator
    Sub(u8),
    /// Push a 16-bit immediate onto the stack
    Push(u16),
    /// Pop the top of the stack into the output register
    Pop,
    /// Emit the state on the observation channel
    Dump,
    /// Any other word
    Unknown,
}

/// The single-word encoding of a reduced instruction.
pub open spec fn spec_emu_encode(i: Instruction) -> u32 {
    match i {
        Instruction::Add(n) => (ADD as u32) | ((n as u32) << 16),
        Instruction::Sub(n) => (SUB as u32) | ((n as u32) << 16),
        Instruction::Push(v) => (PUSH as u32) | ((v as u32) << 8),
        Instruction::Pop => POP as u32,
        Instruction::Dump => DUMP as u32,
        Instruction::Unknown => 0u32,
    }
}

/// What one word decodes to: the opcode byte picks the tag, the operand
/// bytes carry the immediate.
pub open spec fn spec_emu_decode(w: u32) -> Instruction {
    let op = spec_mask_bit_group(w, 0);
    let g1 = spec_mask_bit_group(w, 1);
    let g2 = spec_mask_bit_group(w, 2);
    if op == ADD {
        Instruction::Add(g2)
    } else if op == SUB {
        Instruction::Sub(g2)
    } else if op == DUMP {
        Instruction::Dump
    } else if op == PUSH {
        Instruction::Push((g1 as u16) | ((g2 as u16) << 8))
    } else if op == POP {
        Instruction::Pop
    } else {
        Instruction::Unknown
    }
}

proof fn lemma_emu_groups_op(op: u8)
    by (bit_vector)
    ensures
        spec_mask_bit_group(op as u32, 0) == op,
        spec_mask_bit_group(op as u32, 1) == 0,
        spec_mask_bit_group(op as u32, 2) == 0,
{
}

proof fn lemma_emu_groups_imm8(op: u8, n: u8)
    by (bit_vector)
    ensures
        spec_mask_bit_group((op as u32) | ((n as u32) << 16), 0) == op,
        spec_mask_bit_group((op as u32) | ((n as u32) << 16), 1) == 0,
        spec_mask_bit_group((op as u32) | ((n as u32) << 16), 2) == n,
{
}

proof fn lemma_emu_groups_imm16(op: u8, v: u16)
    by (bit_vector)
    ensures
        spec_mask_bit_group((op as u32) | ((v as u32) << 8), 0) == op,
        ((spec_mask_bit_group((op as u32) | ((v as u32) << 8), 1) as u16) | ((spec_mask_bit_group(
            (op as u32) | ((v as u32) << 8),
            2,
        ) as u16) << 8)) == v,
{
}

/// Decoding the reduced encoding is a left inverse of encoding.
pub proof fn lemma_emu_encode_decode(i: Instruction)
    ensures
        spec_emu_decode(spec_emu_encode(i)) == i,
{
    match i {
        Instruction::Add(n) => lemma_emu_groups_imm8(ADD, n),
        Instruction::Sub(n) => lemma_emu_groups_imm8(SUB, n),
        Instruction::Push(v) => lemma_emu_groups_imm16(PUSH, v),
        Instruction::Pop => lemma_emu_groups_op(POP),
        Instruction::Dump => lemma_emu_groups_op(DUMP),
        Instruction::Unknown => lemma_emu_groups_op(0),
    }
}

impl Instruction {
    /// Decode one memory word.
    pub fn decode(instruction_data: u32) -> (r: Instruction)
        ensures
            r == spec_emu_decode(instruction_data),
    {
        let op_code = mask_bit_group(instruction_data, 0);
        let group1 = mask_bit_group(instruction_data, 1);
        let group2 = mask_bit_group(instruction_data, 2);
        if op_code == ADD {
            Instruction::Add(group2)
        } else if op_code == SUB {
            Instruction::Sub(group2)
        } else if op_code == DUMP {
            Instruction::Dump
        } else if op_code == PUSH {
            Instruction::Push((group1 as u16) | ((group2 as u16) << 8))
        } else if op_code == POP {
            Instruction::Pop
        } else {
            Instruction::Unknown
        }
    }

    /// Emit this instruction's single memory word.
    pub fn to_instruction_data(&self) -> (r: u32)
        ensures
            r == spec_emu_encode(*self),
    {
        match self {
            Instruction::Add(number) => ADD as u32 | (*number as u32) << 16,
            Instruction::Sub(number) => SUB as u32 | (*number as u32) << 16,
            Instruction::Push(number) => PUSH as u32 | ((*number as u32) << 8),
            Instruction::Pop => POP as u32,
            Instruction::Dump => DUMP as u32,
            Instruction::Unknown => 0x00,
        }
    }
}

/// The model of the reduced machine.
pub struct EmuView {
    pub acc: u32,
    pub pc: u32,
    pub ir: u32,
    pub or: u32,
    pub sp: u32,
    pub dram: Seq<u32>,
    pub zero_flag: bool,
}

impl EmuView {
    /// DRAM always holds exactly [`DRAM_SIZE`] cells.
    pub open spec fn wf(self) -> bool {
        self.dram.len() == DRAM_SIZE
    }
}

/// The state of a freshly created reduced machine.
pub open spec fn spec_emu_new() -> EmuView {
    EmuView {
        acc: 0,
        pc: 0,
        ir: 0,
        or: 0,
        sp: (DRAM_SIZE - DRAM_SIZE / 4) as u32,
        dram: Seq::new(DRAM_SIZE as nat, |i: int| 0u32),
        zero_flag: false,
    }
}

/// The lowest cell that decodes as no instruction, where the appender
/// writes.
pub open spec fn spec_emu_find_free(dram: Seq<u32>, from: int) -> Option<int>
    decreases dram.len() - from,
{
    if from < 0 || from >= dram.len() {
        None
    } else if spec_emu_decode(dram[from]) is Unknown {
        Some(from)
    } else {
        spec_emu_find_free(dram, from + 1)
    }
}

/// What executing one decoded instruction does to the reduced machine.
/// The add and subtract are exact: overflowing past either end of the
/// 32-bit range is a fault of the host.
pub open spec fn spec_emu_execute(s: EmuView, i: Instruction) -> Result<EmuView, CpuError> {
    match i {
        Instruction::Add(n) => if s.acc + n > u32::MAX {
            Err(CpuError::DramOutOfRange)
        } else {
            let v = (s.acc + n) as u32;
            Ok(EmuView { acc: v, zero_flag: v == 0, ..s })
        },
        Instruction::Sub(n) => if s.acc < n {
            Err(CpuError::DramOutOfRange)
        } else {
            let v = (s.acc - n) as u32;
            Ok(EmuView { acc: v, zero_flag: v == 0, ..s })
        },
        Instruction::Push(v) => if s.sp >= DRAM_SIZE {
            Err(CpuError::DramOutOfRange)
        } else {
            Ok(
                EmuView {
                    dram: s.dram.update(s.sp as int, v as u32),
                    sp: (s.sp + 1) as u32,
                    zero_flag: v == 0,
                    ..s
                },
            )
        },
        Instruction::Pop => if s.sp == 0 || s.sp > DRAM_SIZE {
            Err(CpuError::DramOutOfRange)
        } else {
            let v = s.dram[s.sp - 1];
            Ok(
                EmuView {
                    sp: (s.sp - 1) as u32,
                    or: v,
                    dram: s.dram.update(s.sp - 1, 0u32),
                    zero_flag: v == 0,
                    ..s
                },
            )
        },
        Instruction::Dump => Ok(s),
        Instruction::Unknown => Ok(s),
    }
}

/// One fetch of the reduced machine: `IR` takes the cell at `PC`, `PC`
/// advances, the word decodes.
pub open spec fn spec_emu_fetch(s: EmuView) -> Result<(EmuView, Instruction), CpuError> {
    if s.pc >= DRAM_SIZE {
        Err(CpuError::DramOutOfRange)
    } else {
        let w = s.dram[s.pc as int];
        Ok((EmuView { ir: w, pc: (s.pc + 1) as u32, ..s }, spec_emu_decode(w)))
    }
}

/// One full cycle of the reduced machine.
pub open spec fn spec_emu_cycle(s: EmuView) -> Result<EmuView, CpuError> {
    match spec_emu_fetch(s) {
        Ok(si) => spec_emu_execute(si.0, si.1),
        Err(e) => Err(e),
    }
}

/// `n` cycles of the reduced machine.
pub open spec fn spec_emu_run_cycles(s: EmuView, n: nat) -> Result<EmuView, CpuError>
    decreases n,
{
    if n == 0 {
        Ok(s)
    } else {
        match spec_emu_cycle(s) {
            Ok(s2) => spec_emu_run_cycles(s2, (n - 1) as nat),
            Err(e) => Err(e),
        }
    }
}

/// How a bounded run of the reduced machine ends. Unlike the full CPU it
/// halts before executing the `Unknown`, whose fetch is kept.
pub enum EmuRunState {
    Halted(EmuView),
    OutOfFuel(EmuView),
    Fault(CpuError),
}

/// Run the reduced machine until an `Unknown` decode, a fault, or `fuel`
/// spent cycles.
pub open spec fn spec_emu_run_to_halt(s: EmuView, fuel: nat) -> EmuRunState
    decreases fuel,
{
    if fuel == 0 {
        EmuRunState::OutOfFuel(s)
    } else {
        match spec_emu_fetch(s) {
            Err(e) => EmuRunState::Fault(e),
            Ok(si) => if si.1 is Unknown {
                EmuRunState::Halted(si.0)
            } else {
                match spec_emu_execute(si.0, si.1) {
                    Err(e) => EmuRunState::Fault(e),
                    Ok(s2) => spec_emu_run_to_halt(s2, (fuel - 1) as nat),
                }
            },
        }
    }
}

/// The reduced machine itself.
#[derive(Debug, Clone)]
pub struct Cpu {
    /// Accumulator
    acc: u32,
    /// Program counter: the DRAM index the next instruction is read from
    pc: u32,
    /// Instruction register: the word currently being executed
    ir: u32,
    /// Output register
    or: u32,
    /// Stack pointer: the DRAM index the next push writes
    sp: u32,
    /// Ram
    dram: Vec<u32>,
    zero_flag: bool,
}

impl View for Cpu {
    type V = EmuView;

    closed spec fn view(&self) -> EmuView {
        EmuView {
            acc: self.acc,
            pc: self.pc,
            ir: self.ir,
            or: self.or,
            sp: self.sp,
            dram: self.dram@,
            zero_flag: self.zero_flag,
        }
    }
}

impl Cpu {
    /// A fresh reduced machine: everything zeroed, stack pointer three
    /// quarters in.
    pub fn new() -> (cpu: Cpu)
        ensures
            cpu@ == spec_emu_new(),
            cpu@.wf(),
    {
        let mut dram: Vec<u32> = Vec::new();
        let mut i: usize = 0;
        while i < DRAM_SIZE as usize
            invariant
                i <= DRAM_SIZE,
                dram@.len() == i,
                forall|j: int| 0 <= j < i ==> dram@[j] == 0,
            decreases DRAM_SIZE - i,
        {
            dram.push(0);
            i = i + 1;
        }
        let cpu = Cpu {
            acc: 0,
            pc: 0,
            ir: 0,
            or: 0,
            sp: DRAM_SIZE - (DRAM_SIZE / 4),
            dram,
            zero_flag: false,
        };
        proof {
            assert(cpu@.dram =~= spec_emu_new().dram);
        }
        cpu
    }

    /// The accumulator's value.
    pub fn get_acc(&self) -> (r: u32)
        ensures
            r == self@.acc,
    {
        self.acc
    }

    /// The output register's value.
    pub fn get_or(&self) -> (r: u32)
        ensures
            r == self@.or,
    {
        self.or
    }

    /// The whole DRAM, for observation and rendering.
    pub fn get_dram(&self) -> (r: &Vec<u32>)
        ensures
            r@ == self@.dram,
    {
        &self.dram
    }

    /// Force a word into a given DRAM cell.
    pub fn add_instruction(&mut self, inst: u32, location: u32)
        requires
            old(self)@.wf(),
            location < DRAM_SIZE,
        ensures
            final(self)@ == (EmuView {
                dram: old(self)@.dram.update(location as int, inst),
                ..old(self)@
            }),
    {
        self.dram[location as usize] = inst;
    }

    /// Write a word over the lowest cell that decodes as no instruction;
    /// with no such cell DRAM is left unchanged.
    pub fn add_to_end(&mut self, inst: u32)
        requires
            old(self)@.wf(),
        ensures
            final(self)@.wf(),
            final(self)@ == match spec_emu_find_free(old(self)@.dram, 0) {
                Some(idx) => EmuView {
                    dram: old(self)@.dram.update(idx, inst),
                    ..old(self)@
                },
                None => old(self)@,
            },
    {
        let ghost d = self@.dram;
        let mut index: usize = 0;
        while index < DRAM_SIZE as usize
            invariant
                0 <= index <= DRAM_SIZE,
                self@ == old(self)@,
                d == self@.dram,
                d.len() == DRAM_SIZE,
                spec_emu_find_free(d, 0) == spec_emu_find_free(d, index as int),
            decreases DRAM_SIZE as usize - index,
        {
            let w = self.dram[index];
            let dec = Instruction::decode(w);
            let is_unknown = match dec {
                Instruction::Unknown => true,
                _ => false,
            };
            if is_unknown {
                self.dram[index] = inst;
                return;
            }
            index = index + 1;
        }
    }

    /// Fetch the word at `PC` into `IR`, advance `PC`, and decode it.
    pub fn fetch(&mut self) -> (r: Result<Instruction, CpuError>)
        requires
            old(self)@.wf(),
        ensures
            final(self)@.wf(),
            match spec_emu_fetch(old(self)@) {
                Ok(si) => r == Ok::<Instruction, CpuError>(si.1) && final(self)@ == si.0,
                Err(e) => r == Err::<Instruction, CpuError>(e) && final(self)@ == old(self)@,
            },
    {
        if self.pc >= DRAM_SIZE {
            return Err(CpuError::DramOutOfRange);
        }
        let w = self.dram[self.pc as usize];
        self.ir = w;
        self.pc = self.pc + 1;
        Ok(Instruction::decode(w))
    }

    /// Execute one decoded instruction of the reduced machine. Stepping
    /// past either end of the 32-bit range, or past DRAM, is a fault.
    pub fn execute(&mut self, inst: Instruction) -> (r: Result<(), CpuError>)
        requires
            old(self)@.wf(),
        ensures
            final(self)@.wf(),
            match spec_emu_execute(old(self)@, inst) {
                Ok(s2) => r == Ok::<(), CpuError>(()) && final(self)@ == s2,
                Err(e) => r == Err::<(), CpuError>(e) && final(self)@ == old(self)@,
            },
    {
        match inst {
            Instruction::Add(number) => {
                if number as u32 > u32::MAX - self.acc {
                    return Err(CpuError::DramOutOfRange);
                }
                self.acc = self.acc + number as u32;
                self.zero_flag = self.acc == 0;
                return Ok(());
            },
            Instruction::Sub(number) => {
                if self.acc < number as u32 {
                    return Err(CpuError::DramOutOfRange);
                }
                self.acc = self.acc - number as u32;
                self.zero_flag = self.acc == 0;
                return Ok(());
            },
            Instruction::Push(number) => {
                if self.sp >= DRAM_SIZE {
                    return Err(CpuError::DramOutOfRange);
                }
                let sp = self.sp;
                self.dram[sp as usize] = number as u32;
                self.zero_flag = number == 0;
                self.sp = sp + 1;
                return Ok(());
            },
            Instruction::Pop => {
                if self.sp == 0 || self.sp > DRAM_SIZE {
                    return Err(CpuError::DramOutOfRange);
                }
                let sp = self.sp - 1;
                self.sp = sp;
                let v = self.dram[sp as usize];
                self.or = v;
                self.dram[sp as usize] = 0;
                self.zero_flag = v == 0;
                return Ok(());
            },
            Instruction::Dump => {
                return Ok(());
            },
            Instruction::Unknown => {
                return Ok(());
            },
        }
    }

    /// Run a fixed number of cycles of the reduced machine.
    pub fn execute_cycles(&mut self, cycle_count: usize) -> (r: Result<(), CpuError>)
        requires
            old(self)@.wf(),
        ensures
            final(self)@.wf(),
            match spec_emu_run_cycles(old(self)@, cycle_count as nat) {
                Ok(s2) => r == Ok::<(), CpuError>(()) && final(self)@ == s2,
                Err(e) => r == Err::<(), CpuError>(e),
            },
    {
        let mut i: usize = 0;
        while i < cycle_count
            invariant
                0 <= i <= cycle_count,
                self@.wf(),
                spec_emu_run_cycles(old(self)@, cycle_count as nat) == spec_emu_run_cycles(
                    self@,
                    (cycle_count - i) as nat,
                ),
            decreases cycle_count - i,
        {
            let inst = match self.fetch() {
                Ok(inst) => inst,
                Err(e) => {
                    return Err(e);
                },
            };
            match self.execute(inst) {
                Ok(u) => u,
                Err(e) => {
                    return Err(e);
                },
            };
            i = i + 1;
        }
        Ok(())
    }

    /// Run the reduced machine until an `Unknown` decode, a fault, or
    /// the cycle budget runs out. The `Unknown` is fetched, not executed.
    pub fn execute_until_unknown(&mut self, fuel: u64) -> (r: RunOutcome)
        requires
            old(self)@.wf(),
        ensures
            final(self)@.wf(),
            match spec_emu_run_to_halt(old(self)@, fuel as nat) {
                EmuRunState::Halted(s2) => r == RunOutcome::Halted && final(self)@ == s2,
                EmuRunState::OutOfFuel(s2) => r == RunOutcome::OutOfFuel && final(self)@ == s2,
                EmuRunState::Fault(e) => r == RunOutcome::Fault(e),
            },
    {
        let mut i: u64 = 0;
        while i < fuel
            invariant
                0 <= i <= fuel,
                self@.wf(),
                spec_emu_run_to_halt(old(self)@, fuel as nat) == spec_emu_run_to_halt(
                    self@,
                    (fuel - i) as nat,
                ),
            decreases fuel - i,
        {
            let inst = match self.fetch() {
                Ok(inst) => inst,
                Err(e) => {
                    return RunOutcome::Fault(e);
                },
            };
            let halting = match inst {
                Instruction::Unknown => true,
                _ => false,
            };
            if halting {
                return RunOutcome::Halted;
            }
            match self.execute(inst) {
                Ok(u) => u,
                Err(e) => {
                    return RunOutcome::Fault(e);
                },
            };
            i = i + 1;
        }
        RunOutcome::OutOfFuel
    }
}

} // verus!
