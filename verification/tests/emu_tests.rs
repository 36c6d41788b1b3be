//! The reduced emulator machine: single-word codec and stepper.

use cr_cpu::cpu::{CpuError, RunOutcome};
use cr_cpu::emu::{Cpu, Instruction};

#[test]
fn emu_codec_roundtrip() {
    let samples = vec![
        Instruction::Add(192),
        Instruction::Sub(64),
        Instruction::Push(65535),
        Instruction::Pop,
        Instruction::Dump,
        Instruction::Unknown,
    ];
    for inst in samples {
        assert_eq!(Instruction::decode(inst.to_instruction_data()), inst);
    }
    assert_eq!(Instruction::decode(0), Instruction::Unknown);
}

#[test]
fn emu_add_sub_run() {
    let mut cpu = Cpu::new();
    cpu.add_to_end(Instruction::Add(192).to_instruction_data());
    cpu.add_to_end(Instruction::Sub(64).to_instruction_data());
    cpu.add_to_end(Instruction::Dump.to_instruction_data());
    assert_eq!(cpu.execute_until_unknown(1000), RunOutcome::Halted);
    assert_eq!(cpu.get_acc(), 128);
}

#[test]
fn emu_push_pop_cycle() {
    let mut cpu = Cpu::new();
    cpu.add_to_end(Instruction::Push(300).to_instruction_data());
    cpu.add_to_end(Instruction::Pop.to_instruction_data());
    assert!(cpu.execute_cycles(2).is_ok());
    assert_eq!(cpu.get_or(), 300);
    assert_eq!(cpu.get_dram()[96], 0);
}

#[test]
fn emu_sub_below_zero_faults() {
    let mut cpu = Cpu::new();
    cpu.add_to_end(Instruction::Sub(1).to_instruction_data());
    assert_eq!(cpu.execute_cycles(1), Err(CpuError::DramOutOfRange));
}
