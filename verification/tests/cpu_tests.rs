//! The CPU exercised directly through its programmatic append and run
//! operations.

use cr_cpu::constants::{ACC, OR};
use cr_cpu::cpu::{Cpu, RunOutcome};
use cr_cpu::instruction::Instruction;

const FUEL: u64 = 10_000;

#[test]
fn test_cpu_iadd() {
    let mut cpu = Cpu::new();

    cpu.add_to_end(&Instruction::IAdd(6));
    cpu.add_to_end(&Instruction::IAdd(2));
    cpu.add_to_end(&Instruction::IAdd(1));
    cpu.add_to_end(&Instruction::IAdd(11));
    assert_eq!(cpu.execute_until_unknown(FUEL), RunOutcome::Halted);

    let dram = cpu.get_dram();
    assert_eq!(dram[0], 0x0006_000A);
    assert_eq!(dram[1], 0x0002_000A);
    assert_eq!(dram[2], 0x0001_000A);
    assert_eq!(dram[3], 0x000B_000A);
    for i in 4..128 {
        assert_eq!(dram[i], 0);
    }
    assert_eq!(cpu.get_acc(), 20);
    assert_eq!(cpu.get_pc(), 6);
}

#[test]
fn test_cpu_imovel() {
    let mut cpu = Cpu::new();

    cpu.add_to_end(&Instruction::IAdd(2));
    cpu.add_to_end(&Instruction::IAdd(1));
    cpu.add_to_end(&Instruction::IAdd(11));
    cpu.add_to_end(&Instruction::IMoveL(ACC, 5000));
    cpu.add_to_end(&Instruction::IAdd(2));
    cpu.add_to_end(&Instruction::IAdd(1));
    cpu.add_to_end(&Instruction::IAdd(11));
    assert_eq!(cpu.execute_until_unknown(FUEL), RunOutcome::Halted);

    let dram = cpu.get_dram();
    assert_eq!(dram[0], 0x0002_000A);
    assert_eq!(dram[1], 0x0001_000A);
    assert_eq!(dram[2], 0x000B_000A);
    assert_eq!(dram[3], 0x0A11);
    assert_eq!(dram[4], 5000);
    assert_eq!(dram[5], 0x0002_000A);
    assert_eq!(dram[6], 0x0001_000A);
    assert_eq!(dram[7], 0x000B_000A);
    assert_eq!(cpu.get_acc(), 5014);
    assert_eq!(cpu.get_pc(), 10);
}

#[test]
fn test_cpu_add() {
    let mut cpu = Cpu::new();

    cpu.add_to_end(&Instruction::IAdd(1));
    cpu.add_to_end(&Instruction::IMoveL(ACC, 5182));
    cpu.add_to_end(&Instruction::IAdd(1));
    cpu.add_to_end(&Instruction::IMoveL(OR, 6184));
    cpu.add_to_end(&Instruction::IAdd(1));
    cpu.add_to_end(&Instruction::Add(ACC, OR));
    cpu.add_to_end(&Instruction::Add(OR, ACC));

    assert_eq!(cpu.execute_until_unknown(FUEL), RunOutcome::Halted);

    let dram = cpu.get_dram();
    assert_eq!(dram[0], 0x0001_000A);
    assert_eq!(dram[1], 0x0A11);
    assert_eq!(dram[2], 5182);
    assert_eq!(dram[3], 0x0001_000A);
    assert_eq!(dram[4], 0x3A11);
    assert_eq!(dram[5], 6184);
    assert_eq!(dram[6], 0x0001_000A);
    assert_eq!(dram[7], 0x003A_0A2A);
    assert_eq!(dram[8], 0x000A_3A2A);
    assert_eq!(cpu.get_acc(), 11368);
    assert_eq!(cpu.get_or(), 17552);
    assert_eq!(cpu.get_pc(), 11);
}

#[test]
fn test_cpu_push_pop() {
    let mut cpu = Cpu::new();

    assert_eq!(cpu.get_sp(), 96);

    cpu.add_to_end(&Instruction::IPush(211));
    cpu.add_to_end(&Instruction::IPush(58));
    cpu.add_to_end(&Instruction::IAdd(152));
    cpu.add_to_end(&Instruction::IAdd(7));
    cpu.add_to_end(&Instruction::Push(ACC));

    assert!(cpu.execute_cycles(5).is_ok());

    {
        let dram = cpu.get_dram();
        assert_eq!(dram[0], 0x0000_D30C);
        assert_eq!(dram[1], 0x0000_3A0C);
        assert_eq!(dram[2], 0x0098_000A);
        assert_eq!(dram[3], 0x0007_000A);
        assert_eq!(dram[4], 0x0000_0A3C);
        assert_eq!(dram[96], 211);
        assert_eq!(dram[97], 58);
        assert_eq!(dram[98], 159);
    }
    assert_eq!(cpu.get_acc(), 159);
    assert_eq!(cpu.get_pc(), 5);
    assert_eq!(cpu.get_or(), 0);
    assert_eq!(cpu.get_sp(), 99);

    cpu.add_to_end(&Instruction::Pop);
    assert!(cpu.execute_cycles(1).is_ok());
    assert_eq!(cpu.get_or(), 159);
    cpu.add_to_end(&Instruction::Pop);
    assert!(cpu.execute_cycles(1).is_ok());
    assert_eq!(cpu.get_or(), 58);
    cpu.add_to_end(&Instruction::Pop);
    assert!(cpu.execute_cycles(1).is_ok());
    assert_eq!(cpu.get_or(), 211);
    cpu.add_to_end(&Instruction::Pop);
    assert!(cpu.execute_cycles(1).is_ok());
    assert_eq!(cpu.get_or(), 0);
    assert_eq!(cpu.get_sp(), 95);
    assert!(cpu.execute_cycles(1).is_ok());
}
