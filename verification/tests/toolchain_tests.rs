//! The assembler driven end to end from source text, plus the codec and
//! text helpers on their own.

use cr_cpu::constants::{ACC, CR, OR, SP, TR};
use cr_cpu::cpu::{Cpu, CpuError, RunOutcome};
use cr_cpu::instruction::Instruction;
use cr_cpu::mask_bit_group;
use cr_cpu::parse::{line_tokens, parse_u32, split_lines};
use cr_cpu::program_file::{AsmError, ProgramFile, is_label, is_precompile_label_inst};

const FUEL: u64 = 10_000;

fn tok(s: &str) -> Vec<u8> {
    s.as_bytes().to_vec()
}

fn assemble(src: &str) -> ProgramFile {
    let mut pf = ProgramFile::new(tok(src));
    pf.compile().expect("source should assemble");
    pf
}

#[test]
fn single_add_and_dump() {
    let mut pf = assemble("add 5\ndump\n");
    {
        let dram = pf.get_cpu().get_dram();
        assert_eq!(dram[0], 0x0005_000A);
        assert_eq!(dram[1], 0xFF);
        assert_eq!(dram[2], 0);
    }
    assert_eq!(pf.run(FUEL), RunOutcome::Halted);
    assert_eq!(pf.get_cpu().get_acc(), 5);
    let (zero, _, _, _, _) = pf.get_cpu().get_flags();
    assert!(!zero);
}

#[test]
fn long_move_then_add() {
    let mut pf = assemble("imovel acc 5000\nadd 1\n");
    {
        let dram = pf.get_cpu().get_dram();
        assert_eq!(dram[0], 0x0A11);
        assert_eq!(dram[1], 5000);
        assert_eq!(dram[2], 0x0001_000A);
    }
    assert_eq!(pf.run(FUEL), RunOutcome::Halted);
    assert_eq!(pf.get_cpu().get_acc(), 5001);
}

#[test]
fn jump_to_label_resolves_to_zero() {
    let mut pf = assemble(":start:\nadd 1\njmp :start:\n");
    let binary = pf.output_binary();
    let mut cpu = Cpu::from_binary(&binary);
    assert_eq!(cpu.get_dram()[0], 0x0001_000A);
    assert_eq!(cpu.get_dram()[1], 0x08);
    assert!(cpu.execute_cycles(3).is_ok());
    assert_eq!(cpu.get_pc(), 1);
    assert_eq!(cpu.get_acc(), 2);
    assert!(cpu.execute_cycles(1).is_ok());
    assert_eq!(cpu.get_pc(), 0);
    assert_eq!(pf.run(FUEL), RunOutcome::OutOfFuel);
}

#[test]
fn push_push_pop_pop_restores_stack() {
    let mut pf = assemble("push 211\npush 58\npop\npop\n");
    let binary = pf.output_binary();
    let mut cpu = Cpu::from_binary(&binary);
    let start_sp = cpu.get_sp();
    assert!(cpu.execute_cycles(3).is_ok());
    assert_eq!(cpu.get_or(), 58);
    assert!(cpu.execute_cycles(1).is_ok());
    assert_eq!(cpu.get_or(), 211);
    assert_eq!(cpu.get_sp(), start_sp);
    assert_eq!(cpu.get_dram()[96], 0);
    assert_eq!(cpu.get_dram()[97], 0);
    drop(pf);
}

#[test]
fn variable_and_lea() {
    let mut pf = assemble("x = 7\nlea :x:\n");
    {
        let dram = pf.get_cpu().get_dram();
        assert_eq!(dram[0], 0x4A11);
        assert_eq!(dram[1], 97);
        assert_eq!(dram[2], 0x600D);
        assert_eq!(dram[96], 7);
    }
    assert_eq!(pf.run(FUEL), RunOutcome::Halted);
    assert_eq!(pf.get_cpu().get_or(), 7);
}

#[test]
fn add_wraps_and_sets_overflow() {
    let mut pf = assemble("imovel acc 0xFFFFFFFF\nadd 1\n");
    assert_eq!(pf.run(FUEL), RunOutcome::Halted);
    assert_eq!(pf.get_cpu().get_acc(), 0);
    let (zero, _, _, _, ov) = pf.get_cpu().get_flags();
    assert!(zero);
    assert!(ov);
}

#[test]
fn compare_sets_exactly_one_ordering_flag() {
    let mut cpu = Cpu::new();
    cpu.add_to_end(&Instruction::IMoveL(ACC, 5));
    cpu.add_to_end(&Instruction::IMoveL(OR, 9));
    cpu.add_to_end(&Instruction::Cmp(ACC, OR));
    cpu.add_to_end(&Instruction::ICmp(ACC, 5));
    assert!(cpu.execute_cycles(3).is_ok());
    let (_, lt, gt, eq, _) = cpu.get_flags();
    assert!(lt && !gt && !eq);
    assert!(cpu.execute_cycles(1).is_ok());
    let (_, lt, gt, eq, _) = cpu.get_flags();
    assert!(!lt && !gt && eq);
}

#[test]
fn binary_roundtrip_preserves_dram() {
    let mut cpu = Cpu::new();
    cpu.add_to_end(&Instruction::IMoveL(CR, 123_456_789));
    cpu.add_to_end(&Instruction::Shl(CR, 3));
    cpu.add_to_end(&Instruction::Dump);
    let bytes = cpu.dram_bytes();
    assert_eq!(bytes.len(), 512);
    let reloaded = Cpu::from_binary(&bytes);
    assert_eq!(reloaded.get_dram(), cpu.get_dram());
}

#[test]
fn truncated_binary_drops_partial_word() {
    let mut bytes = vec![0x0A, 0x00, 0x05, 0x00];
    bytes.push(0xFF);
    bytes.push(0xFF);
    let cpu = Cpu::from_binary(&bytes);
    assert_eq!(cpu.get_dram()[0], 0x0005_000A);
    assert_eq!(cpu.get_dram()[1], 0);
}

#[test]
fn encode_decode_all_shapes() {
    let samples = vec![
        Instruction::MoveR(ACC, OR),
        Instruction::IMoveL(CR, 0xDEAD_BEEF),
        Instruction::MoveA(300, TR),
        Instruction::Cmp(SP, ACC),
        Instruction::ICmp(ACC, 512),
        Instruction::ICmpL(OR, 70_000),
        Instruction::JE(3),
        Instruction::JMP(700),
        Instruction::JGT(1),
        Instruction::JLT(2),
        Instruction::JZ(4),
        Instruction::JOV(5),
        Instruction::Lea(96),
        Instruction::LeaR(ACC),
        Instruction::IAdd(200),
        Instruction::Add(ACC, CR),
        Instruction::IAddL(1 << 20),
        Instruction::ISub(9),
        Instruction::Sub(OR, TR),
        Instruction::IPush(65535),
        Instruction::Push(SP),
        Instruction::IPushL(1),
        Instruction::Pop,
        Instruction::Dump,
        Instruction::DumpR(CR),
        Instruction::Shl(ACC, 31),
        Instruction::Shr(CR, 32),
    ];
    for inst in samples {
        let words = inst.to_instruction_data();
        assert!(words.len() == 1 || words.len() == 2);
        let mut cpu = Cpu::new();
        cpu.add_instruction(words[0], 0);
        if words.len() == 2 {
            cpu.add_instruction(words[1], 1);
        }
        assert_eq!(cpu.fetch(), Ok(inst));
    }
}

#[test]
fn decode_zero_word_is_unknown() {
    let mut cpu = Cpu::new();
    assert_eq!(cpu.fetch(), Ok(Instruction::Unknown));
    assert_eq!(Cpu::decode_inst(0x00), Instruction::Unknown);
    assert_eq!(Cpu::decode_inst(0x0A), Instruction::IAdd(0));
    assert_eq!(Cpu::decode_inst(0x08), Instruction::JMP(0));
}

#[test]
fn from_code_line_mnemonics() {
    let parse = |toks: Vec<Vec<u8>>, added: u32| Instruction::from_code_line(&toks, added);
    assert_eq!(parse(vec![tok("add"), tok("5")], 0), Some(Instruction::IAdd(5)));
    assert_eq!(
        parse(vec![tok("ADD"), tok("acc"), tok("or")], 0),
        Some(Instruction::Add(ACC, OR))
    );
    assert_eq!(parse(vec![tok("sub"), tok("9")], 0), Some(Instruction::ISub(9)));
    assert_eq!(parse(vec![tok("dump")], 0), Some(Instruction::Dump));
    assert_eq!(parse(vec![tok("dump"), tok("cr")], 0), Some(Instruction::DumpR(CR)));
    assert_eq!(
        parse(vec![tok("move"), tok("tr"), tok("sp")], 0),
        Some(Instruction::MoveR(TR, SP))
    );
    assert_eq!(
        parse(vec![tok("imovel"), tok("acc"), tok("0xFF")], 0),
        Some(Instruction::IMoveL(ACC, 255))
    );
    assert_eq!(parse(vec![tok("push"), tok("211")], 0), Some(Instruction::IPush(211)));
    assert_eq!(parse(vec![tok("push"), tok("acc")], 0), Some(Instruction::Push(ACC)));
    assert_eq!(parse(vec![tok("push"), tok("70000")], 0), None);
    assert_eq!(parse(vec![tok("pop")], 0), Some(Instruction::Pop));
    assert_eq!(parse(vec![tok("jmp"), tok("5")], 0), Some(Instruction::JMP(4)));
    assert_eq!(parse(vec![tok("jmp"), tok("5")], 2), Some(Instruction::JMP(6)));
    assert_eq!(parse(vec![tok("je"), tok("1")], 0), Some(Instruction::JE(0)));
    assert_eq!(parse(vec![tok("jz"), tok("0")], 0), None);
    assert_eq!(
        parse(vec![tok("icmp"), tok("acc"), tok("512")], 0),
        Some(Instruction::ICmp(ACC, 512))
    );
    assert_eq!(
        parse(vec![tok("icmpl"), tok("acc"), tok("70000")], 0),
        Some(Instruction::ICmpL(ACC, 70000))
    );
    assert_eq!(parse(vec![tok("lea"), tok("96")], 0), Some(Instruction::Lea(96)));
    assert_eq!(parse(vec![tok("lear"), tok("or")], 0), Some(Instruction::LeaR(OR)));
    assert_eq!(
        parse(vec![tok("movea"), tok("96"), tok("acc")], 0),
        Some(Instruction::MoveA(96, ACC))
    );
    assert_eq!(
        parse(vec![tok("shl"), tok("acc"), tok("3")], 0),
        Some(Instruction::Shl(ACC, 3))
    );
    assert_eq!(
        parse(vec![tok("shr"), tok("cr"), tok("1")], 0),
        Some(Instruction::Shr(CR, 1))
    );
    assert_eq!(parse(vec![tok("bogus"), tok("1")], 0), None);
    assert_eq!(parse(vec![], 0), None);
}

#[test]
fn change_jump_and_lea_operands() {
    let mut j = Instruction::JMP(999);
    j.change_jump_line(7);
    assert_eq!(j, Instruction::JMP(7));
    let mut l = Instruction::Lea(0);
    l.change_lea(96);
    assert_eq!(l, Instruction::Lea(96));
}

#[test]
fn label_and_precompile_classifiers() {
    assert!(is_label(&tok(":start:")));
    assert!(is_label(&tok(":")));
    assert!(!is_label(&tok("start")));
    assert!(!is_label(&tok(":start")));
    let jump = is_precompile_label_inst(&tok("jmp"), &tok(":start:"));
    assert_eq!(jump, Some((Instruction::JMP(999), tok(":start:"))));
    assert_eq!(is_precompile_label_inst(&tok("add"), &tok(":start:")), None);
    assert_eq!(is_precompile_label_inst(&tok("lea"), &tok(":x:")), None);
}

#[test]
fn compile_errors_name_the_line() {
    let mut pf = ProgramFile::new(tok("add 1\nbogus line\n"));
    assert_eq!(pf.compile(), Err(AsmError::Parse(2)));
    let mut pf = ProgramFile::new(tok("x =\n"));
    assert_eq!(pf.compile(), Err(AsmError::BadVariableValue(1)));
    let mut pf = ProgramFile::new(tok("y = notanumber\n"));
    assert_eq!(pf.compile(), Err(AsmError::BadVariableValue(1)));
    let mut pf = ProgramFile::new(tok("jmp :nowhere:\n"));
    assert_eq!(pf.compile(), Err(AsmError::UnknownLabel));
    let mut pf = ProgramFile::new(tok("lea :nowhere:\n"));
    assert_eq!(pf.compile(), Err(AsmError::UnknownVariable));
    let mut pf = ProgramFile::new(tok("; only a comment\n\n   \n"));
    assert_eq!(pf.compile(), Ok(()));
}

#[test]
fn too_many_variables_is_refused() {
    let mut src = String::new();
    for i in 0..33 {
        src.push_str(&format!("v{} = {}\n", i, i));
    }
    let mut pf = ProgramFile::new(tok(&src));
    assert_eq!(pf.compile(), Err(AsmError::TooManyVariables(33)));
}

#[test]
fn append_skips_occupied_cells_and_fails_silently_when_full() {
    let mut cpu = Cpu::new();
    for _ in 0..130 {
        cpu.add_to_end(&Instruction::IAdd(1));
    }
    for i in 0..128 {
        assert_eq!(cpu.get_dram()[i], 0x0001_000A);
    }
    cpu.add_to_end(&Instruction::Dump);
    for i in 0..128 {
        assert_eq!(cpu.get_dram()[i], 0x0001_000A);
    }
}

#[test]
fn zero_immediate_word_is_reused_by_append() {
    let mut cpu = Cpu::new();
    cpu.add_to_end(&Instruction::IMoveL(ACC, 0));
    cpu.add_to_end(&Instruction::IAdd(1));
    assert_eq!(cpu.get_dram()[0], 0x0A11);
    assert_eq!(cpu.get_dram()[1], 0x0001_000A);
}

#[test]
fn out_of_range_pop_faults() {
    let mut cpu = Cpu::new();
    // IMoveL(SP, 0) encodes a zero immediate word, which the appender
    // would mistake for an empty cell, so the words are placed by hand.
    let move_words = Instruction::IMoveL(SP, 0).to_instruction_data();
    cpu.add_instruction(move_words[0], 0);
    cpu.add_instruction(move_words[1], 1);
    cpu.add_instruction(Instruction::Pop.to_instruction_data()[0], 2);
    assert_eq!(cpu.execute_cycles(2), Err(CpuError::DramOutOfRange));
}

#[test]
fn bad_register_byte_faults() {
    let mut cpu = Cpu::new();
    // an Add word whose operand bytes name no register
    cpu.add_instruction(0x0001_012A, 0);
    assert_eq!(cpu.execute_cycles(1), Err(CpuError::BadRegister));
}

#[test]
fn text_helpers() {
    assert_eq!(mask_bit_group(0x1234_5678, 0), 0x78);
    assert_eq!(mask_bit_group(0x1234_5678, 1), 0x56);
    assert_eq!(mask_bit_group(0x1234_5678, 2), 0x34);
    assert_eq!(mask_bit_group(0x1234_5678, 3), 0x12);

    assert_eq!(parse_u32(&tok("4294967295")), Some(u32::MAX));
    assert_eq!(parse_u32(&tok("4294967296")), None);
    assert_eq!(parse_u32(&tok("0x10")), Some(16));
    assert_eq!(parse_u32(&tok("0xFFFFFFFF")), Some(u32::MAX));
    assert_eq!(parse_u32(&tok("")), None);
    assert_eq!(parse_u32(&tok("12a")), None);

    assert_eq!(
        line_tokens(&tok("  add 5 ; trailing comment")),
        vec![tok("add"), tok("5")]
    );
    assert_eq!(line_tokens(&tok("add;5 6")), Vec::<Vec<u8>>::new());
    assert_eq!(line_tokens(&tok("   ")), Vec::<Vec<u8>>::new());

    assert_eq!(split_lines(&tok("a\nbb\n")), vec![tok("a"), tok("bb")]);
    assert_eq!(split_lines(&tok("a\n\nb")), vec![tok("a"), tok(""), tok("b")]);

    assert_eq!(cr_cpu::constants::get_id_from_reg_name(&tok("ACC")), Some(ACC));
    assert_eq!(cr_cpu::constants::get_id_from_reg_name(&tok("acc")), Some(ACC));
    assert_eq!(cr_cpu::constants::get_id_from_reg_name(&tok("Tr")), Some(TR));
    assert_eq!(cr_cpu::constants::get_id_from_reg_name(&tok("xyz")), None);
}

#[test]
fn variable_cells_and_register_file() {
    let mut cpu = Cpu::default();
    assert_eq!(cpu.get_sp(), 96);
    assert_eq!(cpu.push_variable(7), 96);
    assert_eq!(cpu.push_variable(9), 97);
    assert_eq!(cpu.get_sp(), 98);
    assert_eq!(cpu.get_dram()[96], 7);
    assert_eq!(cpu.get_dram()[97], 9);
    cpu.reset_sp();
    assert_eq!(cpu.get_sp(), 96);

    assert!(cr_cpu::cpu::is_reg_id(ACC));
    assert!(!cr_cpu::cpu::is_reg_id(0));
    assert_eq!(cpu.get_reg(SP), 96);
    assert_eq!(cpu.get_reg(ACC), 0);

    assert_eq!(
        cr_cpu::constants::get_name_from_reg_id(ACC),
        Some("ACC".to_string())
    );
    assert_eq!(cr_cpu::constants::get_name_from_reg_id(0), None);

    assert_eq!(Instruction::IMoveL(ACC, 1).word_count(), 2);
    assert_eq!(Instruction::Pop.word_count(), 1);
}

#[test]
fn read_binary_replaces_machine() {
    let mut pf = assemble("add 3\n");
    let bytes = pf.output_binary();
    let mut other = ProgramFile::new(tok(""));
    other.read_binary(&bytes);
    assert_eq!(other.run_binary(FUEL), RunOutcome::Halted);
    assert_eq!(other.get_cpu().get_acc(), 3);
    let fresh = ProgramFile::new_from_binary(&bytes);
    assert_eq!(fresh.get_cpu().get_dram()[0], 0x0003_000A);
}
