//! The instruction codec: the abstract instruction type, its one- or
//! two-word 32-bit encoding, and the parser that reads one tokenized source
//! line as an instruction.
//!
//! Word 0 of an encoding holds the opcode in its least significant byte
//! (group 0); groups 1 to 3 carry operands. The immediate-long variants
//! place their 32-bit literal in word 1.

use vstd::prelude::*;
use crate::constants::{
    MOVER, IMOVEL, CMP, ICMP, ICMPL, JE, JGT, JLT, JZ, JOV, JMP, IADD, ADD, IADDL, ISUB, SUB,
    IPUSH, PUSH, IPUSHL, POP, LEA, MOVEA, LEAR, SHL, SHR, DUMP, DUMPR, spec_reg_id_of_name,
    get_id_from_reg_name,
};
use crate::parse::{
    spec_parse_u8, spec_parse_u16, spec_parse_u32, parse_u8, parse_u16, parse_u32, spec_lower,
    lower_token,
};
use crate::spec_mask_bit_group;

verus! {

/// One instruction of the ISA, in mnemonic form.
#[derive(Clone, Copy, Debug, PartialEq, Eq, Structural)]
pub enum Instruction {
    /// Copy register 1 into register 0; register 1 keeps its value
    MoveR(u8, u8),
    /// Move the 32-bit literal into the register
    IMoveL(u8, u32),
    /// Move a register into a DRAM address
    MoveA(u16, u8),
    /// Compare register 0 with register 1, setting the ordering flags
    Cmp(u8, u8),
    /// Compare a register with a 16-bit immediate
    ICmp(u8, u16),
    /// Compare a register with a 32-bit immediate
    ICmpL(u8, u32),
    /// Jump when the equal flag is set
    JE(u16),
    /// Unconditional jump
    JMP(u16),
    /// Jump when the greater-than flag is set
    JGT(u16),
    /// Jump when the less-than flag is set
    JLT(u16),
    /// Jump when the zero flag is set
    JZ(u16),
    /// Jump when the overflow flag is set
    JOV(u16),
    /// Load the DRAM cell at the address into the output register
    Lea(u16),
    /// Load the DRAM cell a register points at into the output register
    LeaR(u8),
    /// Add an 8-bit immediate into the accumulator
    IAdd(u8),
    /// Add register 1 into register 0
    Add(u8, u8),
    /// Add a 32-bit immediate into the accumulator
    IAddL(u32),
    /// Subtract an 8-bit immediate from the accumulator
    ISub(u8),
    /// Subtract register 1 from register 0
    Sub(u8, u8),
    /// Push a 16-bit immediate onto the stack
    IPush(u16),
    /// Push a register onto the stack
    Push(u8),
    /// Push a 32-bit immediate onto the stack
    IPushL(u32),
    /// Pop the top of the stack into the output register, zeroing the cell
    Pop,
    /// Emit the full CPU state on the observation channel
    Dump,
    /// Emit one register on the observation channel
    DumpR(u8),
    /// Shift a register left by an immediate count
    Shl(u8, u8),
    /// Shift a register right by an immediate count
    Shr(u8, u8),
    /// Any word that decodes as no instruction
    Unknown,
}

/// The 1- or 2-word encoding of an instruction.
pub open spec fn spec_encode(i: Instruction) -> Seq<u32> {
    match i {
        Instruction::IAdd(n) => seq![(IADD as u32) | ((n as u32) << 16)],
        Instruction::ISub(n) => seq![(ISUB as u32) | ((n as u32) << 16)],
        Instruction::Unknown => seq![0u32],
        Instruction::Dump => seq![DUMP as u32],
        Instruction::IPush(v) => seq![(IPUSH as u32) | ((v as u32) << 8)],
        Instruction::Pop => seq![POP as u32],
        Instruction::IAddL(n) => seq![IADDL as u32, n],
        Instruction::Add(r0, r1) => seq![(ADD as u32) | ((r0 as u32) << 8) | ((r1 as u32) << 16)],
        Instruction::MoveR(r0, r1) => seq![
            (MOVER as u32) | ((r0 as u32) << 8) | ((r1 as u32) << 16),
        ],
        Instruction::Cmp(r0, r1) => seq![(CMP as u32) | ((r0 as u32) << 8) | ((r1 as u32) << 16)],
        Instruction::JE(pc) => seq![(JE as u32) | ((pc as u32) << 8)],
        Instruction::JGT(pc) => seq![(JGT as u32) | ((pc as u32) << 8)],
        Instruction::JLT(pc) => seq![(JLT as u32) | ((pc as u32) << 8)],
        Instruction::JZ(pc) => seq![(JZ as u32) | ((pc as u32) << 8)],
        Instruction::JOV(pc) => seq![(JOV as u32) | ((pc as u32) << 8)],
        Instruction::JMP(pc) => seq![(JMP as u32) | ((pc as u32) << 8)],
        Instruction::IMoveL(r, n) => seq![(IMOVEL as u32) | ((r as u32) << 8), n],
        Instruction::Sub(r0, r1) => seq![(SUB as u32) | ((r0 as u32) << 8) | ((r1 as u32) << 16)],
        Instruction::ICmp(r, v) => seq![(ICMP as u32) | ((r as u32) << 8) | ((v as u32) << 16)],
        Instruction::ICmpL(r, v) => seq![(ICMPL as u32) | ((r as u32) << 8), v],
        Instruction::IPushL(v) => seq![IPUSHL as u32, v],
        Instruction::Push(r) => seq![(PUSH as u32) | ((r as u32) << 8)],
        Instruction::DumpR(r) => seq![(DUMPR as u32) | ((r as u32) << 8)],
        Instruction::Lea(a) => seq![(LEA as u32) | ((a as u32) << 8)],
        Instruction::MoveA(a, r) => seq![(MOVEA as u32) | ((a as u32) << 8) | ((r as u32) << 24)],
        Instruction::LeaR(r) => seq![(LEAR as u32) | ((r as u32) << 8)],
        Instruction::Shl(r, k) => seq![(SHL as u32) | ((r as u32) << 8) | ((k as u32) << 16)],
        Instruction::Shr(r, k) => seq![(SHR as u32) | ((r as u32) << 8) | ((k as u32) << 16)],
    }
}

/// True for the variants whose 32-bit literal lives in a second word.
pub open spec fn spec_is_long(i: Instruction) -> bool {
    i is IMoveL || i is IAddL || i is ICmpL || i is IPushL
}

/// How the CPU reads a fetched word back as an instruction: the opcode is
/// byte group 0 of word 0; a long variant takes its literal from `w1`, the
/// word fetched after it.
pub open spec fn spec_decode(w0: u32, w1: u32) -> Instruction {
    let op = spec_mask_bit_group(w0, 0);
    let g1 = spec_mask_bit_group(w0, 1);
    let g2 = spec_mask_bit_group(w0, 2);
    let g3 = spec_mask_bit_group(w0, 3);
    let v16 = (g1 as u16) | ((g2 as u16) << 8);
    if op == IADD {
        Instruction::IAdd(g2)
    } else if op == ADD {
        Instruction::Add(g1, g2)
    } else if op == ISUB {
        Instruction::ISub(g2)
    } else if op == DUMP {
        Instruction::Dump
    } else if op == IPUSH {
        Instruction::IPush(v16)
    } else if op == POP {
        Instruction::Pop
    } else if op == IADDL {
        Instruction::IAddL(w1)
    } else if op == MOVER {
        Instruction::MoveR(g1, g2)
    } else if op == IMOVEL {
        Instruction::IMoveL(g1, w1)
    } else if op == CMP {
        Instruction::Cmp(g1, g2)
    } else if op == JE {
        Instruction::JE(v16)
    } else if op == JGT {
        Instruction::JGT(v16)
    } else if op == JLT {
        Instruction::JLT(v16)
    } else if op == JZ {
        Instruction::JZ(v16)
    } else if op == JOV {
        Instruction::JOV(v16)
    } else if op == JMP {
        Instruction::JMP(v16)
    } else if op == SUB {
        Instruction::Sub(g1, g2)
    } else if op == ICMP {
        Instruction::ICmp(g1, (g2 as u16) | ((g3 as u16) << 8))
    } else if op == ICMPL {
        Instruction::ICmpL(g1, w1)
    } else if op == IPUSHL {
        Instruction::IPushL(w1)
    } else if op == PUSH {
        Instruction::Push(g1)
    } else if op == DUMPR {
        Instruction::DumpR(g1)
    } else if op == LEA {
        Instruction::Lea(v16)
    } else if op == MOVEA {
        Instruction::MoveA(v16, g3)
    } else if op == LEAR {
        Instruction::LeaR(g1)
    } else if op == SHL {
        Instruction::Shl(g1, g2)
    } else if op == SHR {
        Instruction::Shr(g1, g2)
    } else {
        Instruction::Unknown
    }
}

proof fn lemma_groups_op(op: u8)
    by (bit_vector)
    ensures
        spec_mask_bit_group(op as u32, 0) == op,
        spec_mask_bit_group(op as u32, 1) == 0,
        spec_mask_bit_group(op as u32, 2) == 0,
        spec_mask_bit_group(op as u32, 3) == 0,
{
}

proof fn lemma_groups_reg(op: u8, a: u8)
    by (bit_vector)
    ensures
        spec_mask_bit_group((op as u32) | ((a as u32) << 8), 0) == op,
        spec_mask_bit_group((op as u32) | ((a as u32) << 8), 1) == a,
        spec_mask_bit_group((op as u32) | ((a as u32) << 8), 2) == 0,
        spec_mask_bit_group((op as u32) | ((a as u32) << 8), 3) == 0,
{
}

proof fn lemma_groups_two_reg(op: u8, a: u8, b: u8)
    by (bit_vector)
    ensures
        spec_mask_bit_group((op as u32) | ((a as u32) << 8) | ((b as u32) << 16), 0) == op,
        spec_mask_bit_group((op as u32) | ((a as u32) << 8) | ((b as u32) << 16), 1) == a,
        spec_mask_bit_group((op as u32) | ((a as u32) << 8) | ((b as u32) << 16), 2) == b,
        spec_mask_bit_group((op as u32) | ((a as u32) << 8) | ((b as u32) << 16), 3) == 0,
{
}

proof fn lemma_groups_imm8(op: u8, n: u8)
    by (bit_vector)
    ensures
        spec_mask_bit_group((op as u32) | ((n as u32) << 16), 0) == op,
        spec_mask_bit_group((op as u32) | ((n as u32) << 16), 1) == 0,
        spec_mask_bit_group((op as u32) | ((n as u32) << 16), 2) == n,
        spec_mask_bit_group((op as u32) | ((n as u32) << 16), 3) == 0,
{
}

proof fn lemma_groups_imm16(op: u8, v: u16)
    by (bit_vector)
    ensures
        spec_mask_bit_group((op as u32) | ((v as u32) << 8), 0) == op,
        ((spec_mask_bit_group((op as u32) | ((v as u32) << 8), 1) as u16) | ((spec_mask_bit_group(
            (op as u32) | ((v as u32) << 8),
            2,
        ) as u16) << 8)) == v,
        spec_mask_bit_group((op as u32) | ((v as u32) << 8), 3) == 0,
{
}

proof fn lemma_groups_reg_imm16(op: u8, r: u8, v: u16)
    by (bit_vector)
    ensures
        spec_mask_bit_group((op as u32) | ((r as u32) << 8) | ((v as u32) << 16), 0) == op,
        spec_mask_bit_group((op as u32) | ((r as u32) << 8) | ((v as u32) << 16), 1) == r,
        ((spec_mask_bit_group((op as u32) | ((r as u32) << 8) | ((v as u32) << 16), 2) as u16) | ((
        spec_mask_bit_group((op as u32) | ((r as u32) << 8) | ((v as u32) << 16), 3) as u16)
            << 8)) == v,
{
}

proof fn lemma_groups_imm16_reg(op: u8, v: u16, r: u8)
    by (bit_vector)
    ensures
        spec_mask_bit_group((op as u32) | ((v as u32) << 8) | ((r as u32) << 24), 0) == op,
        ((spec_mask_bit_group((op as u32) | ((v as u32) << 8) | ((r as u32) << 24), 1) as u16) | ((
        spec_mask_bit_group((op as u32) | ((v as u32) << 8) | ((r as u32) << 24), 2) as u16)
            << 8)) == v,
        spec_mask_bit_group((op as u32) | ((v as u32) << 8) | ((r as u32) << 24), 3) == r,
{
}

/// Decoding is a left inverse of encoding: every instruction read back from
/// its own words is itself. A one-word instruction decodes correctly
/// whatever word follows it.
pub proof fn lemma_encode_decode(i: Instruction, w1: u32)
    ensures
        1 <= spec_encode(i).len() <= 2,
        spec_encode(i).len() == 2 <==> spec_is_long(i),
        spec_encode(i).len() == 1 ==> spec_decode(spec_encode(i)[0], w1) == i,
        spec_encode(i).len() == 2 ==> spec_decode(spec_encode(i)[0], spec_encode(i)[1]) == i,
{
    match i {
        Instruction::IAdd(n) => lemma_groups_imm8(IADD, n),
        Instruction::ISub(n) => lemma_groups_imm8(ISUB, n),
        Instruction::Unknown => lemma_groups_op(0),
        Instruction::Dump => lemma_groups_op(DUMP),
        Instruction::IPush(v) => lemma_groups_imm16(IPUSH, v),
        Instruction::Pop => lemma_groups_op(POP),
        Instruction::IAddL(n) => lemma_groups_op(IADDL),
        Instruction::Add(r0, r1) => lemma_groups_two_reg(ADD, r0, r1),
        Instruction::MoveR(r0, r1) => lemma_groups_two_reg(MOVER, r0, r1),
        Instruction::Cmp(r0, r1) => lemma_groups_two_reg(CMP, r0, r1),
        Instruction::JE(pc) => lemma_groups_imm16(JE, pc),
        Instruction::JGT(pc) => lemma_groups_imm16(JGT, pc),
        Instruction::JLT(pc) => lemma_groups_imm16(JLT, pc),
        Instruction::JZ(pc) => lemma_groups_imm16(JZ, pc),
        Instruction::JOV(pc) => lemma_groups_imm16(JOV, pc),
        Instruction::JMP(pc) => lemma_groups_imm16(JMP, pc),
        Instruction::IMoveL(r, n) => lemma_groups_reg(IMOVEL, r),
        Instruction::Sub(r0, r1) => lemma_groups_two_reg(SUB, r0, r1),
        Instruction::ICmp(r, v) => lemma_groups_reg_imm16(ICMP, r, v),
        Instruction::ICmpL(r, v) => lemma_groups_reg(ICMPL, r),
        Instruction::IPushL(v) => lemma_groups_op(IPUSHL),
        Instruction::Push(r) => lemma_groups_reg(PUSH, r),
        Instruction::DumpR(r) => lemma_groups_reg(DUMPR, r),
        Instruction::Lea(a) => lemma_groups_imm16(LEA, a),
        Instruction::MoveA(a, r) => lemma_groups_imm16_reg(MOVEA, a, r),
        Instruction::LeaR(r) => lemma_groups_reg(LEAR, r),
        Instruction::Shl(r, k) => lemma_groups_two_reg(SHL, r, k),
        Instruction::Shr(r, k) => lemma_groups_two_reg(SHR, r, k),
    }
}

/// The target a numeric jump operand resolves to: the 1-based source line
/// number plus the extra cells consumed by earlier multi-word instructions,
/// minus one, truncated to 16 bits. A combined value of zero has no target.
pub open spec fn spec_jump_target(n: u32, added: u32) -> Option<u16> {
    if n + added == 0 {
        None
    } else {
        Some((((n + added - 1) as u64 & 0xFFFF) as u16))
    }
}

/// Parse of a numeric jump operand token.
pub open spec fn spec_jump_target_tok(t: Seq<u8>, added: u32) -> Option<u16> {
    match spec_parse_u32(t) {
        Some(n) => spec_jump_target(n, added),
        None => None,
    }
}

fn jump_target(t: &Vec<u8>, added: u32) -> (r: Option<u16>)
    ensures
        r == spec_jump_target_tok(t@, added),
{
    match parse_u32(t) {
        Some(n) => {
            let total: u64 = n as u64 + added as u64;
            if total == 0 {
                None
            } else {
                Some(((total - 1) & 0xFFFF) as u16)
            }
        },
        None => None,
    }
}

/// What one tokenized source line parses to, if anything. The statement
/// grammar: a mnemonic token (in any letter case) followed by its operands,
/// where a register operand is a register name and an immediate operand is
/// a decimal or `0x`-prefixed hexadecimal literal.
///
/// Overloaded mnemonics break ties as the assembler expects: `add`/`sub`
/// with one operand take an 8-bit immediate and with two take registers;
/// `push` prefers a 16-bit immediate over a register; `dump` alone dumps
/// everything, `dump R` one register.
pub open spec fn spec_parse_line(toks: Seq<Seq<u8>>, added: u32) -> Option<Instruction> {
    if toks.len() == 0 {
        None
    } else {
        let m = toks[0].map_values(|b: u8| spec_lower(b));
        let n = toks.len();
        if m == seq![97u8, 100u8, 100u8] {  // add
            if n == 2 {
                match spec_parse_u8(toks[1]) {
                    Some(v) => Some(Instruction::IAdd(v)),
                    None => None,
                }
            } else if n == 3 {
                match (spec_reg_id_of_name(toks[1]), spec_reg_id_of_name(toks[2])) {
                    (Some(a), Some(b)) => Some(Instruction::Add(a, b)),
                    _ => None,
                }
            } else {
                None
            }
        } else if m == seq![100u8, 117u8, 109u8, 112u8] {  // dump
            if n == 1 {
                Some(Instruction::Dump)
            } else if n == 2 {
                match spec_reg_id_of_name(toks[1]) {
                    Some(a) => Some(Instruction::DumpR(a)),
                    None => None,
                }
            } else {
                None
            }
        } else if m == seq![109u8, 111u8, 118u8, 101u8] {  // move
            if n == 3 {
                match (spec_reg_id_of_name(toks[1]), spec_reg_id_of_name(toks[2])) {
                    (Some(a), Some(b)) => Some(Instruction::MoveR(a, b)),
                    _ => None,
                }
            } else {
                None
            }
        } else if m == seq![105u8, 109u8, 111u8, 118u8, 101u8, 108u8] {  // imovel
            if n == 3 {
                match (spec_reg_id_of_name(toks[1]), spec_parse_u32(toks[2])) {
                    (Some(a), Some(v)) => Some(Instruction::IMoveL(a, v)),
                    _ => None,
                }
            } else {
                None
            }
        } else if m == seq![115u8, 117u8, 98u8] {  // sub
            if n == 3 {
                match (spec_reg_id_of_name(toks[1]), spec_reg_id_of_name(toks[2])) {
                    (Some(a), Some(b)) => Some(Instruction::Sub(a, b)),
                    _ => None,
                }
            } else if n == 2 {
                match spec_parse_u8(toks[1]) {
                    Some(v) => Some(Instruction::ISub(v)),
                    None => None,
                }
            } else {
                None
            }
        } else if m == seq![106u8, 111u8, 118u8] {  // jov
            if n == 2 {
                match spec_jump_target_tok(toks[1], added) {
                    Some(t) => Some(Instruction::JOV(t)),
                    None => None,
                }
            } else {
                None
            }
        } else if m == seq![106u8, 122u8] {  // jz
            if n == 2 {
                match spec_jump_target_tok(toks[1], added) {
                    Some(t) => Some(Instruction::JZ(t)),
                    None => None,
                }
            } else {
                None
            }
        } else if m == seq![106u8, 103u8, 116u8] {  // jgt
            if n == 2 {
                match spec_jump_target_tok(toks[1], added) {
                    Some(t) => Some(Instruction::JGT(t)),
                    None => None,
                }
            } else {
                None
            }
        } else if m == seq![106u8, 108u8, 116u8] {  // jlt
            if n == 2 {
                match spec_jump_target_tok(toks[1], added) {
                    Some(t) => Some(Instruction::JLT(t)),
                    None => None,
                }
            } else {
                None
            }
        } else if m == seq![106u8, 101u8] {  // je
            if n == 2 {
                match spec_jump_target_tok(toks[1], added) {
                    Some(t) => Some(Instruction::JE(t)),
                    None => None,
                }
            } else {
                None
            }
        } else if m == seq![106u8, 109u8, 112u8] {  // jmp
            if n == 2 {
                match spec_jump_target_tok(toks[1], added) {
                    Some(t) => Some(Instruction::JMP(t)),
                    None => None,
                }
            } else {
                None
            }
        } else if m == seq![99u8, 109u8, 112u8] {  // cmp
            if n == 3 {
                match (spec_reg_id_of_name(toks[1]), spec_reg_id_of_name(toks[2])) {
                    (Some(a), Some(b)) => Some(Instruction::Cmp(a, b)),
                    _ => None,
                }
            } else {
                None
            }
        } else if m == seq![105u8, 99u8, 109u8, 112u8] {  // icmp
            if n == 3 {
                match (spec_reg_id_of_name(toks[1]), spec_parse_u16(toks[2])) {
                    (Some(a), Some(v)) => Some(Instruction::ICmp(a, v)),
                    _ => None,
                }
            } else {
                None
            }
        } else if m == seq![105u8, 99u8, 109u8, 112u8, 108u8] {  // icmpl
            if n == 3 {
                match (spec_reg_id_of_name(toks[1]), spec_parse_u32(toks[2])) {
                    (Some(a), Some(v)) => Some(Instruction::ICmpL(a, v)),
                    _ => None,
                }
            } else {
                None
            }
        } else if m == seq![112u8, 117u8, 115u8, 104u8] {  // push
            if n == 2 {
                match spec_parse_u16(toks[1]) {
                    Some(v) => Some(Instruction::IPush(v)),
                    None => match spec_reg_id_of_name(toks[1]) {
                        Some(a) => Some(Instruction::Push(a)),
                        None => None,
                    },
                }
            } else {
                None
            }
        } else if m == seq![105u8, 112u8, 117u8, 115u8, 104u8, 108u8] {  // ipushl
            if n == 2 {
                match spec_parse_u32(toks[1]) {
                    Some(v) => Some(Instruction::IPushL(v)),
                    None => None,
                }
            } else {
                None
            }
        } else if m == seq![112u8, 111u8, 112u8] {  // pop
            if n == 1 {
                Some(Instruction::Pop)
            } else {
                None
            }
        } else if m == seq![108u8, 101u8, 97u8] {  // lea
            if n == 2 {
                match spec_parse_u16(toks[1]) {
                    Some(v) => Some(Instruction::Lea(v)),
                    None => None,
                }
            } else {
                None
            }
        } else if m == seq![109u8, 111u8, 118u8, 101u8, 97u8] {  // movea
            if n == 3 {
                match (spec_parse_u16(toks[1]), spec_reg_id_of_name(toks[2])) {
                    (Some(v), Some(a)) => Some(Instruction::MoveA(v, a)),
                    _ => None,
                }
            } else {
                None
            }
        } else if m == seq![108u8, 101u8, 97u8, 114u8] {  // lear
            if n == 2 {
                match spec_reg_id_of_name(toks[1]) {
                    Some(a) => Some(Instruction::LeaR(a)),
                    None => None,
                }
            } else {
                None
            }
        } else if m == seq![115u8, 104u8, 108u8] {  // shl
            if n == 3 {
                match (spec_reg_id_of_name(toks[1]), spec_parse_u8(toks[2])) {
                    (Some(a), Some(k)) => Some(Instruction::Shl(a, k)),
                    _ => None,
                }
            } else {
                None
            }
        } else if m == seq![115u8, 104u8, 114u8] {  // shr
            if n == 3 {
                match (spec_reg_id_of_name(toks[1]), spec_parse_u8(toks[2])) {
                    (Some(a), Some(k)) => Some(Instruction::Shr(a, k)),
                    _ => None,
                }
            } else {
                None
            }
        } else {
            None
        }
    }
}

impl Instruction {
    /// Emit this instruction's memory words, 1 or 2 of them, exactly as
    /// [`spec_encode`] lays them out.
    pub fn to_instruction_data(&self) -> (r: Vec<u32>)
        ensures
            r@ == spec_encode(*self),
    {
        match self {
            Instruction::IAdd(number) => {
                let inst: u32 = IADD as u32 | (*number as u32) << 16;
                vec![inst]
            },
            Instruction::ISub(number) => {
                let inst: u32 = ISUB as u32 | (*number as u32) << 16;
                vec![inst]
            },
            Instruction::Unknown => vec![0x00],
            Instruction::Dump => vec![DUMP as u32],
            Instruction::IPush(number) => {
                let inst: u32 = IPUSH as u32 | ((*number as u32) << 8);
                vec![inst]
            },
            Instruction::Pop => {
                let inst: u32 = POP as u32;
                vec![inst]
            },
            Instruction::IAddL(number) => {
                let inst: u32 = IADDL as u32;
                vec![inst, *number]
            },
            Instruction::Add(reg0, reg1) => {
                let inst: u32 = ADD as u32 | (*reg0 as u32) << 8 | (*reg1 as u32) << 16;
                vec![inst]
            },
            Instruction::MoveR(reg0, reg1) => {
                let inst: u32 = MOVER as u32 | (*reg0 as u32) << 8 | (*reg1 as u32) << 16;
                vec![inst]
            },
            Instruction::Cmp(reg0, reg1) => {
                let inst: u32 = CMP as u32 | (*reg0 as u32) << 8 | (*reg1 as u32) << 16;
                vec![inst]
            },
            Instruction::JE(pc) => {
                let inst: u32 = JE as u32 | ((*pc as u32) << 8);
                vec![inst]
            },
            Instruction::JGT(pc) => {
                let inst: u32 = JGT as u32 | ((*pc as u32) << 8);
                vec![inst]
            },
            Instruction::JLT(pc) => {
                let inst: u32 = JLT as u32 | ((*pc as u32) << 8);
                vec![inst]
            },
            Instruction::JZ(pc) => {
                let inst: u32 = JZ as u32 | ((*pc as u32) << 8);
                vec![inst]
            },
            Instruction::IMoveL(register, number) => {
                let inst: u32 = IMOVEL as u32 | (*register as u32) << 8;
                vec![inst, *number]
            },
            Instruction::Sub(reg0, reg1) => {
                let inst: u32 = SUB as u32 | (*reg0 as u32) << 8 | (*reg1 as u32) << 16;
                vec![inst]
            },
            Instruction::JOV(pc) => {
                let inst: u32 = JOV as u32 | ((*pc as u32) << 8);
                vec![inst]
            },
            Instruction::JMP(pc) => {
                let inst: u32 = JMP as u32 | ((*pc as u32) << 8);
                vec![inst]
            },
            Instruction::ICmp(reg0, val) => {
                let inst: u32 = ICMP as u32 | (*reg0 as u32) << 8 | (*val as u32) << 16;
                vec![inst]
            },
            Instruction::ICmpL(reg0, val) => {
                let inst: u32 = ICMPL as u32 | (*reg0 as u32) << 8;
                vec![inst, *val]
            },
            Instruction::IPushL(number) => {
                let inst: u32 = IPUSHL as u32;
                vec![inst, *number]
            },
            Instruction::Push(reg0) => {
                let inst: u32 = PUSH as u32 | (*reg0 as u32) << 8;
                vec![inst]
            },
            Instruction::DumpR(reg0) => {
                let inst: u32 = DUMPR as u32 | (*reg0 as u32) << 8;
                vec![inst]
            },
            Instruction::Lea(pc) => {
                let inst: u32 = LEA as u32 | (*pc as u32) << 8;
                vec![inst]
            },
            Instruction::MoveA(v, a) => {
                let inst: u32 = MOVEA as u32 | (*v as u32) << 8 | (*a as u32) << 24;
                vec![inst]
            },
            Instruction::LeaR(reg0) => {
                let inst: u32 = LEAR as u32 | (*reg0 as u32) << 8;
                vec![inst]
            },
            Instruction::Shl(reg0, k) => {
                let inst: u32 = SHL as u32 | (*reg0 as u32) << 8 | (*k as u32) << 16;
                vec![inst]
            },
            Instruction::Shr(reg0, k) => {
                let inst: u32 = SHR as u32 | (*reg0 as u32) << 8 | (*k as u32) << 16;
                vec![inst]
            },
        }
    }

    /// Parse one tokenized source line, exactly as [`spec_parse_line`]
    /// reads it. `added_lines` is the number of extra DRAM cells earlier
    /// multi-word instructions and variable declarations consumed; numeric
    /// jump targets are shifted by it.
    pub fn from_code_line(line: &Vec<Vec<u8>>, added_lines: u32) -> (r: Option<Instruction>)
        ensures
            r == spec_parse_line(line@.map_values(|t: Vec<u8>| t@), added_lines),
    {
        let ghost tv = line@.map_values(|t: Vec<u8>| t@);
        let n = line.len();
        if n == 0 {
            return None;
        }
        let low = lower_token(&line[0]);
        proof {
            assert(tv[0] == line@[0]@);
        }
        let ghost m = tv[0].map_values(|b: u8| spec_lower(b));
        assert(low@ == m);
        let k = low.len();
        if k == 2 {
            let b0 = low[0];
            let b1 = low[1];
            proof {
                assert(m =~= seq![b0, b1]);
            }
            if b0 == 106 && b1 == 122 {  // jz
                if n == 2 {
                    match jump_target(&line[1], added_lines) {
                        Some(t) => Some(Instruction::JZ(t)),
                        None => None,
                    }
                } else {
                    None
                }
            } else if b0 == 106 && b1 == 101 {  // je
                if n == 2 {
                    match jump_target(&line[1], added_lines) {
                        Some(t) => Some(Instruction::JE(t)),
                        None => None,
                    }
                } else {
                    None
                }
            } else {
                None
            }
        } else if k == 3 {
            let b0 = low[0];
            let b1 = low[1];
            let b2 = low[2];
            proof {
                assert(m =~= seq![b0, b1, b2]);
            }
            if b0 == 97 && b1 == 100 && b2 == 100 {  // add
                if n == 2 {
                    match parse_u8(&line[1]) {
                        Some(v) => Some(Instruction::IAdd(v)),
                        None => None,
                    }
                } else if n == 3 {
                    match (get_id_from_reg_name(&line[1]), get_id_from_reg_name(&line[2])) {
                        (Some(a), Some(b)) => Some(Instruction::Add(a, b)),
                        _ => None,
                    }
                } else {
                    None
                }
            } else if b0 == 115 && b1 == 117 && b2 == 98 {  // sub
                if n == 3 {
                    match (get_id_from_reg_name(&line[1]), get_id_from_reg_name(&line[2])) {
                        (Some(a), Some(b)) => Some(Instruction::Sub(a, b)),
                        _ => None,
                    }
                } else if n == 2 {
                    match parse_u8(&line[1]) {
                        Some(v) => Some(Instruction::ISub(v)),
                        None => None,
                    }
                } else {
                    None
                }
            } else if b0 == 106 && b1 == 111 && b2 == 118 {  // jov
                if n == 2 {
                    match jump_target(&line[1], added_lines) {
                        Some(t) => Some(Instruction::JOV(t)),
                        None => None,
                    }
                } else {
                    None
                }
            } else if b0 == 106 && b1 == 103 && b2 == 116 {  // jgt
                if n == 2 {
                    match jump_target(&line[1], added_lines) {
                        Some(t) => Some(Instruction::JGT(t)),
                        None => None,
                    }
                } else {
                    None
                }
            } else if b0 == 106 && b1 == 108 && b2 == 116 {  // jlt
                if n == 2 {
                    match jump_target(&line[1], added_lines) {
                        Some(t) => Some(Instruction::JLT(t)),
                        None => None,
                    }
                } else {
                    None
                }
            } else if b0 == 106 && b1 == 109 && b2 == 112 {  // jmp
                if n == 2 {
                    match jump_target(&line[1], added_lines) {
                        Some(t) => Some(Instruction::JMP(t)),
                        None => None,
                    }
                } else {
                    None
                }
            } else if b0 == 99 && b1 == 109 && b2 == 112 {  // cmp
                if n == 3 {
                    match (get_id_from_reg_name(&line[1]), get_id_from_reg_name(&line[2])) {
                        (Some(a), Some(b)) => Some(Instruction::Cmp(a, b)),
                        _ => None,
                    }
                } else {
                    None
                }
            } else if b0 == 112 && b1 == 111 && b2 == 112 {  // pop
                if n == 1 {
                    Some(Instruction::Pop)
                } else {
                    None
                }
            } else if b0 == 108 && b1 == 101 && b2 == 97 {  // lea
                if n == 2 {
                    match parse_u16(&line[1]) {
                        Some(v) => Some(Instruction::Lea(v)),
                        None => None,
                    }
                } else {
                    None
                }
            } else if b0 == 115 && b1 == 104 && b2 == 108 {  // shl
                if n == 3 {
                    match (get_id_from_reg_name(&line[1]), parse_u8(&line[2])) {
                        (Some(a), Some(v)) => Some(Instruction::Shl(a, v)),
                        _ => None,
                    }
                } else {
                    None
                }
            } else if b0 == 115 && b1 == 104 && b2 == 114 {  // shr
                if n == 3 {
                    match (get_id_from_reg_name(&line[1]), parse_u8(&line[2])) {
                        (Some(a), Some(v)) => Some(Instruction::Shr(a, v)),
                        _ => None,
                    }
                } else {
                    None
                }
            } else {
                None
            }
        } else if k == 4 {
            let b0 = low[0];
            let b1 = low[1];
            let b2 = low[2];
            let b3 = low[3];
            proof {
                assert(m =~= seq![b0, b1, b2, b3]);
            }
            if b0 == 100 && b1 == 117 && b2 == 109 && b3 == 112 {  // dump
                if n == 1 {
                    Some(Instruction::Dump)
                } else if n == 2 {
                    match get_id_from_reg_name(&line[1]) {
                        Some(a) => Some(Instruction::DumpR(a)),
                        None => None,
                    }
                } else {
                    None
                }
            } else if b0 == 109 && b1 == 111 && b2 == 118 && b3 == 101 {  // move
                if n == 3 {
                    match (get_id_from_reg_name(&line[1]), get_id_from_reg_name(&line[2])) {
                        (Some(a), Some(b)) => Some(Instruction::MoveR(a, b)),
                        _ => None,
                    }
                } else {
                    None
                }
            } else if b0 == 105 && b1 == 99 && b2 == 109 && b3 == 112 {  // icmp
                if n == 3 {
                    match (get_id_from_reg_name(&line[1]), parse_u16(&line[2])) {
                        (Some(a), Some(v)) => Some(Instruction::ICmp(a, v)),
                        _ => None,
                    }
                } else {
                    None
                }
            } else if b0 == 112 && b1 == 117 && b2 == 115 && b3 == 104 {  // push
                if n == 2 {
                    match parse_u16(&line[1]) {
                        Some(v) => Some(Instruction::IPush(v)),
                        None => match get_id_from_reg_name(&line[1]) {
                            Some(a) => Some(Instruction::Push(a)),
                            None => None,
                        },
                    }
                } else {
                    None
                }
            } else if b0 == 108 && b1 == 101 && b2 == 97 && b3 == 114 {  // lear
                if n == 2 {
                    match get_id_from_reg_name(&line[1]) {
                        Some(a) => Some(Instruction::LeaR(a)),
                        None => None,
                    }
                } else {
                    None
                }
            } else {
                None
            }
        } else if k == 5 {
            let b0 = low[0];
            let b1 = low[1];
            let b2 = low[2];
            let b3 = low[3];
            let b4 = low[4];
            proof {
                assert(m =~= seq![b0, b1, b2, b3, b4]);
            }
            if b0 == 105 && b1 == 99 && b2 == 109 && b3 == 112 && b4 == 108 {  // icmpl
                if n == 3 {
                    match (get_id_from_reg_name(&line[1]), parse_u32(&line[2])) {
                        (Some(a), Some(v)) => Some(Instruction::ICmpL(a, v)),
                        _ => None,
                    }
                } else {
                    None
                }
            } else if b0 == 109 && b1 == 111 && b2 == 118 && b3 == 101 && b4 == 97 {  // movea
                if n == 3 {
                    match (parse_u16(&line[1]), get_id_from_reg_name(&line[2])) {
                        (Some(v), Some(a)) => Some(Instruction::MoveA(v, a)),
                        _ => None,
                    }
                } else {
                    None
                }
            } else {
                None
            }
        } else if k == 6 {
            let b0 = low[0];
            let b1 = low[1];
            let b2 = low[2];
            let b3 = low[3];
            let b4 = low[4];
            let b5 = low[5];
            proof {
                assert(m =~= seq![b0, b1, b2, b3, b4, b5]);
            }
            if b0 == 105 && b1 == 109 && b2 == 111 && b3 == 118 && b4 == 101 && b5 == 108 {
                // imovel
                if n == 3 {
                    match (get_id_from_reg_name(&line[1]), parse_u32(&line[2])) {
                        (Some(a), Some(v)) => Some(Instruction::IMoveL(a, v)),
                        _ => None,
                    }
                } else {
                    None
                }
            } else if b0 == 105 && b1 == 112 && b2 == 117 && b3 == 115 && b4 == 104 && b5 == 108 {
                // ipushl
                if n == 2 {
                    match parse_u32(&line[1]) {
                        Some(v) => Some(Instruction::IPushL(v)),
                        None => None,
                    }
                } else {
                    None
                }
            } else {
                None
            }
        } else {
            None
        }
    }

    /// The number of memory words this instruction occupies: 2 for the
    /// long immediate variants, 1 for everything else.
    pub fn word_count(&self) -> (r: usize)
        ensures
            r == spec_encode(*self).len(),
            1 <= r <= 2,
    {
        match self {
            Instruction::IMoveL(_, _) => 2,
            Instruction::IAddL(_) => 2,
            Instruction::ICmpL(_, _) => 2,
            Instruction::IPushL(_) => 2,
            _ => 1,
        }
    }

    /// Rewrite the target of any jump variant; the assembler's second pass
    /// uses this to bind a symbolic jump to its resolved program counter.
    pub fn change_jump_line(&mut self, pc: u16)
        requires
            (*old(self)) is JMP || (*old(self)) is JE || (*old(self)) is JGT || (*old(self))
                is JLT || (*old(self)) is JZ || (*old(self)) is JOV,
        ensures
            *final(self) == spec_with_jump_target(*old(self), pc),
    {
        match self {
            Instruction::JMP(line_num) => {
                *line_num = pc;
            },
            Instruction::JE(line_num) => {
                *line_num = pc;
            },
            Instruction::JGT(line_num) => {
                *line_num = pc;
            },
            Instruction::JLT(line_num) => {
                *line_num = pc;
            },
            Instruction::JZ(line_num) => {
                *line_num = pc;
            },
            Instruction::JOV(line_num) => {
                *line_num = pc;
            },
            _ => {
                proof {
                    assert(false);
                }
            },
        }
    }

    /// Rewrite the address operand of `Lea`; the assembler uses this to
    /// bind a symbolic address to a variable's cell.
    pub fn change_lea(&mut self, pc: u16)
        requires
            (*old(self)) is Lea,
        ensures
            *final(self) == Instruction::Lea(pc),
    {
        match self {
            Instruction::Lea(a) => {
                *a = pc;
            },
            _ => {
                proof {
                    assert(false);
                }
            },
        }
    }
}

/// The jump instruction with its target operand replaced.
pub open spec fn spec_with_jump_target(i: Instruction, pc: u16) -> Instruction {
    match i {
        Instruction::JMP(_) => Instruction::JMP(pc),
        Instruction::JE(_) => Instruction::JE(pc),
        Instruction::JGT(_) => Instruction::JGT(pc),
        Instruction::JLT(_) => Instruction::JLT(pc),
        Instruction::JZ(_) => Instruction::JZ(pc),
        Instruction::JOV(_) => Instruction::JOV(pc),
        _ => i,
    }
}

/// Word 0 of every instruction except `Unknown` is nonzero, since every
/// opcode byte is nonzero; the appender's zero-as-empty convention rests on
/// this.
pub proof fn lemma_encode_word0_nonzero(i: Instruction)
    ensures
        !(i is Unknown) ==> spec_encode(i)[0] != 0,
{
    if !(i is Unknown) {
        lemma_encode_decode(i, 0);
        if spec_encode(i)[0] == 0 {
            lemma_groups_op(0);
            assert(spec_mask_bit_group(0u8 as u32, 0) == 0);
            if spec_encode(i).len() == 1 {
                assert(spec_decode(spec_encode(i)[0], 0) == i);
            } else {
                assert(spec_decode(spec_encode(i)[0], spec_encode(i)[1]) == i);
            }
            assert(false);
        }
    }
}

} // verus!
