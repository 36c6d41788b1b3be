//! Opcode bytes, register identifiers, flag identifiers and memory layout
//! constants shared by the codec, the CPU and the assembler.
//!
//! Every opcode and every register identifier is a nonzero byte: a 32-bit
//! word that is entirely zero therefore never encodes a real instruction,
//! which lets the append algorithm treat zero cells as empty.

use vstd::prelude::*;

verus! {

/// Move register opcode
pub const MOVER: u8 = 0x01;
/// Immediate move long opcode
pub const IMOVEL: u8 = 0x11;

/// Compare register opcode
pub const CMP: u8 = 0x02;
/// Immediate mode compare opcode
pub const ICMP: u8 = 0xA2;
/// Immediate mode compare long number opcode
pub const ICMPL: u8 = 0xB2;

/// Jump equal to
pub const JE: u8 = 0x03;
/// Jump greater than
pub const JGT: u8 = 0x04;
/// Jump less than
pub const JLT: u8 = 0x05;
/// Jump zero
pub const JZ: u8 = 0x06;
/// Jump overflow
pub const JOV: u8 = 0x07;
/// Unconditional jump
pub const JMP: u8 = 0x08;

/// Immediate add opcode
pub const IADD: u8 = 0x0A;
/// Register-to-register add opcode
pub const ADD: u8 = 0x2A;
/// Immediate mode add long number opcode
pub const IADDL: u8 = 0x1A;

/// Immediate subtract opcode
pub const ISUB: u8 = 0x0B;
/// Register-to-register subtract opcode
pub const SUB: u8 = 0x1B;

/// Immediate push opcode
pub const IPUSH: u8 = 0x0C;
/// Register push opcode
pub const PUSH: u8 = 0x3C;
/// Immediate push long number opcode
pub const IPUSHL: u8 = 0x2C;

/// Pop opcode
pub const POP: u8 = 0x1C;

/// Load effective address opcode
pub const LEA: u8 = 0x0D;
/// Move register into a DRAM address opcode
pub const MOVEA: u8 = 0x1D;
/// Load effective address from a register opcode
pub const LEAR: u8 = 0x2D;
/// Shift left opcode
pub const SHL: u8 = 0x0E;
/// Shift right opcode
pub const SHR: u8 = 0x1E;

/// Dump full state opcode
pub const DUMP: u8 = 0xFF;
/// Dump one register opcode
pub const DUMPR: u8 = 0xEF;

/// Initial value of every register
pub const EMPTY_REGISTER: u32 = 0x00;
/// Number of 32-bit cells in DRAM
pub const DRAM_SIZE: u32 = 128;

/// Accumulator register identifier
pub const ACC: u8 = 0x0A;
/// Counting register identifier
pub const CR: u8 = 0x6A;
/// Program counter register identifier
pub const PC: u8 = 0x1A;
/// Instruction register identifier
pub const IR: u8 = 0x2A;
/// Output register identifier
pub const OR: u8 = 0x3A;
/// Stack pointer register identifier
pub const SP: u8 = 0x4A;
/// Temporary register identifier
pub const TR: u8 = 0x5A;

/// Zero flag identifier
pub const ZERO_FLAG: u8 = 0x1F;
/// Greater-than flag identifier
pub const GREATER_FLAG: u8 = 0x2F;
/// Less-than flag identifier
pub const LESS_FLAG: u8 = 0x3F;
/// Equal flag identifier
pub const EQUAL_FLAG: u8 = 0x4F;
/// Overflow flag identifier
pub const OV: u8 = 0x5F;

/// Uppercase an ASCII letter byte; other bytes are unchanged.
pub open spec fn spec_upper(b: u8) -> u8 {
    if 97 <= b && b <= 122 {
        (b - 32) as u8
    } else {
        b
    }
}

/// The register identifier a source token names, after uppercasing:
/// `ACC`, `PC`, `IR`, `OR`, `SP`, `TR` or `CR`.
pub open spec fn spec_reg_id_of_name(name: Seq<u8>) -> Option<u8> {
    let up = name.map_values(|b: u8| spec_upper(b));
    if up == seq![65u8, 67u8, 67u8] {  // ACC
        Some(ACC)
    } else if up == seq![80u8, 67u8] {  // PC
        Some(PC)
    } else if up == seq![73u8, 82u8] {  // IR
        Some(IR)
    } else if up == seq![79u8, 82u8] {  // OR
        Some(OR)
    } else if up == seq![83u8, 80u8] {  // SP
        Some(SP)
    } else if up == seq![84u8, 82u8] {  // TR
        Some(TR)
    } else if up == seq![67u8, 82u8] {  // CR
        Some(CR)
    } else {
        None
    }
}

/// Using an identifier, get the name of a register, used when rendering
/// the CPU's state for the observation channel.
pub fn get_name_from_reg_id(id: u8) -> (r: Option<String>)
    ensures
        id == ACC ==> r is Some && r->Some_0@ == "ACC"@,
        id == PC ==> r is Some && r->Some_0@ == "PC"@,
        id == IR ==> r is Some && r->Some_0@ == "IR"@,
        id == OR ==> r is Some && r->Some_0@ == "OR"@,
        id == SP ==> r is Some && r->Some_0@ == "SP"@,
        id == TR ==> r is Some && r->Some_0@ == "TR"@,
        id == CR ==> r is Some && r->Some_0@ == "CR"@,
        id != ACC && id != PC && id != IR && id != OR && id != SP && id != TR && id != CR
            ==> r is None,
{
    if id == ACC {
        Some("ACC".to_owned())
    } else if id == PC {
        Some("PC".to_owned())
    } else if id == IR {
        Some("IR".to_owned())
    } else if id == OR {
        Some("OR".to_owned())
    } else if id == SP {
        Some("SP".to_owned())
    } else if id == TR {
        Some("TR".to_owned())
    } else if id == CR {
        Some("CR".to_owned())
    } else {
        None
    }
}

fn upper_byte(b: u8) -> (r: u8)
    ensures
        r == spec_upper(b),
{
    if 97 <= b && b <= 122 {
        b - 32
    } else {
        b
    }
}

/// Using a name, get the identifier of a register if there is one; the
/// comparison ignores ASCII case. Used by the assembler to recognise a
/// register operand.
pub fn get_id_from_reg_name(name: &Vec<u8>) -> (r: Option<u8>)
    ensures
        r == spec_reg_id_of_name(name@),
{
    let n = name.len();
    if n != 2 && n != 3 {
        assert(name@.map_values(|b: u8| spec_upper(b)).len() == name@.len());
        return None;
    }
    let mut up: Vec<u8> = Vec::new();
    let mut i: usize = 0;
    while i < n
        invariant
            i <= n,
            n == name@.len(),
            up@ == name@.take(i as int).map_values(|b: u8| spec_upper(b)),
        decreases n - i,
    {
        up.push(upper_byte(name[i]));
        assert(name@.take(i + 1).drop_last() == name@.take(i as int));
        assert(name@.take(i + 1).map_values(|b: u8| spec_upper(b)).drop_last() == name@.take(
            i as int,
        ).map_values(|b: u8| spec_upper(b)));
        assert(up@ =~= name@.take(i + 1).map_values(|b: u8| spec_upper(b)));
        i = i + 1;
    }
    assert(name@.take(n as int) == name@);
    let ghost upv = name@.map_values(|b: u8| spec_upper(b));
    if n == 3 {
        if up[0] == 65 && up[1] == 67 && up[2] == 67 {
            assert(upv =~= seq![65u8, 67u8, 67u8]);
            Some(ACC)
        } else {
            assert(upv != seq![65u8, 67u8, 67u8]);
            assert(upv.len() == 3);
            None
        }
    } else {
        let b0 = up[0];
        let b1 = up[1];
        assert(upv =~= seq![b0, b1]);
        if b0 == 80 && b1 == 67 {
            Some(PC)
        } else if b0 == 73 && b1 == 82 {
            Some(IR)
        } else if b0 == 79 && b1 == 82 {
            Some(OR)
        } else if b0 == 83 && b1 == 80 {
            Some(SP)
        } else if b0 == 84 && b1 == 82 {
            Some(TR)
        } else if b0 == 67 && b1 == 82 {
            Some(CR)
        } else {
            None
        }
    }
}

} // verus!
