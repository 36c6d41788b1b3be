//! A toolchain and virtual machine for a tiny 32-bit instruction-set
//! architecture: an assembler that turns line-oriented source text into
//! encoded 32-bit words laid out in a fixed memory image, and a CPU that
//! executes that image with a fetch-decode-execute cycle over a small
//! register file and a flat DRAM shared by code, data and stack.

use vstd::prelude::*;

pub mod constants;
pub mod cpu;
pub mod emu;
pub mod instruction;
pub mod laws;
pub mod parse;
pub mod program_file;

verus! {

/// Extract byte group `group` (0 = least significant) of a 32-bit word.
pub open spec fn spec_mask_bit_group(input: u32, group: u8) -> u8 {
    ((input >> ((group as u32) * 8)) & 0xFF) as u8
}

/// Extract one of the four bytes of an encoded word: group 0 is the opcode
/// byte, groups 1 to 3 carry the operands.
pub fn mask_bit_group(input: u32, group: u8) -> (r: u8)
    requires
        group <= 3,
    ensures
        r == spec_mask_bit_group(input, group),
{
    let shift: u32 = (group as u32) * 8;
    let r: u8 = ((input & (0xFFu32 << shift)) >> shift) as u8;
    proof {
        assert(((input & (0xFFu32 << ((group as u32) * 8))) >> ((group as u32) * 8)) as u8
            == ((input >> ((group as u32) * 8)) & 0xFF) as u8) by (bit_vector)
            requires
                group <= 3,
        ;
    }
    r
}

} // verus!
