//! The code that takes the processor from long mode to real mode and into a
//! boot image.
//!
//! The three pieces lie in low memory: the switch out of long mode, the switch
//! out of protected mode, and the set-up of real mode.

use vstd::prelude::*;
use crate::bytes;
use crate::bytes::put;

verus! {

pub const GDT_NULL: u64 = 0;

/// A 32-bit code segment of 4 GiB.
pub const GDT_CODE32: u64 = 0x00CF_9A00_0000_FFFF;

/// A 16-bit code segment of 64 KiB.
pub const GDT_CODE16: u64 = 0x0000_9A00_0000_FFFF;

/// The selector of `GDT_CODE16`.
pub const CODE16_SELECTOR: u16 = 0x10;

/// The limit of a table of the three descriptors.
pub const GDT_LIMIT: u16 = 23;

pub const MODE_SWITCH_ADDR: usize = 0x0500;

pub const TRAMP_A_ADDR: usize = 0x0600;

pub const TRAMP_B_ADDR: usize = 0x0614;

/// Where the boot image starts.
pub const IMAGE_ADDR: usize = 0x7C00;

/// Low memory up to the end of the three pieces.
pub const LOW_MEMORY: usize = 0x062C;

/// 32-bit code: clears PG, PAE and LME, and jumps to the first trampoline.
pub const MODE_SWITCH: [u8; 49] = [
    0x0F, 0x20, 0xC0,
    0x25, 0xFF, 0xFF, 0xFF, 0x7F,
    0x0F, 0x22, 0xC0,
    0x0F, 0x20, 0xD8,
    0x0F, 0x22, 0xD8,
    0x0F, 0x20, 0xE0,
    0x25, 0xDF, 0xFF, 0xFF, 0xFF,
    0x0F, 0x22, 0xE0,
    0xB9, 0x80, 0x00, 0x00, 0xC0,
    0x0F, 0x32,
    0x25, 0xFF, 0xFE, 0xFF, 0xFF,
    0x0F, 0x30,
    0xEA,
    0x00, 0x06, 0x00, 0x00,
    0x10, 0x00,
];

/// 16-bit code: clears PE, and jumps to the second trampoline.
pub const TRAMP_A: [u8; 17] = [
    0x66, 0x0F, 0x20, 0xC0,
    0x66, 0x83, 0xE0, 0xFE,
    0x66, 0x0F, 0x22, 0xC0,
    0xEA,
    0x14, 0x06,
    0x00, 0x00,
];

/// Real-mode code: sets up segments, stack and drive, and jumps to the image.
pub const TRAMP_B: [u8; 24] = [
    0xB8, 0x00, 0x00,
    0x8E, 0xD8,
    0x8E, 0xC0,
    0x8E, 0xE0,
    0x8E, 0xE8,
    0x8E, 0xD0,
    0xBC, 0x00, 0x70,
    0xFB,
    0xB2, 0x80,
    0xEA, 0x00, 0x7C, 0x00, 0x00,
];

/// Low memory with the switch out of long mode in it.
pub open spec fn with_mode_switch(mem: Seq<u8>) -> Seq<u8> {
    bytes::overlay(mem, MODE_SWITCH_ADDR as int, MODE_SWITCH@)
}

/// Low memory with both trampolines in it.
pub open spec fn with_trampolines(mem: Seq<u8>) -> Seq<u8> {
    bytes::overlay(
        bytes::overlay(mem, TRAMP_A_ADDR as int, TRAMP_A@),
        TRAMP_B_ADDR as int,
        TRAMP_B@,
    )
}

/// Puts the switch out of long mode where it belongs in low memory.
pub fn copy_mode_switch_code(mem: &mut [u8])
    requires
        old(mem)@.len() >= LOW_MEMORY,
    ensures
        final(mem)@ == with_mode_switch(old(mem)@),
{
    put(mem, MODE_SWITCH_ADDR, &MODE_SWITCH);
}

/// Puts the trampolines where they belong in low memory.
pub fn copy_trampolines(mem: &mut [u8])
    requires
        old(mem)@.len() >= LOW_MEMORY,
    ensures
        final(mem)@ == with_trampolines(old(mem)@),
{
    put(mem, TRAMP_A_ADDR, &TRAMP_A);
    put(mem, TRAMP_B_ADDR, &TRAMP_B);
}

/// The three pieces do not overlap: once all are in place, each can be read
/// back whole.
pub proof fn pieces_read_back(mem: Seq<u8>)
    requires
        mem.len() >= LOW_MEMORY,
    ensures
        ({
            let m = with_trampolines(with_mode_switch(mem));
            &&& m.subrange(MODE_SWITCH_ADDR as int, MODE_SWITCH_ADDR + 49) == MODE_SWITCH@
            &&& m.subrange(TRAMP_A_ADDR as int, TRAMP_A_ADDR + 17) == TRAMP_A@
            &&& m.subrange(TRAMP_B_ADDR as int, TRAMP_B_ADDR + 24) == TRAMP_B@
        }),
{
    let m = with_trampolines(with_mode_switch(mem));
    assert(m.subrange(MODE_SWITCH_ADDR as int, MODE_SWITCH_ADDR + 49) =~= MODE_SWITCH@);
    assert(m.subrange(TRAMP_A_ADDR as int, TRAMP_A_ADDR + 17) =~= TRAMP_A@);
    assert(m.subrange(TRAMP_B_ADDR as int, TRAMP_B_ADDR + 24) =~= TRAMP_B@);
}

/// Each piece ends in a far jump, and the jumps lead from the first piece over
/// the trampolines into the boot image.
pub proof fn jumps_lead_to_image()
    ensures
        MODE_SWITCH@[42] == 0xEA && bytes::spec_le32(MODE_SWITCH@, 43) == TRAMP_A_ADDR
            && bytes::spec_le16(MODE_SWITCH@, 47) == CODE16_SELECTOR,
        TRAMP_A@[12] == 0xEA && bytes::spec_le16(TRAMP_A@, 13) == TRAMP_B_ADDR
            && bytes::spec_le16(TRAMP_A@, 15) == 0,
        TRAMP_B@[19] == 0xEA && bytes::spec_le16(TRAMP_B@, 20) == IMAGE_ADDR
            && bytes::spec_le16(TRAMP_B@, 22) == 0,
{
}

} // verus!
