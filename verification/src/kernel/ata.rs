//! Reading sectors through the ATA ports.

use vstd::prelude::*;
use crate::bytes;
use crate::bytes::put;

verus! {

pub const ATA_PRIMARY_BASE: u16 = 0x1F0;

pub const ATA_DATA: u16 = 0x1F0;

pub const ATA_SECCOUNT: u16 = 0x1F2;

pub const ATA_LBA_LO: u16 = 0x1F3;

pub const ATA_LBA_MID: u16 = 0x1F4;

pub const ATA_LBA_HI: u16 = 0x1F5;

pub const ATA_DRIVE: u16 = 0x1F6;

pub const ATA_STATUS: u16 = 0x1F7;

pub const ATA_CMD: u16 = 0x1F7;

/// The last sector that a 28-bit command reaches.
pub const LBA28_MAX: u64 = 0x0FFF_FFFF;

/// How often the drive is asked whether it has the data.
pub const POLL_LIMIT: u32 = 0xFFFFF;

/// A byte written to a port.
#[derive(Clone, Copy, PartialEq, Eq, Structural, Debug)]
pub struct PortWrite {
    pub port: u16,
    pub value: u8,
}

/// Byte `n` of a sector number.
pub open spec fn lba_byte(lba: u64, n: nat) -> u8
    decreases n,
{
    if n == 0 {
        (lba % 256) as u8
    } else {
        lba_byte(lba / 256, (n - 1) as nat)
    }
}

pub open spec fn out(port: u16, value: u8) -> PortWrite {
    PortWrite { port, value }
}

/// The port writes that ask for one sector: a 48-bit command where a 28-bit
/// one does not reach it.
pub open spec fn read_command(lba: u64) -> Seq<PortWrite> {
    if lba > LBA28_MAX {
        seq![
            out(ATA_DRIVE, 0x40),
            out(ATA_SECCOUNT, 0),
            out(ATA_LBA_LO, lba_byte(lba, 3)),
            out(ATA_LBA_MID, lba_byte(lba, 4)),
            out(ATA_LBA_HI, lba_byte(lba, 5)),
            out(ATA_SECCOUNT, 1),
            out(ATA_LBA_LO, lba_byte(lba, 0)),
            out(ATA_LBA_MID, lba_byte(lba, 1)),
            out(ATA_LBA_HI, lba_byte(lba, 2)),
            out(ATA_CMD, 0x24),
        ]
    } else {
        seq![
            out(ATA_DRIVE, (0xE0 + lba_byte(lba, 3) % 16) as u8),
            out(ATA_SECCOUNT, 1),
            out(ATA_LBA_LO, lba_byte(lba, 0)),
            out(ATA_LBA_MID, lba_byte(lba, 1)),
            out(ATA_LBA_HI, lba_byte(lba, 2)),
            out(ATA_CMD, 0x20),
        ]
    }
}

fn push_write(v: &mut Vec<PortWrite>, port: u16, value: u8)
    ensures
        final(v)@ == old(v)@.push(out(port, value)),
{
    v.push(PortWrite { port, value });
}

/// The port writes that ask for one sector.
pub fn ata_command(lba: u64) -> (r: Vec<PortWrite>)
    ensures
        r@ == read_command(lba),
{
    proof {
        reveal_with_fuel(lba_byte, 6);
    }
    let b0: u8 = (lba % 256) as u8;
    let b1: u8 = (lba / 256 % 256) as u8;
    let b2: u8 = (lba / 256 / 256 % 256) as u8;
    let b3: u8 = (lba / 256 / 256 / 256 % 256) as u8;
    let b4: u8 = (lba / 256 / 256 / 256 / 256 % 256) as u8;
    let b5: u8 = (lba / 256 / 256 / 256 / 256 / 256 % 256) as u8;
    let mut v: Vec<PortWrite> = Vec::new();
    if lba > LBA28_MAX {
        push_write(&mut v, ATA_DRIVE, 0x40);
        push_write(&mut v, ATA_SECCOUNT, 0);
        push_write(&mut v, ATA_LBA_LO, b3);
        push_write(&mut v, ATA_LBA_MID, b4);
        push_write(&mut v, ATA_LBA_HI, b5);
        push_write(&mut v, ATA_SECCOUNT, 1);
        push_write(&mut v, ATA_LBA_LO, b0);
        push_write(&mut v, ATA_LBA_MID, b1);
        push_write(&mut v, ATA_LBA_HI, b2);
        push_write(&mut v, ATA_CMD, 0x24);
    } else {
        push_write(&mut v, ATA_DRIVE, 0xE0 + b3 % 16);
        push_write(&mut v, ATA_SECCOUNT, 1);
        push_write(&mut v, ATA_LBA_LO, b0);
        push_write(&mut v, ATA_LBA_MID, b1);
        push_write(&mut v, ATA_LBA_HI, b2);
        push_write(&mut v, ATA_CMD, 0x20);
    }
    assert(v@ =~= read_command(lba));
    v
}

/// How far a read of a sector has got. The drive's status is read in every
/// state but the last three.
#[derive(Clone, Copy, PartialEq, Eq, Structural, Debug)]
pub enum AtaRead {
    /// Is there a drive?
    Probe,
    WaitNotBusy,
    WaitNoData,
    /// Reads the status this many more times, to let the drive settle.
    Settle(u8),
    /// Asks at most this many more times whether the data is there.
    Poll(u32),
    /// The command is to be sent.
    Command,
    /// The data is there.
    Transfer,
    Failed,
}

impl AtaRead {
    /// The state after the status was read, or the command sent.
    pub open spec fn spec_next(&self, status: u8) -> AtaRead {
        match *self {
            AtaRead::Probe => if status == 0xFF {
                AtaRead::Failed
            } else {
                AtaRead::WaitNotBusy
            },
            AtaRead::WaitNotBusy => if status >= 0x80 {
                AtaRead::WaitNotBusy
            } else {
                AtaRead::WaitNoData
            },
            AtaRead::WaitNoData => if status / 8 % 2 == 1 {
                AtaRead::WaitNoData
            } else {
                AtaRead::Command
            },
            AtaRead::Command => AtaRead::Settle(4),
            AtaRead::Settle(n) => if n > 1 {
                AtaRead::Settle((n - 1) as u8)
            } else {
                AtaRead::Poll(POLL_LIMIT)
            },
            AtaRead::Poll(n) => if status % 2 == 1 {
                AtaRead::Failed
            } else if status / 8 % 2 == 1 {
                AtaRead::Transfer
            } else if n <= 1 {
                AtaRead::Failed
            } else {
                AtaRead::Poll((n - 1) as u32)
            },
            AtaRead::Transfer | AtaRead::Failed => *self,
        }
    }

    pub fn ata_read_sector(&self, status: u8) -> (r: AtaRead)
        ensures
            r == self.spec_next(status),
    {
        match *self {
            AtaRead::Probe => if status == 0xFF {
                AtaRead::Failed
            } else {
                AtaRead::WaitNotBusy
            },
            AtaRead::WaitNotBusy => if status >= 0x80 {
                AtaRead::WaitNotBusy
            } else {
                AtaRead::WaitNoData
            },
            AtaRead::WaitNoData => if status / 8 % 2 == 1 {
                AtaRead::WaitNoData
            } else {
                AtaRead::Command
            },
            AtaRead::Command => AtaRead::Settle(4),
            AtaRead::Settle(n) => if n > 1 {
                AtaRead::Settle(n - 1)
            } else {
                AtaRead::Poll(POLL_LIMIT)
            },
            AtaRead::Poll(n) => if status % 2 == 1 {
                AtaRead::Failed
            } else if status / 8 % 2 == 1 {
                AtaRead::Transfer
            } else if n <= 1 {
                AtaRead::Failed
            } else {
                AtaRead::Poll(n - 1)
            },
            AtaRead::Transfer => AtaRead::Transfer,
            AtaRead::Failed => AtaRead::Failed,
        }
    }
}

/// How many of the first `count` sectors were read and fit in `room` bytes,
/// before one that was not or does not.
pub open spec fn readable(sectors: Seq<Option<[u8; 512]>>, count: int, room: int, i: int) -> int
    decreases count - i,
{
    if i < 0 || i >= count || i >= sectors.len() || i * 512 + 512 > room || sectors[i] is None {
        i
    } else {
        readable(sectors, count, room, i + 1)
    }
}

/// The first `n` sectors in a row.
pub open spec fn joined(sectors: Seq<Option<[u8; 512]>>, n: int) -> Seq<u8>
    decreases n,
{
    if n <= 0 {
        Seq::empty()
    } else {
        joined(sectors, n - 1) + (sectors[n - 1]->0)@
    }
}

proof fn joined_len(sectors: Seq<Option<[u8; 512]>>, n: int)
    requires
        n >= 0,
    ensures
        joined(sectors, n).len() == n * 512,
    decreases n,
{
    if n > 0 {
        joined_len(sectors, n - 1);
    }
}

/// Puts consecutive sectors, as they were read or failed to be, in a row at
/// the front of `dst`. Returns whether all of them are there.
#[verifier::loop_isolation(false)]
pub fn ata_read_sectors(sectors: &[Option<[u8; 512]>], dst: &mut [u8], sector_count: u32) -> (r: bool)
    ensures
        ({
            let n = readable(sectors@, sector_count as int, old(dst)@.len() as int, 0);
            &&& r == (n == sector_count)
            &&& final(dst)@ == bytes::overlay(old(dst)@, 0, joined(sectors@, n))
        }),
{
    let ghost room = dst@.len() as int;
    let ghost base = dst@;
    let mut i: u32 = 0;
    assert(bytes::overlay(base, 0, joined(sectors@, 0)) =~= base);
    while i < sector_count
        invariant
            i <= sector_count,
            dst@.len() == room,
            i * 512 <= room,
            i <= sectors@.len(),
            readable(sectors@, sector_count as int, room, 0) == readable(
                sectors@,
                sector_count as int,
                room,
                i as int,
            ),
            dst@ == bytes::overlay(base, 0, joined(sectors@, i as int)),
        decreases sector_count - i,
    {
        assert(dst.len() <= usize::MAX);
        assert(sectors.len() <= usize::MAX);
        let at: usize = i as usize;
        if at >= sectors.len() || dst.len() - at * 512 < 512 {
            return false;
        }
        match &sectors[at] {
            None => {
                return false;
            },
            Some(s) => {
                put(dst, at * 512, s);
                proof {
                    joined_len(sectors@, i as int);
                    joined_len(sectors@, i + 1);
                }
                assert(dst@ =~= bytes::overlay(base, 0, joined(sectors@, i + 1)));
            },
        }
        i += 1;
    }
    true
}

} // verus!
