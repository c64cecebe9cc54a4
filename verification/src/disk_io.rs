//! Writes to a disk, and what they make of it.

use vstd::prelude::*;
use crate::bytes;

verus! {

/// Bytes that go to a place on the disk.
pub struct DiskWrite {
    pub offset: u64,
    pub data: Vec<u8>,
}

#[verifier::ext_equal]
pub struct WriteView {
    pub at: int,
    pub data: Seq<u8>,
}

impl View for DiskWrite {
    type V = WriteView;

    open spec fn view(&self) -> WriteView {
        WriteView { at: self.offset as int, data: self.data@ }
    }
}

pub open spec fn views(w: Seq<DiskWrite>) -> Seq<WriteView> {
    Seq::new(w.len(), |i: int| w[i]@)
}

pub open spec fn write_at(at: int, data: Seq<u8>) -> WriteView {
    WriteView { at, data }
}

/// A disk after writes, one after another.
pub open spec fn applied(disk: Seq<u8>, w: Seq<WriteView>) -> Seq<u8>
    decreases w.len(),
{
    if w.len() == 0 {
        disk
    } else {
        bytes::overlay(applied(disk, w.drop_last()), w.last().at, w.last().data)
    }
}

/// Whether a write leaves `from..to` alone.
pub open spec fn spares(w: WriteView, from: int, to: int) -> bool {
    w.at + w.data.len() <= from || to <= w.at
}

pub open spec fn all_spare(w: Seq<WriteView>, from: int, to: int) -> bool {
    forall|i: int| 0 <= i < w.len() ==> spares(#[trigger] w[i], from, to)
}

/// Writes change neither the size of a disk nor what they all leave alone.
pub proof fn spared_stays(disk: Seq<u8>, w: Seq<WriteView>, from: int, to: int)
    requires
        all_spare(w, from, to),
        0 <= from <= to <= disk.len(),
    ensures
        applied(disk, w).len() == disk.len(),
        applied(disk, w).subrange(from, to) == disk.subrange(from, to),
    decreases w.len(),
{
    if w.len() > 0 {
        spared_stays(disk, w.drop_last(), from, to);
        assert(spares(w[w.len() - 1], from, to));
        let before = applied(disk, w.drop_last());
        assert forall|i: int| from <= i < to implies applied(disk, w)[i] == #[trigger] before[i] by {
        }
        assert(applied(disk, w).subrange(from, to) =~= before.subrange(from, to));
    }
}

pub proof fn applied_len(disk: Seq<u8>, w: Seq<WriteView>)
    ensures
        applied(disk, w).len() == disk.len(),
    decreases w.len(),
{
    if w.len() > 0 {
        applied_len(disk, w.drop_last());
    }
}

/// Further writes go on where the first ones ended.
pub proof fn applied_in_turn(disk: Seq<u8>, a: Seq<WriteView>, b: Seq<WriteView>)
    ensures
        applied(disk, a + b) == applied(applied(disk, a), b),
    decreases b.len(),
{
    if b.len() == 0 {
        assert(a + b =~= a);
    } else {
        applied_in_turn(disk, a, b.drop_last());
        assert((a + b).drop_last() =~= a + b.drop_last());
    }
}

/// What the last of some writes put on the disk can be read there; so can what
/// an earlier one did, where all later ones leave it alone.
pub proof fn written_stays(disk: Seq<u8>, w: Seq<WriteView>, k: int)
    requires
        0 <= k < w.len(),
        0 <= w[k].at,
        w[k].at + w[k].data.len() <= disk.len(),
        all_spare(w.skip(k + 1), w[k].at, w[k].at + w[k].data.len()),
    ensures
        applied(disk, w).subrange(w[k].at, w[k].at + w[k].data.len()) == w[k].data,
{
    let a = w.take(k + 1);
    let b = w.skip(k + 1);
    assert(w =~= a + b);
    applied_in_turn(disk, a, b);
    applied_len(disk, a);
    applied_len(disk, a.drop_last());
    spared_stays(applied(disk, a), b, w[k].at, w[k].at + w[k].data.len());
    assert(a.last() == w[k]);
    assert(applied(disk, a).subrange(w[k].at, w[k].at + w[k].data.len()) =~= w[k].data);
}

/// A stretch of a disk to read.
#[derive(Clone, Copy, Debug, PartialEq, Eq, Structural)]
pub struct DiskRead {
    pub offset: u64,
    pub len: usize,
}

/// What a read of a disk yields.
pub open spec fn read_from(disk: Seq<u8>, r: DiskRead) -> Seq<u8> {
    disk.subrange(r.offset as int, r.offset + r.len)
}

/// The write that fills sectors with zeros.
pub fn write_zeros(start_sector: u64, num_sectors: u64) -> (r: DiskWrite)
    requires
        start_sector * 512 <= u64::MAX,
        num_sectors * 512 <= usize::MAX,
    ensures
        r@ == write_at(start_sector * 512, bytes::zeros((num_sectors * 512) as nat)),
{
    let data: Vec<u8> = vec![0u8; (num_sectors * 512) as usize];
    assert(data@ =~= bytes::zeros((num_sectors * 512) as nat));
    DiskWrite { offset: start_sector * 512, data }
}

/// The read of sectors.
pub fn read_sectors(start_sector: u64, num_sectors: usize) -> (r: DiskRead)
    requires
        start_sector * 512 <= u64::MAX,
        num_sectors * 512 <= usize::MAX,
    ensures
        r == (DiskRead { offset: (start_sector * 512) as u64, len: (num_sectors * 512) as usize }),
{
    DiskRead { offset: start_sector * 512, len: num_sectors * 512 }
}

/// The write of bytes from the start of a sector on.
pub fn write_sectors(start_sector: u64, data: Vec<u8>) -> (r: DiskWrite)
    requires
        start_sector * 512 <= u64::MAX,
    ensures
        r@ == write_at(start_sector * 512, data@),
{
    DiskWrite { offset: start_sector * 512, data }
}

/// Sectors read as what was written to them.
pub proof fn sectors_read_back(disk: Seq<u8>, start: int, data: Seq<u8>, r: DiskRead)
    requires
        r.offset == start * 512,
        r.len == data.len(),
        start * 512 + data.len() <= disk.len(),
    ensures
        read_from(applied(disk, seq![write_at(start * 512, data)]), r) == data,
{
    let w = seq![write_at(start * 512, data)];
    assert(w.skip(1) =~= Seq::empty());
    written_stays(disk, w, 0);
}

/// Appends a write to a list of them.
pub fn push_write(out: &mut Vec<DiskWrite>, offset: u64, data: Vec<u8>)
    ensures
        views(final(out)@) == views(old(out)@).push(write_at(offset as int, data@)),
{
    let ghost before = out@;
    let ghost d = data@;
    out.push(DiskWrite { offset, data });
    assert(views(out@) =~= views(before).push(write_at(offset as int, d)));
}

} // verus!
