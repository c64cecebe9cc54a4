//! The entries that a directory scan lists.

use vstd::prelude::*;
use crate::bytes;
use crate::bytes::ends_with_ignore_case;

verus! {

/// A scan lists at most this many files.
pub const MAX_FILES: usize = 64;

/// A disk image on the volume: its name, zero-padded, where its data starts
/// and how many bytes it holds.
#[derive(Clone, Copy)]
pub struct FoundFile {
    pub name: [u8; 256],
    pub name_len: usize,
    pub file_start_lba: u64,
    pub file_size: u64,
}

/// What a listed file is, apart from how its name is stored.
pub struct FileView {
    pub name: Seq<u8>,
    pub lba: u64,
    pub size: u64,
}

/// `name` in a zero-padded buffer of 256 bytes.
pub open spec fn padded(name: Seq<u8>) -> Seq<u8> {
    name + bytes::zeros((256 - name.len()) as nat)
}

impl FoundFile {
    pub open spec fn wf(&self) -> bool {
        &&& self.name_len <= 256
        &&& self.name@ == padded(self.name@.subrange(0, self.name_len as int))
    }
}

impl View for FoundFile {
    type V = FileView;

    open spec fn view(&self) -> FileView {
        FileView {
            name: self.name@.subrange(0, self.name_len as int),
            lba: self.file_start_lba,
            size: self.file_size,
        }
    }
}

pub open spec fn all_wf(files: Seq<FoundFile>) -> bool {
    forall|i: int| 0 <= i < files.len() ==> (#[trigger] files[i]).wf()
}

pub open spec fn views(files: Seq<FoundFile>) -> Seq<FileView> {
    Seq::new(files.len(), |i: int| files[i]@)
}

/// Whether a file is one that can be booted, by its name: an ISO, WIM or raw
/// image, a virtual hard disk, or an EFI program.
pub open spec fn is_bootable(name: Seq<u8>) -> bool {
    ||| bytes::has_suffix(name, bytes::text(".iso"))
    ||| bytes::has_suffix(name, bytes::text(".wim"))
    ||| bytes::has_suffix(name, bytes::text(".img"))
    ||| bytes::has_suffix(name, bytes::text(".vhd"))
    ||| bytes::has_suffix(name, bytes::text(".vhdx"))
    ||| bytes::has_suffix(name, bytes::text(".efi"))
}

pub fn has_bootable_name(name: &[u8]) -> (r: bool)
    ensures
        r == is_bootable(name@),
{
    ends_with_ignore_case(name, ".iso".as_bytes()) || ends_with_ignore_case(
        name,
        ".wim".as_bytes(),
    ) || ends_with_ignore_case(name, ".img".as_bytes()) || ends_with_ignore_case(
        name,
        ".vhd".as_bytes(),
    ) || ends_with_ignore_case(name, ".vhdx".as_bytes()) || ends_with_ignore_case(
        name,
        ".efi".as_bytes(),
    )
}

/// The list after a file was found: full lists stay as they are.
pub open spec fn listed(files: Seq<FileView>, limit: nat, file: FileView) -> Seq<FileView> {
    if files.len() < limit {
        files.push(file)
    } else {
        files
    }
}

pub fn found_file(name: &[u8], lba: u64, size: u64) -> (r: FoundFile)
    requires
        name@.len() <= 256,
    ensures
        r.wf(),
        r@ == (FileView { name: name@, lba, size }),
{
    let mut buf: [u8; 256] = [0; 256];
    bytes::put(&mut buf, 0, name);
    let r = FoundFile { name: buf, name_len: name.len(), file_start_lba: lba, file_size: size };
    assert(r.name@.subrange(0, r.name_len as int) =~= name@);
    assert(r.name@ =~= padded(name@));
    r
}

/// Lists a file if there is room for it.
pub fn list_file(files: &mut Vec<FoundFile>, limit: usize, name: &[u8], lba: u64, size: u64)
    requires
        name@.len() <= 256,
        all_wf(old(files)@),
    ensures
        all_wf(final(files)@),
        views(final(files)@) == listed(
            views(old(files)@),
            limit as nat,
            FileView { name: name@, lba, size },
        ),
{
    if files.len() < limit {
        files.push(found_file(name, lba, size));
    }
    assert(views(files@) =~= listed(
        views(old(files)@),
        limit as nat,
        FileView { name: name@, lba, size },
    ));
}

} // verus!
