//! What can go wrong.

use vstd::prelude::*;
use crate::digits;
use crate::text;
use crate::text::{join2, join3, push_hex, push_number, push_str};

verus! {

/// An error. Those of input and output hold what the system said of them.
#[derive(Debug)]
pub enum ChoosableError {
    Io(String),
    DiskNotFound(String),
    IsPartition(String),
    AlreadyInstalled(String),
    NotChoosableDisk,
    DiskTooSmall { required: u64, available: u64 },
    FourKNativeSector,
    MbrOverflow,
    MbrReadError(String),
    InvalidMbrSignature(u8, u8),
    InvalidGptSignature,
    PartitionLayoutError(String),
    FormatFailed,
    WriteError { offset: u64, source: String },
    ReadError { offset: u64, source: String },
    UnsupportedFilesystem(String),
    ToolNotFound(String),
    Generic(String),
}

pub type Result<T> = std::result::Result<T, ChoosableError>;

/// What an error is, apart from how its text is stored.
pub enum ErrorView {
    Io(Seq<char>),
    DiskNotFound(Seq<char>),
    IsPartition(Seq<char>),
    AlreadyInstalled(Seq<char>),
    NotChoosableDisk,
    DiskTooSmall { required: u64, available: u64 },
    FourKNativeSector,
    MbrOverflow,
    MbrReadError(Seq<char>),
    InvalidMbrSignature(u8, u8),
    InvalidGptSignature,
    PartitionLayoutError(Seq<char>),
    FormatFailed,
    WriteError { offset: u64, source: Seq<char> },
    ReadError { offset: u64, source: Seq<char> },
    UnsupportedFilesystem(Seq<char>),
    ToolNotFound(Seq<char>),
    Generic(Seq<char>),
}

impl View for ChoosableError {
    type V = ErrorView;

    open spec fn view(&self) -> ErrorView {
        match *self {
            ChoosableError::Io(s) => ErrorView::Io(s@),
            ChoosableError::DiskNotFound(s) => ErrorView::DiskNotFound(s@),
            ChoosableError::IsPartition(s) => ErrorView::IsPartition(s@),
            ChoosableError::AlreadyInstalled(s) => ErrorView::AlreadyInstalled(s@),
            ChoosableError::NotChoosableDisk => ErrorView::NotChoosableDisk,
            ChoosableError::DiskTooSmall { required, available } => ErrorView::DiskTooSmall {
                required,
                available,
            },
            ChoosableError::FourKNativeSector => ErrorView::FourKNativeSector,
            ChoosableError::MbrOverflow => ErrorView::MbrOverflow,
            ChoosableError::MbrReadError(s) => ErrorView::MbrReadError(s@),
            ChoosableError::InvalidMbrSignature(a, b) => ErrorView::InvalidMbrSignature(a, b),
            ChoosableError::InvalidGptSignature => ErrorView::InvalidGptSignature,
            ChoosableError::PartitionLayoutError(s) => ErrorView::PartitionLayoutError(s@),
            ChoosableError::FormatFailed => ErrorView::FormatFailed,
            ChoosableError::WriteError { offset, source } => ErrorView::WriteError {
                offset,
                source: source@,
            },
            ChoosableError::ReadError { offset, source } => ErrorView::ReadError {
                offset,
                source: source@,
            },
            ChoosableError::UnsupportedFilesystem(s) => ErrorView::UnsupportedFilesystem(s@),
            ChoosableError::ToolNotFound(s) => ErrorView::ToolNotFound(s@),
            ChoosableError::Generic(s) => ErrorView::Generic(s@),
        }
    }
}

/// What came of something, with an error apart from how its text is stored.
pub open spec fn outcome<T>(r: Result<T>) -> std::result::Result<T, ErrorView> {
    match r {
        Ok(v) => Ok(v),
        Err(e) => Err(e@),
    }
}

/// The message of an error.
pub open spec fn error_message(e: ErrorView) -> Seq<char> {
    match e {
        ErrorView::Io(s) => "IO error: "@ + s,
        ErrorView::DiskNotFound(s) => "Disk not found: "@ + s,
        ErrorView::IsPartition(s) => "Disk is a partition, not a whole disk: "@ + s,
        ErrorView::AlreadyInstalled(s) => "Disk already contains Choosable (version "@ + s
            + "). Use -u to update or -I to force install"@,
        ErrorView::NotChoosableDisk => "Disk does not contain Choosable. Use -i to install"@,
        ErrorView::DiskTooSmall { required, available } => "Disk is too small. Required: "@
            + text::numeral(required as nat) + " bytes, available: "@ + text::numeral(
            available as nat,
        ) + " bytes"@,
        ErrorView::FourKNativeSector => {
            "4K native sector disk detected. Choosable does not support 4K native disks"@
        },
        ErrorView::MbrOverflow => {
            "MBR disk over 2TB. MBR does not support disks > 2TB. Use -g for GPT"@
        },
        ErrorView::MbrReadError(s) => "Failed to read MBR from disk: "@ + s,
        ErrorView::InvalidMbrSignature(a, b) => "Invalid MBR signature: expected 0x55AA, got 0x"@
            + text::ascii(digits::hex(a as nat, 2, 0x41)) + text::ascii(
            digits::hex(b as nat, 2, 0x41),
        ),
        ErrorView::InvalidGptSignature => "Invalid GPT signature: expected 'EFI PART'"@,
        ErrorView::PartitionLayoutError(s) => "Choosable partition layout mismatch: "@ + s,
        ErrorView::FormatFailed => "FAT/exFAT format failed"@,
        ErrorView::WriteError { offset, source } => "Disk write failed at offset "@
            + text::numeral(offset as nat) + ": "@ + source,
        ErrorView::ReadError { offset, source } => "Disk read failed at offset "@ + text::numeral(
            offset as nat,
        ) + ": "@ + source,
        ErrorView::UnsupportedFilesystem(s) => "Unsupported filesystem in partition 1: "@ + s,
        ErrorView::ToolNotFound(s) => "Required tool not found: "@ + s,
        ErrorView::Generic(s) => s,
    }
}

fn at_offset(what: &str, offset: u64, source: &str) -> (r: String)
    ensures
        r@ == what@ + text::numeral(offset as nat) + ": "@ + source@,
{
    let mut out: String = what.to_owned();
    push_number(&mut out, offset);
    push_str(&mut out, ": ");
    push_str(&mut out, source);
    out
}

impl ChoosableError {
    /// The message of the error.
    pub fn message(&self) -> (r: String)
        ensures
            r@ == error_message(self@),
    {
        match self {
            ChoosableError::Io(s) => join2("IO error: ", s),
            ChoosableError::DiskNotFound(s) => join2("Disk not found: ", s),
            ChoosableError::IsPartition(s) => join2("Disk is a partition, not a whole disk: ", s),
            ChoosableError::AlreadyInstalled(s) => join3(
                "Disk already contains Choosable (version ",
                s,
                "). Use -u to update or -I to force install",
            ),
            ChoosableError::NotChoosableDisk => {
                "Disk does not contain Choosable. Use -i to install".to_owned()
            },
            ChoosableError::DiskTooSmall { required, available } => {
                let mut out: String = "Disk is too small. Required: ".to_owned();
                push_number(&mut out, *required);
                push_str(&mut out, " bytes, available: ");
                push_number(&mut out, *available);
                push_str(&mut out, " bytes");
                out
            },
            ChoosableError::FourKNativeSector => {
                "4K native sector disk detected. Choosable does not support 4K native disks".to_owned()
            },
            ChoosableError::MbrOverflow => {
                "MBR disk over 2TB. MBR does not support disks > 2TB. Use -g for GPT".to_owned()
            },
            ChoosableError::MbrReadError(s) => join2("Failed to read MBR from disk: ", s),
            ChoosableError::InvalidMbrSignature(a, b) => {
                let mut out: String = "Invalid MBR signature: expected 0x55AA, got 0x".to_owned();
                push_hex(&mut out, *a as u64, 2);
                push_hex(&mut out, *b as u64, 2);
                out
            },
            ChoosableError::InvalidGptSignature => {
                "Invalid GPT signature: expected 'EFI PART'".to_owned()
            },
            ChoosableError::PartitionLayoutError(s) => join2(
                "Choosable partition layout mismatch: ",
                s,
            ),
            ChoosableError::FormatFailed => "FAT/exFAT format failed".to_owned(),
            ChoosableError::WriteError { offset, source } => at_offset(
                "Disk write failed at offset ",
                *offset,
                source,
            ),
            ChoosableError::ReadError { offset, source } => at_offset(
                "Disk read failed at offset ",
                *offset,
                source,
            ),
            ChoosableError::UnsupportedFilesystem(s) => join2(
                "Unsupported filesystem in partition 1: ",
                s,
            ),
            ChoosableError::ToolNotFound(s) => join2("Required tool not found: ", s),
            ChoosableError::Generic(s) => s.clone(),
        }
    }
}

} // verus!
