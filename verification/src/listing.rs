//! What is told of disks.

use vstd::prelude::*;
use crate::disk;
use crate::disk::{human_readable_gb, PhyDriveInfo};
use crate::text;
use crate::text::{chars_of, join2, number_text, push_number, push_str};

verus! {

/// A text filled up with blanks to a width.
pub open spec fn padded(s: Seq<char>, width: int) -> Seq<char> {
    if s.len() >= width {
        s
    } else {
        s + Seq::new((width - s.len()) as nat, |i: int| ' ')
    }
}

fn push_padded(out: &mut String, s: &str, width: usize)
    ensures
        final(out)@ == old(out)@ + padded(s@, width as int),
{
    let ghost before = out@;
    let v: Vec<char> = chars_of(s);
    push_str(out, s);
    let ghost base = out@;
    let mut n: usize = v.len();
    assert(base =~= before + s@);
    while n < width
        invariant
            v@ == s@,
            v@.len() <= n,
            n <= width || n == v@.len(),
            out@ == before + padded(s@, n as int),
        decreases width - n,
    {
        out.push(' ');
        n += 1;
        assert(before + padded(s@, n as int) =~= (before + padded(s@, n - 1)).push(' '));
    }
    assert(padded(s@, n as int) =~= padded(s@, width as int));
}

/// A row of the list of disks: five columns, and the model.
pub open spec fn row(
    id: Seq<char>,
    device: Seq<char>,
    size: Seq<char>,
    kind: Seq<char>,
    removable: Seq<char>,
    model: Seq<char>,
) -> Seq<char> {
    padded(id, 4) + " "@ + padded(device, 20) + " "@ + size + " "@ + padded(kind, 10) + " "@
        + padded(removable, 8) + " "@ + model
}

fn make_row(id: &str, device: &str, size: &str, kind: &str, removable: &str, model: &str) -> (r:
    String)
    ensures
        r@ == row(id@, device@, size@, kind@, removable@, model@),
{
    let mut out: String = String::new();
    push_padded(&mut out, id, 4);
    assert(out@ =~= padded(id@, 4));
    push_str(&mut out, " ");
    push_padded(&mut out, device, 20);
    push_str(&mut out, " ");
    push_str(&mut out, size);
    push_str(&mut out, " ");
    push_padded(&mut out, kind, 10);
    push_str(&mut out, " ");
    push_padded(&mut out, removable, 8);
    push_str(&mut out, " ");
    push_str(&mut out, model);
    out
}

/// The heading of the list of disks.
pub open spec fn heading() -> Seq<char> {
    row("ID"@, "Device"@, padded("Size"@, 10), "Type"@, "Removable"@, "Model"@)
}

/// The row of a disk.
pub open spec fn disk_row(d: disk::DriveView) -> Seq<char> {
    row(
        text::numeral(d.phy_drive as nat),
        d.disk_path,
        padded(text::numeral((d.size_bytes / 0x4000_0000) as nat), 8) + " GiB"@,
        if d.is_usb {
            "USB"@
        } else {
            "SATA"@
        },
        if d.removable {
            "Yes"@
        } else {
            "No"@
        },
        d.model,
    )
}

fn disk_line(d: &PhyDriveInfo) -> (r: String)
    ensures
        r@ == disk_row(d@),
{
    let id: String = number_text(d.phy_drive as u64);
    let gb: String = number_text(human_readable_gb(d.size_bytes));
    let mut size: String = String::new();
    push_padded(&mut size, &gb, 8);
    assert(size@ =~= padded(gb@, 8));
    push_str(&mut size, " GiB");
    let kind: &str = if d.is_usb {
        "USB"
    } else {
        "SATA"
    };
    let removable: &str = if d.removable {
        "Yes"
    } else {
        "No"
    };
    make_row(&id, &d.disk_path, &size, kind, removable, &d.model)
}

/// The rows of disks.
pub open spec fn disk_rows(d: Seq<disk::DriveView>) -> Seq<Seq<char>> {
    Seq::new(d.len(), |i: int| disk_row(d[i]))
}

/// The list of disks: a heading, a line, and a row for each.
#[verifier::loop_isolation(false)]
pub fn list_disks(disks: &[PhyDriveInfo]) -> (r: Vec<String>)
    ensures
        text::string_views(r@) == seq![heading(), Seq::new(80, |i: int| '-')] + disk_rows(
            disk::drive_views(disks@),
        ),
{
    let ghost all = disk::drive_views(disks@);
    let ghost rule = Seq::new(80, |i: int| '-');
    let mut out: Vec<String> = Vec::new();
    let mut size: String = String::new();
    push_padded(&mut size, "Size", 10);
    assert(size@ =~= padded("Size"@, 10));
    let first: String = make_row("ID", "Device", &size, "Type", "Removable", "Model");
    let mut line: String = String::new();
    let mut n: usize = 0;
    while n < 80
        invariant
            n <= 80,
            line@ == Seq::new(n as nat, |i: int| '-'),
        decreases 80 - n,
    {
        line.push('-');
        n += 1;
        assert(line@ =~= Seq::new(n as nat, |i: int| '-'));
    }
    assert(line@ =~= rule);
    out.push(first);
    out.push(line);
    assert(text::string_views(out@) =~= seq![heading(), rule] + disk_rows(all.take(0)));
    let mut i: usize = 0;
    while i < disks.len()
        invariant
            i <= disks@.len(),
            text::string_views(out@) == seq![heading(), rule] + disk_rows(all.take(i as int)),
        decreases disks@.len() - i,
    {
        let ghost before = out@;
        let line: String = disk_line(&disks[i]);
        let ghost v = line@;
        assert(v == disk_row(all[i as int]));
        out.push(line);
        assert(text::string_views(out@) =~= text::string_views(before).push(v));
        assert(disk_rows(all.take(i + 1)) =~= disk_rows(all.take(i as int)).push(v));
        assert(seq![heading(), rule] + disk_rows(all.take(i as int)).push(v) =~= (seq![
            heading(),
            rule,
        ] + disk_rows(all.take(i as int))).push(v));
        i += 1;
    }
    assert(all.take(i as int) =~= all);
    out
}

/// What is known of Choosable on a disk: its version, whether the disk has a
/// GPT, and whether it supports secure boot, where that could be seen.
pub struct Installed {
    pub version: Option<String>,
    pub is_gpt: bool,
    pub secure_boot: Option<bool>,
}

/// What is told of a disk, an empty line behind it.
pub open spec fn about(
    path: Seq<char>,
    model: Seq<char>,
    size_bytes: u64,
    found: Option<Installed>,
) -> Seq<Seq<char>> {
    seq![
        "Disk : "@ + path,
        "Model: "@ + model,
        "Size : "@ + text::numeral((size_bytes / 0x4000_0000) as nat) + " GiB"@,
    ] + match found {
        None => seq!["Choosable Version: NA"@],
        Some(f) => seq![
            "Choosable Version in Disk: "@ + match f.version {
                Some(v) => v@,
                None => "?"@,
            },
            "Disk Partition Style  : "@ + if f.is_gpt {
                "GPT"@
            } else {
                "MBR"@
            },
            "Secure Boot Support   : "@ + match f.secure_boot {
                Some(true) => "YES"@,
                Some(false) => "NO"@,
                None => "?"@,
            },
        ],
    } + seq![Seq::<char>::empty()]
}

fn push_line(out: &mut Vec<String>, line: String)
    ensures
        text::string_views(final(out)@) == text::string_views(old(out)@).push(line@),
{
    let ghost before = out@;
    let ghost v = line@;
    out.push(line);
    assert(text::string_views(out@) =~= text::string_views(before).push(v));
}

/// What is told of a disk, line by line.
pub fn list_choosable(path: &str, model: &str, size_bytes: u64, found: &Option<Installed>) -> (r:
    Vec<String>)
    ensures
        text::string_views(r@) == about(path@, model@, size_bytes, *found),
{
    let mut out: Vec<String> = Vec::new();
    push_line(&mut out, join2("Disk : ", path));
    push_line(&mut out, join2("Model: ", model));
    let mut size: String = "Size : ".to_owned();
    push_number(&mut size, human_readable_gb(size_bytes));
    push_str(&mut size, " GiB");
    push_line(&mut out, size);
    match found {
        None => push_line(&mut out, "Choosable Version: NA".to_owned()),
        Some(f) => {
            let version: &str = match &f.version {
                Some(v) => v.as_str(),
                None => "?",
            };
            push_line(&mut out, join2("Choosable Version in Disk: ", version));
            let style: &str = if f.is_gpt {
                "GPT"
            } else {
                "MBR"
            };
            push_line(&mut out, join2("Disk Partition Style  : ", style));
            let secure: &str = match f.secure_boot {
                Some(true) => "YES",
                Some(false) => "NO",
                None => "?",
            };
            push_line(&mut out, join2("Secure Boot Support   : ", secure));
        },
    }
    push_line(&mut out, String::new());
    assert(text::string_views(out@) =~= about(path@, model@, size_bytes, *found));
    out
}

} // verus!
