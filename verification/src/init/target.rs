//! Which block device may hold the disk image.

use vstd::prelude::*;
use crate::text;
use crate::text::{
    chars_of, join2, number_text, push_str, split_lines, split_words, starts_with, str_eq, trim,
};

verus! {

/// Whether a block device is none that could hold a disk image.
pub open spec fn is_virtual(name: Seq<char>) -> bool {
    ||| text::starts(name, "loop"@)
    ||| text::starts(name, "ram"@)
    ||| text::starts(name, "dm"@)
    ||| text::starts(name, "sr"@)
}

fn is_virtual_device(name: &str) -> (r: bool)
    ensures
        r == is_virtual(name@),
{
    starts_with(name, "loop") || starts_with(name, "ram") || starts_with(name, "dm")
        || starts_with(name, "sr")
}

// ---------------------------------------------------------------------------
// By partition UUID
// ---------------------------------------------------------------------------

/// The link that stands for a partition UUID.
pub open spec fn uuid_link(guid: Seq<char>) -> Seq<char> {
    "/dev/disk/by-partuuid/"@ + guid
}

pub fn partuuid_link(guid: &str) -> (r: String)
    ensures
        r@ == uuid_link(guid@),
{
    join2("/dev/disk/by-partuuid/", guid)
}

/// What was found where the link of a partition UUID should be.
pub enum Link {
    Missing,
    /// It is there, but where it leads cannot be read.
    Unreadable,
    Target(String),
}

pub enum LinkView {
    Missing,
    Unreadable,
    Target(Seq<char>),
}

impl View for Link {
    type V = LinkView;

    open spec fn view(&self) -> LinkView {
        match *self {
            Link::Missing => LinkView::Missing,
            Link::Unreadable => LinkView::Unreadable,
            Link::Target(t) => LinkView::Target(t@),
        }
    }
}

/// A partition that the kernel lists, with its UUID where it tells one.
pub struct SysPartition {
    pub name: String,
    pub uuid: Option<String>,
}

/// Whether a partition tells the UUID `guid`, in whichever case.
pub open spec fn tells(p: SysPartition, guid: Seq<char>) -> bool {
    p.uuid matches Some(u) && text::upper(text::trimmed(u@)) == text::upper(guid)
}

/// The first partition from `i` on that tells the UUID.
pub open spec fn told(parts: Seq<SysPartition>, guid: Seq<char>, i: int) -> Option<Seq<char>>
    decreases parts.len() - i,
{
    if i < 0 || i >= parts.len() {
        None
    } else if tells(parts[i], guid) {
        Some("/dev/"@ + parts[i].name@)
    } else {
        told(parts, guid, i + 1)
    }
}

/// The device of a partition UUID: where the link leads, or the link itself,
/// or the first partition that tells the UUID.
pub open spec fn uuid_device(
    guid: Seq<char>,
    link: LinkView,
    parts: Seq<SysPartition>,
) -> Option<Seq<char>> {
    match link {
        LinkView::Target(t) => if text::starts(t, "/"@) {
            Some(t)
        } else {
            Some("/dev/disk/by-partuuid/"@ + t)
        },
        LinkView::Unreadable => Some(uuid_link(guid)),
        LinkView::Missing => told(parts, guid, 0),
    }
}

pub open spec fn opt_view(s: Option<String>) -> Option<Seq<char>> {
    match s {
        Some(s) => Some(s@),
        None => None,
    }
}

/// The device of a partition UUID.
#[verifier::loop_isolation(false)]
pub fn by_partuuid(guid: &str, link: &Link, parts: &[SysPartition]) -> (r: Option<String>)
    ensures
        opt_view(r) == uuid_device(guid@, link@, parts@),
{
    match link {
        Link::Target(t) => if starts_with(t, "/") {
            Some(t.clone())
        } else {
            Some(join2("/dev/disk/by-partuuid/", t))
        },
        Link::Unreadable => Some(partuuid_link(guid)),
        Link::Missing => {
            let wanted: String = guid.to_uppercase();
            let mut i: usize = 0;
            while i < parts.len()
                invariant
                    i <= parts@.len(),
                    told(parts@, guid@, 0) == told(parts@, guid@, i as int),
                decreases parts@.len() - i,
            {
                if let Some(u) = &parts[i].uuid {
                    let told: String = trim(u).to_uppercase();
                    if str_eq(&told, &wanted) {
                        return Some(join2("/dev/", &parts[i].name));
                    }
                }
                i += 1;
            }
            None
        },
    }
}

// ---------------------------------------------------------------------------
// By partition number
// ---------------------------------------------------------------------------

/// The device of partition `num` of a disk: a name that ends in a number gets
/// a letter in between.
pub open spec fn numbered_device(disk: Seq<char>, num: u32) -> Seq<char> {
    let dev = "/dev/"@ + disk;
    if disk.len() > 0 && text::numeric(disk.last()) {
        dev + "p"@ + text::numeral(num as nat)
    } else {
        dev + text::numeral(num as nat)
    }
}

/// The devices of partition `num` of the disks from `i` on.
pub open spec fn numbered_devices(disks: Seq<Seq<char>>, num: u32, i: int) -> Seq<Seq<char>>
    decreases disks.len() - i,
{
    if i < 0 || i >= disks.len() {
        Seq::empty()
    } else if is_virtual(disks[i]) {
        numbered_devices(disks, num, i + 1)
    } else {
        seq![numbered_device(disks[i], num)] + numbered_devices(disks, num, i + 1)
    }
}

fn device_of(disk: &str, num: u32) -> (r: String)
    ensures
        r@ == numbered_device(disk@, num),
{
    let v: Vec<char> = chars_of(disk);
    let digits: String = number_text(num as u64);
    let mut out: String = join2("/dev/", disk);
    if v.len() > 0 && v[v.len() - 1].is_numeric() {
        push_str(&mut out, "p");
    }
    push_str(&mut out, &digits);
    out
}

/// The devices to try for partition `num`, in the order of the disks.
#[verifier::loop_isolation(false)]
pub fn by_partnum(disks: &[String], num: u32) -> (r: Vec<String>)
    ensures
        text::string_views(r@) == numbered_devices(text::string_views(disks@), num, 0),
{
    let ghost names = text::string_views(disks@);
    let mut out: Vec<String> = Vec::new();
    let mut i: usize = 0;
    assert(text::string_views(out@) + numbered_devices(names, num, 0) =~= numbered_devices(
        names,
        num,
        0,
    ));
    while i < disks.len()
        invariant
            i <= disks@.len(),
            text::string_views(out@) + numbered_devices(names, num, i as int) == numbered_devices(
                names,
                num,
                0,
            ),
        decreases disks@.len() - i,
    {
        let disk: &str = disks[i].as_str();
        assert(names[i as int] == disk@);
        if !is_virtual_device(disk) {
            let ghost before = out@;
            let dev: String = device_of(disk, num);
            let ghost d = dev@;
            out.push(dev);
            assert(text::string_views(out@) =~= text::string_views(before).push(d));
            assert(text::string_views(before) + (seq![d] + numbered_devices(names, num, i + 1))
                =~= text::string_views(out@) + numbered_devices(names, num, i + 1));
        }
        i += 1;
    }
    assert(text::string_views(out@) + Seq::empty() =~= text::string_views(out@));
    out
}

// ---------------------------------------------------------------------------
// All partitions
// ---------------------------------------------------------------------------

/// The device that a line of the kernel's partition list names.
pub open spec fn listed_device(line: Seq<char>) -> Option<Seq<char>> {
    let cols = text::words(line);
    if cols.len() < 4 || is_virtual(cols[3]) {
        None
    } else {
        Some("/dev/"@ + cols[3])
    }
}

/// The devices that the lines from `i` on name.
pub open spec fn listed_devices(lines: Seq<Seq<char>>, i: int) -> Seq<Seq<char>>
    decreases lines.len() - i,
{
    if i < 0 || i >= lines.len() {
        Seq::empty()
    } else {
        match listed_device(lines[i]) {
            None => listed_devices(lines, i + 1),
            Some(d) => seq![d] + listed_devices(lines, i + 1),
        }
    }
}

fn device_on_line(line: &str) -> (r: Option<String>)
    ensures
        opt_view(r) == listed_device(line@),
{
    let cols: Vec<&str> = split_words(line);
    assert(text::str_views(cols@).len() == cols@.len());
    if cols.len() < 4 {
        return None;
    }
    let name: &str = cols[3];
    assert(text::str_views(cols@)[3] == name@);
    if is_virtual_device(name) {
        return None;
    }
    Some(join2("/dev/", name))
}

/// The devices to try where nothing tells which: all that the kernel's
/// partition list names below its heading of two lines.
#[verifier::loop_isolation(false)]
pub fn scan_all(list: &str) -> (r: Vec<String>)
    ensures
        text::string_views(r@) == listed_devices(text::lines(list@), 2),
{
    let lines: Vec<&str> = split_lines(list);
    let ghost all = text::lines(list@);
    assert(text::str_views(lines@).len() == lines@.len());
    let mut out: Vec<String> = Vec::new();
    if lines.len() < 2 {
        assert(text::string_views(out@) =~= Seq::empty());
        return out;
    }
    let mut i: usize = 2;
    assert(text::string_views(out@) + listed_devices(all, 2) =~= listed_devices(all, 2));
    while i < lines.len()
        invariant
            2 <= i <= lines@.len(),
            text::string_views(out@) + listed_devices(all, i as int) == listed_devices(all, 2),
        decreases lines@.len() - i,
    {
        let line: &str = lines[i];
        assert(text::str_views(lines@)[i as int] == line@);
        if let Some(dev) = device_on_line(line) {
            let ghost before = out@;
            let ghost d = dev@;
            out.push(dev);
            assert(text::string_views(out@) =~= text::string_views(before).push(d));
            assert(text::string_views(before) + (seq![d] + listed_devices(all, i + 1))
                =~= text::string_views(out@) + listed_devices(all, i + 1));
        }
        i += 1;
    }
    assert(text::string_views(out@) + Seq::empty() =~= text::string_views(out@));
    out
}

proof fn no_virtual_among(lines: Seq<Seq<char>>, i: int)
    ensures
        forall|k: int|
            0 <= k < listed_devices(lines, i).len() ==> exists|name: Seq<char>|
                !is_virtual(name) && #[trigger] listed_devices(lines, i)[k] == "/dev/"@ + name,
    decreases lines.len() - i,
{
    if 0 <= i < lines.len() {
        no_virtual_among(lines, i + 1);
        let rest = listed_devices(lines, i + 1);
        assert forall|k: int| 0 <= k < listed_devices(lines, i).len() implies exists|
            name: Seq<char>,
        |
            !is_virtual(name) && #[trigger] listed_devices(lines, i)[k] == "/dev/"@ + name by {
            if listed_device(lines[i]) is Some {
                if k == 0 {
                    assert(!is_virtual(text::words(lines[i])[3]));
                } else {
                    assert(listed_devices(lines, i)[k] == rest[k - 1]);
                }
            } else {
                assert(listed_devices(lines, i)[k] == rest[k]);
            }
        }
    }
}

/// No loop, RAM, mapped or optical device is ever tried.
pub proof fn virtual_devices_are_not_tried(list: Seq<char>, k: int)
    requires
        0 <= k < listed_devices(text::lines(list), 2).len(),
    ensures
        exists|name: Seq<char>|
            !is_virtual(name) && #[trigger] ("/dev/"@ + name) == listed_devices(
                text::lines(list),
                2,
            )[k],
{
    no_virtual_among(text::lines(list), 2);
    let name = choose|name: Seq<char>|
        !is_virtual(name) && listed_devices(text::lines(list), 2)[k] == "/dev/"@ + name;
    assert(("/dev/"@ + name) == listed_devices(text::lines(list), 2)[k]);
}

} // verus!
