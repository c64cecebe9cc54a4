//! Whether a disk may be written to: mounts, swap, tools and partition nodes.

use vstd::prelude::*;
use crate::disk;
use crate::disk::get_partition_name;
use crate::error;
use crate::error::{ChoosableError, ErrorView, Result};
use crate::installer::FilesystemType;
use crate::text;
use crate::text::{
    chars_of, join2, join3, push_str, split_lines, split_words, starts_with, str_eq,
};

verus! {

/// Whether `dev` is a partition of `disk`: its name goes on with a number, and
/// where the disk's own name ends in a digit, with a `p` before that.
pub open spec fn partition_of(dev: Seq<char>, disk: Seq<char>) -> bool {
    let suffix = dev.skip(disk.len() as int);
    &&& text::starts(dev, disk)
    &&& if disk.len() > 0 && text::is_digit(disk.last()) {
        suffix.len() > 1 && suffix[0] == 'p' && text::is_digit(suffix[1])
    } else {
        suffix.len() > 0 && text::is_digit(suffix[0])
    }
}

/// Whether `dev` is a disk or one of its partitions.
pub open spec fn belongs(dev: Seq<char>, disk: Seq<char>) -> bool {
    dev == disk || partition_of(dev, disk)
}

fn ascii_digit(c: char) -> (r: bool)
    ensures
        r == text::is_digit(c),
{
    '0' <= c && c <= '9'
}

pub fn is_partition_of(dev: &str, disk_path: &str) -> (r: bool)
    ensures
        r == partition_of(dev@, disk_path@),
{
    if !starts_with(dev, disk_path) {
        return false;
    }
    let d: Vec<char> = chars_of(dev);
    let disk: Vec<char> = chars_of(disk_path);
    let n: usize = disk.len();
    if n > 0 && ascii_digit(disk[n - 1]) {
        d.len() - n > 1 && d[n] == 'p' && ascii_digit(d[n + 1])
    } else {
        d.len() - n > 0 && ascii_digit(d[n])
    }
}

fn device_belongs(dev: &str, disk_path: &str) -> (r: bool)
    ensures
        r == belongs(dev@, disk_path@),
{
    str_eq(dev, disk_path) || is_partition_of(dev, disk_path)
}

// ---------------------------------------------------------------------------
// Mounts
// ---------------------------------------------------------------------------

/// A device and where it is mounted.
pub struct MountEntry {
    pub dev: String,
    pub mount_point: String,
}

#[verifier::ext_equal]
pub struct MountView {
    pub dev: Seq<char>,
    pub mount_point: Seq<char>,
}

impl View for MountEntry {
    type V = MountView;

    open spec fn view(&self) -> MountView {
        MountView { dev: self.dev@, mount_point: self.mount_point@ }
    }
}

pub open spec fn mount_views(v: Seq<MountEntry>) -> Seq<MountView> {
    Seq::new(v.len(), |i: int| v[i]@)
}

/// The mounts that the lines from `i` on tell of: lines of less than two words
/// tell of none.
pub open spec fn mounts_on(lines: Seq<Seq<char>>, i: int) -> Seq<MountView>
    decreases lines.len() - i,
{
    if i < 0 || i >= lines.len() {
        Seq::empty()
    } else {
        let w = text::words(lines[i]);
        if w.len() < 2 {
            mounts_on(lines, i + 1)
        } else {
            seq![MountView { dev: w[0], mount_point: w[1] }] + mounts_on(lines, i + 1)
        }
    }
}

/// The mounts of the kernel's list of them.
pub open spec fn mounts(list: Seq<char>) -> Seq<MountView> {
    mounts_on(text::lines(list), 0)
}

/// The mounts of the kernel's list of them.
#[verifier::loop_isolation(false)]
pub fn parse_mounts(list: &str) -> (r: Vec<MountEntry>)
    ensures
        mount_views(r@) == mounts(list@),
{
    let lines: Vec<&str> = split_lines(list);
    let ghost all = text::lines(list@);
    assert(text::str_views(lines@).len() == lines@.len());
    let mut out: Vec<MountEntry> = Vec::new();
    let mut i: usize = 0;
    assert(mount_views(out@) + mounts_on(all, 0) =~= mounts_on(all, 0));
    while i < lines.len()
        invariant
            i <= lines@.len(),
            mount_views(out@) + mounts_on(all, i as int) == mounts(list@),
        decreases lines@.len() - i,
    {
        let line: &str = lines[i];
        assert(text::str_views(lines@)[i as int] == line@);
        let w: Vec<&str> = split_words(line);
        assert(text::str_views(w@).len() == w@.len());
        if w.len() >= 2 {
            let ghost before = out@;
            assert(text::str_views(w@)[0] == w@[0]@ && text::str_views(w@)[1] == w@[1]@);
            let m: MountEntry = MountEntry { dev: w[0].to_owned(), mount_point: w[1].to_owned() };
            let ghost v = m@;
            out.push(m);
            assert(mount_views(out@) =~= mount_views(before).push(v));
            assert(mount_views(before) + (seq![v] + mounts_on(all, i + 1)) =~= mount_views(out@)
                + mounts_on(all, i + 1));
        }
        i += 1;
    }
    assert(mount_views(out@) + Seq::empty() =~= mount_views(out@));
    out
}

/// The mounts from `i` on of a disk and its partitions.
pub open spec fn mounts_of(m: Seq<MountView>, disk: Seq<char>, i: int) -> Seq<MountView>
    decreases m.len() - i,
{
    if i < 0 || i >= m.len() {
        Seq::empty()
    } else if belongs(m[i].dev, disk) {
        seq![m[i]] + mounts_of(m, disk, i + 1)
    } else {
        mounts_of(m, disk, i + 1)
    }
}

/// The mounts of a disk and its partitions, which are to be undone.
#[verifier::loop_isolation(false)]
pub fn mounts_to_undo(list: &str, disk_path: &str) -> (r: Vec<MountEntry>)
    ensures
        mount_views(r@) == mounts_of(mounts(list@), disk_path@, 0),
{
    let all: Vec<MountEntry> = parse_mounts(list);
    let ghost m = mounts(list@);
    assert(mount_views(all@).len() == all@.len());
    let mut out: Vec<MountEntry> = Vec::new();
    let mut i: usize = 0;
    assert(mount_views(out@) + mounts_of(m, disk_path@, 0) =~= mounts_of(m, disk_path@, 0));
    while i < all.len()
        invariant
            i <= all@.len(),
            mount_views(out@) + mounts_of(m, disk_path@, i as int) == mounts_of(m, disk_path@, 0),
        decreases all@.len() - i,
    {
        assert(m[i as int] == all@[i as int]@);
        if device_belongs(&all[i].dev, disk_path) {
            let ghost before = out@;
            let e: MountEntry = MountEntry {
                dev: all[i].dev.clone(),
                mount_point: all[i].mount_point.clone(),
            };
            let ghost v = e@;
            assert(v =~= m[i as int]);
            out.push(e);
            assert(mount_views(out@) =~= mount_views(before).push(v));
            assert(mount_views(before) + (seq![v] + mounts_of(m, disk_path@, i + 1))
                =~= mount_views(out@) + mounts_of(m, disk_path@, i + 1));
        }
        i += 1;
    }
    assert(mount_views(out@) + Seq::empty() =~= mount_views(out@));
    out
}

/// Whether a disk is free of mounts, by the list of mounts that are left.
pub fn check_umount_disk(list: &str, disk_path: &str) -> (r: Result<()>)
    ensures
        error::outcome(r) == (if mounts_of(mounts(list@), disk_path@, 0).len() == 0 {
            Ok::<(), ErrorView>(())
        } else {
            Err(
                ErrorView::Generic(
                    disk_path@ + " is still mounted, please unmount it first!"@,
                ),
            )
        }),
{
    let left: Vec<MountEntry> = mounts_to_undo(list, disk_path);
    assert(mount_views(left@).len() == left@.len());
    if left.len() > 0 {
        return Err(
            ChoosableError::Generic(
                join2(disk_path, " is still mounted, please unmount it first!"),
            ),
        );
    }
    Ok(())
}

/// Whether a line of the mount list starts with a partition's name and has a
/// second word.
pub open spec fn names_mount(line: Seq<char>, partition: Seq<char>) -> bool {
    text::starts(line, partition) && text::words(line).len() >= 2
}

/// How often a partition is to be unmounted, by the lines from `i` on.
pub open spec fn umounts_from(lines: Seq<Seq<char>>, partition: Seq<char>, i: int) -> int
    decreases lines.len() - i,
{
    if i < 0 || i >= lines.len() {
        0
    } else if names_mount(lines[i], partition) {
        1 + umounts_from(lines, partition, i + 1)
    } else {
        umounts_from(lines, partition, i + 1)
    }
}

/// How often a partition is to be unmounted before it is formatted.
#[verifier::loop_isolation(false)]
pub fn check_umount(list: &str, partition: &str) -> (r: usize)
    ensures
        r == umounts_from(text::lines(list@), partition@, 0),
{
    let lines: Vec<&str> = split_lines(list);
    let ghost all = text::lines(list@);
    assert(text::str_views(lines@).len() == lines@.len());
    let mut n: usize = 0;
    let mut i: usize = 0;
    while i < lines.len()
        invariant
            i <= lines@.len(),
            n <= i,
            n + umounts_from(all, partition@, i as int) == umounts_from(all, partition@, 0),
        decreases lines@.len() - i,
    {
        let line: &str = lines[i];
        assert(text::str_views(lines@)[i as int] == line@);
        let w: Vec<&str> = split_words(line);
        assert(text::str_views(w@).len() == w@.len());
        if starts_with(line, partition) && w.len() >= 2 {
            n += 1;
        }
        i += 1;
    }
    n
}

// ---------------------------------------------------------------------------
// Swap
// ---------------------------------------------------------------------------

/// Whether a line of the swap list is about a disk or one of its partitions.
pub open spec fn swaps_on(line: Seq<char>, disk: Seq<char>) -> bool {
    text::words(line).len() > 0 && belongs(text::words(line)[0], disk)
}

pub open spec fn is_swap(list: Seq<char>, disk: Seq<char>) -> bool {
    exists|i: int|
        0 <= i < text::lines(list).len() && swaps_on(#[trigger] text::lines(list)[i], disk)
}

/// Whether neither a disk nor any of its partitions is used as swap, by the
/// list of swap devices. Where there is no list, nothing speaks against it.
#[verifier::loop_isolation(false)]
pub fn check_swap(list: Option<&str>, disk_path: &str) -> (r: Result<()>)
    ensures
        error::outcome(r) == (match list {
            Some(l) if is_swap(l@, disk_path@) => Err::<(), ErrorView>(
                ErrorView::Generic(
                    disk_path@ + " is used as swap, please swapoff it first!"@,
                ),
            ),
            _ => Ok(()),
        }),
{
    let l: &str = match list {
        None => {
            return Ok(());
        },
        Some(l) => l,
    };
    let lines: Vec<&str> = split_lines(l);
    let ghost all = text::lines(l@);
    assert(text::str_views(lines@).len() == lines@.len());
    let mut i: usize = 0;
    while i < lines.len()
        invariant
            i <= lines@.len(),
            forall|k: int| 0 <= k < i ==> !swaps_on(#[trigger] all[k], disk_path@),
        decreases lines@.len() - i,
    {
        let line: &str = lines[i];
        assert(text::str_views(lines@)[i as int] == line@);
        let w: Vec<&str> = split_words(line);
        assert(text::str_views(w@).len() == w@.len());
        if w.len() > 0 {
            assert(text::str_views(w@)[0] == w@[0]@);
            if device_belongs(w[0], disk_path) {
                assert(swaps_on(all[i as int], disk_path@));
                return Err(
                    ChoosableError::Generic(
                        join2(disk_path, " is used as swap, please swapoff it first!"),
                    ),
                );
            }
        }
        i += 1;
    }
    Ok(())
}

// ---------------------------------------------------------------------------
// Tools
// ---------------------------------------------------------------------------

/// A tool and the argument to try it with.
#[derive(Clone, Copy)]
pub struct Tool {
    pub cmd: &'static str,
    pub arg: Option<&'static str>,
}

/// The tools of which one must be there to format a filesystem.
pub open spec fn formatters(fs: FilesystemType) -> Seq<Tool> {
    match fs {
        FilesystemType::ExFat => seq![
            Tool { cmd: "mkexfatfs", arg: Some("-V") },
            Tool { cmd: "mkfs.exfat", arg: None },
            Tool { cmd: "/usr/sbin/mkfs.exfat", arg: None },
        ],
        FilesystemType::Fat32 => seq![Tool { cmd: "mkfs.vfat", arg: None }],
        FilesystemType::Ntfs => seq![Tool { cmd: "mkfs.ntfs", arg: Some("-V") }],
    }
}

/// What is said where none of them is.
pub open spec fn no_formatter(fs: FilesystemType) -> &'static str {
    match fs {
        FilesystemType::ExFat => "mkexfatfs or mkfs.exfat is required for exFAT formatting",
        FilesystemType::Fat32 => "mkfs.vfat",
        FilesystemType::Ntfs => "mkfs.ntfs does not work on this system",
    }
}

/// The tools of which one must be there to format a filesystem.
pub fn formatter_tools(fs: FilesystemType) -> (r: Vec<Tool>)
    ensures
        r@ == formatters(fs),
{
    let mut v: Vec<Tool> = Vec::new();
    match fs {
        FilesystemType::ExFat => {
            v.push(Tool { cmd: "mkexfatfs", arg: Some("-V") });
            v.push(Tool { cmd: "mkfs.exfat", arg: None });
            v.push(Tool { cmd: "/usr/sbin/mkfs.exfat", arg: None });
        },
        FilesystemType::Fat32 => v.push(Tool { cmd: "mkfs.vfat", arg: None }),
        FilesystemType::Ntfs => v.push(Tool { cmd: "mkfs.ntfs", arg: Some("-V") }),
    }
    assert(v@ =~= formatters(fs));
    v
}

/// What is known of the tools: whether hexdump works, which of the formatters
/// can be run, and whether xzcat works.
pub struct ToolReport {
    pub hexdump: bool,
    pub formatters: Vec<bool>,
    pub xzcat: bool,
}

pub open spec fn any(v: Seq<bool>) -> bool {
    exists|i: int| 0 <= i < v.len() && #[trigger] v[i]
}

/// Whether all tools that an installation needs are there.
#[verifier::loop_isolation(false)]
pub fn check_tool_work_ok(fs_type: FilesystemType, tools: &ToolReport) -> (r: Result<()>)
    ensures
        error::outcome(r) == (if !tools.hexdump {
            Err::<(), ErrorView>(ErrorView::ToolNotFound("hexdump"@))
        } else if !any(tools.formatters@) {
            Err(ErrorView::ToolNotFound(no_formatter(fs_type)@))
        } else if !tools.xzcat {
            Err(ErrorView::ToolNotFound("xzcat"@))
        } else {
            Ok(())
        }),
{
    if !tools.hexdump {
        return Err(ChoosableError::ToolNotFound("hexdump".to_owned()));
    }
    let mut found: bool = false;
    let mut i: usize = 0;
    while i < tools.formatters.len()
        invariant
            i <= tools.formatters@.len(),
            found == any(tools.formatters@.take(i as int)),
        decreases tools.formatters@.len() - i,
    {
        let ok: bool = tools.formatters[i];
        assert(tools.formatters@.take(i + 1) =~= tools.formatters@.take(i as int).push(ok));
        proof {
            let a = tools.formatters@.take(i as int);
            let b = tools.formatters@.take(i + 1);
            if any(a) {
                let k = choose|k: int| 0 <= k < a.len() && #[trigger] a[k];
                assert(b[k]);
            }
            if ok {
                assert(b[i as int]);
            }
            if any(b) && !ok {
                let k = choose|k: int| 0 <= k < b.len() && #[trigger] b[k];
                assert(a[k]);
            }
        }
        found = found || ok;
        i += 1;
    }
    assert(tools.formatters@.take(i as int) =~= tools.formatters@);
    if !found {
        let what: &'static str = match fs_type {
            FilesystemType::ExFat => "mkexfatfs or mkfs.exfat is required for exFAT formatting",
            FilesystemType::Fat32 => "mkfs.vfat",
            FilesystemType::Ntfs => "mkfs.ntfs does not work on this system",
        };
        return Err(ChoosableError::ToolNotFound(what.to_owned()));
    }
    if !tools.xzcat {
        return Err(ChoosableError::ToolNotFound("xzcat".to_owned()));
    }
    Ok(())
}

// ---------------------------------------------------------------------------
// Partition nodes
// ---------------------------------------------------------------------------

/// How often the partition nodes are looked for, a second apart.
pub const NODE_ATTEMPTS: u32 = 10;

/// The attempt after which the kernel is asked to read the table again.
pub const PROBE_AFTER: u32 = 2;

/// What is done while partition nodes are waited for.
#[derive(Clone, Copy, PartialEq, Eq, Structural, Debug)]
pub enum NodeWait {
    /// See whether both nodes are there.
    Look { attempt: u32 },
    /// Wait a second, and where `probe` is set, have the table read again.
    Pause { attempt: u32, probe: bool },
    /// Add the nodes by hand.
    AddNodes,
    /// See once more.
    LastLook,
    Present,
    Missing,
}

pub open spec fn wait_next(w: NodeWait, present: bool) -> NodeWait {
    match w {
        NodeWait::Look { attempt } => if present {
            NodeWait::Present
        } else {
            NodeWait::Pause { attempt, probe: attempt == PROBE_AFTER }
        },
        NodeWait::Pause { attempt, .. } => if attempt + 1 < NODE_ATTEMPTS {
            NodeWait::Look { attempt: (attempt + 1) as u32 }
        } else {
            NodeWait::AddNodes
        },
        NodeWait::AddNodes => NodeWait::LastLook,
        NodeWait::LastLook => if present {
            NodeWait::Present
        } else {
            NodeWait::Missing
        },
        _ => w,
    }
}

impl NodeWait {
    /// The next step, after whether both nodes are there.
    pub fn wait_for_partitions(&self, present: bool) -> (r: NodeWait)
        ensures
            r == wait_next(*self, present),
    {
        match *self {
            NodeWait::Look { attempt } => if present {
                NodeWait::Present
            } else {
                NodeWait::Pause { attempt, probe: attempt == PROBE_AFTER }
            },
            NodeWait::Pause { attempt, .. } => if attempt < NODE_ATTEMPTS - 1 {
                NodeWait::Look { attempt: attempt + 1 }
            } else {
                NodeWait::AddNodes
            },
            NodeWait::AddNodes => NodeWait::LastLook,
            NodeWait::LastLook => if present {
                NodeWait::Present
            } else {
                NodeWait::Missing
            },
            NodeWait::Present => NodeWait::Present,
            NodeWait::Missing => NodeWait::Missing,
        }
    }
}

pub open spec fn wait_rank(w: NodeWait) -> int {
    match w {
        NodeWait::Look { attempt } => if attempt < NODE_ATTEMPTS {
            3 + 2 * (NODE_ATTEMPTS - attempt)
        } else {
            5
        },
        NodeWait::Pause { attempt, .. } => if attempt < NODE_ATTEMPTS {
            2 + 2 * (NODE_ATTEMPTS - attempt)
        } else {
            4
        },
        NodeWait::AddNodes => 2,
        NodeWait::LastLook => 1,
        _ => 0,
    }
}

/// The wait for partition nodes comes to an end.
pub proof fn wait_ends(w: NodeWait, present: bool)
    ensures
        wait_rank(w) > 0 ==> 0 <= wait_rank(wait_next(w, present)) < wait_rank(w),
{
}

/// The nodes of both partitions.
pub fn partition_nodes(disk_path: &str) -> (r: (String, String))
    ensures
        r.0@ == disk::partition_name(disk_path@, 1),
        r.1@ == disk::partition_name(disk_path@, 2),
{
    (get_partition_name(disk_path, 1), get_partition_name(disk_path, 2))
}

/// What is said where the nodes do not come to be.
pub open spec fn nodes_missing(disk: Seq<char>) -> ErrorView {
    ErrorView::Generic(
        "Partitions "@ + disk::partition_name(disk, 1) + " / "@ + disk::partition_name(disk, 2)
            + " do not exist after waiting"@,
    )
}

pub fn missing_nodes_error(disk_path: &str) -> (r: ChoosableError)
    ensures
        r@ == nodes_missing(disk_path@),
{
    let (part1, part2) = partition_nodes(disk_path);
    let mut out: String = join3("Partitions ", &part1, " / ");
    push_str(&mut out, &part2);
    push_str(&mut out, " do not exist after waiting");
    ChoosableError::Generic(out)
}

/// Whether stale partition nodes are to be removed, by which of them are there.
pub fn remove_partition_nodes(part1_exists: bool, part2_exists: bool) -> (r: bool)
    ensures
        r == (part1_exists || part2_exists),
{
    part1_exists || part2_exists
}

} // verus!
