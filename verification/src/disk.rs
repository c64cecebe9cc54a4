//! Disks: what the system tells of them, and whether Choosable is on them.

use vstd::prelude::*;
use crate::bytes::WORD;
use crate::checks;
use crate::constants::{CHOOSABLE_PART1_START_SECTOR, CHOOSABLE_SECTOR_NUM, SIZE_1GB};
use crate::disk_layout;
use crate::disk_layout::{GptInfo, GptView, Mbr, MbrView};
use crate::error;
use crate::error::{ChoosableError, ErrorView, Result};
use crate::scan::chain;
use crate::text;
use crate::text::{
    chars_of, find, has, join2, join3, number_text, parse_number, push_str, split_lines, space,
    starts_with, str_eq, string_of, trim,
};

verus! {

/// A text without `p` in front, however often it stands there.
pub open spec fn stripped(s: Seq<char>, p: Seq<char>) -> Seq<char>
    decreases s.len(),
{
    if p.len() > 0 && text::starts(s, p) {
        stripped(s.skip(p.len() as int), p)
    } else {
        s
    }
}

/// The name of a device's partition.
pub open spec fn partition_name(disk: Seq<char>, num: u32) -> Seq<char> {
    if lettered(disk) {
        disk + "p"@ + text::numeral(num as nat)
    } else {
        disk + text::numeral(num as nat)
    }
}

/// Whether the partitions of a disk get a letter before their number.
pub open spec fn lettered(disk: Seq<char>) -> bool {
    let base = stripped(disk, "/dev/"@);
    text::starts(base, "nvme"@) || text::starts(base, "mmcblk"@)
}

/// A device's name without the directory.
pub fn device_name(path: &str) -> (r: &str)
    ensures
        r@ == stripped(path@, "/dev/"@),
    decreases path@.len(),
{
    proof {
        reveal_strlit("/dev/");
    }
    if starts_with(path, "/dev/") {
        let rest: &str = path.substring_char(5, path.unicode_len());
        assert(rest@ =~= path@.skip(5));
        device_name(rest)
    } else {
        path
    }
}

/// The name of a disk's partition.
pub fn get_partition_name(disk_path: &str, part_num: u32) -> (r: String)
    ensures
        r@ == partition_name(disk_path@, part_num),
{
    let base: &str = device_name(disk_path);
    let num: String = number_text(part_num as u64);
    if starts_with(base, "nvme") || starts_with(base, "mmcblk") {
        let mut out: String = join2(disk_path, "p");
        push_str(&mut out, &num);
        out
    } else {
        join2(disk_path, &num)
    }
}

pub fn human_readable_gb(size_bytes: u64) -> (r: u64)
    ensures
        r == size_bytes / SIZE_1GB,
{
    size_bytes / SIZE_1GB
}

/// A partition that is named by a disk and a number is a partition of that
/// disk. This holds of the disks whose names end in a digit exactly where
/// their partitions get a letter.
pub proof fn named_partition_belongs(disk: Seq<char>, num: u32)
    requires
        lettered(disk) == (disk.len() > 0 && text::is_digit(disk.last())),
    ensures
        checks::partition_of(partition_name(disk, num), disk),
{
    let dev = partition_name(disk, num);
    let n = text::numeral(num as nat);
    reveal_strlit("p");
    text::numeral_round_trip(num as nat, num as int);
    text::numeral_starts_with_digit(num as nat);
    assert(dev.take(disk.len() as int) =~= disk);
    if lettered(disk) {
        assert(dev.skip(disk.len() as int) =~= "p"@ + n);
    } else {
        assert(dev.skip(disk.len() as int) =~= n);
    }
}

// ---------------------------------------------------------------------------
// What the system tells of a disk
// ---------------------------------------------------------------------------

/// The file of a block device in which the system tells something of it.
pub open spec fn block_file(path: Seq<char>, leaf: Seq<char>) -> Seq<char> {
    "/sys/class/block/"@ + stripped(path, "/dev/"@) + leaf
}

pub fn sysfs_file(path: &str, leaf: &str) -> (r: String)
    ensures
        r@ == block_file(path@, leaf@),
{
    join3("/sys/class/block/", device_name(path), leaf)
}

/// The file that only partitions have.
pub open spec fn start_file_of(path: Seq<char>) -> Seq<char> {
    let name = if text::starts(path, "/dev/"@) {
        path.skip(5)
    } else {
        path
    };
    "/sys/class/block/"@ + name + "/start"@
}

pub fn start_file(path: &str) -> (r: String)
    ensures
        r@ == start_file_of(path@),
{
    proof {
        reveal_strlit("/dev/");
    }
    if starts_with(path, "/dev/") {
        let rest: &str = path.substring_char(5, path.unicode_len());
        assert(rest@ =~= path@.skip(5));
        join3("/sys/class/block/", rest, "/start")
    } else {
        join3("/sys/class/block/", path, "/start")
    }
}

/// Whether a device is a whole disk, by whether it has the file that only
/// partitions have.
pub fn is_whole_disk(has_start_file: bool) -> (r: bool)
    ensures
        r == !has_start_file,
{
    !has_start_file
}

/// The number that a file of the system holds.
pub open spec fn told_number(content: Seq<char>, max: int) -> Option<int> {
    text::number(text::trimmed(content), max)
}

/// The size of a disk in bytes, by its number of sectors, where that could be
/// read. A size that 64 bits cannot tell is invalid.
pub open spec fn disk_size(path: Seq<char>, sectors: Option<Seq<char>>) -> std::result::Result<
    u64,
    ErrorView,
> {
    match sectors {
        None => Err(ErrorView::DiskNotFound("Cannot read size for disk "@ + path)),
        Some(s) => match told_number(s, u64::MAX as int) {
            Some(v) if v * 512 <= u64::MAX => Ok((v * 512) as u64),
            _ => Err(ErrorView::Generic("Invalid size for disk "@ + path)),
        },
    }
}

pub open spec fn opt_str(s: Option<&str>) -> Option<Seq<char>> {
    match s {
        Some(s) => Some(s@),
        None => None,
    }
}

pub fn get_disk_size(path: &str, sectors: Option<&str>) -> (r: Result<u64>)
    ensures
        error::outcome(r) == disk_size(path@, opt_str(sectors)),
{
    match sectors {
        None => Err(ChoosableError::DiskNotFound(join2("Cannot read size for disk ", path))),
        Some(s) => {
            if let Some(v) = parse_number(trim(s), u64::MAX) {
                if let Some(size) = v.checked_mul(512) {
                    return Ok(size);
                }
            }
            Err(ChoosableError::Generic(join2("Invalid size for disk ", path)))
        },
    }
}

/// The model of a disk, where the system tells it.
pub fn get_disk_model(content: Option<&str>) -> (r: String)
    ensures
        r@ == (match content {
            Some(s) => text::trimmed(s@),
            None => "Unknown"@,
        }),
{
    match content {
        Some(s) => trim(s).to_owned(),
        None => "Unknown".to_owned(),
    }
}

/// Whether a disk is on USB, by where the system files it.
pub fn is_usb_disk(canonical: Option<&str>) -> (r: bool)
    ensures
        r == (canonical matches Some(s) && text::contains(s@, "/usb"@)),
{
    match canonical {
        Some(s) => has(s, "/usb"),
        None => false,
    }
}

pub fn is_removable_disk(content: Option<&str>) -> (r: bool)
    ensures
        r == (content matches Some(s) && text::trimmed(s@) == "1"@),
{
    match content {
        Some(s) => str_eq(trim(s), "1"),
        None => false,
    }
}

/// A sector size that the system tells, else 512.
pub open spec fn sector_size(content: Option<Seq<char>>) -> u32 {
    match content {
        Some(s) => match told_number(s, u32::MAX as int) {
            Some(v) => v as u32,
            None => 512,
        },
        None => 512,
    }
}

fn told_sector_size(content: Option<&str>) -> (r: u32)
    ensures
        r == sector_size(opt_str(content)),
{
    match content {
        Some(s) => match parse_number(trim(s), u32::MAX as u64) {
            Some(v) => v as u32,
            None => 512,
        },
        None => 512,
    }
}

pub fn get_sector_size_logical(content: Option<&str>) -> (r: u32)
    ensures
        r == sector_size(opt_str(content)),
{
    told_sector_size(content)
}

pub fn get_sector_size_physical(content: Option<&str>) -> (r: u32)
    ensures
        r == sector_size(opt_str(content)),
{
    told_sector_size(content)
}

/// Whether both sector sizes of a disk are 4096.
pub fn is_4k_native(logical: Option<&str>, physical: Option<&str>) -> (r: bool)
    ensures
        r == (sector_size(opt_str(logical)) == 4096 && sector_size(opt_str(physical)) == 4096),
{
    get_sector_size_logical(logical) == 4096 && get_sector_size_physical(physical) == 4096
}

/// A number that the system tells of a partition, where it could be read.
pub open spec fn partition_number(
    path: Seq<char>,
    content: Option<Seq<char>>,
    unread: Seq<char>,
    invalid: Seq<char>,
) -> std::result::Result<u64, ErrorView> {
    match content {
        None => Err(ErrorView::Generic(unread + path)),
        Some(s) => match told_number(s, u64::MAX as int) {
            Some(v) => Ok(v as u64),
            None => Err(ErrorView::Generic(invalid + path)),
        },
    }
}

fn told_partition_number(path: &str, content: Option<&str>, unread: &str, invalid: &str) -> (r:
    Result<u64>)
    ensures
        error::outcome(r) == partition_number(path@, opt_str(content), unread@, invalid@),
{
    match content {
        None => Err(ChoosableError::Generic(join2(unread, path))),
        Some(s) => match parse_number(trim(s), u64::MAX) {
            Some(v) => Ok(v),
            None => Err(ChoosableError::Generic(join2(invalid, path))),
        },
    }
}

pub fn get_partition_start_sector(part_path: &str, content: Option<&str>) -> (r: Result<u64>)
    ensures
        error::outcome(r) == partition_number(
            part_path@,
            opt_str(content),
            "Cannot read start sector for partition "@,
            "Invalid start sector for "@,
        ),
{
    told_partition_number(
        part_path,
        content,
        "Cannot read start sector for partition ",
        "Invalid start sector for ",
    )
}

pub fn get_partition_size_sectors(part_path: &str, content: Option<&str>) -> (r: Result<u64>)
    ensures
        error::outcome(r) == partition_number(
            part_path@,
            opt_str(content),
            "Cannot read size for partition "@,
            "Invalid size for "@,
        ),
{
    told_partition_number(
        part_path,
        content,
        "Cannot read size for partition ",
        "Invalid size for ",
    )
}

// ---------------------------------------------------------------------------
// The disks of a system
// ---------------------------------------------------------------------------

/// A disk.
#[derive(Clone, Debug)]
pub struct PhyDriveInfo {
    pub phy_drive: usize,
    pub disk_path: String,
    pub size_bytes: u64,
    pub model: String,
    pub removable: bool,
    pub is_usb: bool,
    pub sector_size_logical: u32,
    pub sector_size_physical: u32,
    /// 0 for an MBR, 1 for a GPT.
    pub partition_style: Option<u32>,
    pub choosable_version: Option<String>,
    pub secure_boot: Option<bool>,
    pub mbr: Option<Mbr>,
    pub part2_start_sector: Option<u64>,
    pub part2_gpt_attr: Option<u64>,
}

/// What a listed disk is; of what is on it nothing is known yet.
#[verifier::ext_equal]
pub struct DriveView {
    pub phy_drive: int,
    pub disk_path: Seq<char>,
    pub size_bytes: u64,
    pub model: Seq<char>,
    pub removable: bool,
    pub is_usb: bool,
    pub sector_size_logical: u32,
    pub sector_size_physical: u32,
    pub unread: bool,
}

impl View for PhyDriveInfo {
    type V = DriveView;

    open spec fn view(&self) -> DriveView {
        DriveView {
            phy_drive: self.phy_drive as int,
            disk_path: self.disk_path@,
            size_bytes: self.size_bytes,
            model: self.model@,
            removable: self.removable,
            is_usb: self.is_usb,
            sector_size_logical: self.sector_size_logical,
            sector_size_physical: self.sector_size_physical,
            unread: self.partition_style is None && self.choosable_version is None
                && self.secure_boot is None && self.mbr is None && self.part2_start_sector is None
                && self.part2_gpt_attr is None,
        }
    }
}

pub open spec fn drive_views(v: Seq<PhyDriveInfo>) -> Seq<DriveView> {
    Seq::new(v.len(), |i: int| v[i]@)
}

/// A block device, and what the system's files tell of it, where they could be
/// read.
pub struct BlockDevice {
    pub name: String,
    /// Whether its node is there.
    pub present: bool,
    pub has_start_file: bool,
    pub sectors: Option<String>,
    pub model: Option<String>,
    pub removable: Option<String>,
    pub canonical: Option<String>,
    pub logical: Option<String>,
    pub physical: Option<String>,
}

pub open spec fn opt_string(s: Option<String>) -> Option<Seq<char>> {
    match s {
        Some(s) => Some(s@),
        None => None,
    }
}

fn as_opt_str(s: &Option<String>) -> (r: Option<&str>)
    ensures
        opt_str(r) == opt_string(*s),
{
    match s {
        Some(s) => Some(s.as_str()),
        None => None,
    }
}

/// Whether a block device is none to install to.
pub open spec fn is_skipped(name: Seq<char>) -> bool {
    ||| text::starts(name, "loop"@)
    ||| text::starts(name, "ram"@)
    ||| text::starts(name, "dm-"@)
    ||| text::starts(name, "sr"@)
}

/// The disk that a block device is, if it is one and tells its size.
pub open spec fn drive_of(d: BlockDevice) -> Option<DriveView> {
    let path = "/dev/"@ + d.name@;
    if is_skipped(d.name@) || !d.present || d.has_start_file {
        None
    } else {
        match disk_size(path, opt_string(d.sectors)) {
            Err(_) => None,
            Ok(size) => Some(
                DriveView {
                    phy_drive: 0,
                    disk_path: path,
                    size_bytes: size,
                    model: match d.model {
                        Some(s) => text::trimmed(s@),
                        None => "Unknown"@,
                    },
                    removable: d.removable matches Some(s) && text::trimmed(s@) == "1"@,
                    is_usb: d.canonical matches Some(s) && text::contains(s@, "/usb"@),
                    sector_size_logical: sector_size(opt_string(d.logical)),
                    sector_size_physical: sector_size(opt_string(d.physical)),
                    unread: true,
                },
            ),
        }
    }
}

/// The disks among block devices from `i` on.
pub open spec fn drives_from(devices: Seq<BlockDevice>, i: int) -> Seq<DriveView>
    decreases devices.len() - i,
{
    if i < 0 || i >= devices.len() {
        Seq::empty()
    } else {
        match drive_of(devices[i]) {
            Some(d) => seq![d] + drives_from(devices, i + 1),
            None => drives_from(devices, i + 1),
        }
    }
}

/// Whether a disk is listed before another: those on USB first, then the
/// removable, then the larger.
pub open spec fn ranks_before(a: DriveView, b: DriveView) -> bool {
    if a.is_usb != b.is_usb {
        a.is_usb
    } else if a.removable != b.removable {
        a.removable
    } else {
        a.size_bytes > b.size_bytes
    }
}

/// The first place from `i` on of a disk that ranks behind `d`.
pub open spec fn place_from(s: Seq<DriveView>, d: DriveView, i: int) -> int
    decreases s.len() - i,
{
    if i < 0 || i >= s.len() || ranks_before(d, s[i]) {
        i
    } else {
        place_from(s, d, i + 1)
    }
}

/// A disk put in its place: behind those of the same rank.
pub open spec fn placed(s: Seq<DriveView>, d: DriveView) -> Seq<DriveView> {
    s.insert(place_from(s, d, 0), d)
}

/// Disks by rank. Those of the same rank stay in order.
pub open spec fn ranked(s: Seq<DriveView>) -> Seq<DriveView>
    decreases s.len(),
{
    if s.len() == 0 {
        s
    } else {
        placed(ranked(s.drop_last()), s.last())
    }
}

/// Disks with their numbers.
pub open spec fn numbered(s: Seq<DriveView>) -> Seq<DriveView> {
    Seq::new(s.len(), |i: int| DriveView { phy_drive: i, ..s[i] })
}

fn skipped(name: &str) -> (r: bool)
    ensures
        r == is_skipped(name@),
{
    starts_with(name, "loop") || starts_with(name, "ram") || starts_with(name, "dm-")
        || starts_with(name, "sr")
}

fn drive_info(d: &BlockDevice) -> (r: Option<PhyDriveInfo>)
    ensures
        match r {
            Some(i) => drive_of(*d) == Some(i@),
            None => drive_of(*d) is None,
        },
{
    if skipped(&d.name) || !d.present || !is_whole_disk(d.has_start_file) {
        return None;
    }
    let disk_path: String = join2("/dev/", &d.name);
    match get_disk_size(&disk_path, as_opt_str(&d.sectors)) {
        Err(_) => None,
        Ok(size_bytes) => Some(
            PhyDriveInfo {
                phy_drive: 0,
                disk_path,
                size_bytes,
                model: get_disk_model(as_opt_str(&d.model)),
                removable: is_removable_disk(as_opt_str(&d.removable)),
                is_usb: is_usb_disk(as_opt_str(&d.canonical)),
                sector_size_logical: get_sector_size_logical(as_opt_str(&d.logical)),
                sector_size_physical: get_sector_size_physical(as_opt_str(&d.physical)),
                partition_style: None,
                choosable_version: None,
                secure_boot: None,
                mbr: None,
                part2_start_sector: None,
                part2_gpt_attr: None,
            },
        ),
    }
}

fn before(a: &PhyDriveInfo, b: &PhyDriveInfo) -> (r: bool)
    ensures
        r == ranks_before(a@, b@),
{
    if a.is_usb != b.is_usb {
        a.is_usb
    } else if a.removable != b.removable {
        a.removable
    } else {
        a.size_bytes > b.size_bytes
    }
}

fn place(out: &mut Vec<PhyDriveInfo>, d: PhyDriveInfo)
    ensures
        drive_views(final(out)@) == placed(drive_views(old(out)@), d@),
{
    let ghost all = drive_views(out@);
    let ghost v = d@;
    let ghost was = out@;
    let mut i: usize = 0;
    while i < out.len() && !before(&d, &out[i])
        invariant
            out@ == was,
            d@ == v,
            all == drive_views(was),
            i <= was.len(),
            place_from(all, v, 0) == place_from(all, v, i as int),
        decreases was.len() - i,
    {
        assert(all[i as int] == was[i as int]@);
        i += 1;
    }
    assert(i < was.len() ==> all[i as int] == was[i as int]@);
    out.insert(i, d);
    assert(drive_views(out@) =~= all.insert(i as int, v));
}

/// The disks among block devices, by rank, with their numbers.
#[verifier::loop_isolation(false)]
pub fn enumerate_disks(devices: &[BlockDevice]) -> (r: Vec<PhyDriveInfo>)
    ensures
        drive_views(r@) == numbered(ranked(drives_from(devices@, 0))),
{
    let ghost all = drives_from(devices@, 0);
    let ghost mut done: Seq<DriveView> = Seq::empty();
    let mut out: Vec<PhyDriveInfo> = Vec::new();
    let mut i: usize = 0;
    assert(done + all =~= all);
    assert(drive_views(out@) =~= ranked(done));
    while i < devices.len()
        invariant
            i <= devices@.len(),
            done + drives_from(devices@, i as int) == all,
            drive_views(out@) == ranked(done),
        decreases devices@.len() - i,
    {
        if let Some(d) = drive_info(&devices[i]) {
            let ghost v = d@;
            assert(done + (seq![v] + drives_from(devices@, i + 1)) =~= done.push(v) + drives_from(
                devices@,
                i + 1,
            ));
            place(&mut out, d);
            assert(done.push(v).drop_last() =~= done);
            proof {
                done = done.push(v);
            }
        }
        i += 1;
    }
    assert(done + Seq::empty() =~= done);
    let ghost sorted = ranked(all);
    let ghost before = out@;
    let mut k: usize = 0;
    while k < out.len()
        invariant
            k <= out@.len(),
            out@.len() == sorted.len(),
            forall|j: int|
                0 <= j < k ==> (#[trigger] out@[j])@ == (DriveView { phy_drive: j, ..sorted[j] }),
            forall|j: int| k <= j < out@.len() ==> #[trigger] out@[j] == before[j],
            drive_views(before) == sorted,
        decreases out@.len() - k,
    {
        assert(sorted[k as int] == before[k as int]@);
        out[k].phy_drive = k;
        k += 1;
    }
    assert(drive_views(out@) =~= numbered(sorted));
    out
}

proof fn place_bounds(s: Seq<DriveView>, d: DriveView, i: int)
    requires
        0 <= i <= s.len(),
        forall|j: int| 0 <= j < i ==> !ranks_before(d, #[trigger] s[j]),
    ensures
        ({
            let p = place_from(s, d, i);
            &&& i <= p <= s.len()
            &&& forall|j: int| 0 <= j < p ==> !ranks_before(d, #[trigger] s[j])
            &&& p < s.len() ==> ranks_before(d, s[p])
        }),
    decreases s.len() - i,
{
    if i < s.len() && !ranks_before(d, s[i]) {
        place_bounds(s, d, i + 1);
    }
}

pub open spec fn by_rank(s: Seq<DriveView>) -> bool {
    forall|i: int, j: int| 0 <= i < j < s.len() ==> !ranks_before(#[trigger] s[j], #[trigger] s[i])
}

/// No disk is listed behind one that it ranks before, and the listed disks are
/// those that were found.
pub proof fn disks_are_listed_by_rank(s: Seq<DriveView>)
    ensures
        by_rank(ranked(s)),
        ranked(s).to_multiset() == s.to_multiset(),
    decreases s.len(),
{
    if s.len() > 0 {
        let rest = ranked(s.drop_last());
        let d = s.last();
        disks_are_listed_by_rank(s.drop_last());
        place_bounds(rest, d, 0);
        let p = place_from(rest, d, 0);
        let r = ranked(s);
        assert forall|i: int, j: int| 0 <= i < j < r.len() implies !ranks_before(
            #[trigger] r[j],
            #[trigger] r[i],
        ) by {
            let a = if i < p {
                rest[i]
            } else if i == p {
                d
            } else {
                rest[i - 1]
            };
            let b = if j < p {
                rest[j]
            } else if j == p {
                d
            } else {
                rest[j - 1]
            };
            assert(r[i] == a && r[j] == b);
            if i == p {
                if p < rest.len() && j - 1 > p {
                    assert(!ranks_before(rest[j - 1], rest[p]));
                }
            } else if j != p && i < p && j > p {
                assert(!ranks_before(rest[j - 1], rest[i]));
            } else if j != p && i > p {
                assert(!ranks_before(rest[j - 1], rest[i - 1]));
            } else if j < p {
                assert(!ranks_before(rest[j], rest[i]));
            }
        }
        broadcast use vstd::seq_lib::group_to_multiset_ensures;

        assert(s =~= s.drop_last().push(d));
        assert(r.to_multiset() =~= rest.to_multiset().insert(d));
    }
}

// ---------------------------------------------------------------------------
// Detection
// ---------------------------------------------------------------------------

/// Where Choosable's EFI partition starts, in bytes, and its attributes where
/// it is one of a GPT.
#[derive(Clone, Copy, PartialEq, Eq, Structural, Debug)]
pub struct Detected {
    pub part2_start: u64,
    pub gpt_attr: Option<u64>,
}

/// "CZBLEFI", as a GPT name starts with it.
pub const EFI_NAME: [u16; 7] = [0x43, 0x5A, 0x42, 0x4C, 0x45, 0x46, 0x49];

/// Choosable on a disk with an MBR: partition 1 at its place, and partition 2
/// of its size right behind.
pub open spec fn mbr_detect(m: MbrView) -> Option<Detected> {
    let p1 = m.partitions[0];
    let p2 = m.partitions[1];
    if p1.start_lba == CHOOSABLE_PART1_START_SECTOR && p2.start_lba == (p1.start_lba
        + p1.sector_count) % 0x1_0000_0000 && p2.sector_count == CHOOSABLE_SECTOR_NUM {
        Some(Detected { part2_start: (p2.start_lba * 512) as u64, gpt_attr: None })
    } else {
        None
    }
}

/// Choosable on a disk with a GPT: the same, and partition 2 bears its name.
pub open spec fn gpt_detect(g: GptView) -> Option<Detected> {
    let p1 = g.partitions[0];
    let p2 = g.partitions[1];
    if p1.start_lba == CHOOSABLE_PART1_START_SECTOR && p2.start_lba == chain::wrap64(
        p1.end_lba + 1,
    ) && chain::wrap64(p2.end_lba + 1 - p2.start_lba) == CHOOSABLE_SECTOR_NUM && p2.name.take(7)
        == EFI_NAME@ {
        Some(
            Detected {
                part2_start: disk_layout::sector_at(p2.start_lba),
                gpt_attr: Some(p2.attributes),
            },
        )
    } else {
        None
    }
}

/// Whether Choosable is on a disk; an error where the MBR stands in for a GPT
/// that cannot be read.
pub open spec fn detected(disk: Seq<u8>) -> std::result::Result<Option<Detected>, ErrorView> {
    match disk_layout::mbr_read(disk.subrange(0, 512)) {
        Err(_) => Ok(None),
        Ok(m) => if disk_layout::is_protective(m) {
            match disk_layout::gpt_of(disk) {
                Err(e) => Err(e),
                Ok(g) => Ok(gpt_detect(g)),
            }
        } else {
            Ok(mbr_detect(m))
        },
    }
}

/// What the first sector of a disk tells. Without a signature it counts as an
/// empty record.
pub enum DetectStep {
    NoSignature { mbr: Mbr },
    /// The GPT is to be read.
    ReadGpt { mbr: Mbr },
    Settled { mbr: Mbr, found: Option<Detected> },
}

pub fn detect_choosable(sector: &[u8; 512]) -> (r: DetectStep)
    ensures
        match disk_layout::mbr_read(sector@) {
            Err(_) => r matches DetectStep::NoSignature { mbr } && mbr@ == disk_layout::empty_mbr(),
            Ok(m) => if disk_layout::is_protective(m) {
                r matches DetectStep::ReadGpt { mbr } && mbr@ == m
            } else {
                r matches DetectStep::Settled { mbr, found } && mbr@ == m && found == mbr_detect(m)
            },
        },
{
    match Mbr::read(sector) {
        Err(_) => DetectStep::NoSignature { mbr: Mbr::new_empty() },
        Ok(mbr) => {
            if mbr.is_gpt_protective() {
                return DetectStep::ReadGpt { mbr };
            }
            let found: Option<Detected> = detect_mbr(&mbr);
            DetectStep::Settled { mbr, found }
        },
    }
}

fn detect_mbr(mbr: &Mbr) -> (r: Option<Detected>)
    ensures
        r == mbr_detect(mbr@),
{
    if mbr.part1_start_lba() as u64 != CHOOSABLE_PART1_START_SECTOR {
        return None;
    }
    let part1_end: u64 = (mbr.part1_start_lba() as u64 + mbr.part1_sector_count() as u64)
        % 0x1_0000_0000;
    if mbr.part2_start_lba() as u64 != part1_end || mbr.part2_sector_count() as u64
        != CHOOSABLE_SECTOR_NUM {
        return None;
    }
    Some(Detected { part2_start: mbr.part2_start_lba() as u64 * 512, gpt_attr: None })
}

#[verifier::loop_isolation(false)]
pub fn detect_gpt(gpt: &GptInfo) -> (r: Option<Detected>)
    ensures
        r == gpt_detect(gpt@),
{
    let p1 = gpt.partitions[0];
    let p2 = gpt.partitions[1];
    assert(gpt@.partitions[0] == p1@ && gpt@.partitions[1] == p2@);
    if p1.start_lba != CHOOSABLE_PART1_START_SECTOR {
        return None;
    }
    let next: u64 = ((p1.end_lba as u128 + 1) % WORD) as u64;
    let size: u64 = ((p2.end_lba as u128 + 1 + (WORD - p2.start_lba as u128)) % WORD) as u64;
    assert(size == chain::wrap64(p2.end_lba + 1 - p2.start_lba)) by {
        let x = p2.end_lba + 1 - p2.start_lba;
        vstd::arithmetic::div_mod::lemma_mod_add_multiples_vanish(x, WORD as int);
    }
    if p2.start_lba != next || size != CHOOSABLE_SECTOR_NUM {
        return None;
    }
    let mut i: usize = 0;
    while i < 7
        invariant
            i <= 7,
            forall|k: int| 0 <= k < i ==> #[trigger] p2.name@[k] == EFI_NAME@[k],
        decreases 7 - i,
    {
        if p2.name[i] != EFI_NAME[i] {
            assert(p2.name@.take(7)[i as int] != EFI_NAME@[i as int]);
            return None;
        }
        i += 1;
    }
    assert(p2.name@.take(7) =~= EFI_NAME@);
    Some(
        Detected {
            part2_start: disk_layout::sector_offset(p2.start_lba),
            gpt_attr: Some(p2.attributes),
        },
    )
}

// ---------------------------------------------------------------------------
// Version
// ---------------------------------------------------------------------------

/// What is dropped around a version.
pub open spec fn around_version(c: char) -> bool {
    c == '"' || c == '\'' || text::is_space(c)
}

pub open spec fn version_start(s: Seq<char>, i: int) -> int
    decreases s.len() - i,
{
    if 0 <= i < s.len() && around_version(s[i]) {
        version_start(s, i + 1)
    } else {
        i
    }
}

pub open spec fn version_end(s: Seq<char>, from: int, n: int) -> int
    decreases n,
{
    if 0 <= from < n <= s.len() && around_version(s[n - 1]) {
        version_end(s, from, n - 1)
    } else {
        n
    }
}

/// The version that a line tells, which may be empty.
pub open spec fn version_on(line: Seq<char>) -> Option<Seq<char>> {
    match text::find_from(line, "CHOOSABLE_VERSION="@, 0) {
        None => None,
        Some(pos) => {
            let after = line.skip(pos + 18);
            let a = version_start(after, 0);
            Some(after.subrange(a, version_end(after, a, after.len() as int)))
        },
    }
}

/// The first version that the lines from `i` on tell.
pub open spec fn version_from(lines: Seq<Seq<char>>, i: int) -> Option<Seq<char>>
    decreases lines.len() - i,
{
    if i < 0 || i >= lines.len() {
        None
    } else {
        match version_on(lines[i]) {
            Some(v) if v.len() > 0 => Some(v),
            _ => version_from(lines, i + 1),
        }
    }
}

#[verifier::loop_isolation(false)]
fn version_of_line(line: &str) -> (r: Option<String>)
    ensures
        opt_string(r) == version_on(line@),
{
    let v: Vec<char> = chars_of(line);
    let key: Vec<char> = chars_of("CHOOSABLE_VERSION=");
    proof {
        reveal_strlit("CHOOSABLE_VERSION=");
    }
    let pos: usize = match find(&v, &key) {
        None => {
            return None;
        },
        Some(pos) => pos,
    };
    let all: &[char] = v.as_slice();
    assert(all.len() <= usize::MAX);
    let after: &[char] = &all[pos + 18..v.len()];
    let ghost rest = line@.skip(pos + 18);
    assert(after@ =~= rest);
    let mut a: usize = 0;
    while a < after.len() && (after[a] == '"' || after[a] == '\'' || space(after[a]))
        invariant
            a <= after@.len(),
            version_start(rest, 0) == version_start(rest, a as int),
        decreases after@.len() - a,
    {
        a += 1;
    }
    let mut b: usize = after.len();
    while b > a && (after[b - 1] == '"' || after[b - 1] == '\'' || space(after[b - 1]))
        invariant
            a <= b <= after@.len(),
            version_end(rest, a as int, after@.len() as int) == version_end(
                rest,
                a as int,
                b as int,
            ),
        decreases b,
    {
        b -= 1;
    }
    Some(string_of(&after[a..b]))
}

/// The version that a boot configuration tells.
#[verifier::loop_isolation(false)]
pub fn read_choosable_version(content: &str) -> (r: Option<String>)
    ensures
        opt_string(r) == version_from(text::lines(content@), 0),
{
    let lines: Vec<&str> = split_lines(content);
    let ghost all = text::lines(content@);
    assert(text::str_views(lines@).len() == lines@.len());
    let mut i: usize = 0;
    while i < lines.len()
        invariant
            i <= lines@.len(),
            version_from(all, 0) == version_from(all, i as int),
        decreases lines@.len() - i,
    {
        let line: &str = lines[i];
        assert(text::str_views(lines@)[i as int] == line@);
        if let Some(v) = version_of_line(line) {
            if !v.as_str().is_empty() {
                return Some(v);
            }
        }
        i += 1;
    }
    None
}

// ---------------------------------------------------------------------------
// A partition as a file of its own
// ---------------------------------------------------------------------------

/// A handle on a disk of which only the bytes of one partition show.
pub struct PartitionSlice<R> {
    pub inner: R,
    pub start_offset: u64,
    pub size: u64,
    pub current_pos: u64,
}

/// Where to seek to.
#[derive(Clone, Copy, PartialEq, Eq, Structural, Debug)]
pub enum SeekTo {
    Start(u64),
    Current(i64),
    End(i64),
}

/// A place on the disk, and how many bytes from there on.
#[derive(Clone, Copy, PartialEq, Eq, Structural, Debug)]
pub struct Span {
    pub at: u64,
    pub len: usize,
}

impl<R> PartitionSlice<R> {
    /// Whether the end of the partition can be told.
    pub open spec fn wf(&self) -> bool {
        self.start_offset + self.size <= u64::MAX
    }

    pub fn new(inner: R, start_offset: u64, size: u64) -> (r: Self)
        ensures
            r.inner == inner,
            r.start_offset == start_offset,
            r.size == size,
            r.current_pos == 0,
    {
        PartitionSlice { inner, start_offset, size, current_pos: 0 }
    }

    /// The bytes of the disk that a request for `len` bytes is about; none at
    /// the end of the partition.
    pub open spec fn spec_span(&self, len: usize) -> Option<Span> {
        if self.current_pos >= self.size {
            None
        } else {
            let left = self.size - self.current_pos;
            Some(
                Span {
                    at: (self.start_offset + self.current_pos) as u64,
                    len: if len > left {
                        left as usize
                    } else {
                        len
                    },
                },
            )
        }
    }

    fn span(&self, len: usize) -> (r: Option<Span>)
        requires
            self.wf(),
        ensures
            r == self.spec_span(len),
    {
        if self.current_pos >= self.size {
            return None;
        }
        let left: u64 = self.size - self.current_pos;
        Some(
            Span {
                at: self.start_offset + self.current_pos,
                len: if len as u64 > left {
                    left as usize
                } else {
                    len
                },
            },
        )
    }

    /// The bytes of the disk to read for `len` bytes; none at the end of the
    /// partition.
    pub fn read_span(&self, len: usize) -> (r: Option<Span>)
        requires
            self.wf(),
        ensures
            r == self.spec_span(len),
    {
        self.span(len)
    }

    /// The bytes of the disk to write `len` bytes to; none at the end of the
    /// partition, where writing fails.
    pub fn write_span(&self, len: usize) -> (r: Option<Span>)
        requires
            self.wf(),
        ensures
            r == self.spec_span(len),
    {
        self.span(len)
    }

    /// Goes on by the bytes that were read or written, at most those that were
    /// asked for.
    pub fn advance(&mut self, done: usize)
        requires
            old(self).current_pos + done <= u64::MAX,
        ensures
            final(self).inner == old(self).inner,
            final(self).start_offset == old(self).start_offset,
            final(self).size == old(self).size,
            final(self).current_pos == old(self).current_pos + done,
    {
        self.current_pos = self.current_pos + done as u64;
    }

    /// The place on the disk that a place in the partition is at, if there is
    /// one.
    pub open spec fn spec_target(&self, pos: SeekTo) -> Option<u64> {
        let to = match pos {
            SeekTo::Start(offset) => self.start_offset + offset,
            SeekTo::Current(offset) => self.start_offset + self.current_pos + offset,
            SeekTo::End(offset) => self.start_offset + self.size + offset,
        };
        if 0 <= to <= u64::MAX {
            Some(to as u64)
        } else {
            None
        }
    }

    pub fn seek_target(&self, pos: SeekTo) -> (r: Option<u64>)
        ensures
            r == self.spec_target(pos),
    {
        let to: i128 = match pos {
            SeekTo::Start(offset) => self.start_offset as i128 + offset as i128,
            SeekTo::Current(offset) => self.start_offset as i128 + self.current_pos as i128
                + offset as i128,
            SeekTo::End(offset) => self.start_offset as i128 + self.size as i128 + offset as i128,
        };
        if 0 <= to && to <= u64::MAX as i128 {
            Some(to as u64)
        } else {
            None
        }
    }

    /// Takes in the place on the disk that was sought, and tells the place in
    /// the partition.
    pub fn sought(&mut self, actual: u64) -> (r: u64)
        ensures
            final(self).inner == old(self).inner,
            final(self).start_offset == old(self).start_offset,
            final(self).size == old(self).size,
            final(self).current_pos == r,
            r == (if actual > old(self).start_offset {
                actual - old(self).start_offset
            } else {
                0
            }),
    {
        self.current_pos = if actual > self.start_offset {
            actual - self.start_offset
        } else {
            0
        };
        self.current_pos
    }
}

/// Nothing outside of the partition is ever read or written.
pub proof fn slice_stays_in_partition<R>(p: PartitionSlice<R>, len: usize)
    requires
        p.wf(),
    ensures
        p.spec_span(len) matches Some(s) ==> {
            &&& p.start_offset <= s.at
            &&& s.at + s.len <= p.start_offset + p.size
            &&& s.len <= len
        },
{
}

/// Where a seek within the partition leads to is where the next byte is read.
pub proof fn seek_leads_to_byte<R>(p: PartitionSlice<R>, q: PartitionSlice<R>, offset: u64, len: usize)
    requires
        p.wf(),
        offset < p.size,
        q.start_offset == p.start_offset,
        q.size == p.size,
        q.current_pos == offset,
    ensures
        p.spec_target(SeekTo::Start(offset)) == Some((p.start_offset + offset) as u64),
        q.spec_span(len) matches Some(s) && s.at == p.start_offset + offset,
{
}

} // verus!
