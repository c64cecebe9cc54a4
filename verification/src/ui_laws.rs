//! What is asked of the program and what it tells.

use vstd::prelude::*;
use crate::bytes;
use crate::checks;
use crate::cli;
use crate::commands;
use crate::commands::EspStep;
use crate::digits;
use crate::disk;
use crate::disk::{Detected, DriveView};
use crate::efi::fs::IsoEntry;
use crate::efi::iso;
use crate::efi::iso::{BootImage, Located};
use crate::efi::iso_source::IsoSource;
use crate::efi::virtual_blockio::VirtualBlockIo;
use crate::error;
use crate::error::ErrorView;
use crate::gui;
use crate::gui::{AppView, DiskEntry, Message, WorkView};
use crate::install_flow::{Operation, Outcome};
use crate::installer;
use crate::installer::{FilesystemType, InstallOptions};
use crate::kernel::fs::DirEntry;
use crate::kernel::menu;
use crate::kernel::vga;
use crate::kernel::vga::Notice;
use crate::listing;
use crate::listing::Installed;
use crate::scan::found::FileView;
use crate::text;
use crate::text_laws;

verus! {

// ---------------------------------------------------------------------------
// Command line
// ---------------------------------------------------------------------------

/// A new installation supports secure boot unless it is told not to, and an update
/// leaves the support as it is unless it is told either.
pub proof fn secure_boot_follows_the_flags(on: bool, off: bool)
    ensures
        cli::install_secure_boot(false, false),
        cli::install_secure_boot(true, off),
        !cli::install_secure_boot(false, true),
        cli::update_secure_boot(false, false) is None,
        cli::update_secure_boot(on, true) == Some(false),
        cli::update_secure_boot(true, false) == Some(true),
{
}

/// The user is the one whose number is the second word of the first line that starts
/// with `Uid:`.
pub proof fn user_is_on_the_uid_line(lines: Seq<Seq<char>>, j: int, i: int)
    requires
        0 <= j <= i <= lines.len(),
        forall|k: int| j <= k < i ==> !text::starts(#[trigger] lines[k], "Uid:"@),
        i < lines.len() ==> text::starts(lines[i], "Uid:"@),
    ensures
        i == lines.len() ==> cli::status_uid(lines, j) is None,
        i < lines.len() && text::words(lines[i]).len() > 1 ==> cli::status_uid(lines, j) == Some(
            text::words(lines[i])[1],
        ),
        i < lines.len() && text::words(lines[i]).len() <= 1 ==> cli::status_uid(lines, j) is None,
    decreases i - j,
{
    if j < i {
        assert(!text::starts(lines[j], "Uid:"@));
        user_is_on_the_uid_line(lines, j + 1, i);
    }
}

/// Only a `y` counts as yes, in either case and with white space around it or not.
pub proof fn only_y_means_yes(front: Seq<char>, answer: Seq<char>, back: Seq<char>)
    requires
        text_laws::all_space(front),
        text_laws::all_space(back),
        answer.len() > 0 ==> !text::is_space(answer[0]) && !text::is_space(answer.last()),
        text::ascii_only(answer),
    ensures
        installer::is_yes(front + answer + back) == (answer == seq!['y'] || answer == seq!['Y']),
{
    reveal_strlit("y");
    text_laws::trimming_takes_white_space_off(front, answer, back);
    let l = text::lower(answer);
    assert(l.len() == answer.len());
    if l == "y"@ {
        assert(answer.len() == 1);
        assert(l[0] == 'y');
        assert(answer[0] == 'y' || answer[0] == 'Y');
        assert(answer =~= seq!['y'] || answer =~= seq!['Y']);
    }
    if answer == seq!['y'] || answer == seq!['Y'] {
        assert(l =~= "y"@);
    }
}

/// A filesystem goes by its name in either case.
pub proof fn filesystems_go_by_name(s: Seq<char>)
    ensures
        ({
            let r = installer::fs_named(s);
            &&& r == Ok::<FilesystemType, ErrorView>(FilesystemType::ExFat) <==> text::lower(s)
                == "exfat"@
            &&& r == Ok::<FilesystemType, ErrorView>(FilesystemType::Ntfs) <==> text::lower(s)
                == "ntfs"@
            &&& r == Ok::<FilesystemType, ErrorView>(FilesystemType::Fat32) <==> text::lower(s)
                == "fat32"@
        }),
{
    reveal_strlit("exfat");
    reveal_strlit("ntfs");
    reveal_strlit("fat32");
    assert("exfat"@[0] == 'e');
    assert("ntfs"@[0] == 'n');
    assert("fat32"@[0] == 'f');
}

// ---------------------------------------------------------------------------
// Refusals
// ---------------------------------------------------------------------------

/// An installation goes ahead only on a whole disk of a known size whose sectors are
/// not of 4 KiB, which has at least 34 MiB and room for what is to be reserved, and
/// with an MBR at most 2 TiB.
pub proof fn installation_goes_ahead_on_a_fit_disk(
    path: Seq<char>,
    whole: bool,
    size: std::result::Result<u64, ErrorView>,
    four_k: bool,
    o: InstallOptions,
)
    ensures
        ({
            let r = installer::preflight(path, whole, size, four_k, o);
            &&& r matches Ok(n) ==> {
                &&& whole && !four_k
                &&& size == Ok::<u64, ErrorView>(n)
                &&& n >= 34 * 1048576
                &&& o.use_gpt || n <= 2199023255552
                &&& o.reserve_space_mb == 0 || n / 512 > (o.reserve_space_mb + 33) * 2048
            }
            &&& size matches Ok(n) ==> (whole && !four_k && n >= 34 * 1048576 && (o.use_gpt || n
                <= 2199023255552) && (o.reserve_space_mb == 0 || n / 512 > (o.reserve_space_mb + 33)
                * 2048) ==> r == Ok::<u64, ErrorView>(n))
            &&& !whole ==> r == Err::<u64, ErrorView>(ErrorView::IsPartition(path))
            &&& whole && size is Ok && four_k ==> r == Err::<u64, ErrorView>(
                ErrorView::FourKNativeSector,
            )
            &&& whole && !four_k && size is Ok && !o.use_gpt && size->Ok_0 > 2199023255552 ==> r
                == Err::<u64, ErrorView>(ErrorView::MbrOverflow)
        }),
{
}

/// A disk that has Choosable is installed to only by force, and left alone where its
/// data is to be kept. One that has not is not updated.
pub proof fn what_is_there_decides(found: Option<Detected>, version: Option<Seq<char>>, force: bool)
    ensures
        ({
            let install = installer::detection_outcome(Operation::Install, found, version, force);
            let gentle = installer::detection_outcome(
                Operation::NonDestructive,
                found,
                version,
                force,
            );
            let update = installer::detection_outcome(Operation::Update, found, version, force);
            &&& install is Ok <==> found is None || force
            &&& install matches Ok(x) ==> x == Outcome::Worked
            &&& found is Some && !force && version is Some ==> install == Err::<Outcome, ErrorView>(
                ErrorView::AlreadyInstalled(version->0),
            )
            &&& gentle == Ok::<Outcome, ErrorView>(
                if found is Some {
                    Outcome::AlreadyThere
                } else {
                    Outcome::Worked
                },
            )
            &&& update == (if found is Some {
                Ok::<Outcome, ErrorView>(Outcome::Worked)
            } else {
                Err(ErrorView::NotChoosableDisk)
            })
        }),
{
}

/// A disk is used as swap when the first word of a line of the list is the disk or a
/// partition of it.
pub proof fn swap_is_told_by_the_first_word(list: Seq<char>, disk: Seq<char>)
    ensures
        checks::is_swap(list, disk) <==> exists|i: int|
            0 <= i < text::lines(list).len() && {
                let w = text::words(#[trigger] text::lines(list)[i]);
                w.len() > 0 && (w[0] == disk || checks::partition_of(w[0], disk))
            },
{
    if checks::is_swap(list, disk) {
        let i = choose|i: int|
            0 <= i < text::lines(list).len() && checks::swaps_on(
                #[trigger] text::lines(list)[i],
                disk,
            );
        let w = text::words(text::lines(list)[i]);
        assert(w.len() > 0 && (w[0] == disk || checks::partition_of(w[0], disk)));
    }
    if exists|i: int|
        0 <= i < text::lines(list).len() && {
            let w = text::words(#[trigger] text::lines(list)[i]);
            w.len() > 0 && (w[0] == disk || checks::partition_of(w[0], disk))
        } {
        let i = choose|i: int|
            0 <= i < text::lines(list).len() && {
                let w = text::words(#[trigger] text::lines(list)[i]);
                w.len() > 0 && (w[0] == disk || checks::partition_of(w[0], disk))
            };
        assert(checks::swaps_on(text::lines(list)[i], disk));
    }
}

/// For each filesystem the formatters that are looked for are those that formatting
/// then runs, in the same order.
pub proof fn formatters_are_those_that_run(
    fs: FilesystemType,
    part: Seq<char>,
    label: Seq<char>,
    sectors: u64,
)
    ensures
        checks::formatters(fs).len() == commands::formatting(fs, part, label, sectors).len(),
        forall|i: int|
            0 <= i < checks::formatters(fs).len() ==> (#[trigger] checks::formatters(fs)[i]).cmd@
                == commands::formatting(fs, part, label, sectors)[i].cmd,
        commands::formatter_count(fs) == checks::formatters(fs).len(),
{
}

/// An exFAT volume gets clusters of 128 KiB where it has at least 33 GiB, and of 32 KiB
/// else.
pub proof fn clusters_grow_with_the_volume(part: Seq<char>, label: Seq<char>, sectors: u64)
    ensures
        ({
            let c = commands::formatting(FilesystemType::ExFat, part, label, sectors)[0];
            &&& c.args.len() == 5
            &&& c.args[2] == "-s"@
            &&& sectors >= 33 * 2097152 ==> c.args[3] == "256"@
            &&& sectors < 33 * 2097152 ==> c.args[3] == "64"@
        }),
{
}

// ---------------------------------------------------------------------------
// Telling the system
// ---------------------------------------------------------------------------

/// The kernel reads the table of the disk again after everything was written out, and
/// udev is told of the disk and waited for.
pub proof fn system_is_told_of_the_disk(disk: Seq<char>)
    ensures
        ({
            let k = commands::kernel_notice(disk);
            let u = commands::udev_notice(disk);
            &&& k.len() == 2 && u.len() == 2
            &&& k[0].cmd == "sync"@ && k[0].args.len() == 0
            &&& k[1].cmd == "partx"@ && k[1].args == seq!["-u"@, disk]
            &&& u[0].cmd == "udevadm"@ && u[0].args == seq![
                "trigger"@,
                "--action=change"@,
                "--name-match"@,
                disk,
            ]
            &&& u[1].cmd == "udevadm"@ && u[1].args == seq!["settle"@]
        }),
{
}

/// Without secure boot the real loaders take the places of the shims, and the files
/// that only served the shims go. Nothing is renamed over a file that is renamed or
/// removed later.
pub proof fn loaders_take_the_places_of_the_shims(i: int, j: int)
    requires
        0 <= i < j < 8,
    ensures
        ({
            let s = commands::without_secure_boot();
            &&& s.len() == 8
            &&& s[0] == EspStep::Rename("grubx64_real.efi", "BOOTX64.EFI")
            &&& s[1] == EspStep::Rename("grubia32_real.efi", "BOOTIA32.EFI")
            &&& s.contains(EspStep::Remove("grubx64.efi"))
            &&& s.contains(EspStep::Remove("grubia32.efi"))
            &&& s.contains(EspStep::Remove("mmx64.efi"))
            &&& s.contains(EspStep::Remove("mmia32.efi"))
            &&& s.contains(EspStep::Remove("MokManager.efi"))
            &&& s.contains(EspStep::RemoveFromRoot("ENROLL_THIS_KEY_IN_MOKMANAGER.cer"))
            &&& s[i] != s[j]
        }),
{
    let s = commands::without_secure_boot();
    assert(s[2] == EspStep::Remove("grubx64.efi"));
    assert(s[3] == EspStep::Remove("MokManager.efi"));
    assert(s[4] == EspStep::Remove("mmx64.efi"));
    assert(s[5] == EspStep::Remove("grubia32.efi"));
    assert(s[6] == EspStep::Remove("mmia32.efi"));
    assert(s[7] == EspStep::RemoveFromRoot("ENROLL_THIS_KEY_IN_MOKMANAGER.cer"));
    reveal_strlit("grubx64.efi");
    reveal_strlit("MokManager.efi");
    reveal_strlit("mmx64.efi");
    reveal_strlit("grubia32.efi");
    reveal_strlit("mmia32.efi");
    reveal_strlit("grubx64_real.efi");
    reveal_strlit("grubia32_real.efi");
    assert("grubx64.efi"@.len() == 11 && "MokManager.efi"@.len() == 14 && "mmx64.efi"@.len() == 9
        && "grubia32.efi"@.len() == 12 && "mmia32.efi"@.len() == 10);
    assert("grubx64_real.efi"@.len() == 16 && "grubia32_real.efi"@.len() == 17);
}

// ---------------------------------------------------------------------------
// Version
// ---------------------------------------------------------------------------

proof fn nothing_before(s: Seq<char>, p: Seq<char>, i: int, n: int)
    requires
        0 <= i <= n,
        n + p.len() <= s.len(),
        forall|k: int| i <= k < n ==> #[trigger] s.subrange(k, k + p.len()) != p,
        s.subrange(n, n + p.len()) == p,
    ensures
        text::find_from(s, p, i) == Some(n),
    decreases n - i,
{
    if i < n {
        assert(s.subrange(i, i + p.len()) != p);
        nothing_before(s, p, i + 1, n);
    }
}

proof fn start_goes_to(s: Seq<char>, i: int, n: int)
    requires
        0 <= i <= n <= s.len(),
        forall|k: int| i <= k < n ==> disk::around_version(#[trigger] s[k]),
        n < s.len() ==> !disk::around_version(s[n]),
    ensures
        disk::version_start(s, i) == n,
    decreases n - i,
{
    if i < n {
        assert(disk::around_version(s[i]));
        start_goes_to(s, i + 1, n);
    }
}

proof fn end_goes_to(s: Seq<char>, from: int, n: int, m: int)
    requires
        0 <= from <= m <= n <= s.len(),
        forall|k: int| m <= k < n ==> disk::around_version(#[trigger] s[k]),
        from < m ==> !disk::around_version(s[m - 1]),
    ensures
        disk::version_end(s, from, n) == m,
    decreases n,
{
    if m < n {
        assert(disk::around_version(s[n - 1]));
        end_goes_to(s, from, n - 1, m);
    }
}

/// The version is what stands behind `CHOOSABLE_VERSION=` on a line, without the
/// quotes and white space around it.
pub proof fn version_stands_behind_its_name(
    front: Seq<char>,
    open: Seq<char>,
    version: Seq<char>,
    close: Seq<char>,
)
    requires
        forall|k: int|
            0 <= k < front.len() ==> #[trigger] (front + "CHOOSABLE_VERSION="@ + open + version
                + close).subrange(k, k + 18) != "CHOOSABLE_VERSION="@,
        forall|i: int|
            0 <= i < open.len() ==> (#[trigger] open[i] == '"' || open[i] == '\'' || text::is_space(
                open[i],
            )),
        forall|i: int|
            0 <= i < close.len() ==> (#[trigger] close[i] == '"' || close[i] == '\''
                || text::is_space(close[i])),
        version.len() > 0,
        version[0] != '"' && version[0] != '\'' && !text::is_space(version[0]),
        version.last() != '"' && version.last() != '\'' && !text::is_space(version.last()),
    ensures
        disk::version_on(front + "CHOOSABLE_VERSION="@ + open + version + close) == Some(version),
{
    reveal_strlit("CHOOSABLE_VERSION=");
    let p = "CHOOSABLE_VERSION="@;
    assert(p.len() == 18);
    let line = front + p + open + version + close;
    let n = front.len() as int;
    assert(line.subrange(n, n + 18) =~= p);
    nothing_before(line, p, 0, n);
    let after = line.skip(n + 18);
    assert(after =~= open + version + close);
    let a = open.len() as int;
    let b = a + version.len();
    assert(after[a] == version[0]);
    assert(after[b - 1] == version[version.len() - 1]);
    assert forall|k: int| 0 <= k < a implies disk::around_version(#[trigger] after[k]) by {
        assert(after[k] == open[k]);
    }
    assert forall|k: int| b <= k < after.len() implies disk::around_version(#[trigger] after[k]) by {
        assert(after[k] == close[k - b]);
    }
    start_goes_to(after, 0, a);
    end_goes_to(after, a, after.len() as int, b);
    assert(after.subrange(a, b) =~= version);
}

/// The first line that gives a version counts.
pub proof fn first_version_counts(lines: Seq<Seq<char>>, j: int, i: int)
    requires
        0 <= j <= i < lines.len(),
        forall|k: int|
            j <= k < i ==> (disk::version_on(#[trigger] lines[k]) matches Some(v) ==> v.len() == 0),
        disk::version_on(lines[i]) matches Some(v) && v.len() > 0,
    ensures
        disk::version_from(lines, j) == disk::version_on(lines[i]),
    decreases i - j,
{
    if j < i {
        assert(disk::version_on(lines[j]) matches Some(v) ==> v.len() == 0);
        first_version_counts(lines, j + 1, i);
    }
}

// ---------------------------------------------------------------------------
// Lists
// ---------------------------------------------------------------------------

/// Each disk is shown on a line, with its number, node, size in GiB, connection,
/// whether it is removable and its model, each in its column.
pub proof fn disk_has_its_columns(d: DriveView)
    requires
        0 <= d.phy_drive,
        text::numeral(d.phy_drive as nat).len() <= 4,
        d.disk_path.len() <= 20,
        text::numeral((d.size_bytes / 1073741824) as nat).len() <= 8,
    ensures
        ({
            let r = listing::disk_row(d);
            let id = text::numeral(d.phy_drive as nat);
            let size = text::numeral((d.size_bytes / 1073741824) as nat);
            &&& r.subrange(0, id.len() as int) == id
            &&& r.subrange(5, 5 + d.disk_path.len() as int) == d.disk_path
            &&& r.subrange(26, 26 + size.len() as int) == size
            &&& r.subrange(34, 38) == seq![' ', 'G', 'i', 'B']
            &&& r[39] == (if d.is_usb {
                'U'
            } else {
                'S'
            })
            &&& r[50] == (if d.removable {
                'Y'
            } else {
                'N'
            })
            &&& r.skip(59) == d.model
        }),
{
    reveal_strlit(" ");
    reveal_strlit(" GiB");
    reveal_strlit("USB");
    reveal_strlit("SATA");
    reveal_strlit("Yes");
    reveal_strlit("No");
    let id = text::numeral(d.phy_drive as nat);
    let size = text::numeral((d.size_bytes / 1073741824) as nat);
    let c1 = listing::padded(id, 4);
    let c2 = listing::padded(d.disk_path, 20);
    let c3 = listing::padded(size, 8) + " GiB"@;
    let c4 = listing::padded(
        if d.is_usb {
            "USB"@
        } else {
            "SATA"@
        },
        10,
    );
    let c5 = listing::padded(
        if d.removable {
            "Yes"@
        } else {
            "No"@
        },
        8,
    );
    let r = listing::disk_row(d);
    assert(r == c1 + " "@ + c2 + " "@ + c3 + " "@ + c4 + " "@ + c5 + " "@ + d.model);
    assert(c1.len() == 4 && c2.len() == 20 && c3.len() == 12 && c4.len() == 10 && c5.len() == 8);
    assert(r.subrange(0, id.len() as int) =~= id);
    assert(r.subrange(5, 5 + d.disk_path.len() as int) =~= d.disk_path);
    assert(r.subrange(26, 26 + size.len() as int) =~= size);
    assert(r.subrange(34, 38) =~= seq![' ', 'G', 'i', 'B']);
    assert(r[39] == c4[0]);
    assert(r[50] == c5[0]);
    assert(r.skip(59) =~= d.model);
}

/// A number is shown without a zero in front.
pub proof fn numbers_are_shown_without_a_zero_in_front(v: nat)
    ensures
        v > 0 ==> digits::decimal(v)[0] != 0x30,
        v < 10 ==> digits::decimal(v).len() == 1,
        v >= 10 ==> digits::decimal(v).len() == digits::decimal(v / 10).len() + 1,
    decreases v,
{
    if v >= 10 {
        numbers_are_shown_without_a_zero_in_front(v / 10);
        digits::decimal_round_trip(v / 10);
        assert(digits::decimal(v)[0] == digits::decimal(v / 10)[0]);
    }
}

/// What is shown of a disk: its node, its model, its size in GiB, and what is installed
/// on it.
pub proof fn disk_is_told_about(
    path: Seq<char>,
    model: Seq<char>,
    size: u64,
    found: Option<Installed>,
)
    ensures
        ({
            let r = listing::about(path, model, size, found);
            &&& r[0] == "Disk : "@ + path
            &&& r[1] == "Model: "@ + model
            &&& r[2] == "Size : "@ + text::numeral((size / 1073741824) as nat) + " GiB"@
            &&& r.last().len() == 0
            &&& found is None ==> r.len() == 5 && r[3] == "Choosable Version: NA"@
            &&& found matches Some(f) ==> {
                &&& r.len() == 7
                &&& f.version matches Some(v) ==> r[3] == "Choosable Version in Disk: "@ + v@
                &&& f.version is None ==> r[3] == "Choosable Version in Disk: "@ + "?"@
                &&& f.is_gpt ==> r[4] == "Disk Partition Style  : "@ + "GPT"@
                &&& !f.is_gpt ==> r[4] == "Disk Partition Style  : "@ + "MBR"@
                &&& f.secure_boot == Some(true) ==> r[5] == "Secure Boot Support   : "@ + "YES"@
                &&& f.secure_boot == Some(false) ==> r[5] == "Secure Boot Support   : "@ + "NO"@
                &&& f.secure_boot is None ==> r[5] == "Secure Boot Support   : "@ + "?"@
            }
        }),
{
}

/// A result is told with what was done: that it worked, or why it did not. The hint to
/// run as another user comes only where permission was denied.
pub proof fn result_is_told(op: Seq<char>, e: ErrorView)
    ensures
        gui::operation_text(Ok(()), op) == op + " completed successfully!"@,
        ({
            let m = error::error_message(e);
            let told = op + " failed: "@ + m;
            let r = gui::operation_text(Err(e), op);
            &&& r.take(told.len() as int) == told
            &&& text::contains(m, "Permission denied"@) <==> r.len() > told.len()
        }),
{
    reveal_strlit("\nHint: Run Choosable with sudo (sudo choosable) to get disk access.");
    let m = error::error_message(e);
    let told = op + " failed: "@ + m;
    let r = gui::operation_text(Err(e), op);
    assert(r.take(told.len() as int) =~= told);
}

/// The menu has a line for each file, up to twenty, in their order.
pub proof fn menu_has_a_line_for_each_file(files: Seq<IsoEntry>, j: int, i: int)
    requires
        0 <= j <= i,
    ensures
        iso::menu_lines(files, j).len() == (if files.len() <= j || 20 <= j {
            0int
        } else if files.len() < 20 {
            files.len() - j
        } else {
            20 - j
        }),
        i < files.len() && i < 20 ==> iso::menu_lines(files, j)[i - j] == iso::menu_line(i, files[i]),
    decreases 20 - j,
{
    if j < files.len() && j < 20 {
        let k = if i > j {
            i
        } else {
            j + 1
        };
        menu_has_a_line_for_each_file(files, j + 1, k);
        let rest = iso::menu_lines(files, j + 1);
        assert(iso::menu_lines(files, j) == seq![iso::menu_line(j, files[j])] + rest);
    }
}

/// A line of the menu gives the number to type, the name and the size in MiB.
pub proof fn menu_line_tells_of_the_file(i: int, e: IsoEntry)
    requires
        0 <= i,
        0 < e.name_len <= 256,
        e.name@[0] != 0,
    ensures
        iso::menu_line(i, e) == bytes::text(" ") + digits::decimal((i + 1) as nat) + bytes::text(". ")
            + e.name@.take(e.name_len as int) + bytes::text(" (") + digits::decimal(
            (e.file_size / 1048576) as nat,
        ) + bytes::text(" MiB)\r\n"),
{
    reveal_strlit(" ");
    vstd::string::is_ascii_spec_bytes(" ");
    assert(bytes::text(" ") =~= seq![0x20u8]);
    assert(e.name@.subrange(0, e.name_len as int) =~= e.name@.take(e.name_len as int));
}

/// The first configuration that can be patched is patched.
pub proof fn first_patchable_configuration_is_patched<S: IsoSource>(
    src: &S,
    image: BootImage,
    v: VirtualBlockIo,
    files: Seq<Located>,
    j: int,
)
    requires
        0 <= j <= files.len(),
    ensures
        ({
            let fits = |k: int|
                image.patched(src, files[k]) is Some && iso::fits_behind(
                    v,
                    image.patched(src, files[k])->0,
                );
            match image.first_patchable(src, v, files, j) {
                Some(i) => j <= i < files.len() && fits(i) && forall|k: int|
                    j <= k < i ==> !#[trigger] fits(k),
                None => forall|k: int| j <= k < files.len() ==> !#[trigger] fits(k),
            }
        }),
    decreases files.len() - j,
{
    if j < files.len() {
        first_patchable_configuration_is_patched(src, image, v, files, j + 1);
    }
}

// ---------------------------------------------------------------------------
// Screen
// ---------------------------------------------------------------------------

proof fn prints_all(s: Seq<u8>, i: int, room: int)
    requires
        0 <= i <= s.len() <= room,
        forall|k: int| 0 <= k < s.len() ==> #[trigger] s[k] != 0,
    ensures
        vga::printed_len(s, i, room) == s.len(),
    decreases s.len() - i,
{
    if i < s.len() {
        assert(s[i] != 0);
        prints_all(s, i + 1, room);
    }
}

/// A text is shown from its row and column on, in its colours, and nothing else on
/// the screen changes.
pub proof fn text_is_shown_in_its_place(
    screen: Seq<u8>,
    row: int,
    col: int,
    s: Seq<u8>,
    attr: u8,
)
    requires
        screen.len() == 4000,
        0 <= row < 25,
        0 <= col < 80,
        80 * row + col + s.len() <= 2000,
        forall|k: int| 0 <= k < s.len() ==> #[trigger] s[k] != 0,
    ensures
        ({
            let r = vga::printed(screen, row, col, s, attr);
            let at = 2 * (80 * row + col);
            &&& r.len() == 4000
            &&& forall|i: int| 0 <= i < s.len() ==> r[at + 2 * i] == #[trigger] s[i]
            &&& forall|i: int| 0 <= i < s.len() ==> r[#[trigger] (at + 2 * i + 1)] == attr
            &&& forall|k: int|
                0 <= k < 4000 && !(at <= k < at + 2 * s.len()) ==> #[trigger] r[k] == screen[k]
        }),
{
    prints_all(s, 0, 2000 - (row * 80 + col));
    let r = vga::printed(screen, row, col, s, attr);
    let cell = row * 80 + col;
    let at = 2 * (80 * row + col);
    assert forall|i: int| 0 <= i < s.len() implies r[at + 2 * i] == #[trigger] s[i] by {
        assert((at + 2 * i) / 2 == cell + i);
    }
    assert forall|i: int| 0 <= i < s.len() implies r[#[trigger] (at + 2 * i + 1)] == attr by {
        assert((at + 2 * i + 1) / 2 == cell + i);
    }
}

/// An entry of the menu shows the number to type, the name up to its forty-third
/// character, and the size in MiB, on the row of the entry.
pub proof fn entry_shows_its_file(screen: Seq<u8>, file: FileView, index: int, row: int)
    ensures
        ({
            let number = digits::decimal((index + 1) as nat);
            let size = digits::decimal((file.size / 1048576) as nat);
            let name = if file.name.len() > 43 {
                file.name.take(43)
            } else {
                file.name
            };
            let a = vga::printed(screen, row, 1, number, 0x0A);
            let b = vga::printed(a, row, 1int + number.len(), bytes::text(". "), 0x07);
            let c = vga::printed(b, row, 4, name, 0x07);
            let d = vga::printed(c, row, 50, bytes::text("("), 0x07);
            let e = vga::printed(d, row, 51, size, 0x07);
            menu::entry_drawn(screen, file, index, row) == vga::printed(
                e,
                row,
                51int + size.len(),
                bytes::text(" MiB)"),
                0x07,
            )
        }),
{
    assert(file.name.take(file.name.len() as int) =~= file.name);
}

/// Whether a row of the screen shows a file: the number to type from its second column
/// on, the name from its fifth, and the size in MiB from its fifty-second.
pub open spec fn shows(screen: Seq<u8>, row: int, file: FileView, index: int) -> bool {
    let number = digits::decimal((index + 1) as nat);
    let size = digits::decimal((file.size / 1048576) as nat);
    &&& forall|i: int|
        0 <= i < number.len() ==> screen[2 * (80 * row + 1 + i)] == #[trigger] number[i]
    &&& forall|i: int|
        0 <= i < file.name.len() && i < 43 ==> screen[2 * (80 * row + 4 + i)]
            == #[trigger] file.name[i]
    &&& forall|i: int|
        0 <= i < size.len() ==> screen[2 * (80 * row + 51 + i)] == #[trigger] size[i]
}

/// Whether two screens differ in one row at most.
pub open spec fn same_but_row(a: Seq<u8>, b: Seq<u8>, row: int) -> bool {
    &&& a.len() == b.len()
    &&& forall|k: int|
        0 <= k < a.len() && !(160 * row <= k < 160 * row + 160) ==> #[trigger] a[k] == b[k]
}

proof fn no_nul(v: nat)
    ensures
        forall|k: int| 0 <= k < digits::decimal(v).len() ==> #[trigger] digits::decimal(v)[k] != 0,
{
    digits::decimal_round_trip(v);
}

proof fn entry_texts()
    ensures
        bytes::text(". ") == seq![0x2Eu8, 0x20],
        bytes::text("(") == seq![0x28u8],
        bytes::text(" MiB)") == seq![0x20u8, 0x4D, 0x69, 0x42, 0x29],
{
    reveal_strlit(". ");
    reveal_strlit("(");
    reveal_strlit(" MiB)");
    vstd::string::is_ascii_spec_bytes(". ");
    vstd::string::is_ascii_spec_bytes("(");
    vstd::string::is_ascii_spec_bytes(" MiB)");
    assert(bytes::text(". ") =~= seq![0x2Eu8, 0x20]);
    assert(bytes::text("(") =~= seq![0x28u8]);
    assert(bytes::text(" MiB)") =~= seq![0x20u8, 0x4D, 0x69, 0x42, 0x29]);
}

#[verifier::opaque]
spec fn put_at(screen: Seq<u8>, cell: int, s: Seq<u8>) -> bool {
    forall|i: int| 0 <= i < s.len() ==> screen[2 * cell + 2 * i] == #[trigger] s[i]
}

#[verifier::opaque]
spec fn kept_outside(a: Seq<u8>, b: Seq<u8>, cell: int, n: int) -> bool {
    &&& a.len() == 4000
    &&& forall|k: int|
        0 <= k < 4000 && !(2 * cell <= k < 2 * (cell + n)) ==> #[trigger] a[k] == b[k]
}

proof fn print_puts(screen: Seq<u8>, row: int, col: int, s: Seq<u8>, attr: u8)
    requires
        screen.len() == 4000,
        0 <= row < 25,
        0 <= col,
        col + s.len() <= 80,
        col < 80,
        forall|k: int| 0 <= k < s.len() ==> #[trigger] s[k] != 0,
    ensures
        put_at(vga::printed(screen, row, col, s, attr), 80 * row + col, s),
        kept_outside(
            vga::printed(screen, row, col, s, attr),
            screen,
            80 * row + col,
            s.len() as int,
        ),
        vga::printed(screen, row, col, s, attr).len() == 4000,
{
    reveal(put_at);
    reveal(kept_outside);
    text_is_shown_in_its_place(screen, row, col, s, attr);
    let r = vga::printed(screen, row, col, s, attr);
    let at = 2 * (80 * row + col);
    assert forall|i: int| 0 <= i < s.len() implies r[2 * (80 * row + col) + 2 * i] == #[trigger] s[i] by {
        assert(r[at + 2 * i] == s[i]);
    }
}

proof fn put_stays(a: Seq<u8>, b: Seq<u8>, cell: int, s: Seq<u8>, other: int, n: int)
    requires
        put_at(a, cell, s),
        kept_outside(b, a, other, n),
        0 <= cell,
        cell + s.len() <= 2000,
        cell + s.len() <= other || other + n <= cell,
    ensures
        put_at(b, cell, s),
{
    reveal(put_at);
    reveal(kept_outside);
    assert forall|i: int| 0 <= i < s.len() implies b[2 * cell + 2 * i] == #[trigger] s[i] by {
        let k = 2 * cell + 2 * i;
        assert(a[2 * cell + 2 * i] == s[i]);
        assert(b[k] == a[k]);
    }
}

proof fn kept_in_row(a: Seq<u8>, b: Seq<u8>, c: Seq<u8>, row: int, cell: int, n: int)
    requires
        kept_outside(c, b, cell, n),
        same_but_row(b, a, row),
        80 * row <= cell,
        cell + n <= 80 * row + 80,
        b.len() == 4000,
    ensures
        same_but_row(c, a, row),
{
    reveal(kept_outside);
    assert forall|k: int| 0 <= k < c.len() && !(160 * row <= k < 160 * row + 160) implies #[trigger] c[k]
        == a[k] by {
        assert(c[k] == b[k]);
        assert(b[k] == a[k]);
    }
}

proof fn entry_is_drawn(screen: Seq<u8>, file: FileView, index: int, row: int)
    requires
        screen.len() == 4000,
        0 <= row < 25,
        0 <= index < 64,
        forall|k: int| 0 <= k < file.name.len() ==> #[trigger] file.name[k] != 0,
    ensures
        shows(menu::entry_drawn(screen, file, index, row), row, file, index),
        same_but_row(menu::entry_drawn(screen, file, index, row), screen, row),
{
    let number = digits::decimal((index + 1) as nat);
    let size = digits::decimal((file.size / 1048576) as nat);
    let name = if file.name.len() > 43 {
        file.name.take(43)
    } else {
        file.name
    };
    entry_shows_its_file(screen, file, index, row);
    entry_texts();
    no_nul((index + 1) as nat);
    no_nul((file.size / 1048576) as nat);
    digits::decimal_len_u64((file.size / 1048576) as u64);
    short_number((index + 1) as nat);
    assert forall|k: int| 0 <= k < name.len() implies #[trigger] name[k] != 0 by {
        assert(name[k] == file.name[k]);
    }
    let (dot, open, mib) = (bytes::text(". "), bytes::text("("), bytes::text(" MiB)"));
    let n = number.len() as int;
    let z = size.len() as int;
    let m = name.len() as int;
    let r = 80 * row;
    let a = vga::printed(screen, row, 1, number, 0x0A);
    let b = vga::printed(a, row, 1 + n, dot, 0x07);
    let c = vga::printed(b, row, 4, name, 0x07);
    let d = vga::printed(c, row, 50, open, 0x07);
    let e = vga::printed(d, row, 51, size, 0x07);
    let f = vga::printed(e, row, 51 + z, mib, 0x07);
    print_puts(screen, row, 1, number, 0x0A);
    print_puts(a, row, 1 + n, dot, 0x07);
    print_puts(b, row, 4, name, 0x07);
    print_puts(c, row, 50, open, 0x07);
    print_puts(d, row, 51, size, 0x07);
    print_puts(e, row, 51 + z, mib, 0x07);
    assert(menu::entry_drawn(screen, file, index, row) == f);
    pieces_are_put(screen, a, b, c, d, e, f, number, name, size, row);
    pieces_show(f, number, name, size, row, file, index);
}

proof fn short_number(v: nat)
    requires
        v < 100,
    ensures
        digits::decimal(v).len() <= 2,
{
    reveal_with_fuel(digits::decimal, 3);
}

proof fn pieces_are_put(
    screen: Seq<u8>,
    a: Seq<u8>,
    b: Seq<u8>,
    c: Seq<u8>,
    d: Seq<u8>,
    e: Seq<u8>,
    f: Seq<u8>,
    number: Seq<u8>,
    name: Seq<u8>,
    size: Seq<u8>,
    row: int,
)
    requires
        screen.len() == 4000,
        0 <= row < 25,
        number.len() <= 2,
        name.len() <= 43,
        size.len() <= 20,
        put_at(a, 80 * row + 1, number),
        put_at(c, 80 * row + 4, name),
        put_at(e, 80 * row + 51, size),
        kept_outside(a, screen, 80 * row + 1, number.len() as int),
        kept_outside(b, a, 80 * row + (1 + number.len() as int), 2),
        kept_outside(c, b, 80 * row + 4, name.len() as int),
        kept_outside(d, c, 80 * row + 50, 1),
        kept_outside(e, d, 80 * row + 51, size.len() as int),
        kept_outside(f, e, 80 * row + (51 + size.len() as int), 5),
        a.len() == 4000 && b.len() == 4000 && c.len() == 4000 && d.len() == 4000 && e.len() == 4000
            && f.len() == 4000,
    ensures
        put_at(f, 80 * row + 1, number),
        put_at(f, 80 * row + 4, name),
        put_at(f, 80 * row + 51, size),
        same_but_row(f, screen, row),
{
    let n = number.len() as int;
    let m = name.len() as int;
    let z = size.len() as int;
    let r = 80 * row;
    put_stays(a, b, r + 1, number, r + (1 + n), 2);
    put_stays(b, c, r + 1, number, r + 4, m);
    put_stays(c, d, r + 1, number, r + 50, 1);
    put_stays(d, e, r + 1, number, r + 51, z);
    put_stays(e, f, r + 1, number, r + (51 + z), 5);
    put_stays(c, d, r + 4, name, r + 50, 1);
    put_stays(d, e, r + 4, name, r + 51, z);
    put_stays(e, f, r + 4, name, r + (51 + z), 5);
    put_stays(e, f, r + 51, size, r + (51 + z), 5);
    assert(same_but_row(screen, screen, row));
    kept_in_row(screen, screen, a, row, r + 1, n);
    kept_in_row(screen, a, b, row, r + (1 + n), 2);
    kept_in_row(screen, b, c, row, r + 4, m);
    kept_in_row(screen, c, d, row, r + 50, 1);
    kept_in_row(screen, d, e, row, r + 51, z);
    kept_in_row(screen, e, f, row, r + (51 + z), 5);
}

proof fn pieces_show(
    f: Seq<u8>,
    number: Seq<u8>,
    name: Seq<u8>,
    size: Seq<u8>,
    row: int,
    file: FileView,
    index: int,
)
    requires
        put_at(f, 80 * row + 1, number),
        put_at(f, 80 * row + 4, name),
        put_at(f, 80 * row + 51, size),
        number == digits::decimal((index + 1) as nat),
        size == digits::decimal((file.size / 1048576) as nat),
        name == (if file.name.len() > 43 {
            file.name.take(43)
        } else {
            file.name
        }),
    ensures
        shows(f, row, file, index),
{
    reveal(put_at);
    assert forall|i: int| 0 <= i < number.len() implies f[2 * (80 * row + 1 + i)]
        == #[trigger] number[i] by {
        assert(f[2 * (80 * row + 1) + 2 * i] == number[i]);
    }
    assert forall|i: int| 0 <= i < file.name.len() && i < 43 implies f[2 * (80 * row + 4 + i)]
        == #[trigger] file.name[i] by {
        assert(name[i] == file.name[i]);
        assert(f[2 * (80 * row + 4) + 2 * i] == name[i]);
    }
    assert forall|i: int| 0 <= i < size.len() implies f[2 * (80 * row + 51 + i)]
        == #[trigger] size[i] by {
        assert(f[2 * (80 * row + 51) + 2 * i] == size[i]);
    }
}

proof fn other_rows_still_show(
    a: Seq<u8>,
    b: Seq<u8>,
    row: int,
    other: int,
    file: FileView,
    index: int,
)
    requires
        a.len() == 4000,
        shows(a, row, file, index),
        same_but_row(b, a, other),
        0 <= row < 25,
        other != row,
        0 <= index < 64,
    ensures
        shows(b, row, file, index),
{
    let number = digits::decimal((index + 1) as nat);
    let size = digits::decimal((file.size / 1048576) as nat);
    digits::decimal_len_u64((file.size / 1048576) as u64);
    digits::decimal_len_u64((index + 1) as u64);
    assert forall|i: int| 0 <= i < number.len() implies b[2 * (80 * row + 1 + i)]
        == #[trigger] number[i] by {
        let k = 2 * (80 * row + 1 + i);
        assert(b[k] == a[k]);
    }
    assert forall|i: int| 0 <= i < file.name.len() && i < 43 implies b[2 * (80 * row + 4 + i)]
        == #[trigger] file.name[i] by {
        let k = 2 * (80 * row + 4 + i);
        assert(b[k] == a[k]);
    }
    assert forall|i: int| 0 <= i < size.len() implies b[2 * (80 * row + 51 + i)]
        == #[trigger] size[i] by {
        let k = 2 * (80 * row + 51 + i);
        assert(b[k] == a[k]);
    }
}

proof fn entries_are_drawn(screen: Seq<u8>, files: Seq<DirEntry>, from: int, to: int, k: int)
    requires
        screen.len() == 4000,
        0 <= from <= to <= files.len(),
        to <= from + 16,
        to <= 64,
        forall|j: int, i: int|
            from <= j < to && 0 <= i < files[j]@.name.len() ==> #[trigger] files[j]@.name[i] != 0,
    ensures
        menu::entries_drawn(screen, files, from, to).len() == 4000,
        from <= k < to ==> shows(
            menu::entries_drawn(screen, files, from, to),
            3 + (k - from),
            files[k]@,
            k,
        ),
    decreases to - from,
{
    if from < to {
        let before = menu::entries_drawn(screen, files, from, to - 1);
        entries_are_drawn(screen, files, from, to - 1, k);
        let row = 3 + (to - 1 - from);
        let file = files[to - 1]@;
        assert forall|i: int| 0 <= i < file.name.len() implies #[trigger] file.name[i] != 0 by {
            assert(files[to - 1]@.name[i] != 0);
        }
        entry_is_drawn(before, file, to - 1, row);
        let after = menu::entry_drawn(before, file, to - 1, row);
        assert(menu::entries_drawn(screen, files, from, to) == after);
        if from <= k < to - 1 {
            other_rows_still_show(before, after, 3 + (k - from), row, files[k]@, k);
        }
    }
}

/// A page of the boot menu shows sixteen files one below the other, each with the
/// number to type, its name and its size.
pub proof fn page_shows_its_files(files: Seq<DirEntry>, count: int, page_start: int, k: int)
    requires
        0 <= page_start <= k < count <= 64,
        count <= files.len(),
        k < page_start + 16,
        forall|j: int, i: int|
            0 <= j < count && 0 <= i < files[j]@.name.len() ==> #[trigger] files[j]@.name[i] != 0,
    ensures
        shows(menu::page(files, count, page_start), 3 + (k - page_start), files[k]@, k),
{
    reveal_strlit("=== Choosable ISO Boot Menu ===");
    reveal_strlit("Enter number, n/p page, r refresh: ");
    vstd::string::is_ascii_spec_bytes("=== Choosable ISO Boot Menu ===");
    vstd::string::is_ascii_spec_bytes("Enter number, n/p page, r refresh: ");
    let title = vga::shown(
        vga::blank(0x07),
        Notice { row: 0, col: 8, text: "=== Choosable ISO Boot Menu ===", attr: 0x1F },
    );
    let end = bytes::min_int(page_start + 16, count);
    let drawn = menu::entries_drawn(title, files, page_start, end);
    entries_are_drawn(title, files, page_start, end, k);
    let prompt = bytes::text("Enter number, n/p page, r refresh: ");
    assert(prompt.len() == 35);
    assert forall|i: int| 0 <= i < prompt.len() implies #[trigger] prompt[i] != 0 by {}
    text_is_shown_in_its_place(drawn, 21, 1, prompt, 0x07);
    let p = menu::page(files, count, page_start);
    assert(p == vga::printed(drawn, 21, 1, prompt, 0x07));
    assert(same_but_row(p, drawn, 21));
    other_rows_still_show(drawn, p, 3 + (k - page_start), 21, files[k]@, k);
}

// ---------------------------------------------------------------------------
// Window
// ---------------------------------------------------------------------------

/// What is clicked is done to the disk that is selected, with what is set in the
/// window.
pub proof fn clicks_work_on_the_selected_disk(a: AppView, i: usize)
    requires
        a.selected == Some(i),
        i < a.disks.len(),
    ensures
        ({
            let (after, work) = gui::updated(a, Message::InstallClicked);
            &&& after.loading && after == (AppView { loading: true, status: after.status, ..a })
            &&& work matches WorkView::Install {
                disk_path,
                gpt,
                secure_boot,
                force,
                label,
                fs_type,
                non_destructive,
                reserve,
            } && {
                &&& disk_path == a.disks[i as int].path@
                &&& gpt == a.use_gpt
                &&& secure_boot == a.secure_boot
                &&& force == a.force
                &&& label == a.label
                &&& fs_type == a.fs_type
                &&& non_destructive == a.non_destructive
                &&& text::number(a.reserve_space, u64::MAX as int) matches Some(n) ==> reserve == n
                &&& text::number(a.reserve_space, u64::MAX as int) is None ==> reserve == 0
            }
        }),
        gui::updated(a, Message::UpdateClicked).1 == (WorkView::Update {
            disk_path: a.disks[i as int].path@,
            secure_boot: Some(a.secure_boot),
        }),
        gui::updated(a, Message::ListClicked).1 == (WorkView::List {
            disk_path: a.disks[i as int].path@,
        }),
        gui::updated(a, Message::UpdateClicked).0.loading,
        gui::updated(a, Message::ListClicked).0.loading,
{
}

/// Without a selected disk nothing is done. Setting something in the window sets just
/// that.
pub proof fn settings_are_set_one_by_one(a: AppView, v: bool, s: String, fs: gui::FsType)
    ensures
        a.selected is None ==> gui::updated(a, Message::InstallClicked).1 is Nothing && gui::updated(
            a,
            Message::UpdateClicked,
        ).1 is Nothing && gui::updated(a, Message::ListClicked).1 is Nothing,
        gui::updated(a, Message::ToggleGpt(v)) == (
            AppView { use_gpt: v, ..a },
            WorkView::Nothing,
        ),
        gui::updated(a, Message::ToggleSecureBoot(v)) == (
            AppView { secure_boot: v, ..a },
            WorkView::Nothing,
        ),
        gui::updated(a, Message::ToggleForce(v)) == (AppView { force: v, ..a }, WorkView::Nothing),
        gui::updated(a, Message::NonDestructiveToggled(v)) == (
            AppView { non_destructive: v, ..a },
            WorkView::Nothing,
        ),
        gui::updated(a, Message::LabelChanged(s)) == (
            AppView { label: s@, ..a },
            WorkView::Nothing,
        ),
        gui::updated(a, Message::ReserveSpaceChanged(s)) == (
            AppView { reserve_space: s@, ..a },
            WorkView::Nothing,
        ),
        gui::updated(a, Message::FsTypeChanged(fs)) == (
            AppView { fs_type: fs, ..a },
            WorkView::Nothing,
        ),
        gui::updated(a, Message::StatusMessage(s)) == (
            AppView { loading: false, status: s@, ..a },
            WorkView::Nothing,
        ),
{
}

/// When the disks have been listed, a selection that still has a disk stays, and else
/// the first disk is selected.
pub proof fn selection_stays_on_a_disk(a: AppView, disks: Vec<DiskEntry>)
    ensures
        ({
            let (after, work) = gui::updated(a, Message::DisksLoaded(disks));
            &&& work is Nothing
            &&& !after.loading
            &&& after.disks == disks@
            &&& disks@.len() == 0 ==> after.selected is None
            &&& disks@.len() > 0 && a.selected is Some && a.selected->0 < disks@.len()
                ==> after.selected == a.selected
            &&& disks@.len() > 0 && !(a.selected is Some && a.selected->0 < disks@.len())
                ==> after.selected == Some(0usize)
        }),
        gui::updated(a, Message::RefreshDisks).1 is RefreshDisks,
        gui::updated(a, Message::RefreshDisks).0.loading,
{
}

/// What is chosen in the window is what is installed.
pub proof fn chosen_filesystem_is_installed()
    ensures
        gui::installer_fs(gui::FsType::ExFat) == FilesystemType::ExFat,
        gui::installer_fs(gui::FsType::Ntfs) == FilesystemType::Ntfs,
        gui::installer_fs(gui::FsType::Fat32) == FilesystemType::Fat32,
{
}

// ---------------------------------------------------------------------------
// Checksum
// ---------------------------------------------------------------------------

/// The remainder after `n` more bits, the lowest first, of a division by the
/// polynomial of CRC-32.
pub open spec fn divided(c: u32, n: nat) -> u32
    decreases n,
{
    if n == 0 {
        c
    } else {
        let d = divided(c, (n - 1) as nat);
        if d % 2 == 1 {
            (d / 2) ^ 0xEDB8_8320
        } else {
            d / 2
        }
    }
}

proof fn bits_are_divided(c: u32, n: nat, m: nat)
    ensures
        installer::crc_bits(divided(c, m), n) == divided(c, m + n),
    decreases n,
{
    if n > 0 {
        bits_are_divided(c, (n - 1) as nat, m + 1);
        assert(divided(c, m + 1) == (if divided(c, m) % 2 == 1 {
            (divided(c, m) / 2) ^ 0xEDB8_8320
        } else {
            divided(c, m) / 2
        }));
    }
}

/// A checksum is taken byte by byte: each byte is added to the complement of what the
/// checksum was, and the sum divided by the polynomial eight times over.
pub proof fn checksum_is_taken_byte_by_byte(data: Seq<u8>, b: u8)
    ensures
        !installer::crc32(data.push(b)) == divided(!installer::crc32(data) ^ (b as u32), 8),
        installer::crc32(Seq::empty()) == 0,
{
    reveal(installer::crc32);
    assert(data.push(b).drop_last() =~= data);
    let r = installer::crc_remainder(data);
    let s = installer::crc_remainder(data.push(b));
    assert(!(!r) == r) by (bit_vector);
    assert(!(!s) == s) by (bit_vector);
    assert(!0xFFFF_FFFFu32 == 0u32) by (bit_vector);
    bits_are_divided(r ^ (b as u32), 8, 0);
}

} // verus!
