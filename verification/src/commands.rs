//! The commands that an installation runs, and what comes of them.

use vstd::prelude::*;
use crate::disk;
use crate::error;
use crate::error::{ChoosableError, ErrorView, Result};
use crate::installer::FilesystemType;
use crate::text;
use crate::text::{join2, join3, number_text, push_str, str_eq, trim};

verus! {

/// A command with its arguments.
pub struct ShellCommand {
    pub cmd: String,
    pub args: Vec<String>,
}

#[verifier::ext_equal]
pub struct CommandView {
    pub cmd: Seq<char>,
    pub args: Seq<Seq<char>>,
}

impl View for ShellCommand {
    type V = CommandView;

    open spec fn view(&self) -> CommandView {
        CommandView { cmd: self.cmd@, args: text::string_views(self.args@) }
    }
}

pub open spec fn command_views(v: Seq<ShellCommand>) -> Seq<CommandView> {
    Seq::new(v.len(), |i: int| v[i]@)
}

pub open spec fn command(cmd: Seq<char>, args: Seq<Seq<char>>) -> CommandView {
    CommandView { cmd, args }
}

#[verifier::loop_isolation(false)]
fn make(cmd: &str, args: &[&str]) -> (r: ShellCommand)
    ensures
        r@ == command(cmd@, text::str_views(args@)),
{
    let mut v: Vec<String> = Vec::new();
    let mut i: usize = 0;
    while i < args.len()
        invariant
            i <= args@.len(),
            v@.len() == i,
            forall|k: int| 0 <= k < i ==> (#[trigger] v@[k])@ == args@[k]@,
        decreases args@.len() - i,
    {
        v.push(args[i].to_owned());
        i += 1;
    }
    let c: ShellCommand = ShellCommand { cmd: cmd.to_owned(), args: v };
    assert(text::string_views(c.args@) =~= text::str_views(args@));
    c
}

fn push_command(out: &mut Vec<ShellCommand>, c: ShellCommand)
    ensures
        command_views(final(out)@) == command_views(old(out)@).push(c@),
{
    let ghost before = out@;
    let ghost v = c@;
    out.push(c);
    assert(command_views(out@) =~= command_views(before).push(v));
}

pub open spec fn text_result(r: Result<String>) -> std::result::Result<Seq<char>, ErrorView> {
    match r {
        Ok(s) => Ok(s@),
        Err(e) => Err(e@),
    }
}

// ---------------------------------------------------------------------------
// Running
// ---------------------------------------------------------------------------

/// What came of a command: the system could not start it, and said why, or it
/// ended.
pub enum Ran {
    NotStarted(String),
    Ended { success: bool, code: Option<i32> },
}

/// An exit code as it is told.
pub open spec fn code_text(code: Option<i32>) -> Seq<char> {
    match code {
        None => "None"@,
        Some(c) => if c < 0 {
            "Some(-"@ + text::numeral((-c) as nat) + ")"@
        } else {
            "Some("@ + text::numeral(c as nat) + ")"@
        },
    }
}

fn exit_code_text(code: Option<i32>) -> (r: String)
    ensures
        r@ == code_text(code),
{
    match code {
        None => "None".to_owned(),
        Some(c) => {
            let wide: i64 = c as i64;
            if wide < 0 {
                let n: String = number_text((-wide) as u64);
                join3("Some(-", &n, ")")
            } else {
                let n: String = number_text(wide as u64);
                join3("Some(", &n, ")")
            }
        },
    }
}

/// What comes of a command that has to work.
pub fn run_cmd(cmd: &str, ran: &Ran) -> (r: Result<()>)
    ensures
        error::outcome(r) == (match *ran {
            Ran::NotStarted(e) => Err::<(), ErrorView>(
                ErrorView::ToolNotFound(cmd@ + ": "@ + e@),
            ),
            Ran::Ended { success, code } => if success {
                Ok(())
            } else {
                Err(ErrorView::Generic(cmd@ + " failed with code "@ + code_text(code)))
            },
        }),
{
    match ran {
        Ran::NotStarted(e) => Err(ChoosableError::ToolNotFound(join3(cmd, ": ", e))),
        Ran::Ended { success, code } => {
            if *success {
                return Ok(());
            }
            let c: String = exit_code_text(*code);
            Err(ChoosableError::Generic(join3(cmd, " failed with code ", &c)))
        },
    }
}

// ---------------------------------------------------------------------------
// Shrinking
// ---------------------------------------------------------------------------

/// The filesystem of a partition, by the output of the command that tells it:
/// `None` where the command could not be started.
pub fn detect_partition_fs(output: Option<(bool, &str)>) -> (r: Result<String>)
    ensures
        text_result(r) == (match output {
            None => Err::<Seq<char>, ErrorView>(ErrorView::ToolNotFound("blkid"@)),
            Some((success, out)) => if success {
                Ok(text::lower(text::trimmed(out@)))
            } else {
                Err(ErrorView::UnsupportedFilesystem("Cannot detect filesystem"@))
            },
        }),
{
    match output {
        None => Err(ChoosableError::ToolNotFound("blkid".to_owned())),
        Some((success, out)) => {
            if success {
                let name: String = trim(out).to_lowercase();
                assert(name@ == text::lower(text::trimmed(out@)));
                Ok(name)
            } else {
                Err(ChoosableError::UnsupportedFilesystem("Cannot detect filesystem".to_owned()))
            }
        },
    }
}

/// The commands that shrink a filesystem to some MiB.
pub open spec fn shrinking(fs: Seq<char>, part: Seq<char>, mb: u64) -> std::result::Result<
    Seq<CommandView>,
    ErrorView,
> {
    let size = text::numeral(mb as nat) + "M"@;
    if fs == "ntfs"@ {
        Ok(
            seq![
                command("ntfsfix"@, seq!["-b"@, "-d"@, part]),
                command("ntfsresize"@, seq!["-f"@, "--size"@, size, part]),
            ],
        )
    } else if fs == "ext4"@ || fs == "ext3"@ || fs == "ext2"@ {
        Ok(
            seq![
                command("e2fsck"@, seq!["-f"@, part]),
                command("resize2fs"@, seq![part, size]),
            ],
        )
    } else {
        Err(ErrorView::UnsupportedFilesystem("Cannot shrink filesystem type: "@ + fs))
    }
}

pub open spec fn commands_result(r: Result<Vec<ShellCommand>>) -> std::result::Result<
    Seq<CommandView>,
    ErrorView,
> {
    match r {
        Ok(v) => Ok(command_views(v@)),
        Err(e) => Err(e@),
    }
}

pub fn shrink_commands(fs: &str, part: &str, mb: u64) -> (r: Result<Vec<ShellCommand>>)
    ensures
        commands_result(r) == shrinking(fs@, part@, mb),
{
    let mut size: String = number_text(mb);
    push_str(&mut size, "M");
    let mut out: Vec<ShellCommand> = Vec::new();
    assert(command_views(out@) =~= Seq::empty());
    if str_eq(fs, "ntfs") {
        let a: [&str; 3] = ["-b", "-d", part];
        let b: [&str; 4] = ["-f", "--size", &size, part];
        push_command(&mut out, make("ntfsfix", &a));
        push_command(&mut out, make("ntfsresize", &b));
        assert(text::str_views(a@) =~= seq!["-b"@, "-d"@, part@]);
        assert(text::str_views(b@) =~= seq!["-f"@, "--size"@, size@, part@]);
        assert(command_views(out@) =~= shrinking(fs@, part@, mb)->Ok_0);
        Ok(out)
    } else if str_eq(fs, "ext4") || str_eq(fs, "ext3") || str_eq(fs, "ext2") {
        let a: [&str; 2] = ["-f", part];
        let b: [&str; 2] = [part, &size];
        push_command(&mut out, make("e2fsck", &a));
        push_command(&mut out, make("resize2fs", &b));
        assert(text::str_views(a@) =~= seq!["-f"@, part@]);
        assert(text::str_views(b@) =~= seq![part@, size@]);
        assert(command_views(out@) =~= shrinking(fs@, part@, mb)->Ok_0);
        Ok(out)
    } else {
        Err(
            ChoosableError::UnsupportedFilesystem(join2("Cannot shrink filesystem type: ", fs)),
        )
    }
}

// ---------------------------------------------------------------------------
// Formatting
// ---------------------------------------------------------------------------

/// The cluster size of an exFAT partition, in sectors: larger above 32 GiB.
pub open spec fn cluster_sectors(part_sectors: u64) -> &'static str {
    if part_sectors / 0x20_0000 > 32 {
        "256"
    } else {
        "64"
    }
}

/// The commands that format partition 1, to be tried in turn.
pub open spec fn formatting(
    fs: FilesystemType,
    part: Seq<char>,
    label: Seq<char>,
    part_sectors: u64,
) -> Seq<CommandView> {
    match fs {
        FilesystemType::ExFat => seq![
            command(
                "mkexfatfs"@,
                seq!["-n"@, label, "-s"@, cluster_sectors(part_sectors)@, part],
            ),
            command("mkfs.exfat"@, seq!["-n"@, label, part]),
            command("/usr/sbin/mkfs.exfat"@, seq!["-n"@, label, part]),
        ],
        FilesystemType::Fat32 => seq![
            command("mkfs.vfat"@, seq!["-n"@, label, "-F"@, "32"@, part]),
        ],
        FilesystemType::Ntfs => seq![command("mkfs.ntfs"@, seq!["-f"@, "-L"@, label, part])],
    }
}

/// The commands that format partition 1, to be tried in turn. The size of the
/// partition matters for exFAT only.
pub fn format_commands(fs: FilesystemType, part: &str, label: &str, part_sectors: u64) -> (r: Vec<
    ShellCommand,
>)
    ensures
        command_views(r@) == formatting(fs, part@, label@, part_sectors),
{
    let mut out: Vec<ShellCommand> = Vec::new();
    assert(command_views(out@) =~= Seq::empty());
    match fs {
        FilesystemType::ExFat => {
            let clusters: &'static str = if part_sectors / 0x20_0000 > 32 {
                "256"
            } else {
                "64"
            };
            let a: [&str; 5] = ["-n", label, "-s", clusters, part];
            let b: [&str; 3] = ["-n", label, part];
            push_command(&mut out, make("mkexfatfs", &a));
            push_command(&mut out, make("mkfs.exfat", &b));
            push_command(&mut out, make("/usr/sbin/mkfs.exfat", &b));
            assert(text::str_views(a@) =~= seq!["-n"@, label@, "-s"@, clusters@, part@]);
            assert(text::str_views(b@) =~= seq!["-n"@, label@, part@]);
        },
        FilesystemType::Fat32 => {
            let a: [&str; 5] = ["-n", label, "-F", "32", part];
            push_command(&mut out, make("mkfs.vfat", &a));
            assert(text::str_views(a@) =~= seq!["-n"@, label@, "-F"@, "32"@, part@]);
        },
        FilesystemType::Ntfs => {
            let a: [&str; 4] = ["-f", "-L", label, part];
            push_command(&mut out, make("mkfs.ntfs", &a));
            assert(text::str_views(a@) =~= seq!["-f"@, "-L"@, label@, part@]);
        },
    }
    assert(command_views(out@) =~= formatting(fs, part@, label@, part_sectors));
    out
}

/// How many commands there are to format a filesystem.
pub open spec fn formatter_count(fs: FilesystemType) -> int {
    match fs {
        FilesystemType::ExFat => 3,
        _ => 1,
    }
}

/// What is done after a command to format.
pub enum FormatStep {
    Done,
    TryNext,
    Fail(ChoosableError),
}

pub enum FormatStepView {
    Done,
    TryNext,
    Fail(ErrorView),
}

impl View for FormatStep {
    type V = FormatStepView;

    open spec fn view(&self) -> FormatStepView {
        match *self {
            FormatStep::Done => FormatStepView::Done,
            FormatStep::TryNext => FormatStepView::TryNext,
            FormatStep::Fail(e) => FormatStepView::Fail(e@),
        }
    }
}

pub open spec fn after_format(fs: FilesystemType, tried: int, ran: Ran) -> FormatStepView {
    match ran {
        Ran::Ended { success: true, .. } => FormatStepView::Done,
        _ => match fs {
            FilesystemType::ExFat => if tried + 1 < formatter_count(fs) {
                FormatStepView::TryNext
            } else {
                FormatStepView::Fail(ErrorView::FormatFailed)
            },
            FilesystemType::Fat32 => match ran {
                Ran::NotStarted(e) => FormatStepView::Fail(
                    ErrorView::ToolNotFound("mkfs.vfat: "@ + e@),
                ),
                _ => FormatStepView::Fail(ErrorView::FormatFailed),
            },
            FilesystemType::Ntfs => match ran {
                Ran::NotStarted(e) => FormatStepView::Fail(
                    ErrorView::ToolNotFound("mkfs.ntfs: "@ + e@),
                ),
                _ => FormatStepView::Fail(ErrorView::FormatFailed),
            },
        },
    }
}

/// What is done after command `tried` to format partition 1.
pub fn format_partition(fs: FilesystemType, tried: usize, ran: &Ran) -> (r: FormatStep)
    ensures
        r@ == after_format(fs, tried as int, *ran),
{
    if let Ran::Ended { success: true, .. } = ran {
        return FormatStep::Done;
    }
    match fs {
        FilesystemType::ExFat => if tried < 2 {
            FormatStep::TryNext
        } else {
            FormatStep::Fail(ChoosableError::FormatFailed)
        },
        FilesystemType::Fat32 => match ran {
            Ran::NotStarted(e) => FormatStep::Fail(
                ChoosableError::ToolNotFound(join2("mkfs.vfat: ", e)),
            ),
            _ => FormatStep::Fail(ChoosableError::FormatFailed),
        },
        FilesystemType::Ntfs => match ran {
            Ran::NotStarted(e) => FormatStep::Fail(
                ChoosableError::ToolNotFound(join2("mkfs.ntfs: ", e)),
            ),
            _ => FormatStep::Fail(ChoosableError::FormatFailed),
        },
    }
}

/// How often the EFI partition is tried to be formatted.
pub const EFI_FORMAT_ATTEMPTS: u32 = 10;

/// What came of formatting the EFI partition.
#[derive(Clone, Copy, PartialEq, Eq, Structural, Debug)]
pub enum EfiFormat {
    Success,
    /// The tool is not there.
    NoTool,
    Failed,
}

pub open spec fn after_efi_format(attempt: int, ran: EfiFormat) -> FormatStepView {
    match ran {
        EfiFormat::Success => FormatStepView::Done,
        EfiFormat::NoTool => FormatStepView::Fail(ErrorView::ToolNotFound("mkfs.vfat"@)),
        EfiFormat::Failed => if attempt + 1 < EFI_FORMAT_ATTEMPTS {
            FormatStepView::TryNext
        } else {
            FormatStepView::Fail(ErrorView::FormatFailed)
        },
    }
}

/// What is done after attempt `attempt` to format the EFI partition.
pub fn format_efi_partition(attempt: u32, ran: EfiFormat) -> (r: FormatStep)
    ensures
        r@ == after_efi_format(attempt as int, ran),
{
    match ran {
        EfiFormat::Success => FormatStep::Done,
        EfiFormat::NoTool => FormatStep::Fail(
            ChoosableError::ToolNotFound("mkfs.vfat".to_owned()),
        ),
        EfiFormat::Failed => if attempt < EFI_FORMAT_ATTEMPTS - 1 {
            FormatStep::TryNext
        } else {
            FormatStep::Fail(ChoosableError::FormatFailed)
        },
    }
}

/// The command that formats the EFI partition.
pub open spec fn efi_formatting(part: Seq<char>) -> CommandView {
    command("mkfs.vfat"@, seq!["-F"@, "16"@, "-n"@, "CZBLEFI"@, "-s"@, "1"@, part])
}

pub fn efi_format_command(disk_path: &str) -> (r: ShellCommand)
    ensures
        r@ == efi_formatting(disk::partition_name(disk_path@, 2)),
{
    let part: String = disk::get_partition_name(disk_path, 2);
    let a: [&str; 7] = ["-F", "16", "-n", "CZBLEFI", "-s", "1", &part];
    assert(text::str_views(a@) =~= seq!["-F"@, "16"@, "-n"@, "CZBLEFI"@, "-s"@, "1"@, part@]);
    make("mkfs.vfat", &a)
}

// ---------------------------------------------------------------------------
// Telling the system
// ---------------------------------------------------------------------------

/// The commands that tell the kernel of changed partitions, before udev goes
/// on.
pub open spec fn kernel_notice(disk: Seq<char>) -> Seq<CommandView> {
    seq![command("sync"@, Seq::empty()), command("partx"@, seq!["-u"@, disk])]
}

/// The commands that have udev look at the disk.
pub open spec fn udev_notice(disk: Seq<char>) -> Seq<CommandView> {
    seq![
        command("udevadm"@, seq!["trigger"@, "--action=change"@, "--name-match"@, disk]),
        command("udevadm"@, seq!["settle"@]),
    ]
}

pub fn notify_kernel_before_udev(disk_path: &str) -> (r: Vec<ShellCommand>)
    ensures
        command_views(r@) == kernel_notice(disk_path@),
{
    let mut out: Vec<ShellCommand> = Vec::new();
    let none: [&str; 0] = [];
    let a: [&str; 2] = ["-u", disk_path];
    push_command(&mut out, make("sync", &none));
    push_command(&mut out, make("partx", &a));
    assert(text::str_views(none@) =~= Seq::empty());
    assert(text::str_views(a@) =~= seq!["-u"@, disk_path@]);
    assert(command_views(out@) =~= kernel_notice(disk_path@));
    out
}

pub fn notify_kernel_after_udev(disk_path: &str) -> (r: Vec<ShellCommand>)
    ensures
        command_views(r@) == udev_notice(disk_path@),
{
    let mut out: Vec<ShellCommand> = Vec::new();
    let a: [&str; 4] = ["trigger", "--action=change", "--name-match", disk_path];
    let b: [&str; 1] = ["settle"];
    push_command(&mut out, make("udevadm", &a));
    push_command(&mut out, make("udevadm", &b));
    assert(text::str_views(a@) =~= seq![
        "trigger"@,
        "--action=change"@,
        "--name-match"@,
        disk_path@,
    ]);
    assert(text::str_views(b@) =~= seq!["settle"@]);
    assert(command_views(out@) =~= udev_notice(disk_path@));
    out
}

/// All commands that tell the system of changed partitions.
pub fn notify_kernel(disk_path: &str) -> (r: Vec<ShellCommand>)
    ensures
        command_views(r@) == kernel_notice(disk_path@) + udev_notice(disk_path@),
{
    let mut out: Vec<ShellCommand> = notify_kernel_before_udev(disk_path);
    let mut more: Vec<ShellCommand> = notify_kernel_after_udev(disk_path);
    let ghost a = out@;
    let ghost b = more@;
    out.append(&mut more);
    assert(command_views(out@) =~= command_views(a) + command_views(b));
    out
}

// ---------------------------------------------------------------------------
// The EFI partition
// ---------------------------------------------------------------------------

/// A change to the EFI partition.
#[derive(Clone, Copy)]
pub enum EspStep {
    /// Rename a file in EFI/BOOT.
    Rename(&'static str, &'static str),
    /// Remove a file in EFI/BOOT.
    Remove(&'static str),
    /// Remove a file in the root directory.
    RemoveFromRoot(&'static str),
}

pub open spec fn names_contain(names: Seq<String>, name: Seq<char>) -> bool {
    exists|i: int| 0 <= i < names.len() && (#[trigger] names[i])@ == name
}

/// Whether the EFI partition supports secure boot, by the names in EFI/BOOT;
/// `None` where they cannot be read.
#[verifier::loop_isolation(false)]
pub fn check_choosable_secure_boot(names: Option<&Vec<String>>) -> (r: bool)
    ensures
        r == (names matches Some(v) && names_contain(v@, "grubx64_real.efi"@)),
{
    let v: &Vec<String> = match names {
        None => {
            return false;
        },
        Some(v) => v,
    };
    let mut i: usize = 0;
    while i < v.len()
        invariant
            i <= v@.len(),
            forall|k: int| 0 <= k < i ==> (#[trigger] v@[k])@ != "grubx64_real.efi"@,
        decreases v@.len() - i,
    {
        if str_eq(&v[i], "grubx64_real.efi") {
            assert(v@[i as int]@ == "grubx64_real.efi"@);
            return true;
        }
        i += 1;
    }
    false
}

/// The changes that take secure boot off the EFI partition.
pub open spec fn without_secure_boot() -> Seq<EspStep> {
    seq![
        EspStep::Rename("grubx64_real.efi", "BOOTX64.EFI"),
        EspStep::Rename("grubia32_real.efi", "BOOTIA32.EFI"),
        EspStep::Remove("grubx64.efi"),
        EspStep::Remove("MokManager.efi"),
        EspStep::Remove("mmx64.efi"),
        EspStep::Remove("grubia32.efi"),
        EspStep::Remove("mmia32.efi"),
        EspStep::RemoveFromRoot("ENROLL_THIS_KEY_IN_MOKMANAGER.cer"),
    ]
}

/// The changes to the EFI partition: none where secure boot stays, or where
/// there is none.
pub fn process_secure_boot_esp(enable_secure_boot: bool, names: Option<&Vec<String>>) -> (r: Vec<
    EspStep,
>)
    ensures
        r@ == (if !enable_secure_boot && (names matches Some(v) && names_contain(
            v@,
            "grubx64_real.efi"@,
        )) {
            without_secure_boot()
        } else {
            Seq::empty()
        }),
{
    let mut out: Vec<EspStep> = Vec::new();
    if enable_secure_boot || !check_choosable_secure_boot(names) {
        return out;
    }
    out.push(EspStep::Rename("grubx64_real.efi", "BOOTX64.EFI"));
    out.push(EspStep::Rename("grubia32_real.efi", "BOOTIA32.EFI"));
    out.push(EspStep::Remove("grubx64.efi"));
    out.push(EspStep::Remove("MokManager.efi"));
    out.push(EspStep::Remove("mmx64.efi"));
    out.push(EspStep::Remove("grubia32.efi"));
    out.push(EspStep::Remove("mmia32.efi"));
    out.push(EspStep::RemoveFromRoot("ENROLL_THIS_KEY_IN_MOKMANAGER.cer"));
    assert(out@ =~= without_secure_boot());
    out
}

/// The version that is installed from: of the file that tells it, if it could
/// be read.
pub fn get_current_version(content: Option<&str>) -> (r: String)
    ensures
        r@ == (match content {
            Some(s) => text::trimmed(s@),
            None => "Unknown"@,
        }),
{
    match content {
        Some(s) => trim(s).to_owned(),
        None => "Unknown".to_owned(),
    }
}

} // verus!
