//! Commands, lists, the command line and the graphical interface.

use choosable::cli::{
    launch_mode, request, runtime_dir, uid_of_status, Commands, LaunchMode, Request,
};
use choosable::commands::{
    check_choosable_secure_boot, detect_partition_fs, efi_format_command, format_commands,
    format_efi_partition, format_partition, get_current_version, notify_kernel,
    process_secure_boot_esp, run_cmd, shrink_commands, EfiFormat, EspStep, FormatStep, Ran,
    ShellCommand,
};
use choosable::disk::{enumerate_disks, BlockDevice};
use choosable::error::ChoosableError;
use choosable::gui::{
    format_result, fs_type_to_installer, list_result, ChoosableApp, DiskEntry, FsType, Message,
    Work,
};
use choosable::installer::FilesystemType;
use choosable::listing::{list_choosable, list_disks, Installed};

fn message<T>(r: Result<T, ChoosableError>) -> String {
    match r {
        Ok(_) => String::new(),
        Err(e) => e.message(),
    }
}

fn line(c: &ShellCommand) -> String {
    format!("{} {}", c.cmd, c.args.join(" "))
}

#[test]
fn a_command_that_failed_is_named() {
    assert!(run_cmd("e2fsck", &Ran::Ended { success: true, code: Some(0) }).is_ok());
    assert_eq!(
        message(run_cmd("e2fsck", &Ran::Ended { success: false, code: Some(8) })),
        "e2fsck failed with code Some(8)",
    );
    assert_eq!(
        message(run_cmd("e2fsck", &Ran::Ended { success: false, code: Some(-1) })),
        "e2fsck failed with code Some(-1)",
    );
    assert_eq!(
        message(run_cmd("e2fsck", &Ran::Ended { success: false, code: None })),
        "e2fsck failed with code None",
    );
    assert_eq!(
        message(run_cmd("e2fsck", &Ran::NotStarted(String::from("gone")))),
        "Required tool not found: e2fsck: gone",
    );
}

#[test]
fn filesystems_are_detected() {
    assert!(matches!(detect_partition_fs(Some((true, " NTFS\n"))), Ok(s) if s == "ntfs"));
    assert_eq!(message(detect_partition_fs(None)), "Required tool not found: blkid");
    assert_eq!(
        message(detect_partition_fs(Some((false, "")))),
        "Unsupported filesystem in partition 1: Cannot detect filesystem",
    );
}

#[test]
fn filesystems_are_shrunk_by_their_tools() {
    let lines = |fs: &str| -> Vec<String> {
        match shrink_commands(fs, "/dev/sdb1", 991) {
            Ok(v) => v.iter().map(line).collect(),
            Err(e) => vec![e.message()],
        }
    };
    assert_eq!(
        lines("ntfs"),
        vec!["ntfsfix -b -d /dev/sdb1", "ntfsresize -f --size 991M /dev/sdb1"],
    );
    assert_eq!(lines("ext3"), vec!["e2fsck -f /dev/sdb1", "resize2fs /dev/sdb1 991M"]);
    assert_eq!(
        lines("vfat"),
        vec!["Unsupported filesystem in partition 1: Cannot shrink filesystem type: vfat"],
    );
}

#[test]
fn partitions_are_formatted_by_their_tools() {
    let lines = |fs: FilesystemType, sectors: u64| -> Vec<String> {
        format_commands(fs, "/dev/sdb1", "L", sectors).iter().map(line).collect()
    };
    assert_eq!(
        lines(FilesystemType::ExFat, 1000),
        vec![
            "mkexfatfs -n L -s 64 /dev/sdb1",
            "mkfs.exfat -n L /dev/sdb1",
            "/usr/sbin/mkfs.exfat -n L /dev/sdb1",
        ],
    );
    assert_eq!(lines(FilesystemType::ExFat, 33 * 2097152)[0], "mkexfatfs -n L -s 256 /dev/sdb1");
    assert_eq!(lines(FilesystemType::Fat32, 0), vec!["mkfs.vfat -n L -F 32 /dev/sdb1"]);
    assert_eq!(lines(FilesystemType::Ntfs, 0), vec!["mkfs.ntfs -f -L L /dev/sdb1"]);
    assert_eq!(
        line(&efi_format_command("/dev/nvme0n1")),
        "mkfs.vfat -F 16 -n CZBLEFI -s 1 /dev/nvme0n1p2",
    );
}

fn step(s: FormatStep) -> String {
    match s {
        FormatStep::Done => String::from("done"),
        FormatStep::TryNext => String::from("next"),
        FormatStep::Fail(e) => e.message(),
    }
}

#[test]
fn exfat_formatters_are_tried_in_turn() {
    let gone = || Ran::NotStarted(String::from("gone"));
    assert_eq!(step(format_partition(FilesystemType::ExFat, 0, &gone())), "next");
    assert_eq!(step(format_partition(FilesystemType::ExFat, 2, &gone())), "FAT/exFAT format failed");
    let done = Ran::Ended { success: true, code: Some(0) };
    assert_eq!(step(format_partition(FilesystemType::ExFat, 1, &done)), "done");
    assert_eq!(
        step(format_partition(FilesystemType::Ntfs, 0, &gone())),
        "Required tool not found: mkfs.ntfs: gone",
    );
    let failed = Ran::Ended { success: false, code: Some(1) };
    assert_eq!(step(format_partition(FilesystemType::Fat32, 0, &failed)), "FAT/exFAT format failed");
    assert_eq!(step(format_efi_partition(0, EfiFormat::Failed)), "next");
    assert_eq!(step(format_efi_partition(9, EfiFormat::Failed)), "FAT/exFAT format failed");
    assert_eq!(step(format_efi_partition(0, EfiFormat::NoTool)), "Required tool not found: mkfs.vfat");
    assert_eq!(step(format_efi_partition(5, EfiFormat::Success)), "done");
}

#[test]
fn the_kernel_is_told() {
    let lines: Vec<String> = notify_kernel("/dev/sdb").iter().map(line).collect();
    assert_eq!(
        lines,
        vec![
            "sync ",
            "partx -u /dev/sdb",
            "udevadm trigger --action=change --name-match /dev/sdb",
            "udevadm settle",
        ],
    );
}

#[test]
fn secure_boot_is_dropped_from_the_efi_partition() {
    let names = vec![String::from("BOOTX64.EFI"), String::from("grubx64_real.efi")];
    assert!(check_choosable_secure_boot(Some(&names)));
    assert!(!check_choosable_secure_boot(Some(&vec![String::from("BOOTX64.EFI")])));
    assert!(!check_choosable_secure_boot(None));
    assert!(process_secure_boot_esp(true, Some(&names)).is_empty());
    assert!(process_secure_boot_esp(false, None).is_empty());
    let steps = process_secure_boot_esp(false, Some(&names));
    assert_eq!(steps.len(), 8);
    assert!(matches!(steps[0], EspStep::Rename("grubx64_real.efi", "BOOTX64.EFI")));
    assert!(matches!(steps[2], EspStep::Remove("grubx64.efi")));
    assert!(matches!(steps[7], EspStep::RemoveFromRoot("ENROLL_THIS_KEY_IN_MOKMANAGER.cer")));
}

#[test]
fn the_version_at_hand_is_trimmed() {
    assert_eq!(get_current_version(Some(" 1.4\n")), "1.4");
    assert_eq!(get_current_version(None), "Unknown");
}

#[test]
fn disks_are_listed_in_columns() {
    let devices = vec![BlockDevice {
        name: String::from("sdb"),
        present: true,
        has_start_file: false,
        sectors: Some(String::from("67108864")),
        model: Some(String::from("Ultra")),
        removable: Some(String::from("1")),
        canonical: Some(String::from("/sys/usb1")),
        logical: None,
        physical: None,
    }];
    let lines = list_disks(&enumerate_disks(&devices));
    assert_eq!(lines.len(), 3);
    assert_eq!(
        lines[0],
        format!("{:<4} {:<20} {:<10} {:<10} {:<8} {}", "ID", "Device", "Size", "Type", "Removable", "Model"),
    );
    assert_eq!(lines[1], "-".repeat(80));
    assert_eq!(
        lines[2],
        format!("{:<4} {:<20} {:<8} GiB {:<10} {:<8} {}", 0, "/dev/sdb", 32, "USB", "Yes", "Ultra"),
    );
}

#[test]
fn a_disk_is_described() {
    let found = Some(Installed { version: None, is_gpt: true, secure_boot: Some(false) });
    assert_eq!(
        list_choosable("/dev/sdb", "Ultra", 34359738368, &found),
        vec![
            "Disk : /dev/sdb",
            "Model: Ultra",
            "Size : 32 GiB",
            "Choosable Version in Disk: ?",
            "Disk Partition Style  : GPT",
            "Secure Boot Support   : NO",
            "",
        ],
    );
    let lines = list_choosable("/dev/sdb", "Ultra", 0, &None);
    assert_eq!(lines[3..], ["Choosable Version: NA", ""]);
}

fn install(secure_boot: bool, no_secure_boot: bool, non_destructive: bool, fs: &str) -> Commands {
    Commands::Install {
        disk: String::from("/dev/sdb"),
        force: false,
        gpt: true,
        secure_boot,
        no_secure_boot,
        reserve_space: None,
        label: String::from("Choosable"),
        non_destructive,
        filesystem: String::from(fs),
        yes: true,
    }
}

#[test]
fn commands_become_requests() {
    match request(install(false, true, false, "exfat")) {
        Ok(Request::Install { secure_boot: false, reserve_space_mb: 0, gpt: true, .. }) => {}
        _ => panic!("an installation"),
    }
    match request(install(true, true, false, "exfat")) {
        Ok(Request::Install { secure_boot: true, .. }) => {}
        _ => panic!("with secure boot"),
    }
    assert!(matches!(
        request(install(false, false, true, "NTFS")),
        Ok(Request::NonDestructive { secure_boot: true, fs_type: FilesystemType::Ntfs, .. })
    ));
    assert!(request(install(false, false, true, "ext4")).is_err());
    let update = |secure_boot: bool, no_secure_boot: bool| -> Option<bool> {
        match request(Commands::Update {
            disk: String::from("/dev/sdb"),
            secure_boot,
            no_secure_boot,
            yes: false,
        }) {
            Ok(Request::Update { secure_boot, .. }) => secure_boot,
            _ => panic!("an update"),
        }
    };
    assert_eq!(update(false, false), None);
    assert_eq!(update(true, false), Some(true));
    assert_eq!(update(true, true), Some(false));
    assert!(matches!(request(Commands::ListDisks), Ok(Request::ListDisks)));
}

#[test]
fn arguments_choose_how_to_start() {
    let args = |v: &[&str]| -> Vec<String> { v.iter().map(|s| String::from(*s)).collect() };
    assert_eq!(launch_mode(&args(&["choosable"])), LaunchMode::Gui);
    assert_eq!(launch_mode(&args(&["choosable", "-V"])), LaunchMode::Help);
    assert_eq!(launch_mode(&args(&["choosable", "list-disks"])), LaunchMode::Command);
    assert_eq!(launch_mode(&args(&["choosable", "-h", "x"])), LaunchMode::Command);
    assert_eq!(uid_of_status("Name:\tx\nUid:\t1000\t1000\n"), Some(String::from("1000")));
    assert_eq!(uid_of_status("Name:\tx\n"), None);
    assert_eq!(runtime_dir("1000"), "/run/user/1000");
}

fn entry(path: &str, is_usb: bool) -> DiskEntry {
    DiskEntry {
        path: String::from(path),
        model: String::from("Ultra"),
        size_gb: 32,
        is_usb,
        removable: true,
    }
}

#[test]
fn the_interface_lists_and_selects_disks() {
    let mut app = ChoosableApp::default();
    assert_eq!(app.status, "Press 'Refresh' to list disks.");
    assert!(app.secure_boot && !app.use_gpt && app.label == "Choosable");
    assert!(matches!(app.update(Message::InstallClicked), Work::Nothing));
    assert_eq!(app.status, "No disk selected.");
    assert!(matches!(app.update(Message::RefreshDisks), Work::RefreshDisks));
    assert!(app.loading && !app.shown().buttons_work);
    app.update(Message::DisksLoaded(vec![entry("/dev/sda", false), entry("/dev/sdb", true)]));
    assert_eq!(app.status, "2 disks found.");
    assert_eq!(app.selected_disk_index, Some(0));
    let shown = app.shown();
    assert_eq!(
        shown.entries,
        vec!["/dev/sda (Ultra, 32 GiB)", "/dev/sdb (Ultra, 32 GiB, USB)"],
    );
    app.update(Message::SelectDisk(shown.entries[1].clone()));
    assert_eq!(app.shown().selected, Some(1));
    app.update(Message::DisksLoaded(vec![entry("/dev/sda", false)]));
    assert_eq!(app.selected_disk_index, Some(0));
    app.update(Message::DisksLoaded(vec![]));
    assert_eq!(app.selected_disk_index, None);
}

#[test]
fn the_interface_hands_on_its_options() {
    let mut app = ChoosableApp::default();
    app.update(Message::DisksLoaded(vec![entry("/dev/sdb", true)]));
    app.update(Message::ToggleGpt(true));
    app.update(Message::ToggleSecureBoot(false));
    app.update(Message::ToggleForce(true));
    app.update(Message::NonDestructiveToggled(true));
    app.update(Message::FsTypeChanged(FsType::Ntfs));
    app.update(Message::LabelChanged(String::from("X")));
    app.update(Message::ReserveSpaceChanged(String::from("512")));
    match app.update(Message::InstallClicked) {
        Work::Install {
            disk_path,
            gpt: true,
            secure_boot: false,
            force: true,
            label,
            fs_type: FsType::Ntfs,
            non_destructive: true,
            reserve: 512,
        } => assert_eq!((disk_path.as_str(), label.as_str()), ("/dev/sdb", "X")),
        _ => panic!("an installation"),
    }
    assert_eq!(app.status, "Installing...");
    app.update(Message::ReserveSpaceChanged(String::from("many")));
    assert!(matches!(app.update(Message::InstallClicked), Work::Install { reserve: 0, .. }));
    assert!(matches!(app.update(Message::ListClicked), Work::List { .. }));
    assert!(matches!(app.update(Message::UpdateClicked), Work::Update { .. }));
    app.update(Message::StatusMessage(String::from("ready")));
    assert_eq!((app.status.as_str(), app.loading), ("ready", false));
    assert_eq!(fs_type_to_installer(FsType::Fat32), FilesystemType::Fat32);
    assert_eq!((FsType::ExFat.label(), FsType::Ntfs.label(), FsType::Fat32.label()), ("exFAT", "NTFS", "FAT32"));
}

#[test]
fn results_are_told() {
    assert_eq!(format_result(Ok(()), "Update"), "Update completed successfully!");
    assert_eq!(
        format_result(Err(ChoosableError::NotChoosableDisk), "Update"),
        "Update failed: Disk does not contain Choosable. Use -i to install",
    );
    assert_eq!(
        format_result(Err(ChoosableError::Io(String::from("Permission denied (os error 13)"))), "Installation"),
        "Installation failed: IO error: Permission denied (os error 13)\nHint: Run Choosable with sudo (sudo choosable) to get disk access.",
    );
    assert_eq!(list_result(Ok(())), "Info displayed in terminal (stdout).");
    assert_eq!(
        list_result(Err(ChoosableError::Generic(String::from("no")))),
        "List failed: no",
    );
}

#[test]
fn errors_are_worded() {
    let s = |t: &str| String::from(t);
    assert_eq!(ChoosableError::MbrReadError(s("x")).message(), "Failed to read MBR from disk: x");
    assert_eq!(
        ChoosableError::PartitionLayoutError(s("x")).message(),
        "Choosable partition layout mismatch: x",
    );
    assert_eq!(
        ChoosableError::WriteError { offset: 512, source: s("full") }.message(),
        "Disk write failed at offset 512: full",
    );
    assert_eq!(
        ChoosableError::ReadError { offset: 0, source: s("gone") }.message(),
        "Disk read failed at offset 0: gone",
    );
    assert_eq!(
        ChoosableError::InvalidMbrSignature(0, 0x0A).message(),
        "Invalid MBR signature: expected 0x55AA, got 0x000A",
    );
}
