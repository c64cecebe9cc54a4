//! Patching GRUB configurations.

use choosable::efi::boot_kind::BootKind;
use choosable::efi::locator::IsoLocation;
use choosable::efi::protocol::Guid;
use choosable::efi::strategy::{
    count_matching_lines, find_second_arg_end, matches_any_lower, patch_grub_cfg,
    patch_grub_cfg_impl, remove_iso_locator_args, shift_and_inject,
};

fn text(v: &[u8]) -> &str {
    core::str::from_utf8(v).unwrap()
}

fn location(path: &[u8]) -> IsoLocation {
    let mut file_path = [0u8; 256];
    file_path[..path.len()].copy_from_slice(path);
    IsoLocation {
        partition_guid: Guid { d1: 1, d2: 2, d3: 3, d4: [4; 8] },
        partition_number: 1,
        is_mbr: false,
        file_path,
        file_path_len: path.len(),
        file_size: 4096,
        part1_lba: 2048,
        iso_lba: 2050,
    }
}

#[test]
fn the_second_word_is_the_kernel() {
    assert_eq!(find_second_arg_end(b"  linux /vmlinuz quiet\n"), 16);
    assert_eq!(find_second_arg_end(b"linux\n"), 5);
    assert_eq!(find_second_arg_end(b""), 0);
}

#[test]
fn lines_are_counted() {
    let cfg = b"linux /a\n\tinitrd /b\nlinuxefi\t/c\nlinux16 /d\ninitrd16 /e\n";
    assert_eq!(count_matching_lines(cfg), (2, 1));
}

#[test]
fn text_is_injected() {
    assert_eq!(shift_and_inject(b"ad", 1, b"bc"), b"abcd");
    assert_eq!(shift_and_inject(b"", 0, b"x"), b"x");
}

#[test]
fn locator_arguments_are_removed() {
    assert_eq!(
        text(&remove_iso_locator_args(b"linux /k findiso=/x.iso quiet iso-scan/filename=/y ---\n")),
        "linux /k quiet ---\n",
    );
    assert_eq!(text(&remove_iso_locator_args(b"linux /k quiet\n")), "linux /k quiet\n");
}

#[test]
fn names_are_searched_without_case() {
    assert!(matches_any_lower(b"/Pop-OS_22.04.iso", &["pop-os", "xyz"]));
    assert!(!matches_any_lower(b"/ubuntu.iso", &["pop-os"]));
    assert!(!matches_any_lower(b"", &["a"]));
}

#[test]
fn kernels_get_their_arguments_and_initrds_the_archive() {
    let cfg = b"menuentry x {\n  linux /casper/vmlinuz quiet\r\n  initrd /casper/initrd\r\n}\n";
    let out = patch_grub_cfg_impl(cfg, b" boot=casper", b"", None, b"");
    assert_eq!(
        text(&out.buf[..out.size]),
        "menuentry x {\n  linux /casper/vmlinuz boot=casper quiet\r\n  initrd /casper/initrd /PREMOUNT.CPIO\r\n}\n",
    );
}

#[test]
fn patching_twice_changes_nothing_more() {
    let cfg = b"linux /vmlinuz quiet\ninitrd /initrd.img.gz.with.a.name\n";
    let once = patch_grub_cfg_impl(cfg, b" boot=live", b"", None, b"PRE.CPI");
    let twice = patch_grub_cfg_impl(&once.buf[..once.size], b" boot=live", b"", None, b"PRE.CPI");
    assert_eq!(text(&once.buf[..once.size]), text(&twice.buf[..twice.size]));
    assert!(text(&once.buf[..once.size]).contains("initrd /initrd.img.gz.with.a.name /PRE.CPI\n"));
}

#[test]
fn the_image_is_named_behind_the_arguments() {
    let loc = location(b"/iso/a.iso");
    let cfg = b"linux /vmlinuz findiso=/old.iso quiet\n";
    let out = patch_grub_cfg_impl(cfg, b" boot=live", b" findiso=", Some(&loc), b"");
    let line = text(&out.buf[..out.size]);
    assert!(line.starts_with("linux /vmlinuz boot=live findiso="), "{}", line);
    assert!(!line.contains("old.iso"));
    assert!(line.contains("a.iso") && line.ends_with(" quiet\n"));
}

#[test]
fn boot_families_decide_the_arguments() {
    let cfg = b"linux /vmlinuz quiet\n";
    let out = patch_grub_cfg(cfg, BootKind::Casper, b"/pop-os.iso", None, b"").unwrap();
    assert!(text(&out.buf[..out.size]).contains(" boot=casper casper_path=pop-os maybe-ubiquity init=/init.choosable"));
    let out = patch_grub_cfg(cfg, BootKind::WindowsPE, b"/w.iso", None, b"").unwrap();
    assert_eq!(text(&out.buf[..out.size]), "linux /vmlinuz quiet\n");
}
