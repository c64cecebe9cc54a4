//! The boot menu of the text screen.

use choosable::kernel::ata::{ata_command, ata_read_sectors, AtaRead};
use choosable::kernel::chainload::{
    copy_mode_switch_code, copy_trampolines, MODE_SWITCH, MODE_SWITCH_ADDR, TRAMP_A, TRAMP_A_ADDR,
    TRAMP_B, TRAMP_B_ADDR,
};
use choosable::kernel::fs::DirEntry;
use choosable::kernel::iso::{ElToritoError, IsoBoot};
use choosable::kernel::kbd::{kbd_poll, kbd_wait_key, scancode_to_ascii};
use choosable::kernel::menu::{
    format_u64, parse_selection, render_menu, show_empty, Menu, MenuAction,
};
use choosable::kernel::start::show_banner;
use choosable::kernel::vga::{
    show, vga_clear, vga_print, vga_print_byte, vga_print_u32, Notice,
};

#[test]
fn parses_two_digit_selection() {
    assert_eq!(parse_selection(b"12", 2, 16), Some(11));
}

#[test]
fn rejects_zero_and_out_of_range() {
    assert_eq!(parse_selection(b"0", 1, 16), None);
    assert_eq!(parse_selection(b"17", 2, 16), None);
}

fn file(name: &[u8], size: u64) -> DirEntry {
    let mut e = DirEntry::zero();
    e.name[..name.len()].copy_from_slice(name);
    e.name_len = name.len();
    e.file_size = size;
    e
}

fn row(screen: &[u8; 4000], r: usize) -> String {
    let line: String = (0..80).map(|c| screen[(r * 80 + c) * 2] as char).collect();
    line.trim_end().to_string()
}

#[test]
fn numbers_are_formatted() {
    assert_eq!(format_u64(0), b"0");
    assert_eq!(format_u64(1048576), b"1048576");
}

#[test]
fn letters_select_nothing() {
    assert_eq!(parse_selection(b"1x", 2, 16), None);
    assert_eq!(parse_selection(b"", 0, 16), None);
    assert_eq!(parse_selection(b"16", 2, 16), Some(15));
}

#[test]
fn a_page_of_the_menu_is_drawn() {
    let files: Vec<DirEntry> = (0..20).map(|i| file(format!("image{}.iso", i).as_bytes(), i * 1048576)).collect();
    let mut screen = [0u8; 4000];
    render_menu(&mut screen, &files, 20, 16);
    assert_eq!(row(&screen, 0), "        === Choosable ISO Boot Menu ===");
    assert_eq!(row(&screen, 3), format!(" 17.image16.iso{}(16 MiB)", " ".repeat(35)));
    assert_eq!(row(&screen, 7), "");
    assert_eq!(row(&screen, 21), " Enter number, n/p page, r refresh:");
    assert_eq!(screen[1], 0x07);
}

#[test]
fn typed_numbers_boot_and_letters_turn_pages() {
    let mut m = Menu::new(20);
    assert_eq!(m.show_menu(Some(b'1')), MenuAction::Redraw);
    assert_eq!(m.show_menu(Some(b'2')), MenuAction::Redraw);
    assert_eq!(m.show_menu(Some(0x0A)), MenuAction::Boot(11));
    let mut m = Menu::new(20);
    m.show_menu(Some(b'n'));
    assert_eq!(m.page_start, 16);
    m.show_menu(Some(b'n'));
    assert_eq!(m.page_start, 16);
    m.show_menu(Some(b'p'));
    assert_eq!(m.page_start, 0);
    assert_eq!(m.show_menu(Some(b'r')), MenuAction::Rescan);
    m.rescanned(3);
    assert_eq!(m.count, 3);
    assert_eq!(m.show_menu(None), MenuAction::Redraw);
    let mut screen = [0u8; 4000];
    m.draw(&mut screen, &[file(b"a.iso", 0), file(b"b.iso", 0), file(b"c.iso", 0)]);
    assert!(row(&screen, 5).contains("c.iso"));
    show_empty(&mut screen);
    assert!((0..25).any(|r| row(&screen, r).contains("No")));
}

#[test]
fn the_screen_is_cells_of_text() {
    let mut screen = [0u8; 4000];
    vga_clear(&mut screen, 0x1F);
    assert_eq!((screen[0], screen[3999]), (0x20, 0x1F));
    vga_print(&mut screen, 24, 78, b"abcd", 0x0C);
    assert_eq!(screen[3996..], [b'a', 0x0C, b'b', 0x0C]);
    vga_print(&mut screen, 25, 0, b"x", 0);
    vga_print_byte(&mut screen, 11, 0, 0, 7);
    assert_eq!(screen[0], b'B');
    vga_print_u32(&mut screen, 0xDEAD_BEEF, 1, 0, 7);
    assert_eq!(&row(&screen, 1)[..8], "DEADBEEF");
    show(&mut screen, &Notice { row: 2, col: 1, text: "hi", attr: 1 });
    assert_eq!(row(&screen, 2), " hi");
    show_banner(&mut screen);
    assert!((0..25).any(|r| row(&screen, r).contains("Choosable")));
}

#[test]
fn keys_become_characters() {
    assert_eq!(kbd_poll(0, 0x1C), None);
    assert_eq!(kbd_poll(1, 0x1C), Some(0x1C));
    assert_eq!(kbd_wait_key(&[(0, 1), (1, 2), (1, 3)]), Some(2));
    assert_eq!(scancode_to_ascii(0x02), Some(b'1'));
    assert_eq!(scancode_to_ascii(0x0B), Some(b'0'));
    assert_eq!(scancode_to_ascii(0x1C), Some(b'\n'));
    assert_eq!(scancode_to_ascii(0x7F), None);
}

#[test]
fn sectors_are_asked_for_by_their_number() {
    let ports: Vec<(u16, u8)> = ata_command(0x0102_0304).iter().map(|w| (w.port, w.value)).collect();
    assert_eq!(
        ports,
        vec![(0x1F6, 0xE1), (0x1F2, 1), (0x1F3, 4), (0x1F4, 3), (0x1F5, 2), (0x1F7, 0x20)],
    );
    let long = ata_command(0x0A0B_0C0D_0E0F);
    assert_eq!(long.len(), 10);
    assert_eq!((long[2].value, long[6].value, long[9].value), (0x0C, 0x0F, 0x24));
}

#[test]
fn a_read_waits_for_the_drive() {
    assert_eq!(AtaRead::Probe.ata_read_sector(0xFF), AtaRead::Failed);
    assert_eq!(AtaRead::Probe.ata_read_sector(0x50), AtaRead::WaitNotBusy);
    assert_eq!(AtaRead::WaitNotBusy.ata_read_sector(0x80), AtaRead::WaitNotBusy);
    assert_eq!(AtaRead::WaitNoData.ata_read_sector(0x50), AtaRead::Command);
    assert_eq!(AtaRead::Command.ata_read_sector(0), AtaRead::Settle(4));
    assert_eq!(AtaRead::Poll(5).ata_read_sector(0x58), AtaRead::Transfer);
    assert_eq!(AtaRead::Poll(5).ata_read_sector(0x01), AtaRead::Failed);
    assert_eq!(AtaRead::Poll(1).ata_read_sector(0x50), AtaRead::Failed);
    let mut dst = [0u8; 1024];
    assert!(ata_read_sectors(&[Some([1; 512]), Some([2; 512])], &mut dst, 2));
    assert_eq!((dst[0], dst[1023]), (1, 2));
    assert!(!ata_read_sectors(&[Some([1; 512]), None], &mut dst, 2));
}

#[test]
fn the_boot_catalog_leads_to_the_image() {
    let mut e = file(b"a.iso", 1);
    e.file_start_lba = 1000;
    let boot = IsoBoot::boot_iso(&e);
    assert_eq!(boot.wanted(), Some(1000 + 17 * 4));
    let mut record = [0u8; 512];
    assert_eq!(boot.parse_el_torito(None), IsoBoot::NotBootable(ElToritoError::BootRecordRead));
    assert_eq!(boot.parse_el_torito(Some(&record)), IsoBoot::NotBootable(ElToritoError::NoSignature));
    record[1..6].copy_from_slice(b"CD001");
    record[0x47] = 50;
    let catalog = boot.parse_el_torito(Some(&record));
    assert_eq!(catalog.wanted(), Some(1200));
    let mut sector = [0u8; 512];
    assert_eq!(catalog.parse_el_torito(None), IsoBoot::NotBootable(ElToritoError::CatalogRead));
    assert_eq!(catalog.parse_el_torito(Some(&sector)), IsoBoot::NotBootable(ElToritoError::NoBootableEntry));
    sector[32] = 0x88;
    sector[40] = 60;
    let image = catalog.parse_el_torito(Some(&sector));
    assert_eq!(image, IsoBoot::Image { lba: 1240, sector_count: 4 });
    assert_eq!(image.load_boot_image(true), IsoBoot::Chainload);
    assert_eq!(image.load_boot_image(false), IsoBoot::ImageUnreadable);
    let mut screen = [0u8; 4000];
    IsoBoot::NotBootable(ElToritoError::NoSignature).report(&mut screen);
    assert!(row(&screen, 4).contains("Invalid Boot Record (no CD001 signature)."));
}

#[test]
fn the_way_back_to_real_mode_is_laid_out() {
    let mut mem = vec![0u8; 0x800];
    copy_mode_switch_code(&mut mem);
    copy_trampolines(&mut mem);
    assert_eq!(mem[MODE_SWITCH_ADDR..MODE_SWITCH_ADDR + MODE_SWITCH.len()], MODE_SWITCH);
    assert_eq!(mem[TRAMP_A_ADDR..TRAMP_A_ADDR + TRAMP_A.len()], TRAMP_A);
    assert_eq!(mem[TRAMP_B_ADDR..TRAMP_B_ADDR + TRAMP_B.len()], TRAMP_B);
}
