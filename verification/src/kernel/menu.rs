//! The boot menu of the text screen.

use vstd::prelude::*;
use crate::bytes;
use crate::digits;
use crate::digits::decimal_text;
use crate::kernel::fs::DirEntry;
use crate::kernel::vga;
use crate::kernel::vga::{show, vga_clear, vga_print, Notice};
use crate::scan::found::FileView;

verus! {

/// Entries on a page of the menu.
pub const MENU_PAGE_SIZE: usize = 16;

/// The menu lists at most this many entries.
pub const MENU_LIMIT: usize = 64;

/// As much of a name as fits on a line.
pub const NAME_COLUMNS: usize = 43;

/// The decimal numeral of `v`.
pub fn format_u64(v: u64) -> (r: Vec<u8>)
    ensures
        r@ == digits::decimal(v as nat),
        1 <= r@.len() <= 20,
{
    proof {
        digits::decimal_len_u64(v);
    }
    decimal_text(v)
}

/// The entry that a typed number selects among `count`: numbers start at 1.
pub open spec fn selection(typed: Seq<u8>, count: int) -> Option<usize> {
    let value = bytes::min_int(digits::decimal_value(typed), usize::MAX as int);
    if typed.len() > 0 && digits::all_digits(typed) && 0 < value <= count {
        Some((value - 1) as usize)
    } else {
        None
    }
}

/// The zero-based index of the entry that the first `len` of the typed digits
/// select among `count`.
#[verifier::loop_isolation(false)]
pub fn parse_selection(digits: &[u8], len: usize, count: usize) -> (r: Option<usize>)
    ensures
        r == (if len <= digits@.len() {
            selection(digits@.take(len as int), count as int)
        } else {
            None::<usize>
        }),
{
    if len == 0 || len > digits.len() {
        return None;
    }
    let ghost typed = digits@.take(len as int);
    let mut value: usize = 0;
    let mut i: usize = 0;
    while i < len
        invariant
            i <= len,
            digits::all_digits(typed.take(i as int)),
            value == bytes::min_int(digits::decimal_value(typed.take(i as int)), usize::MAX as int),
        decreases len - i,
    {
        let digit: u8 = digits[i];
        assert(typed[i as int] == digit);
        if digit < 0x30 || digit > 0x39 {
            return None;
        }
        assert(typed.take(i + 1).drop_last() =~= typed.take(i as int));
        assert(typed.take(i + 1).last() == digit);
        proof {
            digits::decimal_value_grows(typed.take(i as int), 0);
        }
        value = match value.checked_mul(10) {
            Some(tens) => tens.saturating_add((digit - 0x30) as usize),
            None => usize::MAX,
        };
        i += 1;
    }
    assert(typed.take(len as int) =~= typed);
    if value > 0 && value <= count {
        Some(value - 1)
    } else {
        None
    }
}

/// Typing the number that stands beside an entry selects that entry.
pub proof fn shown_number_selects(index: usize, count: usize)
    requires
        index < count,
    ensures
        selection(digits::decimal((index + 1) as nat), count as int) == Some(index),
{
    digits::decimal_round_trip((index + 1) as nat);
}

// ---------------------------------------------------------------------------
// Drawing
// ---------------------------------------------------------------------------

/// The screen with entry `index` on row `row`.
pub open spec fn entry_drawn(screen: Seq<u8>, file: FileView, index: int, row: int) -> Seq<u8> {
    let number = digits::decimal((index + 1) as nat);
    let size = digits::decimal((file.size / 0x10_0000) as nat);
    let name = file.name.take(bytes::min_int(file.name.len() as int, NAME_COLUMNS as int));
    let s1 = vga::printed(screen, row, 1, number, 0x0A);
    let s2 = vga::printed(s1, row, 1int + number.len(), bytes::text(". "), 0x07);
    let s3 = vga::printed(s2, row, 4, name, 0x07);
    let s4 = vga::printed(s3, row, 50, bytes::text("("), 0x07);
    let s5 = vga::printed(s4, row, 51, size, 0x07);
    vga::printed(s5, row, 51int + size.len(), bytes::text(" MiB)"), 0x07)
}

/// The screen with entries `from..to` drawn, from row 3 on.
pub open spec fn entries_drawn(
    screen: Seq<u8>,
    files: Seq<DirEntry>,
    from: int,
    to: int,
) -> Seq<u8>
    decreases to - from,
{
    if to <= from {
        screen
    } else {
        entry_drawn(
            entries_drawn(screen, files, from, to - 1),
            files[to - 1]@,
            to - 1,
            3 + (to - 1 - from),
        )
    }
}

/// A page of the menu, from entry `page_start` on.
pub open spec fn page(files: Seq<DirEntry>, count: int, page_start: int) -> Seq<u8> {
    let title = vga::shown(
        vga::blank(0x07),
        Notice { row: 0, col: 8, text: "=== Choosable ISO Boot Menu ===", attr: 0x1F },
    );
    let end = bytes::min_int(page_start + MENU_PAGE_SIZE, count);
    vga::shown(
        entries_drawn(title, files, page_start, end),
        Notice { row: 21, col: 1, text: "Enter number, n/p page, r refresh: ", attr: 0x07 },
    )
}

fn draw_entry(screen: &mut [u8; 4000], file: &DirEntry, index: usize, row: usize)
    requires
        index < usize::MAX,
        file.name_len <= 256,
    ensures
        final(screen)@ == entry_drawn(old(screen)@, file@, index as int, row as int),
{
    let number: Vec<u8> = format_u64((index + 1) as u64);
    vga_print(screen, row, 1, &number, 0x0A);
    vga_print(screen, row, 1 + number.len(), ". ".as_bytes(), 0x07);
    let name_len: usize = if file.name_len < NAME_COLUMNS {
        file.name_len
    } else {
        NAME_COLUMNS
    };
    let buf: &[u8] = &file.name;
    let name: &[u8] = &buf[0..name_len];
    assert(name@ =~= file@.name.take(
        bytes::min_int(file@.name.len() as int, NAME_COLUMNS as int),
    ));
    vga_print(screen, row, 4, name, 0x07);
    let size: Vec<u8> = format_u64(file.file_size / 0x10_0000);
    vga_print(screen, row, 50, "(".as_bytes(), 0x07);
    vga_print(screen, row, 51, &size, 0x07);
    vga_print(screen, row, 51 + size.len(), " MiB)".as_bytes(), 0x07);
}

pub open spec fn names_fit(files: Seq<DirEntry>) -> bool {
    forall|i: int| 0 <= i < files.len() ==> (#[trigger] files[i]).name_len <= 256
}

/// Draws the page that starts at entry `page_start`.
#[verifier::loop_isolation(false)]
pub fn render_menu(screen: &mut [u8; 4000], files: &[DirEntry], count: usize, page_start: usize)
    requires
        count <= files@.len(),
        page_start <= usize::MAX - MENU_PAGE_SIZE,
        names_fit(files@),
    ensures
        final(screen)@ == page(files@, count as int, page_start as int),
{
    vga_clear(screen, 0x07);
    show(
        screen,
        &Notice { row: 0, col: 8, text: "=== Choosable ISO Boot Menu ===", attr: 0x1F },
    );
    let ghost title = screen@;
    let page_end: usize = if page_start + MENU_PAGE_SIZE < count {
        page_start + MENU_PAGE_SIZE
    } else {
        count
    };
    let mut index: usize = page_start;
    while index < page_end
        invariant
            page_start <= index,
            index <= page_end || index == page_start,
            screen@ == entries_drawn(title, files@, page_start as int, index as int),
        decreases page_end - index,
    {
        draw_entry(screen, &files[index], index, 3 + (index - page_start));
        index += 1;
    }
    show(
        screen,
        &Notice { row: 21, col: 1, text: "Enter number, n/p page, r refresh: ", attr: 0x07 },
    );
}

// ---------------------------------------------------------------------------
// The menu's state
// ---------------------------------------------------------------------------

/// What the menu comes to after a key.
#[derive(Clone, Copy, PartialEq, Eq, Structural, Debug)]
pub enum MenuAction {
    Redraw,
    /// Look for disk images again.
    Rescan,
    Boot(usize),
}

#[derive(Clone, Copy)]
pub struct Menu {
    pub count: usize,
    pub page_start: usize,
    pub digits: [u8; 2],
    pub digit_len: usize,
}

pub struct MenuView {
    pub count: int,
    pub page_start: int,
    pub typed: Seq<u8>,
}

impl View for Menu {
    type V = MenuView;

    open spec fn view(&self) -> MenuView {
        MenuView {
            count: self.count as int,
            page_start: self.page_start as int,
            typed: self.digits@.take(self.digit_len as int),
        }
    }
}

/// The menu after a key, and what is to be done.
pub open spec fn pressed(m: MenuView, key: Option<u8>) -> (MenuView, MenuAction) {
    let cleared = MenuView { typed: Seq::empty(), ..m };
    match key {
        None => (m, MenuAction::Redraw),
        Some(c) => if c == 0x72 || c == 0x52 {
            (MenuView { page_start: 0, ..cleared }, MenuAction::Rescan)
        } else if c == 0x6E || c == 0x4E {
            if m.page_start + MENU_PAGE_SIZE < m.count {
                (
                    MenuView { page_start: m.page_start + MENU_PAGE_SIZE, ..cleared },
                    MenuAction::Redraw,
                )
            } else {
                (cleared, MenuAction::Redraw)
            }
        } else if c == 0x70 || c == 0x50 {
            (
                MenuView {
                    page_start: if m.page_start > MENU_PAGE_SIZE {
                        m.page_start - MENU_PAGE_SIZE
                    } else {
                        0
                    },
                    ..cleared
                },
                MenuAction::Redraw,
            )
        } else if c == 0x08 {
            if m.typed.len() > 0 {
                (MenuView { typed: m.typed.drop_last(), ..m }, MenuAction::Redraw)
            } else {
                (m, MenuAction::Redraw)
            }
        } else if 0x30 <= c <= 0x39 && m.typed.len() < 2 {
            (MenuView { typed: m.typed.push(c), ..m }, MenuAction::Redraw)
        } else if c == 0x0A {
            match selection(m.typed, m.count) {
                Some(i) => (cleared, MenuAction::Boot(i)),
                None => (cleared, MenuAction::Redraw),
            }
        } else {
            (m, MenuAction::Redraw)
        },
    }
}

/// The screen that a menu shows: the page, and the number typed so far.
pub open spec fn menu_screen(m: MenuView, files: Seq<DirEntry>) -> Seq<u8> {
    let drawn = page(files, m.count, m.page_start);
    if m.typed.len() > 0 {
        vga::printed(
            vga::shown(drawn, Notice { row: 22, col: 1, text: "Selection: ", attr: 0x07 }),
            22,
            11,
            m.typed,
            0x0A,
        )
    } else {
        drawn
    }
}

/// The screen where there is nothing to choose from.
pub open spec fn empty_screen() -> Seq<u8> {
    vga::shown(
        vga::shown(
            vga::blank(0x07),
            Notice { row: 4, col: 10, text: "No ISO files found.", attr: 0x0C },
        ),
        Notice { row: 6, col: 8, text: "Press any key to halt...", attr: 0x07 },
    )
}

impl Menu {
    pub open spec fn wf(&self) -> bool {
        &&& self.count <= MENU_LIMIT
        &&& self.page_start == 0 || self.page_start < self.count
        &&& self.digit_len <= 2
    }

    /// The menu of `count` entries, of which it lists what it can.
    pub fn new(count: usize) -> (r: Menu)
        ensures
            r.wf(),
            r@ == (MenuView {
                count: bytes::min_int(count as int, MENU_LIMIT as int),
                page_start: 0,
                typed: Seq::empty(),
            }),
    {
        let digits: [u8; 2] = [0; 2];
        assert(digits@.take(0) =~= Seq::empty());
        Menu {
            count: if count < MENU_LIMIT {
                count
            } else {
                MENU_LIMIT
            },
            page_start: 0,
            digits,
            digit_len: 0,
        }
    }

    /// Takes in a key.
    pub fn show_menu(&mut self, key: Option<u8>) -> (r: MenuAction)
        requires
            old(self).wf(),
        ensures
            final(self).wf(),
            (final(self)@, r) == pressed(old(self)@, key),
    {
        let ghost before = self@;
        assert(self.digits@.take(0) =~= Seq::empty());
        let c: u8 = match key {
            None => {
                return MenuAction::Redraw;
            },
            Some(c) => c,
        };
        if c == 0x72 || c == 0x52 {
            self.page_start = 0;
            self.digit_len = 0;
            MenuAction::Rescan
        } else if c == 0x6E || c == 0x4E {
            if self.page_start + MENU_PAGE_SIZE < self.count {
                self.page_start = self.page_start + MENU_PAGE_SIZE;
            }
            self.digit_len = 0;
            MenuAction::Redraw
        } else if c == 0x70 || c == 0x50 {
            self.page_start = if self.page_start > MENU_PAGE_SIZE {
                self.page_start - MENU_PAGE_SIZE
            } else {
                0
            };
            self.digit_len = 0;
            MenuAction::Redraw
        } else if c == 0x08 {
            if self.digit_len > 0 {
                self.digit_len = self.digit_len - 1;
                assert(self@.typed =~= before.typed.drop_last());
            }
            MenuAction::Redraw
        } else if 0x30 <= c && c <= 0x39 && self.digit_len < 2 {
            let at: usize = self.digit_len;
            self.digits[at] = c;
            self.digit_len = at + 1;
            assert(self@.typed =~= before.typed.push(c));
            MenuAction::Redraw
        } else if c == 0x0A {
            let chosen: Option<usize> = parse_selection(&self.digits, self.digit_len, self.count);
            self.digit_len = 0;
            match chosen {
                Some(i) => MenuAction::Boot(i),
                None => MenuAction::Redraw,
            }
        } else {
            MenuAction::Redraw
        }
    }

    /// Takes in how many entries there are after another look for disk images.
    pub fn rescanned(&mut self, count: usize)
        requires
            old(self).wf(),
            old(self).page_start == 0,
        ensures
            final(self).wf(),
            final(self)@ == (MenuView {
                count: bytes::min_int(count as int, MENU_LIMIT as int),
                ..old(self)@
            }),
    {
        self.count = if count < MENU_LIMIT {
            count
        } else {
            MENU_LIMIT
        };
    }

    pub fn draw(&self, screen: &mut [u8; 4000], files: &[DirEntry])
        requires
            self.wf(),
            self.count <= files@.len(),
            names_fit(files@),
        ensures
            final(screen)@ == menu_screen(self@, files@),
    {
        render_menu(screen, files, self.count, self.page_start);
        if self.digit_len > 0 {
            show(screen, &Notice { row: 22, col: 1, text: "Selection: ", attr: 0x07 });
            let digits: &[u8] = &self.digits;
            let typed: &[u8] = &digits[0..self.digit_len];
            assert(typed@ =~= self@.typed);
            vga_print(screen, 22, 11, typed, 0x0A);
        }
    }
}

/// Tells that there is nothing to choose from.
pub fn show_empty(screen: &mut [u8; 4000])
    ensures
        final(screen)@ == empty_screen(),
{
    vga_clear(screen, 0x07);
    show(screen, &Notice { row: 4, col: 10, text: "No ISO files found.", attr: 0x0C });
    show(screen, &Notice { row: 6, col: 8, text: "Press any key to halt...", attr: 0x07 });
}

/// The menu boots listed entries only.
pub proof fn boots_listed_entries(m: MenuView, key: Option<u8>)
    requires
        m.count <= MENU_LIMIT,
    ensures
        pressed(m, key).1 matches MenuAction::Boot(i) ==> i < m.count,
{
}

/// The menu after a series of keys.
pub open spec fn typed(m: MenuView, keys: Seq<u8>) -> MenuView
    decreases keys.len(),
{
    if keys.len() == 0 {
        m
    } else {
        pressed(typed(m, keys.drop_last()), Some(keys.last())).0
    }
}

proof fn typing_appends(m: MenuView, keys: Seq<u8>)
    requires
        digits::all_digits(keys),
        m.typed.len() == 0,
        keys.len() <= 2,
    ensures
        typed(m, keys) == (MenuView { typed: keys, ..m }),
    decreases keys.len(),
{
    if keys.len() == 0 {
        assert(m.typed =~= keys);
    } else {
        typing_appends(m, keys.drop_last());
        assert(keys.drop_last().push(keys.last()) =~= keys);
    }
}

/// Typing the number beside an entry, and then return, boots that entry.
pub proof fn number_and_return_boot(m: MenuView, index: usize)
    requires
        m.typed.len() == 0,
        index < m.count <= MENU_LIMIT,
    ensures
        pressed(typed(m, digits::decimal((index + 1) as nat)), Some(0x0Au8)).1 == MenuAction::Boot(
            index,
        ),
{
    let keys = digits::decimal((index + 1) as nat);
    digits::decimal_round_trip((index + 1) as nat);
    reveal_with_fuel(digits::decimal, 3);
    typing_appends(m, keys);
    shown_number_selects(index, m.count as usize);
}

} // verus!
