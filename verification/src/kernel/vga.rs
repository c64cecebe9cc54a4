//! The text screen: 25 rows of 80 cells, each a character and an attribute.

use vstd::prelude::*;
use crate::bytes;
use crate::digits;

verus! {

pub const VGA_COLS: usize = 80;

pub const VGA_ROWS: usize = 25;

/// The screen's memory.
pub const VGA_BYTES: usize = 4000;

/// How much of a text gets printed: it ends at a NUL, and at the end of the
/// screen.
pub open spec fn printed_len(s: Seq<u8>, i: int, room: int) -> int
    decreases s.len() - i,
{
    if i < 0 || i >= s.len() || s[i] == 0 || i >= room {
        i
    } else {
        printed_len(s, i + 1, room)
    }
}

/// The screen after a text was printed at a place; a place off the screen
/// prints nothing.
pub open spec fn printed(screen: Seq<u8>, row: int, col: int, s: Seq<u8>, attr: u8) -> Seq<u8> {
    if row >= VGA_ROWS || col >= VGA_COLS {
        screen
    } else {
        let cell = row * VGA_COLS + col;
        let n = printed_len(s, 0, 2000 - cell);
        Seq::new(
            screen.len(),
            |k: int|
                if cell <= k / 2 < cell + n {
                    if k % 2 == 0 {
                        s[k / 2 - cell]
                    } else {
                        attr
                    }
                } else {
                    screen[k]
                },
        )
    }
}

/// A line of text and where it goes.
#[derive(Clone, Copy)]
pub struct Notice {
    pub row: usize,
    pub col: usize,
    pub text: &'static str,
    pub attr: u8,
}

/// The screen after a notice was printed.
pub open spec fn shown(screen: Seq<u8>, n: Notice) -> Seq<u8> {
    printed(screen, n.row as int, n.col as int, bytes::text(n.text), n.attr)
}

/// A screen of blanks.
pub open spec fn blank(attr: u8) -> Seq<u8> {
    Seq::new(
        VGA_BYTES as nat,
        |k: int|
            if k % 2 == 0 {
                0x20u8
            } else {
                attr
            },
    )
}

#[verifier::loop_isolation(false)]
pub fn vga_clear(screen: &mut [u8; 4000], attr: u8)
    ensures
        final(screen)@ == blank(attr),
{
    let mut i: usize = 0;
    while i < 2000
        invariant
            i <= 2000,
            forall|k: int|
                0 <= k < 2 * i ==> #[trigger] screen@[k] == (if k % 2 == 0 {
                    0x20u8
                } else {
                    attr
                }),
        decreases 2000 - i,
    {
        screen[i * 2] = 0x20;
        screen[i * 2 + 1] = attr;
        i += 1;
    }
    assert(screen@ =~= blank(attr));
}

#[verifier::loop_isolation(false)]
pub fn vga_print(screen: &mut [u8; 4000], row: usize, col: usize, s: &[u8], attr: u8)
    ensures
        final(screen)@ == printed(old(screen)@, row as int, col as int, s@, attr),
{
    if row >= VGA_ROWS || col >= VGA_COLS {
        return;
    }
    let cell: usize = row * VGA_COLS + col;
    let ghost room = 2000 - cell;
    let mut i: usize = 0;
    while i < s.len() && s[i] != 0 && cell + i < 2000
        invariant
            i <= s@.len(),
            cell + i <= 2000,
            printed_len(s@, 0, room) == printed_len(s@, i as int, room),
            screen@ == Seq::new(
                VGA_BYTES as nat,
                |k: int|
                    if cell <= k / 2 < cell + i {
                        if k % 2 == 0 {
                            s@[k / 2 - cell]
                        } else {
                            attr
                        }
                    } else {
                        old(screen)@[k]
                    },
            ),
        decreases s@.len() - i,
    {
        screen[(cell + i) * 2] = s[i];
        screen[(cell + i) * 2 + 1] = attr;
        i += 1;
        assert(screen@ =~= Seq::new(
            VGA_BYTES as nat,
            |k: int|
                if cell <= k / 2 < cell + i {
                    if k % 2 == 0 {
                        s@[k / 2 - cell]
                    } else {
                        attr
                    }
                } else {
                    old(screen)@[k]
                },
        ));
    }
    assert(screen@ =~= printed(old(screen)@, row as int, col as int, s@, attr));
}

pub fn show(screen: &mut [u8; 4000], n: &Notice)
    ensures
        final(screen)@ == shown(old(screen)@, *n),
{
    vga_print(screen, n.row, n.col, n.text.as_bytes(), n.attr);
}

/// Prints a digit: decimal below 10, and letters from A on above.
pub fn vga_print_byte(screen: &mut [u8; 4000], val: u8, row: usize, col: usize, attr: u8)
    requires
        val <= 200,
    ensures
        final(screen)@ == printed(
            old(screen)@,
            row as int,
            col as int,
            seq![digits::hex_digit(val as int, 0x41)],
            attr,
        ),
{
    let c: u8 = if val < 10 {
        val + 0x30
    } else {
        val - 10 + 0x41
    };
    let text: [u8; 1] = [c];
    assert(text@ =~= seq![digits::hex_digit(val as int, 0x41)]);
    vga_print(screen, row, col, &text, attr);
}

/// The screen after the last `n` of 8 hexadecimal digits were printed.
pub open spec fn printed_hex(
    screen: Seq<u8>,
    v: u32,
    row: int,
    col: int,
    attr: u8,
    n: int,
) -> Seq<u8>
    decreases n,
{
    if n <= 0 {
        screen
    } else {
        printed(
            printed_hex(screen, v, row, col, attr, n - 1),
            row,
            col + n - 1,
            seq![digits::hex(v as nat, 8, 0x41)[n - 1]],
            attr,
        )
    }
}

/// Prints the 8 hexadecimal digits of `v`.
#[verifier::loop_isolation(false)]
pub fn vga_print_u32(screen: &mut [u8; 4000], v: u32, row: usize, col: usize, attr: u8)
    requires
        col <= usize::MAX - 8,
    ensures
        final(screen)@ == printed_hex(old(screen)@, v, row as int, col as int, attr, 8),
{
    let text: Vec<u8> = digits::hex_text(v as u64, 8, 0x41);
    let mut i: usize = 0;
    while i < 8
        invariant
            i <= 8,
            screen@ == printed_hex(old(screen)@, v, row as int, col as int, attr, i as int),
        decreases 8 - i,
    {
        let one: [u8; 1] = [text[i]];
        assert(one@ =~= seq![digits::hex(v as nat, 8, 0x41)[i as int]]);
        vga_print(screen, row, col + i, &one, attr);
        i += 1;
    }
}

} // verus!
