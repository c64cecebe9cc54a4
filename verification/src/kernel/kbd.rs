//! The keyboard controller.

use vstd::prelude::*;

verus! {

/// Whether the controller has a byte, by the lowest bit of its status.
pub open spec fn has_byte(status: u8) -> bool {
    status % 2 == 1
}

/// The scan code of a poll: the controller's status, and what its data port
/// has.
pub fn kbd_poll(status: u8, data: u8) -> (r: Option<u8>)
    ensures
        r == (if has_byte(status) {
            Some(data)
        } else {
            None::<u8>
        }),
{
    if status % 2 == 0 {
        return None;
    }
    Some(data)
}

/// The first scan code that a series of polls brings.
#[verifier::loop_isolation(false)]
pub fn kbd_wait_key(polls: &[(u8, u8)]) -> (r: Option<u8>)
    ensures
        match r {
            Some(sc) => exists|i: int|
                0 <= i < polls@.len() && has_byte((#[trigger] polls@[i]).0) && polls@[i].1 == sc
                    && forall|j: int| 0 <= j < i ==> !has_byte((#[trigger] polls@[j]).0),
            None => forall|j: int| 0 <= j < polls@.len() ==> !has_byte((#[trigger] polls@[j]).0),
        },
{
    let mut i: usize = 0;
    while i < polls.len()
        invariant
            i <= polls@.len(),
            forall|j: int| 0 <= j < i ==> !has_byte((#[trigger] polls@[j]).0),
        decreases polls@.len() - i,
    {
        let (status, data) = polls[i];
        if let Some(sc) = kbd_poll(status, data) {
            assert(has_byte(polls@[i as int].0));
            return Some(sc);
        }
        i += 1;
    }
    None
}

/// The character of a scan code: digits, both letters for a refresh, and the
/// return key.
pub open spec fn ascii(sc: u8) -> Option<u8> {
    if 0x02 <= sc <= 0x0A {
        Some((0x31 + (sc - 0x02)) as u8)
    } else if sc == 0x0B {
        Some(0x30u8)
    } else if sc == 0x13 {
        Some(0x72u8)
    } else if sc == 0x1F {
        Some(0x52u8)
    } else if sc == 0x1C {
        Some(0x0Au8)
    } else {
        None
    }
}

pub fn scancode_to_ascii(sc: u8) -> (r: Option<u8>)
    ensures
        r == ascii(sc),
{
    match sc {
        0x02..=0x0A => Some(0x31 + (sc - 0x02)),
        0x0B => Some(0x30),
        0x13 => Some(0x72),
        0x1F => Some(0x52),
        0x1C => Some(0x0A),
        _ => None,
    }
}

} // verus!
