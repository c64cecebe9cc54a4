//! Plain firmware data structures.

use vstd::prelude::*;

verus! {

/// A GUID in its mixed-endian firmware form.
#[derive(Clone, Copy, Debug)]
pub struct Guid {
    pub d1: u32,
    pub d2: u16,
    pub d3: u16,
    pub d4: [u8; 8],
}

pub struct GuidView {
    pub d1: u32,
    pub d2: u16,
    pub d3: u16,
    pub d4: Seq<u8>,
}

impl View for Guid {
    type V = GuidView;

    open spec fn view(&self) -> GuidView {
        GuidView { d1: self.d1, d2: self.d2, d3: self.d3, d4: self.d4@ }
    }
}

/// A keystroke: a scan code, or a character.
#[derive(Clone, Copy, PartialEq, Eq, Structural, Debug)]
pub struct Key {
    pub sc: u16,
    pub uc: u16,
}

} // verus!
