//! The state that the boot stages fill in.

use vstd::prelude::*;
use crate::bytes;
use crate::efi::fs::{FsCtx, FsType, PayloadEntry, PayloadType, PAYLOAD_SLOT_COUNT};
use crate::efi::locator::IsoLocation;
use crate::efi::protocol::Guid;

verus! {

pub struct BootContext {
    pub media_id: u32,
    pub partition_start_lba: u64,
    /// The partition's unique GUID.
    pub partition_guid: Guid,
    /// The partition's number, from 1.
    pub partition_number: u32,
    pub is_mbr: bool,
    pub fs_type: Option<FsType>,
    pub fs_ctx: Option<FsCtx>,
    pub payloads: [PayloadEntry; 64],
    pub payload_count: usize,
    pub selected_index: Option<usize>,
    pub iso_location: Option<IsoLocation>,
}

/// Whether two contexts agree on everything but the contents of the slots.
pub open spec fn same_apart_from_payloads(a: BootContext, b: BootContext) -> bool {
    &&& a.media_id == b.media_id
    &&& a.partition_start_lba == b.partition_start_lba
    &&& a.partition_guid == b.partition_guid
    &&& a.partition_number == b.partition_number
    &&& a.is_mbr == b.is_mbr
    &&& a.fs_type == b.fs_type
    &&& a.fs_ctx == b.fs_ctx
    &&& a.payload_count == b.payload_count
    &&& a.selected_index == b.selected_index
    &&& a.iso_location == b.iso_location
}

/// A GUID of zeros.
pub open spec fn is_zero_guid(g: Guid) -> bool {
    g.d1 == 0 && g.d2 == 0 && g.d3 == 0 && g.d4@ == bytes::zeros(8)
}

/// A slot that no payload has been put in.
pub open spec fn is_empty_slot(p: PayloadEntry) -> bool {
    &&& p.name@ == bytes::zeros(256)
    &&& p.name_len == 0
    &&& p.file_start_lba == 0
    &&& p.file_size == 0
    &&& p.payload_type == PayloadType::Iso
}

impl BootContext {
    /// The payload list holds as many payloads as it says.
    pub open spec fn wf(&self) -> bool {
        self.payload_count <= PAYLOAD_SLOT_COUNT
    }

    pub fn new() -> (r: BootContext)
        ensures
            r.wf(),
            r.payload_count == 0,
            forall|i: int|
                0 <= i < PAYLOAD_SLOT_COUNT ==> is_empty_slot(#[trigger] r.payloads@[i]),
            r.partition_start_lba == 0,
            is_zero_guid(r.partition_guid),
            r.partition_number == 0,
            r.fs_type is None,
            r.fs_ctx is None,
            r.selected_index is None,
            r.iso_location is None,
            !r.is_mbr,
            r.media_id == 0,
    {
        let empty = PayloadEntry {
            name: [0; 256],
            name_len: 0,
            file_start_lba: 0,
            file_size: 0,
            payload_type: PayloadType::Iso,
        };
        assert(empty.name@ =~= bytes::zeros(256));
        let guid = Guid { d1: 0, d2: 0, d3: 0, d4: [0; 8] };
        assert(guid.d4@ =~= bytes::zeros(8));
        BootContext {
            media_id: 0,
            partition_start_lba: 0,
            partition_guid: guid,
            partition_number: 0,
            is_mbr: false,
            fs_type: None,
            fs_ctx: None,
            payloads: [empty; 64],
            payload_count: 0,
            selected_index: None,
            iso_location: None,
        }
    }

    /// The slot that is selected, if it holds a payload.
    pub open spec fn selected_slot(&self) -> Option<int> {
        match self.selected_index {
            Some(i) if i < self.payload_count => Some(i as int),
            _ => None,
        }
    }

    pub fn selected_payload(&self) -> (r: Option<&PayloadEntry>)
        requires
            self.wf(),
        ensures
            match self.selected_slot() {
                Some(i) => r == Some(&self.payloads@[i]),
                None => r is None,
            },
    {
        match self.selected_index {
            Some(i) => if i < self.payload_count {
                Some(&self.payloads[i])
            } else {
                None
            },
            None => None,
        }
    }

    pub fn selected_payload_mut(&mut self) -> (r: Option<&mut PayloadEntry>)
        requires
            old(self).wf(),
        ensures
            match old(self).selected_slot() {
                Some(i) => {
                    &&& r matches Some(p) && *p == old(self).payloads@[i] && final(self).payloads@
                        == old(self).payloads@.update(i, *final(p))
                    &&& same_apart_from_payloads(*final(self), *old(self))
                },
                None => r is None && *final(self) == *old(self),
            },
    {
        match self.selected_index {
            Some(i) => if i < self.payload_count {
                Some(&mut self.payloads[i])
            } else {
                None
            },
            None => None,
        }
    }
}

} // verus!
