//! The single-slot register that records the tag of a bulk-out transfer the
//! host asked to abort.
use vstd::prelude::*;

verus! {

/// Status byte of an abort check when a tag was recorded.
pub const STATUS_COMPLETE: u8 = 0;

/// Status byte of an abort check when no tag was recorded.
pub const STATUS_PENDING: u8 = 1;

/// Holds the 7-bit tag of the pending abort, or 0 when none is pending.
///
/// The register only records the host's intent: the bulk engine does not
/// discard data on its account, and a check reports "complete" for a
/// recorded tag and "pending" for an empty register. Both are kept as the
/// device has always answered, so that hosts see no change.
pub struct AbortRegister {
    tag: u8,
}

impl View for AbortRegister {
    type V = u8;

    closed spec fn view(&self) -> u8 {
        self.tag
    }
}

/// The (status, tag) pair that a check reports for the recorded `tag`.
/// A recorded tag reads as complete, an empty register as pending.
pub open spec fn check_result(tag: u8) -> (u8, u8) {
    if tag != 0 {
        (STATUS_COMPLETE, tag)
    } else {
        (STATUS_PENDING, 0)
    }
}

impl AbortRegister {
    /// An empty register.
    pub fn new() -> (r: AbortRegister)
        ensures
            r@ == 0,
    {
        AbortRegister { tag: 0 }
    }

    /// Records the tag field (low 7 bits) of `b_tag`; the last write wins.
    pub fn initiate(&mut self, b_tag: u8)
        ensures
            final(self)@ == b_tag & 0x7f,
    {
        self.tag = b_tag & 0x7f;
    }

    /// Reports the status and the recorded tag, and clears the register.
    pub fn check(&mut self) -> (r: (u8, u8))
        ensures
            r == check_result(old(self)@),
            final(self)@ == 0,
    {
        let tag = self.tag;
        self.tag = 0;
        if tag != 0 {
            (STATUS_COMPLETE, tag)
        } else {
            (STATUS_PENDING, 0)
        }
    }
}

} // verus!
