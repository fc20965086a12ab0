//! Answers the class-specific control requests addressed to the TMC
//! interface: capabilities, abort initiation and abort status.
use vstd::prelude::*;
use crate::abort::{AbortRegister, check_result};

verus! {

/// Request code of INITIATE_ABORT_BULK_OUT (host to device).
pub const INITIATE_ABORT_BULK_OUT: u8 = 0x01;

/// Request code of CHECK_ABORT_BULK_OUT_STATUS (device to host).
pub const CHECK_ABORT_BULK_OUT_STATUS: u8 = 0x02;

/// Request code of GET_CAPABILITIES (device to host).
pub const GET_CAPABILITIES: u8 = 0x07;

/// Length of the capabilities record.
pub const CAPABILITIES_LEN: usize = 6;

/// Length of the abort status record.
pub const ABORT_STATUS_LEN: usize = 8;

/// Type of a control request.
#[derive(Clone, Copy, Debug, PartialEq, Eq, Structural)]
pub enum RequestType {
    Standard,
    Class,
    Vendor,
    Reserved,
}

/// Recipient of a control request.
#[derive(Clone, Copy, Debug, PartialEq, Eq, Structural)]
pub enum Recipient {
    Device,
    Interface,
    Endpoint,
    Other,
    Reserved,
}

/// The setup fields of a control request.
#[derive(Clone, Copy, Debug, PartialEq, Eq, Structural)]
pub struct ControlRequest {
    pub request_type: RequestType,
    pub recipient: Recipient,
    pub request: u8,
    pub value: u16,
    pub index: u16,
    pub length: u16,
}

/// Answer to a device-to-host request that this handler owns.
#[derive(Clone, Copy, Debug, PartialEq, Eq, Structural)]
pub enum InReply {
    /// The first `n` bytes of the buffer hold the reply.
    Accepted(usize),
    Rejected,
}

/// Answer to a host-to-device request that this handler owns.
#[derive(Clone, Copy, Debug, PartialEq, Eq, Structural)]
pub enum OutReply {
    Accepted,
    Rejected,
}

/// A class request addressed to an interface.
pub open spec fn is_class_interface(req: ControlRequest) -> bool {
    req.request_type == RequestType::Class && req.recipient == Recipient::Interface
}

/// The capabilities record: bcdUSBTMC 0x0100, then the interface
/// capabilities byte and reserved bytes.
pub open spec fn capabilities_record() -> Seq<u8> {
    seq![0x00u8, 0x01u8, 0x07u8, 0x00u8, 0x00u8, 0x00u8]
}

/// The abort status record: status, tag, six reserved bytes.
pub open spec fn abort_status_record(status: u8, tag: u8) -> Seq<u8> {
    seq![status, tag, 0u8, 0u8, 0u8, 0u8, 0u8, 0u8]
}

/// Writes `rec` at the start of `buf`.
fn write_record(buf: &mut [u8], rec: &[u8])
    requires
        rec@.len() <= old(buf)@.len(),
    ensures
        final(buf)@.len() == old(buf)@.len(),
        final(buf)@.take(rec@.len() as int) == rec@,
        final(buf)@.skip(rec@.len() as int) == old(buf)@.skip(rec@.len() as int),
{
    let n = rec.len();
    let mut i: usize = 0;
    while i < n
        invariant
            n == rec@.len(),
            n <= buf@.len(),
            buf@.len() == old(buf)@.len(),
            i <= n,
            forall|j: int| 0 <= j < i ==> buf@[j] == rec@[j],
            forall|j: int| i <= j < buf@.len() ==> buf@[j] == old(buf)@[j],
        decreases n - i,
    {
        buf[i] = rec[i];
        i = i + 1;
    }
    assert(buf@.take(n as int) =~= rec@);
    assert(buf@.skip(n as int) =~= old(buf)@.skip(n as int));
}

/// Handles a device-to-host control request. `None` means the request is
/// not addressed to this handler.
pub fn control_in(req: &ControlRequest, buf: &mut [u8], abort: &mut AbortRegister) -> (r:
    Option<InReply>)
    ensures
        final(buf)@.len() == old(buf)@.len(),
        !is_class_interface(*req) || (req.request != GET_CAPABILITIES && req.request
            != CHECK_ABORT_BULK_OUT_STATUS) ==> {
            &&& r is None
            &&& final(buf)@ == old(buf)@
            &&& final(abort)@ == old(abort)@
        },
        is_class_interface(*req) && req.request == GET_CAPABILITIES ==> {
            &&& final(abort)@ == old(abort)@
            &&& old(buf)@.len() < CAPABILITIES_LEN ==> r == Some(InReply::Rejected)
                && final(buf)@ == old(buf)@
            &&& old(buf)@.len() >= CAPABILITIES_LEN ==> {
                &&& r == Some(InReply::Accepted(CAPABILITIES_LEN))
                &&& final(buf)@.take(6) == capabilities_record()
                &&& final(buf)@.skip(6) == old(buf)@.skip(6)
            }
        },
        is_class_interface(*req) && req.request == CHECK_ABORT_BULK_OUT_STATUS ==> {
            &&& old(buf)@.len() < ABORT_STATUS_LEN ==> r == Some(InReply::Rejected)
                && final(buf)@ == old(buf)@ && final(abort)@ == old(abort)@
            &&& old(buf)@.len() >= ABORT_STATUS_LEN ==> {
                &&& r == Some(InReply::Accepted(ABORT_STATUS_LEN))
                &&& final(abort)@ == 0
                &&& final(buf)@.take(8) == abort_status_record(
                    check_result(old(abort)@).0,
                    check_result(old(abort)@).1,
                )
                &&& final(buf)@.skip(8) == old(buf)@.skip(8)
            }
        },
{
    if req.request_type != RequestType::Class || req.recipient != Recipient::Interface {
        return None;
    }
    if req.request == GET_CAPABILITIES {
        if buf.len() < CAPABILITIES_LEN {
            return Some(InReply::Rejected);
        }
        let rec: [u8; 6] = [0x00, 0x01, 0x07, 0x00, 0x00, 0x00];
        assert(rec@ =~= capabilities_record());
        write_record(buf, rec.as_slice());
        Some(InReply::Accepted(CAPABILITIES_LEN))
    } else if req.request == CHECK_ABORT_BULK_OUT_STATUS {
        if buf.len() < ABORT_STATUS_LEN {
            return Some(InReply::Rejected);
        }
        let (status, tag) = abort.check();
        let rec: [u8; 8] = [status, tag, 0, 0, 0, 0, 0, 0];
        assert(rec@ =~= abort_status_record(status, tag));
        write_record(buf, rec.as_slice());
        Some(InReply::Accepted(ABORT_STATUS_LEN))
    } else {
        None
    }
}

/// Handles a host-to-device control request. `None` means the request is
/// not addressed to this handler.
pub fn control_out(req: &ControlRequest, abort: &mut AbortRegister) -> (r: Option<OutReply>)
    ensures
        is_class_interface(*req) && req.request == INITIATE_ABORT_BULK_OUT ==> r == Some(
            OutReply::Accepted,
        ) && final(abort)@ == (req.value & 0x7f) as u8,
        !(is_class_interface(*req) && req.request == INITIATE_ABORT_BULK_OUT) ==> r is None
            && final(abort)@ == old(abort)@,
{
    if req.request_type == RequestType::Class && req.recipient == Recipient::Interface
        && req.request == INITIATE_ABORT_BULK_OUT {
        let v = req.value;
        let tag = (v & 0x7f) as u8;
        abort.initiate(tag);
        assert(tag & 0x7f == tag) by (bit_vector)
            requires
                tag == (v & 0x7f) as u8,
        ;
        Some(OutReply::Accepted)
    } else {
        None
    }
}

} // verus!
