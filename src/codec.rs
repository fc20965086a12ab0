//! The 12-byte USBTMC bulk message header and the 4-byte alignment rule.
use vstd::prelude::*;

verus! {

/// Length of a bulk message header on the wire.
pub const HEADER_LEN: usize = 12;

/// MsgID of a device-dependent message from host to device.
pub const DEV_DEP_MSG_OUT: u8 = 1;

/// MsgID of a host request for a device-dependent message.
pub const REQUEST_DEV_DEP_MSG_IN: u8 = 2;

/// MsgID of a device-dependent message from device to host.
pub const DEV_DEP_MSG_IN: u8 = 2;

/// A decoded bulk message header.
#[derive(Clone, Copy, Debug, PartialEq, Eq, Structural)]
pub struct BulkMessageHeader {
    pub msg_id: u8,
    pub b_tag: u8,
    pub b_tag_inverse: u8,
    pub transfer_size: u32,
    pub eom: bool,
}

impl BulkMessageHeader {
    /// The tag check: the inverse byte is the bitwise complement of the tag.
    pub open spec fn valid(self) -> bool {
        self.b_tag_inverse == !self.b_tag
    }
}

/// The little-endian value of four bytes.
pub open spec fn le_u32(b0: u8, b1: u8, b2: u8, b3: u8) -> u32 {
    (b0 as u32) | ((b1 as u32) << 8u32) | ((b2 as u32) << 16u32) | ((b3 as u32) << 24u32)
}

/// The byte of `v` that starts at bit `shift`.
pub open spec fn le_byte(v: u32, shift: u32) -> u8 {
    ((v >> shift) & 0xff) as u8
}

/// The wire form of a header with the given fields.
pub open spec fn header_bytes(msg_id: u8, b_tag: u8, transfer_size: u32, eom: bool) -> Seq<u8> {
    seq![
        msg_id,
        b_tag,
        !b_tag,
        0u8,
        le_byte(transfer_size, 0),
        le_byte(transfer_size, 8),
        le_byte(transfer_size, 16),
        le_byte(transfer_size, 24),
        if eom { 1u8 } else { 0u8 },
        0u8,
        0u8,
        0u8,
    ]
}

/// What decoding gives for the bytes `b`: nothing when fewer than 12 bytes
/// are present or the tag check fails.
pub open spec fn decode_spec(b: Seq<u8>) -> Option<BulkMessageHeader> {
    if b.len() < HEADER_LEN || b[2] != !b[1] {
        None
    } else {
        Some(
            BulkMessageHeader {
                msg_id: b[0],
                b_tag: b[1],
                b_tag_inverse: b[2],
                transfer_size: le_u32(b[4], b[5], b[6], b[7]),
                eom: b[8] & 1u8 == 1u8,
            },
        )
    }
}

/// Number of zero bytes that bring a transfer of `total_len` bytes to a
/// multiple of four.
pub open spec fn padding_spec(total_len: int) -> int {
    (4 - total_len % 4) % 4
}

/// Decodes the header at the start of `bytes`.
pub fn decode_header(bytes: &[u8]) -> (r: Option<BulkMessageHeader>)
    ensures
        r == decode_spec(bytes@),
        r matches Some(h) ==> h.valid(),
{
    if bytes.len() < HEADER_LEN {
        return None;
    }
    let b_tag = bytes[1];
    let b_tag_inverse = bytes[2];
    if b_tag_inverse != !b_tag {
        return None;
    }
    let transfer_size = (bytes[4] as u32) | ((bytes[5] as u32) << 8u32) | ((bytes[6] as u32)
        << 16u32) | ((bytes[7] as u32) << 24u32);
    Some(
        BulkMessageHeader {
            msg_id: bytes[0],
            b_tag,
            b_tag_inverse,
            transfer_size,
            eom: bytes[8] & 1u8 == 1u8,
        },
    )
}

/// Encodes a header; the tag inverse is always the complement of `b_tag`
/// and the reserved bytes are zero.
pub fn encode_header(msg_id: u8, b_tag: u8, transfer_size: u32, eom: bool) -> (r: [u8; 12])
    ensures
        r@ == header_bytes(msg_id, b_tag, transfer_size, eom),
{
    let mut r = [0u8; 12];
    r[0] = msg_id;
    r[1] = b_tag;
    r[2] = !b_tag;
    r[4] = ((transfer_size >> 0u32) & 0xff) as u8;
    r[5] = ((transfer_size >> 8u32) & 0xff) as u8;
    r[6] = ((transfer_size >> 16u32) & 0xff) as u8;
    r[7] = ((transfer_size >> 24u32) & 0xff) as u8;
    if eom {
        r[8] = 1;
    }
    assert(r@ =~= header_bytes(msg_id, b_tag, transfer_size, eom));
    r
}

/// Padding after `total_len` bytes of header and payload: 0 to 3 bytes.
pub fn padding_for(total_len: usize) -> (r: usize)
    ensures
        r as int == padding_spec(total_len as int),
        r < 4,
        (total_len + r) % 4 == 0,
{
    (4 - total_len % 4) % 4
}

/// Decoding the encoding of a valid header gives the header back.
pub proof fn lemma_header_round_trip(h: BulkMessageHeader)
    requires
        h.valid(),
    ensures
        decode_spec(header_bytes(h.msg_id, h.b_tag, h.transfer_size, h.eom)) == Some(h),
{
    let ts = h.transfer_size;
    let b = header_bytes(h.msg_id, h.b_tag, ts, h.eom);
    assert(le_u32(le_byte(ts, 0), le_byte(ts, 8), le_byte(ts, 16), le_byte(ts, 24)) == ts) by {
        assert(((((ts >> 0u32) & 0xff) as u8) as u32) | (((((ts >> 8u32) & 0xff) as u8) as u32)
            << 8u32) | (((((ts >> 16u32) & 0xff) as u8) as u32) << 16u32) | (((((ts >> 24u32)
            & 0xff) as u8) as u32) << 24u32) == ts) by (bit_vector);
    }
    assert(1u8 & 1u8 == 1u8) by (bit_vector);
    assert(0u8 & 1u8 == 0u8) by (bit_vector);
}

/// A header whose tag inverse is not the complement of its tag is rejected.
pub proof fn lemma_bad_tag_rejected(bytes: Seq<u8>)
    requires
        bytes.len() >= HEADER_LEN,
        bytes[2] != !bytes[1],
    ensures
        decode_spec(bytes) is None,
{
}

/// Every total length padded by `padding_for` is a multiple of four, and the
/// padding is under four bytes.
pub proof fn lemma_padding_aligns(total_len: int)
    requires
        total_len >= 0,
    ensures
        (total_len + padding_spec(total_len)) % 4 == 0,
        0 <= padding_spec(total_len) < 4,
{
}

} // verus!
