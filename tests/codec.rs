use usbtmc::codec::{decode_header, encode_header, padding_for, BulkMessageHeader};

#[test]
fn header_round_trip() {
    let bytes = encode_header(1, 0x05, 0x0102_0304, true);
    let h = decode_header(&bytes).unwrap();
    assert_eq!(
        h,
        BulkMessageHeader { msg_id: 1, b_tag: 0x05, b_tag_inverse: 0xFA, transfer_size: 0x0102_0304, eom: true }
    );
}

#[test]
fn encode_header_bytes() {
    let bytes = encode_header(2, 0x05, 24, true);
    assert_eq!(bytes, [2, 0x05, 0xFA, 0, 24, 0, 0, 0, 1, 0, 0, 0]);
    let bytes = encode_header(1, 0x7F, 0xDEAD_BEEF, false);
    assert_eq!(bytes, [1, 0x7F, 0x80, 0, 0xEF, 0xBE, 0xAD, 0xDE, 0, 0, 0, 0]);
}

#[test]
fn decode_little_endian_size() {
    let h = decode_header(&[1, 0x05, 0xFA, 0, 4, 0, 0, 0, 1, 0, 0, 0]).unwrap();
    assert_eq!(h.msg_id, 1);
    assert_eq!(h.transfer_size, 4);
    assert!(h.eom);
    let h = decode_header(&[2, 9, 0xF6, 0, 0x00, 0x02, 0, 0, 0, 0, 0, 0]).unwrap();
    assert_eq!(h.transfer_size, 512);
    assert!(!h.eom);
}

#[test]
fn bad_tag_inverse_rejected() {
    for tag in 0..=255u8 {
        let mut bytes = encode_header(1, tag, 4, true);
        bytes[2] = bytes[2].wrapping_add(1);
        assert_eq!(decode_header(&bytes), None);
    }
}

#[test]
fn short_header_rejected() {
    let bytes = encode_header(1, 3, 4, true);
    assert_eq!(decode_header(&bytes[0..11]), None);
    assert_eq!(decode_header(&[]), None);
}

#[test]
fn padding_values() {
    assert_eq!(padding_for(0), 0);
    assert_eq!(padding_for(12), 0);
    assert_eq!(padding_for(13), 3);
    assert_eq!(padding_for(14), 2);
    assert_eq!(padding_for(15), 1);
    assert_eq!(padding_for(17), 3);
    for n in 0..100usize {
        let p = padding_for(n);
        assert!(p < 4);
        assert_eq!((n + p) % 4, 0);
    }
    assert_eq!(padding_for(usize::MAX), 1);
}
