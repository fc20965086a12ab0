use usbtmc::codec::{encode_header, padding_for};
use usbtmc::engine::{build_reply, BulkAction, UsbTmc, MAX_PACKET_SIZE};
use usbtmc::queue::{Command, Response, MAX_MSG_LEN};

fn out_message(tag: u8, payload: &[u8]) -> Vec<u8> {
    let mut v = encode_header(1, tag, payload.len() as u32, true).to_vec();
    v.extend_from_slice(payload);
    let pad = padding_for(v.len());
    v.extend(std::iter::repeat(0u8).take(pad));
    v
}

fn feed(tmc: &mut UsbTmc, wire: &[u8], first: usize) -> Vec<BulkAction> {
    let mut actions = Vec::new();
    let mut start = 0;
    let mut size = first;
    while start < wire.len() {
        let end = (start + size).min(wire.len());
        actions.push(tmc.on_packet(&wire[start..end]));
        start = end;
        size = MAX_PACKET_SIZE;
    }
    actions
}

fn command(c: &Command) -> Vec<u8> {
    c.data[0..c.len].to_vec()
}

#[test]
fn idn_truncated_to_declared_size() {
    let mut tmc = UsbTmc::new();
    let mut packet = vec![1, 0x05, 0xFA, 0, 4, 0, 0, 0, 1, 0, 0, 0];
    packet.extend_from_slice(b"*IDN?\0\0\0");
    assert!(matches!(tmc.on_packet(&packet), BulkAction::ReadPacket));
    let c = tmc.take_command().unwrap();
    assert_eq!(c.len, 4);
    assert_eq!(command(&c), b"*IDN".to_vec());
    assert!(tmc.take_command().is_none());
}

#[test]
fn request_in_with_queued_response() {
    let mut tmc = UsbTmc::new();
    assert!(tmc.submit_response(Response::from_bytes(b"RP2350-USBTMC,1,0,FW1.0\n")));
    let req = [2, 0x05, 0xFA, 0, 64, 0, 0, 0, 0, 0, 0, 0];
    match tmc.on_packet(&req) {
        BulkAction::Write(reply) => {
            assert_eq!(reply.len, 36);
            assert_eq!(reply.data[0..12], [2, 0x05, 0xFA, 0, 24, 0, 0, 0, 1, 0, 0, 0]);
            assert_eq!(&reply.data[12..36], b"RP2350-USBTMC,1,0,FW1.0\n");
        }
        _ => panic!("expected a reply"),
    }
}

#[test]
fn request_in_waits_for_response() {
    let mut tmc = UsbTmc::new();
    let req = [2, 0x05, 0xFA, 0, 64, 0, 0, 0, 0, 0, 0, 0];
    assert!(matches!(tmc.on_packet(&req), BulkAction::AwaitResponse));
    assert!(matches!(tmc.poll_response(), BulkAction::AwaitResponse));
    assert!(matches!(tmc.on_packet(&[1, 2, 3]), BulkAction::AwaitResponse));
    tmc.submit_response(Response::from_bytes(b"RP2350-USBTMC,1,0,FW1.0\n"));
    match tmc.poll_response() {
        BulkAction::Write(reply) => {
            assert_eq!(reply.len, 36);
            assert_eq!(reply.data[0..12], [2, 0x05, 0xFA, 0, 24, 0, 0, 0, 1, 0, 0, 0]);
        }
        _ => panic!("expected a reply"),
    }
    assert!(matches!(tmc.poll_response(), BulkAction::ReadPacket));
}

#[test]
fn reply_truncated_to_host_max_and_padded() {
    let resp = Response::from_bytes(b"0123456789");
    let reply = build_reply(0x21, 5, &resp);
    assert_eq!(reply.len, 20);
    assert_eq!(reply.data[0..12], [2, 0x21, 0xDE, 0, 5, 0, 0, 0, 1, 0, 0, 0]);
    assert_eq!(&reply.data[12..17], b"01234");
    assert_eq!(reply.data[17..20], [0, 0, 0]);
    let reply = build_reply(0x21, 0, &resp);
    assert_eq!(reply.len, 12);
}

#[test]
fn reply_capped_at_max_message_length() {
    let text = vec![b'x'; 600];
    let resp = Response::from_bytes(&text);
    assert_eq!(resp.len, MAX_MSG_LEN);
    let reply = build_reply(1, 10_000, &resp);
    assert_eq!(reply.len, 12 + 512);
    assert_eq!(reply.data[4..8], [0x00, 0x02, 0, 0]);
}

#[test]
fn multi_packet_round_trip_all_splits() {
    let payload: Vec<u8> = (0..200u32).map(|i| (i * 7 % 251) as u8).collect();
    for len in [0usize, 1, 3, 4, 49, 50, 51, 52, 53, 116, 117, 200] {
        let wire = out_message(0x11, &payload[0..len]);
        for first in [12usize, 13, 20, 52, 63, 64] {
            let mut tmc = UsbTmc::new();
            let actions = feed(&mut tmc, &wire, first);
            assert!(actions.iter().all(|a| matches!(a, BulkAction::ReadPacket)));
            let c = tmc.take_command().unwrap();
            assert_eq!(command(&c), payload[0..len].to_vec());
            assert!(tmc.take_command().is_none());
        }
    }
}

#[test]
fn packet_boundary_on_padding() {
    // 51 payload bytes: header + payload = 63, padding 1, packet boundary at 64.
    let payload = vec![b'a'; 51];
    let wire = out_message(3, &payload);
    assert_eq!(wire.len(), 64);
    let mut tmc = UsbTmc::new();
    tmc.on_packet(&wire[0..63]);
    assert!(tmc.take_command().is_none());
    tmc.on_packet(&wire[63..64]);
    assert_eq!(command(&tmc.take_command().unwrap()), payload);
}

#[test]
fn short_packet_ends_message() {
    let mut tmc = UsbTmc::new();
    let mut first = encode_header(1, 7, 100, true).to_vec();
    first.extend_from_slice(&[b'a'; 52]);
    tmc.on_packet(&first);
    assert!(tmc.take_command().is_none());
    tmc.on_packet(b"bcd");
    assert_eq!(command(&tmc.take_command().unwrap()), [vec![b'a'; 52], b"bcd".to_vec()].concat());
}

#[test]
fn oversized_transfer_truncated() {
    let payload: Vec<u8> = (0..600u32).map(|i| i as u8).collect();
    let wire = out_message(9, &payload);
    let mut tmc = UsbTmc::new();
    let actions = feed(&mut tmc, &wire, 64);
    assert!(actions.iter().all(|a| matches!(a, BulkAction::ReadPacket)));
    let c = tmc.take_command().unwrap();
    assert_eq!(c.len, MAX_MSG_LEN);
    assert_eq!(command(&c), payload[0..MAX_MSG_LEN].to_vec());
}

#[test]
fn malformed_packets_discarded() {
    let mut tmc = UsbTmc::new();
    assert!(matches!(tmc.on_packet(&[1, 5, 0xFA]), BulkAction::ReadPacket));
    let mut bad = out_message(5, b"ABCD");
    bad[2] = 0x00;
    assert!(matches!(tmc.on_packet(&bad), BulkAction::ReadPacket));
    let other = encode_header(0x7E, 5, 4, true);
    assert!(matches!(tmc.on_packet(&other), BulkAction::ReadPacket));
    assert!(tmc.take_command().is_none());
    tmc.on_packet(&out_message(6, b"OK"));
    assert_eq!(command(&tmc.take_command().unwrap()), b"OK".to_vec());
}

#[test]
fn full_command_queue_drops_newest() {
    let mut tmc = UsbTmc::new();
    for i in 0..5u8 {
        tmc.on_packet(&out_message(i + 1, &[b'0' + i]));
    }
    for i in 0..4u8 {
        assert_eq!(command(&tmc.take_command().unwrap()), vec![b'0' + i]);
    }
    assert!(tmc.take_command().is_none());
}

#[test]
fn submit_to_full_queue_is_noop() {
    let mut tmc = UsbTmc::new();
    let c = Command { len: 1, data: [b'z'; MAX_MSG_LEN] };
    for _ in 0..4 {
        assert!(tmc.submit_command(c));
    }
    assert!(!tmc.submit_command(Command { len: 2, data: [b'q'; MAX_MSG_LEN] }));
    for _ in 0..4 {
        assert_eq!(tmc.take_command().unwrap().len, 1);
    }
    assert!(tmc.take_command().is_none());
}

#[test]
fn response_queue_fifo_and_bounded() {
    let mut tmc = UsbTmc::new();
    for t in [b"a", b"b", b"c", b"d"] {
        assert!(tmc.submit_response(Response::from_bytes(t)));
    }
    assert!(!tmc.submit_response(Response::from_bytes(b"e")));
    for (tag, t) in [(1u8, b'a'), (2, b'b'), (3, b'c'), (4, b'd')] {
        let req = encode_header(2, tag, 64, false);
        match tmc.on_packet(&req) {
            BulkAction::Write(r) => {
                assert_eq!(r.data[1], tag);
                assert_eq!(r.data[12], t);
                assert_eq!(r.len, 16);
            }
            _ => panic!("expected a reply"),
        }
    }
}
