use usbtmc::abort::AbortRegister;
use usbtmc::control::{control_in, control_out, ControlRequest, InReply, OutReply, Recipient, RequestType};

fn class_req(request: u8, value: u16) -> ControlRequest {
    ControlRequest {
        request_type: RequestType::Class,
        recipient: Recipient::Interface,
        request,
        value,
        index: 0,
        length: 0,
    }
}

#[test]
fn get_capabilities_record() {
    let mut abort = AbortRegister::new();
    let mut buf = [0xAAu8; 10];
    let r = control_in(&class_req(0x07, 0), &mut buf, &mut abort);
    assert_eq!(r, Some(InReply::Accepted(6)));
    assert_eq!(buf[0..6], [0x00, 0x01, 0x07, 0x00, 0x00, 0x00]);
    assert_eq!(buf[6..10], [0xAA; 4]);
}

#[test]
fn get_capabilities_small_buffer_rejected() {
    let mut abort = AbortRegister::new();
    let mut buf = [0u8; 5];
    let r = control_in(&class_req(0x07, 0), &mut buf, &mut abort);
    assert_eq!(r, Some(InReply::Rejected));
    assert_eq!(buf, [0u8; 5]);
}

#[test]
fn abort_initiate_then_check_twice() {
    let mut abort = AbortRegister::new();
    assert_eq!(control_out(&class_req(0x01, 0x85), &mut abort), Some(OutReply::Accepted));
    let mut buf = [0xFFu8; 8];
    assert_eq!(control_in(&class_req(0x02, 0), &mut buf, &mut abort), Some(InReply::Accepted(8)));
    assert_eq!(buf, [0x00, 0x05, 0, 0, 0, 0, 0, 0]);
    let mut buf = [0xFFu8; 8];
    assert_eq!(control_in(&class_req(0x02, 0), &mut buf, &mut abort), Some(InReply::Accepted(8)));
    assert_eq!(buf, [0x01, 0x00, 0, 0, 0, 0, 0, 0]);
}

#[test]
fn abort_status_small_buffer_keeps_tag() {
    let mut abort = AbortRegister::new();
    control_out(&class_req(0x01, 0x23), &mut abort);
    let mut buf = [0u8; 7];
    assert_eq!(control_in(&class_req(0x02, 0), &mut buf, &mut abort), Some(InReply::Rejected));
    let mut buf = [0u8; 8];
    control_in(&class_req(0x02, 0), &mut buf, &mut abort);
    assert_eq!(buf[0..2], [0x00, 0x23]);
}

#[test]
fn abort_last_write_wins() {
    let mut abort = AbortRegister::new();
    abort.initiate(0x11);
    abort.initiate(0xFF);
    assert_eq!(abort.check(), (0, 0x7F));
    assert_eq!(abort.check(), (1, 0));
}

#[test]
fn foreign_requests_not_handled() {
    let mut abort = AbortRegister::new();
    let mut buf = [0u8; 16];
    let mut req = class_req(0x07, 0);
    req.request_type = RequestType::Standard;
    assert_eq!(control_in(&req, &mut buf, &mut abort), None);
    let mut req = class_req(0x07, 0);
    req.recipient = Recipient::Device;
    assert_eq!(control_in(&req, &mut buf, &mut abort), None);
    assert_eq!(control_in(&class_req(0x05, 0), &mut buf, &mut abort), None);
    assert_eq!(control_out(&class_req(0x07, 0), &mut abort), None);
    let mut req = class_req(0x01, 0x05);
    req.request_type = RequestType::Vendor;
    assert_eq!(control_out(&req, &mut abort), None);
    assert_eq!(abort.check(), (1, 0));
    assert_eq!(buf, [0u8; 16]);
}
