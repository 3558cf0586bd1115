use usbipd::error::ProtoError;
use usbipd::session::{
    decode_request, devid_of, endpoint_addr, submit_reply, Action, InflightTable, Session,
    SessionError, SubmitRequest, TransferDone, TransferPlan, UrbRequest, EOVERFLOW, EPIPE,
    MAX_INFLIGHT_URBS,
};
use usbipd::urb::{
    CmdSubmit, SetupPacket, UrbHeader, URB_HEADER_SIZE, USBIP_CMD_SUBMIT, USBIP_CMD_UNLINK,
    USBIP_DIR_IN, USBIP_DIR_OUT,
};

const DEVID: u32 = 0x0001_0002;

fn submit(seqnum: u32, direction: u32, ep: u32, length: i32) -> Vec<u8> {
    let mut out = Vec::new();
    UrbHeader { command: USBIP_CMD_SUBMIT, seqnum, devid: DEVID, direction, ep }.encode(&mut out);
    CmdSubmit {
        transfer_flags: 0,
        transfer_buffer_length: length,
        start_frame: 0,
        number_of_packets: -1,
        interval: 0,
        setup: [0x80, 6, 0, 1, 0, 0, 18, 0],
    }
    .encode(&mut out);
    assert_eq!(out.len(), URB_HEADER_SIZE);
    out
}

fn unlink(seqnum: u32, target: u32) -> Vec<u8> {
    let mut out = Vec::new();
    UrbHeader { command: USBIP_CMD_UNLINK, seqnum, devid: DEVID, direction: 0, ep: 0 }
        .encode(&mut out);
    out.extend_from_slice(&target.to_be_bytes());
    out.extend_from_slice(&[0; 24]);
    out
}

fn request(seqnum: u32, direction: u32, ep: u32, length: i32) -> SubmitRequest {
    match decode_request(DEVID, &submit(seqnum, direction, ep, length)) {
        Ok(UrbRequest::Submit(req)) => req,
        other => panic!("{other:?}"),
    }
}

fn reply(status: i32, actual: i32, payload: &[u8]) -> Vec<u8> {
    let mut out = vec![0, 0, 0, 3, 0, 0, 0, 5, 0, 0, 0, 0, 0, 0, 0, 0, 0, 0, 0, 0];
    out.extend_from_slice(&status.to_be_bytes());
    out.extend_from_slice(&actual.to_be_bytes());
    out.extend_from_slice(&[0; 20]);
    out.extend_from_slice(payload);
    out
}

fn done(actual_length: usize, data: &[u8]) -> Option<TransferDone> {
    Some(TransferDone { actual_length, data: data.to_vec() })
}

#[test]
fn device_numbers_make_an_identifier() {
    assert_eq!(devid_of(1, 2), DEVID);
    assert_eq!(devid_of(0xffff, 0xffff), 0xffff_ffff);
    assert_eq!(devid_of(0, 0), 0);
}

#[test]
fn endpoints_have_addresses() {
    assert_eq!(endpoint_addr(0, false), 0);
    assert_eq!(endpoint_addr(0, true), 0);
    assert_eq!(endpoint_addr(2, false), 0x02);
    assert_eq!(endpoint_addr(2, true), 0x82);
    assert_eq!(endpoint_addr(0x1f, true), 0x8f);
    assert_eq!(endpoint_addr(0x10, false), 0);
    assert_eq!(endpoint_addr(u32::MAX, true), 0x8f);
}

#[test]
fn submits_are_understood() {
    assert_eq!(
        decode_request(DEVID, &submit(5, USBIP_DIR_IN, 1, 512)),
        Ok(UrbRequest::Submit(SubmitRequest {
            seqnum: 5,
            dir_in: true,
            ep: 1,
            length: 512,
            setup: SetupPacket {
                bm_request_type: 0x80,
                b_request: 6,
                w_value: 0x0100,
                w_index: 0,
                w_length: 18,
            },
        }))
    );
}

#[test]
fn only_transfers_to_the_device_bring_a_payload() {
    assert_eq!(request(5, USBIP_DIR_OUT, 1, 512).payload_len(), 512);
    assert_eq!(request(5, USBIP_DIR_IN, 1, 512).payload_len(), 0);
    assert_eq!(request(5, USBIP_DIR_OUT, 1, -1).payload_len(), 0);
    assert_eq!(request(5, 7, 1, 16).payload_len(), 16);
    assert_eq!(request(5, USBIP_DIR_IN, 1, i32::MIN).length, 0);
}

#[test]
fn transfers_are_planned_by_endpoint() {
    let control = request(5, USBIP_DIR_IN, 0, 18);
    assert_eq!(control.plan(), TransferPlan::Control { setup: control.setup });
    assert_eq!(
        request(5, USBIP_DIR_IN, 3, 64).plan(),
        TransferPlan::Data { ep_addr: 0x83, length: 64 }
    );
    assert_eq!(
        request(5, USBIP_DIR_OUT, 3, 64).plan(),
        TransferPlan::Data { ep_addr: 0x03, length: 64 }
    );
}

#[test]
fn unlinks_are_understood() {
    assert_eq!(
        decode_request(DEVID, &unlink(9, 5)),
        Ok(UrbRequest::Unlink { seqnum: 9, unlink_seqnum: 5 })
    );
}

#[test]
fn requests_for_other_devices_are_refused() {
    let expected = SessionError::DevidMismatch { got: DEVID, expected: 3 };
    assert_eq!(decode_request(3, &submit(5, 0, 1, 0)), Err(expected));
    assert_eq!(decode_request(3, &unlink(5, 1)), Err(expected));
    assert_eq!(expected.message(), "URB devid mismatch");
}

#[test]
fn unknown_commands_are_refused() {
    let mut header = submit(5, 0, 1, 0);
    header[3] = 9;
    let expected = SessionError::UnknownCommand(9);
    assert_eq!(decode_request(DEVID, &header), Err(expected));
    assert_eq!(
        expected.message(),
        "unknown URB command 0x00000009; closing connection"
    );
    assert_eq!(
        SessionError::UnknownCommand(0xdead_beef).message(),
        "unknown URB command 0xdeadbeef; closing connection"
    );
}

#[test]
fn short_headers_are_refused() {
    let short = SessionError::Proto(ProtoError::ShortRead { need: 20, got: 3 });
    assert_eq!(decode_request(DEVID, &[0; 3]), Err(short));
    assert_eq!(short.message(), "short read: need 20 bytes, got 3");
    assert_eq!(
        decode_request(DEVID, &submit(5, 0, 1, 0)[..47]),
        Err(SessionError::Proto(ProtoError::ShortRead { need: 28, got: 27 }))
    );
    assert_eq!(
        decode_request(DEVID, &unlink(5, 1)[..20]),
        Err(SessionError::Proto(ProtoError::ShortRead { need: 28, got: 0 }))
    );
}

#[test]
fn cancelled_submits_are_not_answered() {
    let req = request(5, USBIP_DIR_IN, 1, 4);
    assert_eq!(submit_reply(&req, true, done(4, &[1, 2, 3, 4])), None);
    assert_eq!(submit_reply(&req, true, None), None);
}

#[test]
fn transfers_from_the_device_bring_data() {
    let req = request(5, USBIP_DIR_IN, 1, 4);
    assert_eq!(
        submit_reply(&req, false, done(4, &[1, 2, 3, 4])),
        Some(reply(0, 4, &[1, 2, 3, 4]))
    );
    assert_eq!(submit_reply(&req, false, done(2, &[1, 2])), Some(reply(0, 2, &[1, 2])));
    assert_eq!(submit_reply(&req, false, done(0, &[])), Some(reply(0, 0, &[])));
}

#[test]
fn too_much_data_is_an_overflow() {
    let req = request(5, USBIP_DIR_IN, 1, 4);
    assert_eq!(EOVERFLOW, -75);
    assert_eq!(
        submit_reply(&req, false, done(5, &[1, 2, 3, 4, 5])),
        Some(reply(-75, 0, &[]))
    );
}

#[test]
fn transfers_to_the_device_bring_only_a_length() {
    let req = request(5, USBIP_DIR_OUT, 1, 4);
    assert_eq!(submit_reply(&req, false, done(3, &[9; 8])), Some(reply(0, 3, &[])));
    assert_eq!(
        submit_reply(&req, false, done(usize::MAX, &[])),
        Some(reply(0, i32::MAX, &[]))
    );
}

#[test]
fn failed_transfers_are_broken_pipes() {
    assert_eq!(EPIPE, -32);
    for direction in [USBIP_DIR_IN, USBIP_DIR_OUT] {
        let req = request(5, direction, 1, 4);
        assert_eq!(submit_reply(&req, false, None), Some(reply(-32, 0, &[])));
    }
}

#[test]
fn control_transfers_count_what_went_their_way() {
    let t = TransferDone::control(true, vec![1, 2, 3], 9);
    assert_eq!((t.actual_length, t.data), (3, vec![1, 2, 3]));
    let t = TransferDone::control(false, vec![], 9);
    assert_eq!((t.actual_length, t.data), (9, vec![]));
}

#[test]
fn the_table_follows_starts_and_ends() {
    let mut table: InflightTable<&str> = InflightTable::new();
    table.begin(1, "one", 0x81);
    table.begin(2, "two", 0);
    table.begin(3, "three", 3);
    table.finish(3);
    let (target, reply) = table.unlink(10, 1);
    let target = target.unwrap();
    assert_eq!((target.handle, target.endpoint), ("one", Some(0x81)));
    assert_eq!(&reply[..8], &[0, 0, 0, 4, 0, 0, 0, 10]);
    assert!(reply[8..].iter().all(|&b| b == 0));
    assert_eq!(reply.len(), 48);
    let (target, again) = table.unlink(10, 1);
    assert!(target.is_none());
    assert_eq!(again, reply);
    assert!(table.unlink(11, 3).0.is_none());
    let control = table.unlink(12, 2).0.unwrap();
    assert_eq!((control.handle, control.endpoint), ("two", None));
    assert!(table.drain().is_empty());
}

#[test]
fn a_number_that_is_used_again_names_the_later_submit() {
    let mut table: InflightTable<&str> = InflightTable::new();
    table.begin(1, "first", 1);
    table.begin(1, "second", 2);
    let target = table.unlink(9, 1).0.unwrap();
    assert_eq!((target.handle, target.endpoint), ("second", Some(2)));
    assert!(table.drain().is_empty());
}

#[test]
fn a_session_acts_on_requests() {
    let mut session: Session<u8> = Session::new(1, 2);
    let Action::Start(req) = session.on_header(&submit(5, USBIP_DIR_IN, 1, 64)) else {
        panic!("not started")
    };
    session.started(&req, 50);
    let Action::Start(other) = session.on_header(&submit(6, USBIP_DIR_OUT, 2, 8)) else {
        panic!("not started")
    };
    session.started(&other, 60);
    let Action::Cancel { target, reply } = session.on_header(&unlink(7, 5)) else {
        panic!("not cancelled")
    };
    let target = target.unwrap();
    assert_eq!((target.handle, target.endpoint), (50, Some(0x81)));
    assert_eq!(&reply[..8], &[0, 0, 0, 4, 0, 0, 0, 7]);
    assert!(matches!(
        session.on_header(&unlink(8, 5)),
        Action::Cancel { target: None, .. }
    ));
    session.finished(6);
    assert!(matches!(
        session.on_header(&unlink(9, 6)),
        Action::Cancel { target: None, .. }
    ));
    let mut foreign = unlink(9, 6);
    foreign[11] = 0xff;
    assert!(matches!(
        session.on_header(&foreign),
        Action::Close(SessionError::DevidMismatch { got: 0x0001_00ff, expected: DEVID })
    ));
}

#[test]
fn closing_a_session_stops_what_is_in_flight() {
    let mut session: Session<u32> = Session::new(1, 2);
    for seqnum in 1..=20 {
        session.started(&request(seqnum, USBIP_DIR_IN, 1, 8), seqnum * 10);
    }
    session.finished(7);
    let mut left = session.close();
    left.sort_unstable();
    let expected: Vec<(u32, u32)> =
        (1..=20).filter(|&n| n != 7).map(|n| (n, n * 10)).collect();
    assert_eq!(left, expected);
    assert!(session.close().is_empty());
}

#[test]
fn no_more_than_256_submits_are_in_flight() {
    assert_eq!(MAX_INFLIGHT_URBS, 256);
    let mut session: Session<u32> = Session::new(1, 2);
    for seqnum in 0..256 {
        assert!(session.may_start());
        session.started(&request(seqnum, USBIP_DIR_IN, 1, 8), seqnum);
    }
    assert!(!session.may_start());
    // While all of them are in flight, none is over.
    session.ended();
    assert!(!session.may_start());
    // One that is carried out makes room when its transfer is over.
    session.finished(7);
    assert!(!session.may_start());
    session.ended();
    assert!(session.may_start());
    session.started(&request(1000, USBIP_DIR_IN, 1, 8), 0);
    assert!(!session.may_start());
    // So does one that is cancelled, and only once.
    assert!(matches!(
        session.on_header(&unlink(2000, 8)),
        Action::Cancel { target: Some(_), .. }
    ));
    assert!(!session.may_start());
    session.ended();
    session.ended();
    assert!(session.may_start());
    session.started(&request(1001, USBIP_DIR_IN, 1, 8), 0);
    assert!(!session.may_start());
    // And all of them when the client leaves.
    assert_eq!(session.close().len(), 256);
    assert!(!session.may_start());
    session.ended();
    assert!(session.may_start());
}

#[test]
fn the_table_counts_its_submits() {
    let mut table: InflightTable<u8> = InflightTable::new();
    assert_eq!(table.len(), 0);
    table.begin(1, 0, 0);
    table.begin(2, 0, 0);
    table.begin(2, 0, 0);
    assert_eq!(table.len(), 2);
    table.finish(1);
    table.finish(1);
    assert_eq!(table.len(), 1);
}
