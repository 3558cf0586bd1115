use usbipd::error::ProtoError;
use usbipd::urb::{
    write_ret_submit, write_ret_unlink, CmdSubmit, CmdUnlink, RetSubmit, RetUnlink, SetupPacket,
    UrbHeader, URB_HEADER_SIZE, USBIP_CMD_SUBMIT, USBIP_DIR_IN,
};

#[test]
fn urb_header_roundtrip() {
    let h = UrbHeader {
        command: USBIP_CMD_SUBMIT,
        seqnum: 0x1234_5678,
        devid: (1 << 16) | 1,
        direction: USBIP_DIR_IN,
        ep: 1,
    };
    let mut buf = Vec::new();
    h.encode(&mut buf);
    assert_eq!(buf.len(), UrbHeader::SIZE);
    assert_eq!(&buf[0..4], &[0, 0, 0, 1]);
    assert_eq!(&buf[4..8], &0x1234_5678u32.to_be_bytes());
    let decoded = UrbHeader::decode(&buf).unwrap();
    assert_eq!(h, decoded);
}

#[test]
fn cmd_submit_decodes_get_descriptor() {
    let mut buf = Vec::new();
    buf.extend_from_slice(&0u32.to_be_bytes());
    buf.extend_from_slice(&18i32.to_be_bytes());
    buf.extend_from_slice(&0i32.to_be_bytes());
    buf.extend_from_slice(&(-1i32).to_be_bytes());
    buf.extend_from_slice(&0i32.to_be_bytes());
    buf.extend_from_slice(&[0x80, 0x06, 0x00, 0x01, 0x00, 0x00, 0x12, 0x00]);
    let cmd = CmdSubmit::decode(&buf).unwrap();
    assert_eq!(cmd.transfer_buffer_length, 18);
    assert_eq!(cmd.number_of_packets, -1);
    assert_eq!(cmd.setup, [0x80, 0x06, 0x00, 0x01, 0x00, 0x00, 0x12, 0x00]);
}

#[test]
fn ret_submit_known_bytes() {
    let mut buf = Vec::new();
    write_ret_submit(
        &mut buf,
        42,
        &RetSubmit { status: 0, actual_length: 4, ..Default::default() },
        &[0xDE, 0xAD, 0xBE, 0xEF],
    );
    assert_eq!(buf.len(), URB_HEADER_SIZE + 4);
    assert_eq!(&buf[0..4], &3u32.to_be_bytes());
    assert_eq!(&buf[4..8], &42u32.to_be_bytes());
    assert_eq!(&buf[20..24], &0i32.to_be_bytes());
    assert_eq!(&buf[24..28], &4i32.to_be_bytes());
    assert_eq!(&buf[48..52], &[0xDE, 0xAD, 0xBE, 0xEF]);
}

#[test]
fn cmd_unlink_decodes() {
    let mut buf = Vec::new();
    buf.extend_from_slice(&77u32.to_be_bytes());
    buf.extend_from_slice(&[0u8; 24]);
    let u = CmdUnlink::decode(&buf).unwrap();
    assert_eq!(u.unlink_seqnum, 77);
}

#[test]
fn cmd_submit_roundtrip() {
    let cmd = CmdSubmit {
        transfer_flags: 0x0200_0001,
        transfer_buffer_length: i32::MIN,
        start_frame: -2,
        number_of_packets: i32::MAX,
        interval: 255,
        setup: [1, 2, 3, 4, 5, 6, 7, 8],
    };
    let mut buf = Vec::new();
    cmd.encode(&mut buf);
    assert_eq!(buf.len(), CmdSubmit::SIZE);
    assert_eq!(CmdSubmit::decode(&buf).unwrap(), cmd);
}

#[test]
fn short_reads() {
    assert_eq!(UrbHeader::decode(&[0; 19]), Err(ProtoError::ShortRead { need: 20, got: 19 }));
    assert_eq!(CmdSubmit::decode(&[0; 27]), Err(ProtoError::ShortRead { need: 28, got: 27 }));
    assert_eq!(CmdUnlink::decode(&[]), Err(ProtoError::ShortRead { need: 28, got: 0 }));
}

#[test]
fn ret_unlink_known_bytes() {
    let mut buf = Vec::new();
    write_ret_unlink(&mut buf, 7, -104);
    assert_eq!(buf.len(), URB_HEADER_SIZE);
    assert_eq!(&buf[0..8], &[0, 0, 0, 4, 0, 0, 0, 7]);
    assert!(buf[8..20].iter().all(|&b| b == 0));
    assert_eq!(&buf[20..24], &(-104i32).to_be_bytes());
    assert!(buf[24..].iter().all(|&b| b == 0));
    let mut tail = Vec::new();
    RetUnlink { status: -104, ..Default::default() }.encode(&mut tail);
    assert_eq!(&buf[20..], &tail[..]);
}

#[test]
fn setup_packet_is_little_endian() {
    let p = SetupPacket::from_bytes([0x80, 0x06, 0x00, 0x01, 0x34, 0x12, 0x12, 0x00]);
    assert_eq!(
        p,
        SetupPacket {
            bm_request_type: 0x80,
            b_request: 6,
            w_value: 0x0100,
            w_index: 0x1234,
            w_length: 18,
        }
    );
}
