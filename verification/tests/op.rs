use usbipd::error::ProtoError;
use usbipd::op::{
    decode_req_import_busid, encode_rep_devlist, encode_rep_import_err, encode_rep_import_ok,
    ExportedDevice, ExportedInterface, OpHeader, OP_REP_DEVLIST, OP_REP_IMPORT, OP_REQ_DEVLIST,
    USBIP_VERSION,
};

fn storage() -> ExportedInterface {
    ExportedInterface { class: 0x08, subclass: 0x06, protocol: 0x50 }
}

fn sandisk() -> ExportedDevice {
    ExportedDevice {
        path: "/usbipd-mac/01-1".into(),
        busid: "01-1".into(),
        busnum: 1,
        devnum: 1,
        speed: 3,
        id_vendor: 0x0781,
        id_product: 0x5530,
        bcd_device: 0x0001,
        b_device_class: 0x00,
        b_device_subclass: 0x00,
        b_device_protocol: 0x00,
        b_configuration_value: 1,
        b_num_configurations: 1,
        interfaces: vec![storage()],
    }
}

#[test]
fn op_header_known_bytes_req_devlist() {
    let h = OpHeader::new(OP_REQ_DEVLIST);
    let mut buf = Vec::new();
    h.encode(&mut buf);
    assert_eq!(buf, [0x01, 0x11, 0x80, 0x05, 0x00, 0x00, 0x00, 0x00]);
}

#[test]
fn op_header_roundtrip() {
    let h = OpHeader { version: 0x0111, code: OP_REP_IMPORT, status: 0 };
    let mut buf = Vec::new();
    h.encode(&mut buf);
    let decoded = OpHeader::decode(&buf).unwrap();
    assert_eq!(h, decoded);
}

#[test]
fn op_header_short_read() {
    assert!(matches!(
        OpHeader::decode(&[0; 4]),
        Err(ProtoError::ShortRead { need: 8, got: 4 })
    ));
}

#[test]
fn exported_interface_roundtrip() {
    let i = ExportedInterface { class: 0x08, subclass: 0x06, protocol: 0x50 };
    let mut buf = Vec::new();
    i.encode(&mut buf);
    assert_eq!(buf.len(), ExportedInterface::SIZE);
    assert_eq!(buf, [0x08, 0x06, 0x50, 0x00]);
    let decoded = ExportedInterface::decode(&buf).unwrap();
    assert_eq!(i, decoded);
}

#[test]
fn exported_interface_short_read() {
    assert_eq!(
        ExportedInterface::decode(&[1, 2, 3]),
        Err(ProtoError::ShortRead { need: 4, got: 3 })
    );
}

#[test]
fn exported_device_roundtrip_sandisk() {
    let d = sandisk();
    let mut buf = Vec::new();
    d.encode(&mut buf);
    assert_eq!(buf.len(), ExportedDevice::HEADER_SIZE + ExportedInterface::SIZE);
    let (decoded, consumed) = ExportedDevice::decode(&buf).unwrap();
    assert_eq!(d, decoded);
    assert_eq!(consumed, buf.len());
}

#[test]
fn exported_device_busid_offset_and_length() {
    let d = ExportedDevice {
        path: "p".into(),
        busid: "1-2.3".into(),
        busnum: 0,
        devnum: 0,
        speed: 0,
        id_vendor: 0,
        id_product: 0,
        bcd_device: 0,
        b_device_class: 0,
        b_device_subclass: 0,
        b_device_protocol: 0,
        b_configuration_value: 0,
        b_num_configurations: 0,
        interfaces: vec![],
    };
    let mut buf = Vec::new();
    d.encode(&mut buf);
    assert_eq!(&buf[256..256 + 5], b"1-2.3");
    assert!(buf[256 + 5..288].iter().all(|&b| b == 0));
}

#[test]
fn exported_device_numbers_stand_where_clients_look() {
    let mut buf = Vec::new();
    sandisk().encode(&mut buf);
    assert_eq!(&buf[288..292], &[0, 0, 0, 1]);
    assert_eq!(&buf[292..296], &[0, 0, 0, 1]);
    assert_eq!(&buf[296..300], &[0, 0, 0, 3]);
    assert_eq!(&buf[300..306], &[0x07, 0x81, 0x55, 0x30, 0x00, 0x01]);
    assert_eq!(&buf[306..312], &[0, 0, 0, 1, 1, 1]);
}

#[test]
fn exported_device_short_reads() {
    assert_eq!(
        ExportedDevice::decode(&[0; 311]),
        Err(ProtoError::ShortRead { need: 312, got: 311 })
    );
    let mut buf = Vec::new();
    sandisk().encode(&mut buf);
    buf.pop();
    assert_eq!(
        ExportedDevice::decode(&buf),
        Err(ProtoError::ShortRead { need: 316, got: 315 })
    );
}

#[test]
fn exported_device_ignores_what_follows() {
    let mut buf = Vec::new();
    sandisk().encode(&mut buf);
    buf.push(0xff);
    let (decoded, consumed) = ExportedDevice::decode(&buf).unwrap();
    assert_eq!(decoded, sandisk());
    assert_eq!(consumed, 316);
}

#[test]
fn more_interfaces_than_one_byte_counts() {
    let mut d = sandisk();
    d.interfaces = vec![storage(); 300];
    let mut buf = Vec::new();
    d.encode(&mut buf);
    assert_eq!(buf.len(), 312 + 4 * 300);
    assert_eq!(buf[311], 255);
    let (decoded, consumed) = ExportedDevice::decode(&buf).unwrap();
    assert_eq!(decoded.interfaces.len(), 255);
    assert_eq!(consumed, 312 + 4 * 255);
}

#[test]
fn long_strings_are_cut() {
    let mut d = sandisk();
    d.busid = "x".repeat(40);
    let mut buf = Vec::new();
    d.encode(&mut buf);
    let (decoded, _) = ExportedDevice::decode(&buf).unwrap();
    assert_eq!(decoded.busid, "x".repeat(32));
    assert_eq!(decoded.busnum, 1);
}

#[test]
fn import_request_names_a_busid() {
    let mut buf = [0u8; 32];
    buf[..5].copy_from_slice(b"1-2.3");
    assert_eq!(decode_req_import_busid(&buf).unwrap(), "1-2.3");
    assert_eq!(decode_req_import_busid(&[b'a'; 32]).unwrap(), "a".repeat(32));
    assert_eq!(
        decode_req_import_busid(&[0; 31]),
        Err(ProtoError::ShortRead { need: 32, got: 31 })
    );
}

#[test]
fn import_request_that_is_not_utf8_is_repaired() {
    let mut buf = [0u8; 32];
    buf[..4].copy_from_slice(&[b'1', 0xff, b'-', b'2']);
    assert_eq!(decode_req_import_busid(&buf).unwrap(), "1\u{fffd}-2");
    let mut buf = [0u8; 32];
    buf[..6].copy_from_slice(&[0xff, b'1', 0, 0xfe, b'2', 0]);
    assert_eq!(decode_req_import_busid(&buf).unwrap(), "\u{fffd}1");
    let mut buf = [0u8; 32];
    buf[..2].copy_from_slice("\u{e9}".as_bytes());
    assert_eq!(decode_req_import_busid(&buf).unwrap(), "\u{e9}");
}

#[test]
fn import_replies() {
    let mut ok = Vec::new();
    encode_rep_import_ok(&mut ok, &sandisk());
    assert_eq!(ok.len(), 320);
    assert_eq!(&ok[..8], &[0x01, 0x11, 0x00, 0x03, 0, 0, 0, 0]);
    assert_eq!(&ok[8 + 256..8 + 260], b"01-1");
    let mut err = Vec::new();
    encode_rep_import_err(&mut err);
    assert_eq!(err, [0x01, 0x11, 0x00, 0x03, 0, 0, 0, 1]);
}

#[test]
fn device_list_reads_back() {
    let mut second = sandisk();
    second.busid = "02-3".into();
    second.interfaces = vec![];
    let list = vec![sandisk(), second];
    let bytes = encode_rep_devlist(&list);
    let header = OpHeader::decode(&bytes).unwrap();
    assert_eq!(
        header,
        OpHeader { version: USBIP_VERSION, code: OP_REP_DEVLIST, status: 0 }
    );
    assert_eq!(&bytes[8..12], &[0, 0, 0, 2]);
    let (first, n) = ExportedDevice::decode(&bytes[12..]).unwrap();
    let (other, m) = ExportedDevice::decode(&bytes[12 + n..]).unwrap();
    assert_eq!(vec![first, other], list);
    assert_eq!(12 + n + m, bytes.len());
    assert_eq!(encode_rep_devlist(&[]).len(), 12);
}

#[test]
fn error_messages() {
    assert_eq!(
        ProtoError::ShortRead { need: 312, got: 0 }.message(),
        "short read: need 312 bytes, got 0"
    );
    assert_eq!(ProtoError::UnknownOp(0x8005).message(), "unknown op code: 0x8005");
    assert_eq!(
        ProtoError::UnsupportedVersion(0x0f).message(),
        "unsupported protocol version: 0x000f"
    );
}
