use usbipd::error::ProtoError;
use usbipd::host::UsbDevice;
use usbipd::op::{
    ExportedDevice, ExportedInterface, OpHeader, OP_REP_DEVLIST, OP_REQ_DEVLIST, OP_REQ_IMPORT,
    USBIP_VERSION,
};
use usbipd::policy::{DeviceFilter, Policy};
use usbipd::server::{granted, handle_op, refused, DescriptorSnapshot, ImportRefusal, Reply, Server};

fn device(busid: &str, vendor_id: u16, class: u8) -> UsbDevice {
    UsbDevice {
        busid: busid.into(),
        busnum: 1,
        devnum: 2,
        speed: 3,
        vendor_id,
        product_id: 0x0407,
        device_version: 0x0100,
        class,
        subclass: 0,
        protocol: 0,
        configuration_value: 1,
        num_configurations: 1,
        interfaces: vec![ExportedInterface { class: 3, subclass: 0, protocol: 1 }],
        manufacturer: Some("Yubico".into()),
        product: None,
        serial: None,
    }
}

fn host() -> Vec<UsbDevice> {
    vec![device("01-1", 0x1050, 0), device("01-2", 0x05ac, 9), device("01-3", 0x0781, 0)]
}

fn listed(policy: &Policy) -> Vec<String> {
    let Ok(Reply::Bytes(bytes)) = handle_op(&OpHeader::new(OP_REQ_DEVLIST), policy, &host()) else {
        panic!("no device list")
    };
    let header = OpHeader::decode(&bytes).unwrap();
    assert_eq!(
        header,
        OpHeader { version: USBIP_VERSION, code: OP_REP_DEVLIST, status: 0 }
    );
    let mut at = 12;
    let mut busids = Vec::new();
    while at < bytes.len() {
        let (d, n) = ExportedDevice::decode(&bytes[at..]).unwrap();
        busids.push(d.busid);
        at += n;
    }
    assert_eq!(bytes[8..12], (busids.len() as u32).to_be_bytes());
    busids
}

fn yubico() -> Policy {
    Policy::AllowList(vec![DeviceFilter { vendor_id: 0x1050, product_id: 0x0407 }])
}

#[test]
fn device_list_follows_the_policy() {
    assert_eq!(listed(&Policy::AllowAll), ["01-1", "01-3"]);
    assert_eq!(listed(&yubico()), ["01-1"]);
    assert!(listed(&Policy::DenyAll).is_empty());
}

#[test]
fn requests_are_routed_by_their_code() {
    let import = handle_op(&OpHeader::new(OP_REQ_IMPORT), &Policy::DenyAll, &[]);
    assert!(matches!(import, Ok(Reply::Import)));
    let unknown = OpHeader { version: USBIP_VERSION, code: 0x0000, status: 0 };
    assert!(matches!(
        handle_op(&unknown, &Policy::AllowAll, &host()),
        Ok(Reply::Unsupported(0x0000))
    ));
}

#[test]
fn other_versions_are_refused() {
    for code in [OP_REQ_DEVLIST, OP_REQ_IMPORT, 0] {
        let header = OpHeader { version: 0x0106, code, status: 0 };
        assert!(matches!(
            handle_op(&header, &Policy::AllowAll, &host()),
            Err(ProtoError::UnsupportedVersion(0x0106))
        ));
    }
}

#[test]
fn imports_are_decided_by_policy_and_locks() {
    let mut server = Server::new(Policy::AllowAll);
    let first = String::from("01-1");
    let third = String::from("01-3");
    let hub = String::from("01-2");
    assert_eq!(server.begin_import(&host(), &String::from("09-9")), Err(ImportRefusal::NotExported));
    assert_eq!(server.begin_import(&host(), &hub), Err(ImportRefusal::NotExported));
    assert_eq!(server.begin_import(&host(), &third), Ok(2));
    assert_eq!(server.begin_import(&host(), &third), Err(ImportRefusal::Busy));
    assert_eq!(server.begin_import(&host(), &first), Ok(0));
    server.session_ended(&third);
    assert_eq!(server.begin_import(&host(), &first), Err(ImportRefusal::Busy));
    assert_eq!(server.begin_import(&host(), &third), Ok(2));
}

#[test]
fn devices_that_are_not_allowed_cannot_be_imported() {
    let mut server = Server::new(yubico());
    assert_eq!(
        server.begin_import(&host(), &String::from("01-3")),
        Err(ImportRefusal::NotExported)
    );
    assert_eq!(server.begin_import(&host(), &String::from("01-1")), Ok(0));
    let mut server = Server::new(Policy::DenyAll);
    assert_eq!(
        server.begin_import(&host(), &String::from("01-1")),
        Err(ImportRefusal::NotExported)
    );
}

#[test]
fn a_device_that_does_not_open_is_free_again() {
    let mut server = Server::new(Policy::AllowAll);
    let busid = String::from("01-1");
    assert_eq!(server.begin_import(&host(), &busid), Ok(0));
    assert_eq!(server.open_failed(&busid), refused());
    assert_eq!(server.begin_import(&host(), &busid), Ok(0));
    assert_eq!(refused(), [0x01, 0x11, 0x00, 0x03, 0, 0, 0, 1]);
}

#[test]
fn opened_devices_speak_for_themselves() {
    let d = device("01-1", 0x1050, 0);
    let mut snap = DescriptorSnapshot {
        busid: "01-1".into(),
        busnum: 0x14,
        devnum: 0x23,
        configuration_value: 2,
        num_configurations: 3,
        interfaces: vec![],
    };
    let (merged, reply) = granted(&d, &snap);
    assert_eq!(
        merged,
        UsbDevice {
            busnum: 0x14,
            devnum: 0x23,
            configuration_value: 2,
            num_configurations: 3,
            ..d.clone()
        }
    );
    assert_eq!(reply.len(), 320);
    assert_eq!(&reply[..8], &[0x01, 0x11, 0x00, 0x03, 0, 0, 0, 0]);
    assert_eq!(&reply[8 + 288..8 + 296], &[0, 0, 0, 0x14, 0, 0, 0, 0x23]);
    assert_eq!(reply[8 + 311], 1);
    snap.interfaces = vec![
        ExportedInterface { class: 8, subclass: 6, protocol: 0x50 },
        ExportedInterface { class: 3, subclass: 1, protocol: 1 },
    ];
    let (merged, reply) = granted(&d, &snap);
    assert_eq!(merged.interfaces, snap.interfaces);
    assert_eq!(reply[8 + 311], 2);
}

#[test]
fn what_is_listed_can_be_imported_and_nothing_else() {
    for policy in [Policy::AllowAll, Policy::DenyAll, yubico()] {
        let listed = listed(&policy);
        let mut server = Server::new(policy);
        for d in host() {
            let granted = server.begin_import(&host(), &d.busid).is_ok();
            assert_eq!(granted, listed.contains(&d.busid), "{}", d.busid);
        }
    }
}

#[test]
fn the_first_exported_device_with_a_busid_is_imported() {
    let twins = vec![device("01-1", 1, 9), device("01-1", 2, 0), device("01-1", 3, 0)];
    let mut server = Server::new(Policy::AllowAll);
    assert_eq!(server.begin_import(&twins, &String::from("01-1")), Ok(1));
}
