use usbipd::host::{
    bus_number, device_number, format_busid, list_devices, speed_code, to_exported, DeviceInfo,
    LinkSpeed, UsbDevice,
};
use usbipd::op::ExportedInterface;

fn info() -> DeviceInfo {
    DeviceInfo {
        bus_id: "01".into(),
        device_address: 4,
        port_chain: vec![2, 3],
        vendor_id: 0x1050,
        product_id: 0x0407,
        device_version: 0x0543,
        class: 0,
        subclass: 1,
        protocol: 2,
        speed: Some(LinkSpeed::Full),
        manufacturer_string: Some("Yubico".into()),
        product_string: None,
        serial_number: Some("123".into()),
        interfaces: vec![ExportedInterface { class: 3, subclass: 0, protocol: 1 }],
    }
}

#[test]
fn busids_name_bus_and_ports() {
    assert_eq!(format_busid("1", &[2], 9), "1-2");
    assert_eq!(format_busid("01", &[2, 3], 9), "01-2.3");
    assert_eq!(format_busid("20", &[255, 0, 17], 9), "20-255.0.17");
    assert_eq!(format_busid("1", &[], 9), "1-0.9");
}

#[test]
fn numbers_come_from_bus_and_ports() {
    assert_eq!(bus_number("01"), 1);
    assert_eq!(bus_number("14"), 0x14);
    assert_eq!(bus_number("usb"), 0);
    assert_eq!(device_number(&[1], 9), 1);
    assert_eq!(device_number(&[2, 3], 9), 0x23);
    assert_eq!(device_number(&[1, 2, 3, 4, 5], 9), 0x2345);
    assert_eq!(device_number(&[], 9), 9);
}

#[test]
fn speeds_have_the_numbers_of_linux() {
    assert_eq!(speed_code(None), 0);
    assert_eq!(speed_code(Some(LinkSpeed::Low)), 1);
    assert_eq!(speed_code(Some(LinkSpeed::Full)), 2);
    assert_eq!(speed_code(Some(LinkSpeed::High)), 3);
    assert_eq!(speed_code(Some(LinkSpeed::Super)), 5);
    assert_eq!(speed_code(Some(LinkSpeed::SuperPlus)), 6);
}

#[test]
fn devices_are_described_from_their_reports() {
    let d = UsbDevice::from_info(&info());
    assert_eq!(
        d,
        UsbDevice {
            busid: "01-2.3".into(),
            busnum: 1,
            devnum: 0x23,
            speed: 2,
            vendor_id: 0x1050,
            product_id: 0x0407,
            device_version: 0x0543,
            class: 0,
            subclass: 1,
            protocol: 2,
            configuration_value: 1,
            num_configurations: 1,
            interfaces: vec![ExportedInterface { class: 3, subclass: 0, protocol: 1 }],
            manufacturer: Some("Yubico".into()),
            product: None,
            serial: Some("123".into()),
        }
    );
    assert_eq!(list_devices(&vec![info(), info()]), vec![d.clone(), d]);
    assert!(list_devices(&vec![]).is_empty());
}

#[test]
fn devices_are_exported_under_their_busid() {
    let e = to_exported(&UsbDevice::from_info(&info()));
    assert_eq!(e.path, "/usbipd-darwin/01-2.3");
    assert_eq!(e.busid, "01-2.3");
    assert_eq!((e.busnum, e.devnum, e.speed), (1, 0x23, 2));
    assert_eq!((e.id_vendor, e.id_product, e.bcd_device), (0x1050, 0x0407, 0x0543));
    assert_eq!((e.b_device_class, e.b_device_subclass, e.b_device_protocol), (0, 1, 2));
    assert_eq!((e.b_configuration_value, e.b_num_configurations), (1, 1));
    assert_eq!(e.interfaces.len(), 1);
}

#[test]
fn different_devices_have_different_busids() {
    let places: [(&str, &[u8], u8); 7] = [
        ("1", &[2, 3], 9),
        ("1", &[23], 9),
        ("1", &[2], 9),
        ("12", &[3], 9),
        ("1-2", &[3], 9),
        ("1", &[], 2),
        ("1", &[], 3),
    ];
    for (i, a) in places.iter().enumerate() {
        for b in &places[i + 1..] {
            assert_ne!(format_busid(a.0, a.1, a.2), format_busid(b.0, b.1, b.2));
        }
    }
    // A chain that starts with port zero, which no hub has.
    assert_eq!(format_busid("1", &[0, 9], 1), format_busid("1", &[], 9));
}

#[test]
fn numbers_of_a_device_can_be_told_from_its_identifier() {
    let d = UsbDevice::from_info(&info());
    let devid = usbipd::session::devid_of(d.busnum, d.devnum);
    assert_eq!((devid >> 16, devid & 0xffff), (d.busnum, d.devnum));
    assert_eq!(devid, 0x0001_0023);
}
