use usbipd::transfer::{
    plan_control, whole_packets, ControlKind, ControlPlan, ControlRecipient, ControlRequest,
};
use usbipd::urb::SetupPacket;

fn setup(bm_request_type: u8, b_request: u8, w_value: u16, w_index: u16) -> SetupPacket {
    SetupPacket { bm_request_type, b_request, w_value, w_index, w_length: 18 }
}

#[test]
fn requests_go_to_the_device_as_they_are() {
    assert_eq!(
        plan_control(&setup(0x80, 6, 0x0100, 0)),
        ControlPlan::Request(ControlRequest {
            dir_in: true,
            kind: ControlKind::Standard,
            recipient: ControlRecipient::Device,
            request: 6,
            value: 0x0100,
            index: 0,
            length: 18,
        })
    );
    assert_eq!(
        plan_control(&setup(0x21, 9, 0x0200, 1)),
        ControlPlan::Request(ControlRequest {
            dir_in: false,
            kind: ControlKind::Class,
            recipient: ControlRecipient::Interface,
            request: 9,
            value: 0x0200,
            index: 1,
            length: 18,
        })
    );
    assert!(matches!(
        plan_control(&setup(0xc2, 11, 0, 0)),
        ControlPlan::Request(ControlRequest {
            dir_in: true,
            kind: ControlKind::Vendor,
            recipient: ControlRecipient::Endpoint,
            ..
        })
    ));
    assert!(matches!(
        plan_control(&setup(0x03, 0, 0, 0)),
        ControlPlan::Request(ControlRequest { recipient: ControlRecipient::Other, .. })
    ));
}

#[test]
fn the_host_sets_configurations_and_interfaces() {
    assert_eq!(plan_control(&setup(0x00, 9, 2, 0)), ControlPlan::SetConfiguration(2));
    assert_eq!(
        plan_control(&setup(0x01, 11, 3, 1)),
        ControlPlan::SetInterface { interface: 1, alt_setting: 3 }
    );
}

#[test]
fn reserved_requests_are_not_supported() {
    assert_eq!(plan_control(&setup(0x60, 0, 0, 0)), ControlPlan::Unsupported);
    assert_eq!(plan_control(&setup(0x04, 0, 0, 0)), ControlPlan::Unsupported);
}

#[test]
fn endpoints_are_asked_for_whole_packets() {
    assert_eq!(whole_packets(0, 64), Some(64));
    assert_eq!(whole_packets(1, 64), Some(64));
    assert_eq!(whole_packets(64, 64), Some(64));
    assert_eq!(whole_packets(65, 64), Some(128));
    assert_eq!(whole_packets(512, 8), Some(512));
    assert_eq!(whole_packets(10, 0), None);
    assert_eq!(whole_packets(usize::MAX, 64), None);
    assert_eq!(whole_packets(usize::MAX, 1), Some(usize::MAX));
}
