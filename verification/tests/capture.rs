use usbipd::capture::{
    k_io_cf_plug_in_interface_id, k_io_usb_device_interface_id_500,
    k_io_usb_device_user_client_type_id, kUSBReEnumerateCaptureDeviceMask,
    kUSBReEnumerateReleaseDeviceMask, reenumerate_release, reenumerate_with_capture,
    reenumerate_with_options, CallResult, Capture, CaptureError, CaptureStep,
};

const OK: CallResult = CallResult { code: 0, present: true };

fn failed(code: i32) -> CallResult {
    CallResult { code, present: false }
}

/// The calls that are made when they return `results` in turn, and the outcome.
fn drive(mut c: Capture, results: &[CallResult]) -> (Vec<CaptureStep>, Result<(), CaptureError>) {
    let mut calls = Vec::new();
    loop {
        match c.next_step() {
            CaptureStep::Done(outcome) => return (calls, outcome),
            step => {
                c.advance(results.get(calls.len()).copied().unwrap_or(OK));
                calls.push(step);
            }
        }
    }
}

#[test]
fn capture_mask_matches_apple_header() {
    assert_eq!(kUSBReEnumerateCaptureDeviceMask, 0x4000_0000);
}

#[test]
fn release_mask_matches_apple_header() {
    assert_eq!(kUSBReEnumerateReleaseDeviceMask, 0x2000_0000);
}

#[test]
fn capture_and_release_masks_are_disjoint() {
    assert_eq!(
        kUSBReEnumerateCaptureDeviceMask & kUSBReEnumerateReleaseDeviceMask,
        0,
        "capture and release flags must not overlap"
    );
}

#[test]
fn no_service_error_includes_hex_registry_id() {
    let err = CaptureError::NoService(0xdead_beef);
    let s = err.message();
    assert!(s.contains("0xdeadbeef"), "got: {s}");
}

#[test]
fn open_seize_error_mentions_root() {
    let err = CaptureError::OpenSeize(0xe000_02c5_u32 as i32);
    let s = err.message();
    assert!(
        s.contains("root"),
        "OpenSeize message should hint that root is required; got: {s}"
    );
}

#[test]
fn capture_error_messages() {
    assert_eq!(
        CaptureError::NoService(0).message(),
        "no IOUSBDevice service found for registry_entry_id 0x0"
    );
    assert_eq!(
        CaptureError::PlugIn(-1).message(),
        "IOCreatePlugInInterfaceForService failed: 0xffffffff"
    );
    assert_eq!(
        CaptureError::QueryInterface(0x1f).message(),
        "QueryInterface failed: HRESULT 0x1f"
    );
    assert_eq!(
        CaptureError::OpenSeize(0xe000_02c5_u32 as i32).message(),
        "USBDeviceOpenSeize failed: 0xe00002c5 (run as root?)"
    );
    assert_eq!(
        CaptureError::ReEnumerate(5).message(),
        "USBDeviceReEnumerate failed: 0x5"
    );
}

#[test]
fn capture_makes_every_call_once() {
    let (calls, outcome) = drive(reenumerate_with_capture(7), &[]);
    assert_eq!(
        calls,
        vec![
            CaptureStep::FindService { registry_entry_id: 7 },
            CaptureStep::CreatePlugIn,
            CaptureStep::QueryInterface,
            CaptureStep::ReleasePlugIn,
            CaptureStep::OpenSeize,
            CaptureStep::ReEnumerate { options: 0x4000_0000 },
            CaptureStep::Close,
            CaptureStep::ReleaseDevice,
            CaptureStep::ReleaseService,
        ]
    );
    assert_eq!(outcome, Ok(()));
}

#[test]
fn release_uses_its_own_option() {
    let (calls, outcome) = drive(reenumerate_release(7), &[]);
    assert_eq!(calls[5], CaptureStep::ReEnumerate { options: 0x2000_0000 });
    assert_eq!(outcome, Ok(()));
    let (calls, _) = drive(reenumerate_with_options(7, 3), &[]);
    assert_eq!(calls[5], CaptureStep::ReEnumerate { options: 3 });
}

#[test]
fn capture_without_a_service() {
    let (calls, outcome) = drive(reenumerate_with_capture(7), &[failed(0)]);
    assert_eq!(calls.len(), 1);
    assert_eq!(outcome, Err(CaptureError::NoService(7)));
}

#[test]
fn capture_without_a_plug_in() {
    let (calls, outcome) = drive(reenumerate_with_capture(7), &[OK, failed(9)]);
    assert_eq!(calls.len(), 3);
    assert_eq!(calls[2], CaptureStep::ReleaseService);
    assert_eq!(outcome, Err(CaptureError::PlugIn(9)));
    let (_, outcome) = drive(reenumerate_with_capture(7), &[OK, failed(0)]);
    assert_eq!(outcome, Err(CaptureError::PlugIn(0)));
}

#[test]
fn capture_without_an_interface_releases_the_plug_in() {
    let (calls, outcome) = drive(reenumerate_with_capture(7), &[OK, OK, failed(-5)]);
    assert_eq!(&calls[3..], &[CaptureStep::ReleasePlugIn, CaptureStep::ReleaseService]);
    assert_eq!(outcome, Err(CaptureError::QueryInterface(-5)));
}

#[test]
fn capture_that_cannot_open_does_not_close() {
    let (calls, outcome) = drive(reenumerate_with_capture(7), &[OK, OK, OK, OK, failed(1)]);
    assert_eq!(&calls[5..], &[CaptureStep::ReleaseDevice, CaptureStep::ReleaseService]);
    assert_eq!(outcome, Err(CaptureError::OpenSeize(1)));
}

#[test]
fn capture_that_fails_to_reenumerate_still_closes() {
    let (calls, outcome) = drive(
        reenumerate_with_capture(7),
        &[OK, OK, OK, OK, OK, failed(2), failed(3), failed(4), failed(5)],
    );
    assert_eq!(
        &calls[6..],
        &[CaptureStep::Close, CaptureStep::ReleaseDevice, CaptureStep::ReleaseService]
    );
    assert_eq!(outcome, Err(CaptureError::ReEnumerate(2)));
}

#[test]
fn uuids_are_those_of_the_system() {
    let text = |id: [u8; 16]| -> String { id.iter().map(|b| format!("{b:02X}")).collect() };
    assert_eq!(
        text(k_io_usb_device_user_client_type_id()),
        "9DC7B7809EC011D4A54F000A27052861"
    );
    assert_eq!(text(k_io_cf_plug_in_interface_id()), "C244E858109C11D491D40050E4C6426F");
    assert_eq!(text(k_io_usb_device_interface_id_500()), "396104F7943D489390F169BD6CF5C2EB");
}
