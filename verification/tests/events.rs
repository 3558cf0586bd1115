use usbipd::events::{encode_line, encode_list, AddedDevice, EventLine};
use usbipd::host::{DeviceInfo, UsbDevice};
use usbipd::hub::{connected, disconnected, on_received, Hub, IdMap, Received, SubscriberStep};

fn sample_added(busid: &str) -> AddedDevice {
    AddedDevice {
        busid: busid.into(),
        vendor_id: "1050".into(),
        product_id: "0407".into(),
        manufacturer: Some("Yubico".into()),
        product: Some("YubiKey".into()),
        serial: Some("SN1".into()),
        class: 0,
        subclass: 0,
        protocol: 0,
        speed: 2,
    }
}

fn info(port: u8) -> DeviceInfo {
    DeviceInfo {
        bus_id: "01".into(),
        device_address: 4,
        port_chain: vec![port],
        vendor_id: 0x0001,
        product_id: 0x00ff,
        device_version: 0,
        class: 8,
        subclass: 6,
        protocol: 80,
        speed: None,
        manufacturer_string: None,
        product_string: Some("Disk".into()),
        serial_number: None,
        interfaces: vec![],
    }
}

fn busids(hub: &Hub) -> Vec<String> {
    let mut out: Vec<String> = hub
        .snapshot_added()
        .into_iter()
        .map(|e| match e {
            EventLine::Added(d) => d.busid,
            EventLine::Removed { .. } => panic!("a removal in a snapshot"),
        })
        .collect();
    out.sort();
    out
}

#[test]
fn wire_format_matches_documented_schema() {
    let added_line = encode_line(&EventLine::Added(AddedDevice {
        vendor_id: "0001".into(),
        product_id: "00ff".into(),
        ..sample_added("01-1")
    }));
    assert!(
        added_line.ends_with('\n'),
        "lines must be newline-terminated"
    );
    let parsed: serde_json::Value = serde_json::from_str(added_line.trim_end()).unwrap();
    assert_eq!(parsed["event"], "added");
    assert_eq!(parsed["busid"], "01-1");
    assert_eq!(
        parsed["vendor_id"], "0001",
        "leading-zero hex must be preserved"
    );
    assert_eq!(parsed["product_id"], "00ff");
    assert!(
        parsed.get("manufacturer").is_some(),
        "manufacturer key present even when null"
    );

    let removed_line = encode_line(&EventLine::Removed {
        busid: "02-3".into(),
    });
    let parsed: serde_json::Value = serde_json::from_str(removed_line.trim_end()).unwrap();
    assert_eq!(parsed["event"], "removed");
    assert_eq!(parsed["busid"], "02-3");
    assert!(
        parsed.get("vendor_id").is_none(),
        "removed events must not carry vendor metadata"
    );
}

#[test]
fn idmap_roundtrip_known_and_unknown() {
    let mut m: IdMap<u32> = IdMap::new();
    m.note_added(7, "01-1".into());
    m.note_added(9, "02-1".into());
    assert_eq!(m.len(), 2);
    assert_eq!(m.note_removed(&7).as_deref(), Some("01-1"));
    assert_eq!(m.len(), 1);
    assert!(m.note_removed(&7).is_none());
    assert!(m.note_removed(&12345).is_none());
    assert_eq!(m.note_removed(&9).as_deref(), Some("02-1"));
}

#[test]
fn lines_have_this_form() {
    assert_eq!(
        encode_line(&EventLine::Added(sample_added("01-1"))),
        "{\"event\":\"added\",\"busid\":\"01-1\",\"vendor_id\":\"1050\",\"product_id\":\"0407\",\
         \"manufacturer\":\"Yubico\",\"product\":\"YubiKey\",\"serial\":\"SN1\",\"class\":0,\
         \"subclass\":0,\"protocol\":0,\"speed\":2}\n"
    );
    assert_eq!(
        encode_line(&EventLine::Removed { busid: "01-1".into() }),
        "{\"event\":\"removed\",\"busid\":\"01-1\"}\n"
    );
}

#[test]
fn missing_strings_are_null() {
    let line = encode_line(&EventLine::Added(AddedDevice {
        manufacturer: None,
        product: None,
        serial: None,
        class: 255,
        speed: u32::MAX,
        ..sample_added("01-1")
    }));
    let parsed: serde_json::Value = serde_json::from_str(&line).unwrap();
    assert!(parsed["manufacturer"].is_null());
    assert!(parsed["product"].is_null());
    assert!(parsed["serial"].is_null());
    assert_eq!(parsed["class"], 255);
    assert_eq!(parsed["speed"], u32::MAX);
}

#[test]
fn strange_strings_stay_on_one_line_and_read_back() {
    let all: String = (0u8..=0x7f).map(char::from).chain("\u{e9}\u{1f600}\u{2028}".chars()).collect();
    let line = encode_line(&EventLine::Added(AddedDevice {
        product: Some(all.clone()),
        ..sample_added("01-1")
    }));
    let body = line.strip_suffix('\n').unwrap();
    assert!(body.chars().all(|c| c >= ' '));
    assert!(body.contains("\\u0000\\u0001"));
    assert!(body.contains("\\b\\t\\n\\u000b\\f\\r\\u000e"));
    assert!(body.contains("\\u001f !\\\"#"));
    assert!(body.contains("[\\\\]"));
    assert!(body.contains("~\u{7f}\u{e9}\u{1f600}\u{2028}"));
    let parsed: serde_json::Value = serde_json::from_str(body).unwrap();
    assert_eq!(parsed["product"], all);
}

#[test]
fn different_events_are_different_lines() {
    let a = encode_line(&EventLine::Added(AddedDevice {
        manufacturer: Some("null".into()),
        ..sample_added("01-1")
    }));
    let b = encode_line(&EventLine::Added(AddedDevice {
        manufacturer: None,
        ..sample_added("01-1")
    }));
    let c = encode_line(&EventLine::Added(AddedDevice {
        class: 1,
        subclass: 11,
        ..sample_added("01-1")
    }));
    let d = encode_line(&EventLine::Added(AddedDevice {
        class: 11,
        subclass: 1,
        ..sample_added("01-1")
    }));
    assert_ne!(a, b);
    assert_ne!(c, d);
}

#[test]
fn lists_are_arrays() {
    assert_eq!(encode_list(&vec![]), "[]\n");
    let text = encode_list(&vec![sample_added("01-1"), sample_added("02-1")]);
    let parsed: serde_json::Value = serde_json::from_str(&text).unwrap();
    let list = parsed.as_array().unwrap();
    assert_eq!(list.len(), 2);
    assert_eq!(list[0]["busid"], "01-1");
    assert_eq!(list[1]["busid"], "02-1");
    assert!(list[0].get("event").is_none());
    assert_eq!(list[1]["speed"], 2);
    let one = encode_list(&vec![sample_added("01-1")]);
    assert!(one.starts_with("[{\"busid\":\"01-1\",") && one.ends_with("}]\n"));
}

#[test]
fn devices_are_announced_as_they_are_described() {
    let a = AddedDevice::from_host(&UsbDevice::from_info(&info(1)));
    assert_eq!(
        a,
        AddedDevice {
            busid: "01-1".into(),
            vendor_id: "0001".into(),
            product_id: "00ff".into(),
            manufacturer: None,
            product: Some("Disk".into()),
            serial: None,
            class: 8,
            subclass: 6,
            protocol: 80,
            speed: 0,
        }
    );
    assert_eq!(a.copy(), a);
}

#[test]
fn the_hub_knows_what_was_published() {
    let mut hub = Hub::new();
    assert!(busids(&hub).is_empty());
    let e = hub.publish_added(sample_added("01-1"));
    assert_eq!(e, EventLine::Added(sample_added("01-1")));
    hub.publish_added(sample_added("02-1"));
    assert_eq!(busids(&hub), ["01-1", "02-1"]);
    let e = hub.publish_removed("01-1".into());
    assert_eq!(e, EventLine::Removed { busid: "01-1".into() });
    assert_eq!(busids(&hub), ["02-1"]);
    hub.publish_removed("09-9".into());
    assert_eq!(busids(&hub), ["02-1"]);
}

#[test]
fn a_device_that_is_announced_again_is_updated() {
    let mut hub = Hub::new();
    hub.publish_added(sample_added("01-1"));
    hub.publish_added(sample_added("02-1"));
    let changed = AddedDevice { speed: 3, ..sample_added("01-1") };
    hub.publish_added(changed.clone());
    assert_eq!(busids(&hub), ["01-1", "02-1"]);
    assert!(hub.snapshot_added().contains(&EventLine::Added(changed)));
}

#[test]
fn a_subscriber_that_races_with_events_catches_up() {
    let mut hub = Hub::new();
    hub.publish_added(sample_added("01-1"));
    // Subscribed here: everything from now on is heard.
    let mut heard = vec![hub.publish_added(sample_added("02-1"))];
    heard.push(hub.publish_removed("01-1".into()));
    let snapshot = hub.snapshot_added();
    heard.push(hub.publish_added(sample_added("03-1")));
    let mut known: Vec<String> = Vec::new();
    for e in snapshot.into_iter().chain(heard) {
        match e {
            EventLine::Added(d) => {
                known.retain(|b| *b != d.busid);
                known.push(d.busid);
            }
            EventLine::Removed { busid } => known.retain(|b| *b != busid),
        }
    }
    known.sort();
    assert_eq!(known, busids(&hub));
}

#[test]
fn hotplug_events_come_from_arrivals_and_departures() {
    let mut ids: IdMap<u32> = IdMap::default();
    let mut hub = Hub::new();
    let e = connected(&mut ids, &mut hub, 7, &info(1));
    assert!(matches!(&e, EventLine::Added(d) if d.busid == "01-1"));
    connected(&mut ids, &mut hub, 9, &info(2));
    assert_eq!(busids(&hub), ["01-1", "01-2"]);
    assert_eq!(disconnected(&mut ids, &mut hub, &8), None);
    assert_eq!(
        disconnected(&mut ids, &mut hub, &7),
        Some(EventLine::Removed { busid: "01-1".into() })
    );
    assert_eq!(disconnected(&mut ids, &mut hub, &7), None);
    assert_eq!(busids(&hub), ["01-2"]);
    assert_eq!(ids.len(), 1);
}

#[test]
fn slow_subscribers_stay_connected() {
    let e = EventLine::Removed { busid: "01-1".into() };
    assert_eq!(
        on_received(Received::Event(e.clone())),
        SubscriberStep::Write(encode_line(&e))
    );
    assert_eq!(on_received(Received::Lagged(3)), SubscriberStep::Wait);
    assert_eq!(on_received(Received::Closed), SubscriberStep::End);
}

#[test]
fn the_last_note_of_a_device_counts() {
    let mut m: IdMap<u32> = IdMap::new();
    m.note_added(7, "01-1".into());
    m.note_added(9, "02-1".into());
    m.note_added(7, "03-1".into());
    assert_eq!(m.len(), 2);
    assert!(m.note_removed(&8).is_none());
    assert_eq!(m.len(), 2);
    assert_eq!(m.note_removed(&7).as_deref(), Some("03-1"));
    assert_eq!(m.len(), 1);
    assert_eq!(m.note_removed(&9).as_deref(), Some("02-1"));
    assert_eq!(m.len(), 0);
}
