use usbipd::policy::{
    may_listen, plan_bind, BindPlan, DeviceFilter, ImportLocks, Policy, SOCKET_MODE,
};

fn filter(vendor_id: u16, product_id: u16) -> DeviceFilter {
    DeviceFilter { vendor_id, product_id }
}

#[test]
fn filters_are_pairs_of_hexadecimal_numbers() {
    assert_eq!(DeviceFilter::parse("1050:0407"), Some(filter(0x1050, 0x0407)));
    assert_eq!(DeviceFilter::parse("abCD:Ef"), Some(filter(0xabcd, 0xef)));
    assert_eq!(DeviceFilter::parse("0:0"), Some(filter(0, 0)));
    assert_eq!(DeviceFilter::parse("ffff:ffff"), Some(filter(0xffff, 0xffff)));
}

#[test]
fn other_texts_are_no_filters() {
    for text in [
        "", ":", "1050", "1050:", ":0407", "0x1050:0407", "10500:0407", "1050:04070", "1050-0407",
        "1050:0407:1", "105g:0407", " 1050:0407", "+1:2", "\u{e9}:1",
    ] {
        assert_eq!(DeviceFilter::parse(text), None, "{text}");
    }
}

#[test]
fn without_flags_nothing_is_allowed() {
    let p = Policy::from_flags(vec![], false).unwrap();
    assert!(matches!(p, Policy::DenyAll));
    assert!(!p.permits(0x1050, 0x0407));
}

#[test]
fn only_listed_devices_are_allowed() {
    let p = Policy::from_flags(vec![filter(1, 2), filter(3, 4)], false).unwrap();
    assert!(p.permits(1, 2));
    assert!(p.permits(3, 4));
    assert!(!p.permits(1, 4));
    assert!(!p.permits(2, 1));
}

#[test]
fn all_devices_are_allowed() {
    let p = Policy::from_flags(vec![], true).unwrap();
    assert!(matches!(p, Policy::AllowAll));
    assert!(p.permits(1, 2));
}

#[test]
fn a_list_and_all_exclude_each_other() {
    assert!(Policy::from_flags(vec![filter(1, 2)], true).is_none());
}

#[test]
fn public_addresses_take_a_word() {
    assert!(may_listen(true, false));
    assert!(may_listen(true, true));
    assert!(may_listen(false, true));
    assert!(!may_listen(false, false));
}

#[test]
fn only_sockets_are_replaced() {
    assert_eq!(plan_bind(None), BindPlan::Fresh);
    assert_eq!(plan_bind(Some(true)), BindPlan::Replace);
    assert_eq!(plan_bind(Some(false)), BindPlan::Refuse);
    assert_eq!(SOCKET_MODE, 0o600);
}

#[test]
fn a_lock_is_held_until_it_is_released() {
    let a = String::from("01-1");
    let b = String::from("02-1");
    let mut locks = ImportLocks::new();
    assert!(!locks.is_held(&a));
    assert!(locks.acquire(&a));
    assert!(!locks.acquire(&a));
    assert!(locks.is_held(&a));
    assert!(locks.acquire(&b));
    locks.release(&a);
    assert!(!locks.is_held(&a));
    assert!(locks.is_held(&b));
    assert!(locks.acquire(&a));
    locks.release(&String::from("unknown"));
    assert!(locks.is_held(&a) && locks.is_held(&b));
}

#[test]
fn shown_identifiers_are_filters() {
    for (v, p) in [(0x1050, 0x0407), (0, 0xffff), (0x0abc, 0x00de)] {
        assert_eq!(DeviceFilter::parse(&format!("{v:04x}:{p:04x}")), Some(filter(v, p)));
    }
}
