//! The stream of hotplug events.
//!
//! Each event is one JSON object on a line of its own:
//!
//! ```json
//! {"event":"added","busid":"01-1","vendor_id":"1050","product_id":"0407",
//!  "manufacturer":"Yubico","product":"YubiKey OTP+FIDO+CCID","serial":"123",
//!  "class":0,"subclass":0,"protocol":0,"speed":2}
//! {"event":"removed","busid":"01-1"}
//! ```
//!
//! Names and types of the members are stable.

use vstd::prelude::*;

use crate::host::{copy_opt, opt_text, UsbDevice};
use crate::json::quote;
use crate::text::{push_decimal, push_hex4};

verus! {

/// What subscribers are told of a device.
#[derive(Debug, Clone, PartialEq, Eq)]
pub struct AddedDevice {
    pub busid: String,
    /// Four hexadecimal digits in lower case.
    pub vendor_id: String,
    /// Four hexadecimal digits in lower case.
    pub product_id: String,
    pub manufacturer: Option<String>,
    pub product: Option<String>,
    pub serial: Option<String>,
    pub class: u8,
    pub subclass: u8,
    pub protocol: u8,
    pub speed: u32,
}

/// The contents of an [`AddedDevice`].
#[verifier::ext_equal]
pub struct AddedRecord {
    pub busid: Seq<char>,
    pub vendor_id: Seq<char>,
    pub product_id: Seq<char>,
    pub manufacturer: Option<Seq<char>>,
    pub product: Option<Seq<char>>,
    pub serial: Option<Seq<char>>,
    pub class: u8,
    pub subclass: u8,
    pub protocol: u8,
    pub speed: u32,
}

impl View for AddedDevice {
    type V = AddedRecord;

    open spec fn view(&self) -> AddedRecord {
        AddedRecord {
            busid: self.busid@,
            vendor_id: self.vendor_id@,
            product_id: self.product_id@,
            manufacturer: opt_text(self.manufacturer),
            product: opt_text(self.product),
            serial: opt_text(self.serial),
            class: self.class,
            subclass: self.subclass,
            protocol: self.protocol,
            speed: self.speed,
        }
    }
}

/// What subscribers are told of the device `d`.
pub open spec fn added_record(d: crate::host::UsbRecord) -> AddedRecord {
    AddedRecord {
        busid: d.busid,
        vendor_id: crate::text::hex4(d.vendor_id),
        product_id: crate::text::hex4(d.product_id),
        manufacturer: d.manufacturer,
        product: d.product,
        serial: d.serial,
        class: d.class,
        subclass: d.subclass,
        protocol: d.protocol,
        speed: d.speed,
    }
}

/// `x` as four hexadecimal digits.
fn hex4_string(x: u16) -> (s: String)
    ensures
        s@ == crate::text::hex4(x),
{
    let mut s: String = String::new();
    push_hex4(&mut s, x);
    assert(s@ =~= crate::text::hex4(x));
    s
}

impl AddedDevice {
    /// What subscribers are told of the device `d`.
    pub fn from_host(d: &UsbDevice) -> (a: AddedDevice)
        ensures
            a@ == added_record(d@),
            a.busid@ == d.busid@,
            a.vendor_id@ == crate::text::hex4(d.vendor_id),
            a.product_id@ == crate::text::hex4(d.product_id),
            opt_text(a.manufacturer) == opt_text(d.manufacturer),
            opt_text(a.product) == opt_text(d.product),
            opt_text(a.serial) == opt_text(d.serial),
            a.class == d.class,
            a.subclass == d.subclass,
            a.protocol == d.protocol,
            a.speed == d.speed,
    {
        AddedDevice {
            busid: d.busid.clone(),
            vendor_id: hex4_string(d.vendor_id),
            product_id: hex4_string(d.product_id),
            manufacturer: copy_opt(&d.manufacturer),
            product: copy_opt(&d.product),
            serial: copy_opt(&d.serial),
            class: d.class,
            subclass: d.subclass,
            protocol: d.protocol,
            speed: d.speed,
        }
    }

    /// A copy.
    pub fn copy(&self) -> (a: AddedDevice)
        ensures
            a@ == self@,
            a.busid@ == self.busid@,
            a.vendor_id@ == self.vendor_id@,
            a.product_id@ == self.product_id@,
            opt_text(a.manufacturer) == opt_text(self.manufacturer),
            opt_text(a.product) == opt_text(self.product),
            opt_text(a.serial) == opt_text(self.serial),
            a.class == self.class,
            a.subclass == self.subclass,
            a.protocol == self.protocol,
            a.speed == self.speed,
    {
        AddedDevice {
            busid: self.busid.clone(),
            vendor_id: self.vendor_id.clone(),
            product_id: self.product_id.clone(),
            manufacturer: copy_opt(&self.manufacturer),
            product: copy_opt(&self.product),
            serial: copy_opt(&self.serial),
            class: self.class,
            subclass: self.subclass,
            protocol: self.protocol,
            speed: self.speed,
        }
    }
}

/// One event.
#[derive(Debug, Clone, PartialEq, Eq)]
pub enum EventLine {
    Added(AddedDevice),
    Removed { busid: String },
}

/// The contents of an [`EventLine`].
pub enum EventRecord {
    Added(AddedRecord),
    Removed { busid: Seq<char> },
}

impl View for EventLine {
    type V = EventRecord;

    open spec fn view(&self) -> EventRecord {
        match self {
            EventLine::Added(d) => EventRecord::Added(d@),
            EventLine::Removed { busid } => EventRecord::Removed { busid: busid@ },
        }
    }
}

impl EventRecord {
    /// The bus identifier of the device that the event is about.
    pub open spec fn about(self) -> Seq<char> {
        match self {
            EventRecord::Added(d) => d.busid,
            EventRecord::Removed { busid } => busid,
        }
    }
}

/// The JSON form of a text that may be missing.
pub open spec fn opt_json(s: Option<Seq<char>>) -> Seq<char> {
    match s {
        Some(s) => crate::json::quoted(s),
        None => "null"@,
    }
}

/// The members of the JSON object of a device.
pub open spec fn device_members(d: AddedRecord) -> Seq<char> {
    "\"busid\":"@ + crate::json::quoted(d.busid) + ",\"vendor_id\":"@ + crate::json::quoted(
        d.vendor_id,
    ) + ",\"product_id\":"@ + crate::json::quoted(d.product_id) + ",\"manufacturer\":"@ + opt_json(
        d.manufacturer,
    ) + ",\"product\":"@ + opt_json(d.product) + ",\"serial\":"@ + opt_json(d.serial)
        + ",\"class\":"@ + crate::text::decimal(d.class as nat) + ",\"subclass\":"@
        + crate::text::decimal(d.subclass as nat) + ",\"protocol\":"@ + crate::text::decimal(
        d.protocol as nat,
    ) + ",\"speed\":"@ + crate::text::decimal(d.speed as nat)
}

/// The line of an event.
pub open spec fn event_text(e: EventRecord) -> Seq<char> {
    match e {
        EventRecord::Added(d) => ("{\"event\":\"added\","@ + device_members(d) + "}"@).push('\n'),
        EventRecord::Removed { busid } => ("{\"event\":\"removed\",\"busid\":"@
            + crate::json::quoted(busid) + "}"@).push('\n'),
    }
}

/// Appends the JSON form of a text.
fn push_quoted(out: &mut String, s: &String)
    ensures
        final(out)@ == old(out)@ + crate::json::quoted(s@),
{
    let q: String = quote(s.as_str());
    out.append(q.as_str());
}

/// Appends the JSON form of a text that may be missing.
fn push_opt(out: &mut String, s: &Option<String>)
    ensures
        final(out)@ == old(out)@ + opt_json(opt_text(*s)),
{
    match s {
        Some(s) => push_quoted(out, s),
        None => out.append("null"),
    }
}

/// The members of the JSON object of `d`.
fn members(d: &AddedDevice) -> (s: String)
    ensures
        s@ == device_members(d@),
{
    let mut s: String = "\"busid\":".to_owned();
    push_quoted(&mut s, &d.busid);
    s.append(",\"vendor_id\":");
    push_quoted(&mut s, &d.vendor_id);
    s.append(",\"product_id\":");
    push_quoted(&mut s, &d.product_id);
    s.append(",\"manufacturer\":");
    push_opt(&mut s, &d.manufacturer);
    s.append(",\"product\":");
    push_opt(&mut s, &d.product);
    s.append(",\"serial\":");
    push_opt(&mut s, &d.serial);
    s.append(",\"class\":");
    push_decimal(&mut s, d.class as u64);
    s.append(",\"subclass\":");
    push_decimal(&mut s, d.subclass as u64);
    s.append(",\"protocol\":");
    push_decimal(&mut s, d.protocol as u64);
    s.append(",\"speed\":");
    push_decimal(&mut s, d.speed as u64);
    s
}

/// The event as one JSON object on a line.
#[must_use]
pub fn encode_line(ev: &EventLine) -> (s: String)
    ensures
        s@ == event_text(ev@),
{
    match ev {
        EventLine::Added(d) => {
            let mut s: String = "{\"event\":\"added\",".to_owned();
            s.append(members(d).as_str());
            s.append("}");
            s.push('\n');
            s
        },
        EventLine::Removed { busid } => {
            let mut s: String = "{\"event\":\"removed\",\"busid\":".to_owned();
            push_quoted(&mut s, busid);
            s.append("}");
            s.push('\n');
            s
        },
    }
}

/// The devices `list` as JSON objects with commas between them.
pub open spec fn objects_text(list: Seq<AddedRecord>) -> Seq<char>
    decreases list.len(),
{
    if list.len() == 0 {
        Seq::empty()
    } else {
        let before = if list.len() == 1 {
            Seq::empty()
        } else {
            objects_text(list.drop_last()) + ","@
        };
        before + "{"@ + device_members(list.last()) + "}"@
    }
}

/// The contents of each device of `list`.
pub open spec fn added_records(list: Seq<AddedDevice>) -> Seq<AddedRecord> {
    list.map_values(|d: AddedDevice| d@)
}

/// The devices as one JSON array on a line. Each object has the members of an `added`
/// event but for the event.
pub fn encode_list(devices: &Vec<AddedDevice>) -> (s: String)
    ensures
        s@ == ("["@ + objects_text(added_records(devices@)) + "]"@).push('\n'),
{
    let ghost all = added_records(devices@);
    let mut s: String = "[".to_owned();
    let mut i: usize = 0;
    assert(s@ =~= "["@ + objects_text(all.take(0)));
    while i < devices.len()
        invariant
            i <= devices@.len(),
            all == added_records(devices@),
            s@ == "["@ + objects_text(all.take(i as int)),
        decreases devices@.len() - i,
    {
        let ghost next = all.take(i + 1);
        assert(next.drop_last() =~= all.take(i as int));
        assert(next.last() == devices@[i as int]@);
        if i > 0 {
            s.append(",");
        }
        s.append("{");
        s.append(members(&devices[i]).as_str());
        s.append("}");
        i += 1;
        assert(s@ =~= "["@ + objects_text(next));
    }
    assert(all.take(i as int) =~= all);
    s.append("]");
    s.push('\n');
    s
}

proof fn one_line_joined(a: Seq<char>, b: Seq<char>)
    requires
        crate::json::on_one_line(a),
        crate::json::on_one_line(b),
    ensures
        crate::json::on_one_line(a + b),
{
}

proof fn opt_on_one_line(s: Option<Seq<char>>)
    ensures
        crate::json::on_one_line(opt_json(s)),
{
    reveal_strlit("null");
    if let Some(s) = s {
        crate::json::quoted_on_one_line(s);
    }
}

proof fn decimal_on_one_line(n: nat)
    ensures
        crate::json::on_one_line(crate::text::decimal(n)),
{
    crate::text::decimal_reads_back(n);
}

proof fn members_on_one_line(d: AddedRecord)
    ensures
        crate::json::on_one_line(device_members(d)),
{
    reveal_strlit("\"busid\":");
    reveal_strlit(",\"vendor_id\":");
    reveal_strlit(",\"product_id\":");
    reveal_strlit(",\"manufacturer\":");
    reveal_strlit(",\"product\":");
    reveal_strlit(",\"serial\":");
    reveal_strlit(",\"class\":");
    reveal_strlit(",\"subclass\":");
    reveal_strlit(",\"protocol\":");
    reveal_strlit(",\"speed\":");
    crate::json::quoted_on_one_line(d.busid);
    crate::json::quoted_on_one_line(d.vendor_id);
    crate::json::quoted_on_one_line(d.product_id);
    opt_on_one_line(d.manufacturer);
    opt_on_one_line(d.product);
    opt_on_one_line(d.serial);
    decimal_on_one_line(d.class as nat);
    decimal_on_one_line(d.subclass as nat);
    decimal_on_one_line(d.protocol as nat);
    decimal_on_one_line(d.speed as nat);
    let s = "\"busid\":"@;
    one_line_joined(s, crate::json::quoted(d.busid));
    let s = s + crate::json::quoted(d.busid);
    one_line_joined(s, ",\"vendor_id\":"@);
    let s = s + ",\"vendor_id\":"@;
    one_line_joined(s, crate::json::quoted(d.vendor_id));
    let s = s + crate::json::quoted(d.vendor_id);
    one_line_joined(s, ",\"product_id\":"@);
    let s = s + ",\"product_id\":"@;
    one_line_joined(s, crate::json::quoted(d.product_id));
    let s = s + crate::json::quoted(d.product_id);
    one_line_joined(s, ",\"manufacturer\":"@);
    let s = s + ",\"manufacturer\":"@;
    one_line_joined(s, opt_json(d.manufacturer));
    let s = s + opt_json(d.manufacturer);
    one_line_joined(s, ",\"product\":"@);
    let s = s + ",\"product\":"@;
    one_line_joined(s, opt_json(d.product));
    let s = s + opt_json(d.product);
    one_line_joined(s, ",\"serial\":"@);
    let s = s + ",\"serial\":"@;
    one_line_joined(s, opt_json(d.serial));
    let s = s + opt_json(d.serial);
    one_line_joined(s, ",\"class\":"@);
    let s = s + ",\"class\":"@;
    one_line_joined(s, crate::text::decimal(d.class as nat));
    let s = s + crate::text::decimal(d.class as nat);
    one_line_joined(s, ",\"subclass\":"@);
    let s = s + ",\"subclass\":"@;
    one_line_joined(s, crate::text::decimal(d.subclass as nat));
    let s = s + crate::text::decimal(d.subclass as nat);
    one_line_joined(s, ",\"protocol\":"@);
    let s = s + ",\"protocol\":"@;
    one_line_joined(s, crate::text::decimal(d.protocol as nat));
    let s = s + crate::text::decimal(d.protocol as nat);
    one_line_joined(s, ",\"speed\":"@);
    let s = s + ",\"speed\":"@;
    one_line_joined(s, crate::text::decimal(d.speed as nat));
}

/// An event is one line, whatever strings the device reports: it ends with a newline
/// and holds no other control character.
pub proof fn event_is_one_line(e: EventRecord)
    ensures
        event_text(e).len() > 0,
        event_text(e).last() == '\n',
        crate::json::on_one_line(event_text(e).drop_last()),
{
    reveal_strlit("{\"event\":\"added\",");
    reveal_strlit("{\"event\":\"removed\",\"busid\":");
    reveal_strlit("}");
    match e {
        EventRecord::Added(d) => {
            members_on_one_line(d);
            let s = "{\"event\":\"added\","@;
            one_line_joined(s, device_members(d));
            one_line_joined(s + device_members(d), "}"@);
            assert(event_text(e).drop_last() =~= s + device_members(d) + "}"@);
        },
        EventRecord::Removed { busid } => {
            crate::json::quoted_on_one_line(busid);
            let s = "{\"event\":\"removed\",\"busid\":"@;
            one_line_joined(s, crate::json::quoted(busid));
            one_line_joined(s + crate::json::quoted(busid), "}"@);
            assert(event_text(e).drop_last() =~= s + crate::json::quoted(busid) + "}"@);
        },
    }
}

/// What stands before two equal texts can be taken from both.
proof fn without_start(start: Seq<char>, x: Seq<char>, y: Seq<char>)
    requires
        start + x == start + y,
    ensures
        x == y,
{
    assert(x =~= (start + x).skip(start.len() as int));
    assert(y =~= (start + y).skip(start.len() as int));
}

proof fn without_quoted(a: Seq<char>, b: Seq<char>, x: Seq<char>, y: Seq<char>)
    requires
        crate::json::quoted(a) + x == crate::json::quoted(b) + y,
    ensures
        a == b,
        x == y,
{
    crate::json::quoted_reads_back(a, x);
    crate::json::quoted_reads_back(b, y);
}

proof fn without_opt(a: Option<Seq<char>>, b: Option<Seq<char>>, x: Seq<char>, y: Seq<char>)
    requires
        opt_json(a) + x == opt_json(b) + y,
    ensures
        a == b,
        x == y,
{
    reveal_strlit("null");
    if let Some(a) = a {
        crate::json::quoted_reads_back(a, x);
        assert((crate::json::quoted(a) + x)[0] == '"');
    } else {
        assert((opt_json(a) + x)[0] == 'n');
    }
    if let Some(b) = b {
        crate::json::quoted_reads_back(b, y);
        assert((crate::json::quoted(b) + y)[0] == '"');
    } else {
        assert((opt_json(b) + y)[0] == 'n');
    }
    match (a, b) {
        (Some(a), Some(b)) => {
            without_quoted(a, b, x, y);
        },
        _ => {
            without_start("null"@, x, y);
        },
    }
}

proof fn without_decimal(m: nat, n: nat, x: Seq<char>, y: Seq<char>)
    requires
        crate::text::decimal(m) + x == crate::text::decimal(n) + y,
        x.len() > 0,
        y.len() > 0,
        !('0' <= x[0] <= '9'),
        !('0' <= y[0] <= '9'),
    ensures
        m == n,
        x == y,
{
    let a = crate::text::decimal(m);
    let b = crate::text::decimal(n);
    crate::text::decimal_reads_back(m);
    crate::text::decimal_reads_back(n);
    assert((a + x)[a.len() as int] == x[0]);
    assert((b + y)[b.len() as int] == y[0]);
    if a.len() < b.len() {
        assert((b + y)[a.len() as int] == b[a.len() as int]);
    }
    if b.len() < a.len() {
        assert((a + x)[b.len() as int] == a[b.len() as int]);
    }
    assert(a =~= (a + x).take(a.len() as int));
    assert(b =~= (b + y).take(b.len() as int));
    without_start(a, x, y);
}

/// The members of the JSON object of a device, followed by `tail`.
spec fn members_then(d: AddedRecord, tail: Seq<char>) -> Seq<char> {
    "\"busid\":"@ + (crate::json::quoted(d.busid) + (",\"vendor_id\":"@ + (crate::json::quoted(
        d.vendor_id,
    ) + (",\"product_id\":"@ + (crate::json::quoted(d.product_id) + (",\"manufacturer\":"@ + (
    opt_json(d.manufacturer) + (",\"product\":"@ + (opt_json(d.product) + (",\"serial\":"@ + (
    opt_json(d.serial) + numbers_then(d, tail))))))))))))
}

/// The numbers among the members of the JSON object of a device, followed by `tail`.
spec fn numbers_then(d: AddedRecord, tail: Seq<char>) -> Seq<char> {
    ",\"class\":"@ + (crate::text::decimal(d.class as nat) + (",\"subclass\":"@ + (
    crate::text::decimal(d.subclass as nat) + (",\"protocol\":"@ + (crate::text::decimal(
        d.protocol as nat,
    ) + (",\"speed\":"@ + (crate::text::decimal(d.speed as nat) + tail)))))))
}

proof fn regroup(a: Seq<char>, b: Seq<char>, c: Seq<char>)
    ensures
        (a + b) + c == a + (b + c),
{
    assert((a + b) + c =~= a + (b + c));
}

proof fn members_regrouped(d: AddedRecord, tail: Seq<char>)
    ensures
        device_members(d) + tail == members_then(d, tail),
{
    let p0 = "\"busid\":"@;
    let p1 = p0 + crate::json::quoted(d.busid);
    let p2 = p1 + ",\"vendor_id\":"@;
    let p3 = p2 + crate::json::quoted(d.vendor_id);
    let p4 = p3 + ",\"product_id\":"@;
    let p5 = p4 + crate::json::quoted(d.product_id);
    let p6 = p5 + ",\"manufacturer\":"@;
    let p7 = p6 + opt_json(d.manufacturer);
    let p8 = p7 + ",\"product\":"@;
    let p9 = p8 + opt_json(d.product);
    let p10 = p9 + ",\"serial\":"@;
    let p11 = p10 + opt_json(d.serial);
    let p12 = p11 + ",\"class\":"@;
    let p13 = p12 + crate::text::decimal(d.class as nat);
    let p14 = p13 + ",\"subclass\":"@;
    let p15 = p14 + crate::text::decimal(d.subclass as nat);
    let p16 = p15 + ",\"protocol\":"@;
    let p17 = p16 + crate::text::decimal(d.protocol as nat);
    let p18 = p17 + ",\"speed\":"@;
    let t18 = crate::text::decimal(d.speed as nat) + tail;
    let t17 = ",\"speed\":"@ + t18;
    let t16 = crate::text::decimal(d.protocol as nat) + t17;
    let t15 = ",\"protocol\":"@ + t16;
    let t14 = crate::text::decimal(d.subclass as nat) + t15;
    let t13 = ",\"subclass\":"@ + t14;
    let t12 = crate::text::decimal(d.class as nat) + t13;
    let t11 = ",\"class\":"@ + t12;
    let t10 = opt_json(d.serial) + t11;
    let t9 = ",\"serial\":"@ + t10;
    let t8 = opt_json(d.product) + t9;
    let t7 = ",\"product\":"@ + t8;
    let t6 = opt_json(d.manufacturer) + t7;
    let t5 = ",\"manufacturer\":"@ + t6;
    let t4 = crate::json::quoted(d.product_id) + t5;
    let t3 = ",\"product_id\":"@ + t4;
    let t2 = crate::json::quoted(d.vendor_id) + t3;
    let t1 = ",\"vendor_id\":"@ + t2;
    regroup(p18, crate::text::decimal(d.speed as nat), tail);
    regroup(p17, ",\"speed\":"@, t18);
    regroup(p16, crate::text::decimal(d.protocol as nat), t17);
    regroup(p15, ",\"protocol\":"@, t16);
    regroup(p14, crate::text::decimal(d.subclass as nat), t15);
    regroup(p13, ",\"subclass\":"@, t14);
    regroup(p12, crate::text::decimal(d.class as nat), t13);
    regroup(p11, ",\"class\":"@, t12);
    regroup(p10, opt_json(d.serial), t11);
    regroup(p9, ",\"serial\":"@, t10);
    regroup(p8, opt_json(d.product), t9);
    regroup(p7, ",\"product\":"@, t8);
    regroup(p6, opt_json(d.manufacturer), t7);
    regroup(p5, ",\"manufacturer\":"@, t6);
    regroup(p4, crate::json::quoted(d.product_id), t5);
    regroup(p3, ",\"product_id\":"@, t4);
    regroup(p2, crate::json::quoted(d.vendor_id), t3);
    regroup(p1, ",\"vendor_id\":"@, t2);
    regroup(p0, crate::json::quoted(d.busid), t1);
}

proof fn numbers_injective(d: AddedRecord, e: AddedRecord, x: Seq<char>, y: Seq<char>)
    requires
        numbers_then(d, x) == numbers_then(e, y),
        x.len() > 0,
        y.len() > 0,
        x[0] == '}',
        y[0] == '}',
    ensures
        d.class == e.class,
        d.subclass == e.subclass,
        d.protocol == e.protocol,
        d.speed == e.speed,
{
    reveal_strlit(",\"subclass\":");
    reveal_strlit(",\"protocol\":");
    reveal_strlit(",\"speed\":");
    let d3 = ",\"speed\":"@ + (crate::text::decimal(d.speed as nat) + x);
    let e3 = ",\"speed\":"@ + (crate::text::decimal(e.speed as nat) + y);
    let d2 = ",\"protocol\":"@ + (crate::text::decimal(d.protocol as nat) + d3);
    let e2 = ",\"protocol\":"@ + (crate::text::decimal(e.protocol as nat) + e3);
    let d1 = ",\"subclass\":"@ + (crate::text::decimal(d.subclass as nat) + d2);
    let e1 = ",\"subclass\":"@ + (crate::text::decimal(e.subclass as nat) + e2);
    assert(d3[0] == ',' && e3[0] == ',' && d2[0] == ',' && e2[0] == ',' && d1[0] == ',' && e1[0]
        == ',');
    without_start(
        ",\"class\":"@,
        crate::text::decimal(d.class as nat) + d1,
        crate::text::decimal(e.class as nat) + e1,
    );
    without_decimal(d.class as nat, e.class as nat, d1, e1);
    without_start(
        ",\"subclass\":"@,
        crate::text::decimal(d.subclass as nat) + d2,
        crate::text::decimal(e.subclass as nat) + e2,
    );
    without_decimal(d.subclass as nat, e.subclass as nat, d2, e2);
    without_start(
        ",\"protocol\":"@,
        crate::text::decimal(d.protocol as nat) + d3,
        crate::text::decimal(e.protocol as nat) + e3,
    );
    without_decimal(d.protocol as nat, e.protocol as nat, d3, e3);
    without_start(
        ",\"speed\":"@,
        crate::text::decimal(d.speed as nat) + x,
        crate::text::decimal(e.speed as nat) + y,
    );
    without_decimal(d.speed as nat, e.speed as nat, x, y);
}

proof fn members_injective(d: AddedRecord, e: AddedRecord, x: Seq<char>, y: Seq<char>)
    requires
        members_then(d, x) == members_then(e, y),
        x.len() > 0,
        y.len() > 0,
        x[0] == '}',
        y[0] == '}',
    ensures
        d == e,
{
    let d5 = numbers_then(d, x);
    let e5 = numbers_then(e, y);
    let d4 = ",\"serial\":"@ + (opt_json(d.serial) + d5);
    let e4 = ",\"serial\":"@ + (opt_json(e.serial) + e5);
    let d3 = ",\"product\":"@ + (opt_json(d.product) + d4);
    let e3 = ",\"product\":"@ + (opt_json(e.product) + e4);
    let d2 = ",\"manufacturer\":"@ + (opt_json(d.manufacturer) + d3);
    let e2 = ",\"manufacturer\":"@ + (opt_json(e.manufacturer) + e3);
    let d1 = ",\"product_id\":"@ + (crate::json::quoted(d.product_id) + d2);
    let e1 = ",\"product_id\":"@ + (crate::json::quoted(e.product_id) + e2);
    let d0 = ",\"vendor_id\":"@ + (crate::json::quoted(d.vendor_id) + d1);
    let e0 = ",\"vendor_id\":"@ + (crate::json::quoted(e.vendor_id) + e1);
    without_start(
        "\"busid\":"@,
        crate::json::quoted(d.busid) + d0,
        crate::json::quoted(e.busid) + e0,
    );
    without_quoted(d.busid, e.busid, d0, e0);
    without_start(
        ",\"vendor_id\":"@,
        crate::json::quoted(d.vendor_id) + d1,
        crate::json::quoted(e.vendor_id) + e1,
    );
    without_quoted(d.vendor_id, e.vendor_id, d1, e1);
    without_start(
        ",\"product_id\":"@,
        crate::json::quoted(d.product_id) + d2,
        crate::json::quoted(e.product_id) + e2,
    );
    without_quoted(d.product_id, e.product_id, d2, e2);
    without_start(
        ",\"manufacturer\":"@,
        opt_json(d.manufacturer) + d3,
        opt_json(e.manufacturer) + e3,
    );
    without_opt(d.manufacturer, e.manufacturer, d3, e3);
    without_start(",\"product\":"@, opt_json(d.product) + d4, opt_json(e.product) + e4);
    without_opt(d.product, e.product, d4, e4);
    without_start(",\"serial\":"@, opt_json(d.serial) + d5, opt_json(e.serial) + e5);
    without_opt(d.serial, e.serial, d5, e5);
    numbers_injective(d, e, x, y);
    assert(d =~= e);
}

/// Different events are different lines: a subscriber can tell from the line what
/// happened, and everything that is known of the device.
pub proof fn event_text_injective(e: EventRecord, f: EventRecord)
    requires
        event_text(e) == event_text(f),
    ensures
        e == f,
{
    reveal_strlit("{\"event\":\"added\",");
    reveal_strlit("{\"event\":\"removed\",\"busid\":");
    reveal_strlit("}");
    let added = "{\"event\":\"added\","@;
    let removed = "{\"event\":\"removed\",\"busid\":"@;
    let end = "}"@.push('\n');
    assert(end[0] == '}');
    match (e, f) {
        (EventRecord::Added(d), EventRecord::Added(g)) => {
            assert(event_text(e) =~= added + (device_members(d) + end));
            assert(event_text(f) =~= added + (device_members(g) + end));
            without_start(added, device_members(d) + end, device_members(g) + end);
            members_regrouped(d, end);
            members_regrouped(g, end);
            members_injective(d, g, end, end);
        },
        (EventRecord::Removed { busid: a }, EventRecord::Removed { busid: b }) => {
            assert(event_text(e) =~= removed + (crate::json::quoted(a) + end));
            assert(event_text(f) =~= removed + (crate::json::quoted(b) + end));
            without_start(removed, crate::json::quoted(a) + end, crate::json::quoted(b) + end);
            without_quoted(a, b, end, end);
        },
        (EventRecord::Added(d), EventRecord::Removed { busid: b }) => {
            assert(event_text(e)[10] == added[10]);
            assert(event_text(f)[10] == removed[10]);
        },
        (EventRecord::Removed { busid: a }, EventRecord::Added(g)) => {
            assert(event_text(e)[10] == removed[10]);
            assert(event_text(f)[10] == added[10]);
        },
    }
}

/// The contents of an announced device are its fields.
pub proof fn added_device_view(d: AddedDevice)
    ensures
        d@.busid == d.busid@,
        d@.vendor_id == d.vendor_id@,
        d@.product_id == d.product_id@,
        d@.manufacturer == opt_text(d.manufacturer),
        d@.product == opt_text(d.product),
        d@.serial == opt_text(d.serial),
        d@.class == d.class,
        d@.subclass == d.subclass,
        d@.protocol == d.protocol,
        d@.speed == d.speed,
{
}

/// The contents of an event are the device that came, or the bus identifier of the one
/// that left.
pub proof fn event_line_view(d: AddedDevice, busid: String)
    ensures
        EventLine::Added(d)@ == EventRecord::Added(d@),
        (EventLine::Removed { busid })@ == (EventRecord::Removed { busid: busid@ }),
        EventRecord::Added(d@).about() == d.busid@,
        (EventRecord::Removed { busid: busid@ }).about() == busid@,
{
}

/// A device is announced as it is, field by field, with its identifiers as four
/// hexadecimal digits each.
pub proof fn announced_as_described(d: crate::host::UsbRecord)
    ensures
        added_record(d).busid == d.busid,
        added_record(d).vendor_id == crate::text::hex4(d.vendor_id),
        added_record(d).product_id == crate::text::hex4(d.product_id),
        added_record(d).manufacturer == d.manufacturer,
        added_record(d).product == d.product,
        added_record(d).serial == d.serial,
        added_record(d).class == d.class,
        added_record(d).subclass == d.subclass,
        added_record(d).protocol == d.protocol,
        added_record(d).speed == d.speed,
{
}

/// A text that is missing is `null`, and one that is there is a JSON string.
pub proof fn opt_json_is(s: Seq<char>)
    ensures
        opt_json(None) == seq!['n', 'u', 'l', 'l'],
        opt_json(Some(s)) == crate::json::quoted(s),
{
    reveal_strlit("null");
    assert("null"@ =~= seq!['n', 'u', 'l', 'l']);
}

/// `piece` stands somewhere in `line`.
pub open spec fn holds_text(line: Seq<char>, piece: Seq<char>) -> bool {
    exists|a: Seq<char>, b: Seq<char>| line == #[trigger] (a + piece + b)
}

proof fn member_found(
    line: Seq<char>,
    before: Seq<char>,
    key: Seq<char>,
    value: Seq<char>,
    next: Seq<char>,
    rest: Seq<char>,
)
    requires
        line == before + (key + (value + (next + rest))),
    ensures
        holds_text(line, key + value + next),
        line == (before + key + value) + (next + rest),
{
    assert(line =~= before + (key + value + next) + rest);
    assert(line =~= (before + key + value) + (next + rest));
}

/// The line of a device that came starts by saying so. Each member is followed by its own
/// value and then by the next member: the bus identifier, the vendor, the product, the
/// three strings, the class, subclass and protocol, and the speed, where the object ends.
pub proof fn added_line_members(d: AddedRecord)
    ensures
        ({
            let line = event_text(EventRecord::Added(d));
            &&& line.take(17) == "{\"event\":\"added\","@
            &&& holds_text(line, "\"busid\":"@ + crate::json::quoted(d.busid) + ",\"vendor_id\":"@)
            &&& holds_text(
                line,
                ",\"vendor_id\":"@ + crate::json::quoted(d.vendor_id) + ",\"product_id\":"@,
            )
            &&& holds_text(
                line,
                ",\"product_id\":"@ + crate::json::quoted(d.product_id) + ",\"manufacturer\":"@,
            )
            &&& holds_text(
                line,
                ",\"manufacturer\":"@ + opt_json(d.manufacturer) + ",\"product\":"@,
            )
            &&& holds_text(line, ",\"product\":"@ + opt_json(d.product) + ",\"serial\":"@)
            &&& holds_text(line, ",\"serial\":"@ + opt_json(d.serial) + ",\"class\":"@)
            &&& holds_text(
                line,
                ",\"class\":"@ + crate::text::decimal(d.class as nat) + ",\"subclass\":"@,
            )
            &&& holds_text(
                line,
                ",\"subclass\":"@ + crate::text::decimal(d.subclass as nat) + ",\"protocol\":"@,
            )
            &&& holds_text(
                line,
                ",\"protocol\":"@ + crate::text::decimal(d.protocol as nat) + ",\"speed\":"@,
            )
            &&& holds_text(line, ",\"speed\":"@ + crate::text::decimal(d.speed as nat) + "}"@)
        }),
{
    let line = event_text(EventRecord::Added(d));
    let start = "{\"event\":\"added\","@;
    reveal_strlit("{\"event\":\"added\",");
    let nl = seq!['\n'];
    let end = "}"@ + nl;
    let r9 = nl;
    let r8 = crate::text::decimal(d.speed as nat) + ("}"@ + r9);
    let r7 = crate::text::decimal(d.protocol as nat) + (",\"speed\":"@ + r8);
    let r6 = crate::text::decimal(d.subclass as nat) + (",\"protocol\":"@ + r7);
    let r5 = crate::text::decimal(d.class as nat) + (",\"subclass\":"@ + r6);
    let r4 = opt_json(d.serial) + (",\"class\":"@ + r5);
    let r3 = opt_json(d.product) + (",\"serial\":"@ + r4);
    let r2 = opt_json(d.manufacturer) + (",\"product\":"@ + r3);
    let r1 = crate::json::quoted(d.product_id) + (",\"manufacturer\":"@ + r2);
    let r0 = crate::json::quoted(d.vendor_id) + (",\"product_id\":"@ + r1);
    assert(line =~= start + (device_members(d) + end));
    members_regrouped(d, end);
    assert(line.take(17) =~= start);
    let a0 = start;
    member_found(line, a0, "\"busid\":"@, crate::json::quoted(d.busid), ",\"vendor_id\":"@, r0);
    let a1 = a0 + "\"busid\":"@ + crate::json::quoted(d.busid);
    member_found(
        line,
        a1,
        ",\"vendor_id\":"@,
        crate::json::quoted(d.vendor_id),
        ",\"product_id\":"@,
        r1,
    );
    let a2 = a1 + ",\"vendor_id\":"@ + crate::json::quoted(d.vendor_id);
    member_found(
        line,
        a2,
        ",\"product_id\":"@,
        crate::json::quoted(d.product_id),
        ",\"manufacturer\":"@,
        r2,
    );
    let a3 = a2 + ",\"product_id\":"@ + crate::json::quoted(d.product_id);
    member_found(line, a3, ",\"manufacturer\":"@, opt_json(d.manufacturer), ",\"product\":"@, r3);
    let a4 = a3 + ",\"manufacturer\":"@ + opt_json(d.manufacturer);
    member_found(line, a4, ",\"product\":"@, opt_json(d.product), ",\"serial\":"@, r4);
    let a5 = a4 + ",\"product\":"@ + opt_json(d.product);
    member_found(line, a5, ",\"serial\":"@, opt_json(d.serial), ",\"class\":"@, r5);
    let a6 = a5 + ",\"serial\":"@ + opt_json(d.serial);
    member_found(
        line,
        a6,
        ",\"class\":"@,
        crate::text::decimal(d.class as nat),
        ",\"subclass\":"@,
        r6,
    );
    let a7 = a6 + ",\"class\":"@ + crate::text::decimal(d.class as nat);
    member_found(
        line,
        a7,
        ",\"subclass\":"@,
        crate::text::decimal(d.subclass as nat),
        ",\"protocol\":"@,
        r7,
    );
    let a8 = a7 + ",\"subclass\":"@ + crate::text::decimal(d.subclass as nat);
    member_found(
        line,
        a8,
        ",\"protocol\":"@,
        crate::text::decimal(d.protocol as nat),
        ",\"speed\":"@,
        r8,
    );
    let a9 = a8 + ",\"protocol\":"@ + crate::text::decimal(d.protocol as nat);
    member_found(line, a9, ",\"speed\":"@, crate::text::decimal(d.speed as nat), "}"@, r9);
}

/// The line of a device that left says so and names its bus identifier.
pub proof fn removed_line_members(busid: Seq<char>)
    ensures
        ({
            let line = event_text(EventRecord::Removed { busid });
            &&& line.take(27) == "{\"event\":\"removed\",\"busid\":"@
            &&& line.skip(27) == crate::json::quoted(busid) + "}"@ + seq!['\n']
            &&& crate::json::read_rest(line.skip(28)).0 == busid
        }),
{
    let line = event_text(EventRecord::Removed { busid });
    reveal_strlit("{\"event\":\"removed\",\"busid\":");
    reveal_strlit("}");
    let end = "}"@ + seq!['\n'];
    assert(line.take(27) =~= "{\"event\":\"removed\",\"busid\":"@);
    assert(line.skip(27) =~= crate::json::quoted(busid) + "}"@ + seq!['\n']);
    crate::json::quoted_reads_back(busid, end);
    assert(line.skip(28) =~= (crate::json::quoted(busid) + end).skip(1));
}

/// A list of devices is their objects with a comma between each two, and an object is the
/// members that the line of the device has, in braces.
pub proof fn objects_are_joined(list: Seq<AddedRecord>, d: AddedRecord)
    ensures
        objects_text(Seq::empty()).len() == 0,
        objects_text(seq![d]) == "{"@ + device_members(d) + "}"@,
        list.len() > 0 ==> objects_text(list.push(d)) == objects_text(list) + ","@ + "{"@
            + device_members(d) + "}"@,
        event_text(EventRecord::Added(d)) == "{\"event\":\"added\","@ + device_members(d) + "}"@
            + seq!['\n'],
{
    assert(list.push(d).drop_last() =~= list);
    assert(seq![d].drop_last() =~= Seq::empty());
    assert(objects_text(seq![d]) =~= "{"@ + device_members(d) + "}"@);
    assert(event_text(EventRecord::Added(d)) =~= "{\"event\":\"added\","@ + device_members(d)
        + "}"@ + seq!['\n']);
}

} // verus!
