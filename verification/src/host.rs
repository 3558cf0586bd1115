//! The USB devices of the host, as the server names and describes them.

use vstd::prelude::*;

use crate::op::{ExportedDevice, ExportedInterface};
use crate::text::{parse_hex_u16, push_decimal};

verus! {

/// The speed of a device.
#[derive(Debug, Clone, Copy, PartialEq, Eq, Structural)]
pub enum LinkSpeed {
    Low,
    Full,
    High,
    Super,
    SuperPlus,
}

/// The number of a speed in `enum usb_device_speed` of the Linux headers; zero
/// where it is not known.
pub open spec fn speed_number(speed: Option<LinkSpeed>) -> u32 {
    match speed {
        None => 0,
        Some(LinkSpeed::Low) => 1,
        Some(LinkSpeed::Full) => 2,
        Some(LinkSpeed::High) => 3,
        Some(LinkSpeed::Super) => 5,
        Some(LinkSpeed::SuperPlus) => 6,
    }
}

/// The number that stands for `speed` on the wire.
pub fn speed_code(speed: Option<LinkSpeed>) -> (n: u32)
    ensures
        n == speed_number(speed),
{
    match speed {
        None => 0,
        Some(LinkSpeed::Low) => 1,
        Some(LinkSpeed::Full) => 2,
        Some(LinkSpeed::High) => 3,
        Some(LinkSpeed::Super) => 5,
        Some(LinkSpeed::SuperPlus) => 6,
    }
}

/// What the host reports of a device without opening it.
#[derive(Debug)]
pub struct DeviceInfo {
    pub bus_id: String,
    pub device_address: u8,
    /// The port numbers from the root of the bus to the device.
    pub port_chain: Vec<u8>,
    pub vendor_id: u16,
    pub product_id: u16,
    pub device_version: u16,
    pub class: u8,
    pub subclass: u8,
    pub protocol: u8,
    pub speed: Option<LinkSpeed>,
    pub manufacturer_string: Option<String>,
    pub product_string: Option<String>,
    pub serial_number: Option<String>,
    pub interfaces: Vec<ExportedInterface>,
}

/// The text of an optional string.
pub open spec fn opt_text(s: Option<String>) -> Option<Seq<char>> {
    match s {
        Some(s) => Some(s@),
        None => None,
    }
}

/// A string that is there has its text, and one that is missing has none.
pub proof fn opt_text_is(s: String)
    ensures
        opt_text(Some(s)) == Some(s@),
        opt_text(None) is None,
{
}

/// A copy of an optional string.
pub fn copy_opt(s: &Option<String>) -> (r: Option<String>)
    ensures
        opt_text(r) == opt_text(*s),
        r is Some <==> *s is Some,
        *s is Some ==> r->0@ == s->0@,
{
    match s {
        Some(s) => Some(s.clone()),
        None => None,
    }
}

/// A USB device of the host, in a form that can be advertised and shown.
#[derive(Debug, Clone, PartialEq, Eq)]
pub struct UsbDevice {
    /// The USB/IP bus identifier, such as `1-2` or `1-2.3`.
    pub busid: String,
    pub busnum: u32,
    pub devnum: u32,
    pub speed: u32,
    pub vendor_id: u16,
    pub product_id: u16,
    pub device_version: u16,
    pub class: u8,
    pub subclass: u8,
    pub protocol: u8,
    pub configuration_value: u8,
    pub num_configurations: u8,
    pub interfaces: Vec<ExportedInterface>,
    pub manufacturer: Option<String>,
    pub product: Option<String>,
    pub serial: Option<String>,
}

/// The contents of a [`UsbDevice`].
#[verifier::ext_equal]
pub struct UsbRecord {
    pub busid: Seq<char>,
    pub busnum: u32,
    pub devnum: u32,
    pub speed: u32,
    pub vendor_id: u16,
    pub product_id: u16,
    pub device_version: u16,
    pub class: u8,
    pub subclass: u8,
    pub protocol: u8,
    pub configuration_value: u8,
    pub num_configurations: u8,
    pub interfaces: Seq<ExportedInterface>,
    pub manufacturer: Option<Seq<char>>,
    pub product: Option<Seq<char>>,
    pub serial: Option<Seq<char>>,
}

impl View for UsbDevice {
    type V = UsbRecord;

    open spec fn view(&self) -> UsbRecord {
        UsbRecord {
            busid: self.busid@,
            busnum: self.busnum,
            devnum: self.devnum,
            speed: self.speed,
            vendor_id: self.vendor_id,
            product_id: self.product_id,
            device_version: self.device_version,
            class: self.class,
            subclass: self.subclass,
            protocol: self.protocol,
            configuration_value: self.configuration_value,
            num_configurations: self.num_configurations,
            interfaces: self.interfaces@,
            manufacturer: opt_text(self.manufacturer),
            product: opt_text(self.product),
            serial: opt_text(self.serial),
        }
    }
}

/// Port numbers in decimal, joined by dots.
pub open spec fn dotted(ports: Seq<u8>) -> Seq<char>
    decreases ports.len(),
{
    if ports.len() == 0 {
        Seq::empty()
    } else if ports.len() == 1 {
        crate::text::decimal(ports[0] as nat)
    } else {
        dotted(ports.drop_last()).push('.') + crate::text::decimal(ports.last() as nat)
    }
}

/// The USB/IP bus identifier: the bus, a dash and the dotted port chain. A device
/// without a port chain, such as a root hub, has `0.` and its address there.
pub open spec fn busid_text(bus: Seq<char>, ports: Seq<u8>, address: u8) -> Seq<char> {
    if ports.len() == 0 {
        bus + "-0."@ + crate::text::decimal(address as nat)
    } else {
        bus + "-"@ + dotted(ports)
    }
}

/// The USB/IP bus identifier of a device.
pub fn format_busid(bus: &str, ports: &[u8], address: u8) -> (s: String)
    ensures
        s@ == busid_text(bus@, ports@, address),
{
    let mut s: String = bus.to_owned();
    if ports.len() == 0 {
        s.append("-0.");
        push_decimal(&mut s, address as u64);
        return s;
    }
    s.append("-");
    let ghost start = s@;
    push_decimal(&mut s, ports[0] as u64);
    let mut i: usize = 1;
    assert(ports@.take(1)[0] == ports@[0]);
    while i < ports.len()
        invariant
            1 <= i <= ports@.len(),
            s@ == start + dotted(ports@.take(i as int)),
        decreases ports@.len() - i,
    {
        s.push('.');
        push_decimal(&mut s, ports[i] as u64);
        proof {
            let next = ports@.take(i + 1);
            assert(next.drop_last() =~= ports@.take(i as int));
            assert(next.last() == ports@[i as int]);
        }
        i += 1;
        assert(s@ =~= start + dotted(ports@.take(i as int)));
    }
    assert(ports@.take(i as int) =~= ports@);
    s
}

/// The text before and after the last separator is known from the whole text.
proof fn split_at_last(sep: char, u: Seq<char>, x: Seq<char>, v: Seq<char>, y: Seq<char>)
    requires
        u.push(sep) + x == v.push(sep) + y,
        !x.contains(sep),
        !y.contains(sep),
    ensures
        u == v,
        x == y,
{
    let a = u.push(sep) + x;
    let b = v.push(sep) + y;
    assert(a.len() == u.len() + 1 + x.len());
    assert(b.len() == v.len() + 1 + y.len());
    if u.len() < v.len() {
        assert(b[v.len() as int] == sep);
        assert(a[v.len() as int] == x[v.len() - u.len() - 1]);
        assert(x.contains(sep));
    }
    if v.len() < u.len() {
        assert(a[u.len() as int] == sep);
        assert(b[u.len() as int] == y[u.len() - v.len() - 1]);
        assert(y.contains(sep));
    }
    assert(u =~= v) by {
        assert forall|i: int| 0 <= i < u.len() implies u[i] == v[i] by {
            assert(a[i] == u[i]);
            assert(b[i] == v[i]);
        }
    }
    assert(x =~= y) by {
        assert forall|i: int| 0 <= i < x.len() implies x[i] == y[i] by {
            assert(a[u.len() + 1 + i] == x[i]);
            assert(b[u.len() + 1 + i] == y[i]);
        }
    }
}

/// A dotted chain holds digits and dots only, and a dot where it has two parts.
proof fn dotted_chars(ports: Seq<u8>)
    ensures
        !dotted(ports).contains('-'),
        ports.len() >= 2 ==> dotted(ports).contains('.'),
        ports.len() == 1 ==> !dotted(ports).contains('.'),
        ports.len() >= 1 ==> dotted(ports).len() > 0,
    decreases ports.len(),
{
    if ports.len() == 1 {
        crate::text::decimal_reads_back(ports[0] as nat);
    } else if ports.len() >= 2 {
        dotted_chars(ports.drop_last());
        crate::text::decimal_reads_back(ports.last() as nat);
        let head = dotted(ports.drop_last());
        let d = dotted(ports);
        assert(d[head.len() as int] == '.');
        assert forall|i: int| 0 <= i < d.len() implies d[i] != '-' by {
            if i < head.len() {
                assert(d[i] == head[i]);
                assert(head.contains(head[i]));
            } else if i > head.len() {
                assert(d[i] == crate::text::decimal(ports.last() as nat)[i - head.len() - 1]);
            }
        }
    }
}

/// Different port chains have different dotted forms.
pub proof fn dotted_injective(p: Seq<u8>, q: Seq<u8>)
    requires
        p.len() > 0,
        q.len() > 0,
        dotted(p) == dotted(q),
    ensures
        p == q,
    decreases p.len(),
{
    dotted_chars(p);
    dotted_chars(q);
    crate::text::decimal_reads_back(p.last() as nat);
    crate::text::decimal_reads_back(q.last() as nat);
    if p.len() == 1 {
        assert(q.len() == 1);
        assert(p =~= q);
    } else {
        assert(q.len() >= 2);
        split_at_last(
            '.',
            dotted(p.drop_last()),
            crate::text::decimal(p.last() as nat),
            dotted(q.drop_last()),
            crate::text::decimal(q.last() as nat),
        );
        dotted_injective(p.drop_last(), q.drop_last());
        assert(p =~= p.drop_last().push(p.last()));
        assert(q =~= q.drop_last().push(q.last()));
    }
}

/// The chain whose dotted form ends the bus identifier of a device.
spec fn chain_of(ports: Seq<u8>, address: u8) -> Seq<u8> {
    if ports.len() == 0 {
        seq![0u8, address]
    } else {
        ports
    }
}

proof fn busid_is_chain(bus: Seq<char>, ports: Seq<u8>, address: u8)
    ensures
        busid_text(bus, ports, address) == bus.push('-') + dotted(chain_of(ports, address)),
{
    reveal_strlit("-0.");
    reveal_strlit("-");
    let c = chain_of(ports, address);
    if ports.len() == 0 {
        assert(c.drop_last() =~= seq![0u8]);
        assert(dotted(c.drop_last()) =~= seq!['0']);
        assert(busid_text(bus, ports, address) =~= bus.push('-') + dotted(c));
    } else {
        assert(busid_text(bus, ports, address) =~= bus.push('-') + dotted(c));
    }
}

/// Two devices with the same bus identifier are on the same bus and have the same
/// port chain, or both have none and the same address. The one exception is a
/// device without a port chain beside one whose chain is a zero and that address.
pub proof fn busid_unique(
    bus1: Seq<char>,
    ports1: Seq<u8>,
    address1: u8,
    bus2: Seq<char>,
    ports2: Seq<u8>,
    address2: u8,
)
    requires
        busid_text(bus1, ports1, address1) == busid_text(bus2, ports2, address2),
        ports1.len() == 0 ==> ports2 != seq![0u8, address1],
        ports2.len() == 0 ==> ports1 != seq![0u8, address2],
    ensures
        bus1 == bus2,
        ports1 == ports2,
        ports1.len() == 0 ==> address1 == address2,
{
    let c1 = chain_of(ports1, address1);
    let c2 = chain_of(ports2, address2);
    busid_is_chain(bus1, ports1, address1);
    busid_is_chain(bus2, ports2, address2);
    dotted_chars(c1);
    dotted_chars(c2);
    split_at_last('-', bus1, dotted(c1), bus2, dotted(c2));
    dotted_injective(c1, c2);
    if ports1.len() == 0 && ports2.len() == 0 {
        assert(c1[1] == c2[1]);
        assert(ports1 =~= ports2);
    }
}

/// The number of a bus: its identifier read as one to four hexadecimal digits,
/// zero where it is anything else.
pub open spec fn bus_number_of(bus: Seq<char>) -> u32 {
    match crate::text::hex_u16(vstd::utf8::encode_utf8(bus)) {
        Some(n) => n as u32,
        None => 0,
    }
}

/// The number of the bus `bus`.
pub fn bus_number(bus: &str) -> (n: u32)
    ensures
        n == bus_number_of(bus@),
        n < 0x1_0000,
{
    match parse_hex_u16(bus.as_bytes()) {
        Some(n) => n as u32,
        None => 0,
    }
}

/// A port chain as one number, a hexadecimal digit for each port, of which the low
/// sixteen bits are kept.
pub open spec fn chain_number(ports: Seq<u8>) -> nat
    decreases ports.len(),
{
    if ports.len() == 0 {
        0
    } else {
        (chain_number(ports.drop_last()) * 16 + ports.last() as nat) % 0x1_0000
    }
}

/// The number of a device on its bus, from its port chain; a device without one
/// has its address as its number.
pub open spec fn device_number_of(ports: Seq<u8>, address: u8) -> u32 {
    if ports.len() == 0 {
        address as u32
    } else {
        chain_number(ports) as u32
    }
}

/// The number of a device on its bus.
pub fn device_number(ports: &[u8], address: u8) -> (n: u32)
    ensures
        n == device_number_of(ports@, address),
        n < 0x1_0000,
{
    if ports.len() == 0 {
        return address as u32;
    }
    let mut n: u32 = 0;
    let mut i: usize = 0;
    assert(ports@.take(0) =~= Seq::empty());
    while i < ports.len()
        invariant
            i <= ports@.len(),
            n < 0x1_0000,
            n == chain_number(ports@.take(i as int)),
        decreases ports@.len() - i,
    {
        let ghost next = ports@.take(i + 1);
        assert(next.drop_last() =~= ports@.take(i as int));
        assert(next.last() == ports@[i as int]);
        n = (n * 16 + ports[i] as u32) % 0x1_0000;
        i += 1;
    }
    assert(ports@.take(i as int) =~= ports@);
    n
}

/// A copy of a list of interfaces.
pub fn copy_interfaces(list: &Vec<ExportedInterface>) -> (r: Vec<ExportedInterface>)
    ensures
        r@ == list@,
{
    let mut r: Vec<ExportedInterface> = Vec::new();
    let mut i: usize = 0;
    while i < list.len()
        invariant
            i <= list@.len(),
            r@ == list@.take(i as int),
        decreases list@.len() - i,
    {
        r.push(list[i]);
        i += 1;
        assert(r@ =~= list@.take(i as int));
    }
    assert(r@ =~= list@);
    r
}

impl DeviceInfo {
    /// The device that this report describes. The configuration is that of a
    /// device with one, until the device is opened and asked for it.
    pub open spec fn record(self) -> UsbRecord {
        UsbRecord {
            busid: busid_text(self.bus_id@, self.port_chain@, self.device_address),
            busnum: bus_number_of(self.bus_id@),
            devnum: device_number_of(self.port_chain@, self.device_address),
            speed: speed_number(self.speed),
            vendor_id: self.vendor_id,
            product_id: self.product_id,
            device_version: self.device_version,
            class: self.class,
            subclass: self.subclass,
            protocol: self.protocol,
            configuration_value: 1,
            num_configurations: 1,
            interfaces: self.interfaces@,
            manufacturer: opt_text(self.manufacturer_string),
            product: opt_text(self.product_string),
            serial: opt_text(self.serial_number),
        }
    }
}

/// The numbers of a reported device are sixteen bits wide.
pub proof fn numbers_in_range(info: DeviceInfo)
    ensures
        info.record().busnum < 0x1_0000,
        info.record().devnum < 0x1_0000,
{
    crate::text::hex_u16_in_range(vstd::utf8::encode_utf8(info.bus_id@));
    assert(chain_number(info.port_chain@) < 0x1_0000);
}

impl UsbDevice {
    /// The device that `info` describes.
    pub fn from_info(info: &DeviceInfo) -> (d: UsbDevice)
        ensures
            d@ == info.record(),
            d.busid@ == busid_text(info.bus_id@, info.port_chain@, info.device_address),
            d.busnum == bus_number_of(info.bus_id@),
            d.devnum == device_number_of(info.port_chain@, info.device_address),
            d.speed == speed_number(info.speed),
            d.vendor_id == info.vendor_id,
            d.product_id == info.product_id,
            d.device_version == info.device_version,
            d.class == info.class,
            d.subclass == info.subclass,
            d.protocol == info.protocol,
            d.interfaces@ == info.interfaces@,
            opt_text(d.manufacturer) == opt_text(info.manufacturer_string),
            opt_text(d.product) == opt_text(info.product_string),
            opt_text(d.serial) == opt_text(info.serial_number),
    {
        let ports: &[u8] = info.port_chain.as_slice();
        UsbDevice {
            busid: format_busid(info.bus_id.as_str(), ports, info.device_address),
            busnum: bus_number(info.bus_id.as_str()),
            devnum: device_number(ports, info.device_address),
            speed: speed_code(info.speed),
            vendor_id: info.vendor_id,
            product_id: info.product_id,
            device_version: info.device_version,
            class: info.class,
            subclass: info.subclass,
            protocol: info.protocol,
            configuration_value: 1,
            num_configurations: 1,
            interfaces: copy_interfaces(&info.interfaces),
            manufacturer: copy_opt(&info.manufacturer_string),
            product: copy_opt(&info.product_string),
            serial: copy_opt(&info.serial_number),
        }
    }
}

/// The devices that a list of reports describes, in order.
pub fn list_devices(infos: &Vec<DeviceInfo>) -> (out: Vec<UsbDevice>)
    ensures
        out@.len() == infos@.len(),
        forall|i: int| 0 <= i < infos@.len() ==> (#[trigger] out@[i])@ == infos@[i].record(),
{
    let mut out: Vec<UsbDevice> = Vec::new();
    let mut i: usize = 0;
    while i < infos.len()
        invariant
            i <= infos@.len(),
            out@.len() == i,
            forall|k: int| 0 <= k < i ==> (#[trigger] out@[k])@ == infos@[k].record(),
        decreases infos@.len() - i,
    {
        out.push(UsbDevice::from_info(&infos[i]));
        i += 1;
    }
    out
}

/// The record under which a device is exported.
pub open spec fn exported_record(d: UsbRecord) -> crate::op::DeviceRecord {
    crate::op::DeviceRecord {
        path: "/usbipd-darwin/"@ + d.busid,
        busid: d.busid,
        busnum: d.busnum,
        devnum: d.devnum,
        speed: d.speed,
        id_vendor: d.vendor_id,
        id_product: d.product_id,
        bcd_device: d.device_version,
        b_device_class: d.class,
        b_device_subclass: d.subclass,
        b_device_protocol: d.protocol,
        b_configuration_value: d.configuration_value,
        b_num_configurations: d.num_configurations,
        interfaces: d.interfaces,
    }
}

/// The device as it is exported.
pub fn to_exported(d: &UsbDevice) -> (e: ExportedDevice)
    ensures
        e@ == exported_record(d@),
        e.path@ == "/usbipd-darwin/"@ + d.busid@,
        e.busid@ == d.busid@,
        e.busnum == d.busnum,
        e.devnum == d.devnum,
        e.speed == d.speed,
        e.id_vendor == d.vendor_id,
        e.id_product == d.product_id,
        e.bcd_device == d.device_version,
        e.b_device_class == d.class,
        e.b_device_subclass == d.subclass,
        e.b_device_protocol == d.protocol,
        e.b_configuration_value == d.configuration_value,
        e.b_num_configurations == d.num_configurations,
        e.interfaces@ == d.interfaces@,
{
    let mut path: String = "/usbipd-darwin/".to_owned();
    path.append(d.busid.as_str());
    ExportedDevice {
        path,
        busid: d.busid.clone(),
        busnum: d.busnum,
        devnum: d.devnum,
        speed: d.speed,
        id_vendor: d.vendor_id,
        id_product: d.product_id,
        bcd_device: d.device_version,
        b_device_class: d.class,
        b_device_subclass: d.subclass,
        b_device_protocol: d.protocol,
        b_configuration_value: d.configuration_value,
        b_num_configurations: d.num_configurations,
        interfaces: copy_interfaces(&d.interfaces),
    }
}

/// The speeds have the numbers that Linux gives them: low 1, full 2, high 3, super 5 and
/// super plus 6. Zero stands for no other than the unknown speed.
pub proof fn speed_numbers_are(speed: Option<LinkSpeed>)
    ensures
        speed_number(speed) == 0 <==> speed is None,
        speed_number(speed) == 1 <==> speed == Some(LinkSpeed::Low),
        speed_number(speed) == 2 <==> speed == Some(LinkSpeed::Full),
        speed_number(speed) == 3 <==> speed == Some(LinkSpeed::High),
        speed_number(speed) == 5 <==> speed == Some(LinkSpeed::Super),
        speed_number(speed) == 6 <==> speed == Some(LinkSpeed::SuperPlus),
{
}

/// A port chain is written as its ports in decimal with a dot between each two.
pub proof fn dotted_joins(ports: Seq<u8>, port: u8)
    ensures
        dotted(seq![port]) == crate::text::decimal(port as nat),
        ports.len() > 0 ==> dotted(ports.push(port)) == dotted(ports) + seq!['.']
            + crate::text::decimal(port as nat),
{
    let more = ports.push(port);
    assert(more.drop_last() =~= ports);
    if ports.len() > 0 {
        assert(dotted(more) =~= dotted(ports) + seq!['.'] + crate::text::decimal(port as nat));
    }
}

/// A bus identifier is the bus, a dash, and the chain, where zero and the address stand
/// for a chain that is empty.
pub proof fn busid_layout(bus: Seq<char>, ports: Seq<u8>, address: u8)
    ensures
        busid_text(bus, ports, address).len() > bus.len(),
        busid_text(bus, ports, address).take(bus.len() as int) == bus,
        busid_text(bus, ports, address)[bus.len() as int] == '-',
        ports.len() > 0 ==> busid_text(bus, ports, address).skip(bus.len() as int + 1) == dotted(
            ports,
        ),
        ports.len() == 0 ==> busid_text(bus, ports, address).skip(bus.len() as int + 1) == dotted(
            seq![0u8, address],
        ),
{
    busid_is_chain(bus, ports, address);
    let s = busid_text(bus, ports, address);
    let c = chain_of(ports, address);
    assert(s.take(bus.len() as int) =~= bus);
    assert(s.skip(bus.len() as int + 1) =~= dotted(c));
}

/// A bus whose identifier is a hexadecimal number has that number, and another has zero.
pub proof fn bus_number_reads(x: u16, bus: Seq<char>)
    ensures
        bus_number_of(crate::text::hex4(x)) == x,
        crate::text::hex_u16(vstd::utf8::encode_utf8(bus)) matches Some(n) ==> bus_number_of(bus)
            == n,
        crate::text::hex_u16(vstd::utf8::encode_utf8(bus)) is None ==> bus_number_of(bus) == 0,
{
    crate::text::hex_u16_in_range(vstd::utf8::encode_utf8(bus));
    let t = crate::text::hex4(x);
    crate::text::hex4_reads_back(x);
    assert(vstd::utf8::is_ascii_chars(t));
    vstd::utf8::is_ascii_chars_encode_utf8(t);
    crate::policy::hex4_reads_back(x, vstd::utf8::encode_utf8(t));
}

/// Each port of a chain counts one hexadecimal digit in the number of the device, the last
/// port the lowest, and sixteen bits are kept.
pub proof fn device_number_counts(ports: Seq<u8>, port: u8, address: u8)
    ensures
        device_number_of(Seq::empty(), address) == address,
        device_number_of(seq![port], address) == port,
        ports.len() > 0 ==> device_number_of(ports.push(port), address) == (device_number_of(
            ports,
            address,
        ) * 16 + port) % 0x1_0000,
{
    assert(ports.push(port).drop_last() =~= ports);
    assert(seq![port].drop_last() =~= Seq::empty());
    reveal_with_fuel(chain_number, 2);
    assert(chain_number(ports) < 0x1_0000);
    assert(chain_number(ports.push(port)) == (chain_number(ports) * 16 + port as nat) % 0x1_0000);
}

/// A device is described by what was reported of it, field by field.
pub proof fn described_as_reported(info: DeviceInfo)
    ensures
        info.record().busid == busid_text(info.bus_id@, info.port_chain@, info.device_address),
        info.record().busnum == bus_number_of(info.bus_id@),
        info.record().devnum == device_number_of(info.port_chain@, info.device_address),
        info.record().speed == speed_number(info.speed),
        info.record().vendor_id == info.vendor_id,
        info.record().product_id == info.product_id,
        info.record().device_version == info.device_version,
        info.record().class == info.class,
        info.record().subclass == info.subclass,
        info.record().protocol == info.protocol,
        info.record().interfaces == info.interfaces@,
        info.record().manufacturer == opt_text(info.manufacturer_string),
        info.record().product == opt_text(info.product_string),
        info.record().serial == opt_text(info.serial_number),
        info.record().configuration_value == 1,
        info.record().num_configurations == 1,
{
}

/// A device is exported as it is, field by field, under a path that ends in its bus
/// identifier.
pub proof fn exported_as_described(d: UsbRecord)
    ensures
        exported_record(d).path == "/usbipd-darwin/"@ + d.busid,
        exported_record(d).busid == d.busid,
        exported_record(d).busnum == d.busnum,
        exported_record(d).devnum == d.devnum,
        exported_record(d).speed == d.speed,
        exported_record(d).id_vendor == d.vendor_id,
        exported_record(d).id_product == d.product_id,
        exported_record(d).bcd_device == d.device_version,
        exported_record(d).b_device_class == d.class,
        exported_record(d).b_device_subclass == d.subclass,
        exported_record(d).b_device_protocol == d.protocol,
        exported_record(d).b_configuration_value == d.configuration_value,
        exported_record(d).b_num_configurations == d.num_configurations,
        exported_record(d).interfaces == d.interfaces,
{
}

/// The contents of a device are its fields.
pub proof fn usb_device_view(d: UsbDevice)
    ensures
        d@.busid == d.busid@,
        d@.busnum == d.busnum,
        d@.devnum == d.devnum,
        d@.speed == d.speed,
        d@.vendor_id == d.vendor_id,
        d@.product_id == d.product_id,
        d@.device_version == d.device_version,
        d@.class == d.class,
        d@.subclass == d.subclass,
        d@.protocol == d.protocol,
        d@.configuration_value == d.configuration_value,
        d@.num_configurations == d.num_configurations,
        d@.interfaces == d.interfaces@,
        d@.manufacturer == opt_text(d.manufacturer),
        d@.product == opt_text(d.product),
        d@.serial == opt_text(d.serial),
{
}

} // verus!
