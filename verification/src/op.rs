//! The messages of the first phase of a connection: the op header, the device
//! list and the import of one device.
//!
//! The layout is that of `drivers/usb/usbip/usbip_common.h` and
//! `tools/usb/usbip/src/usbipd.c` in the Linux sources: big-endian integers and
//! strings of a fixed width, filled up with NUL.

use vstd::prelude::*;

use crate::error::ProtoError;
use crate::text::{read_fixed_str, write_fixed_str};
use crate::wire::{put_u16, put_u32, read_u16, read_u32};

verus! {

/// The protocol version that current Linux tools speak.
pub const USBIP_VERSION: u16 = 0x0111;

pub const OP_REQ_DEVLIST: u16 = 0x8005;

pub const OP_REP_DEVLIST: u16 = 0x0005;

pub const OP_REQ_IMPORT: u16 = 0x8003;

pub const OP_REP_IMPORT: u16 = 0x0003;

/// The eight bytes that start every op message.
#[derive(Debug, Clone, Copy, PartialEq, Eq, Structural)]
pub struct OpHeader {
    pub version: u16,
    pub code: u16,
    pub status: u32,
}

impl OpHeader {
    pub const SIZE: usize = 8;

    /// The bytes of the header.
    pub open spec fn wire(self) -> Seq<u8> {
        crate::wire::be16(self.version) + crate::wire::be16(self.code) + crate::wire::be32(
            self.status,
        )
    }

    /// The header that the first eight bytes of `s` stand for.
    pub open spec fn parse(s: Seq<u8>) -> OpHeader {
        OpHeader {
            version: crate::wire::from_be16(s, 0),
            code: crate::wire::from_be16(s, 2),
            status: crate::wire::from_be32(s, 4),
        }
    }

    /// A header of this server's version with status zero.
    #[must_use]
    pub fn new(code: u16) -> (h: OpHeader)
        ensures
            h == (OpHeader { version: USBIP_VERSION, code, status: 0 }),
            h.version == 0x0111 && h.code == code && h.status == 0,
    {
        OpHeader { version: USBIP_VERSION, code, status: 0 }
    }

    /// Appends the bytes of the header.
    pub fn encode(&self, out: &mut Vec<u8>)
        ensures
            final(out)@ == old(out)@ + self.wire(),
    {
        put_u16(out, self.version);
        put_u16(out, self.code);
        put_u32(out, self.status);
        assert(out@ =~= old(out)@ + self.wire());
    }

    /// The header at the start of `buf`.
    pub fn decode(buf: &[u8]) -> (r: Result<OpHeader, ProtoError>)
        ensures
            buf@.len() >= 8 ==> r == Ok::<OpHeader, ProtoError>(OpHeader::parse(buf@)),
            r matches Ok(h) ==> {
                &&& h.version == crate::wire::from_be16(buf@, 0)
                &&& h.code == crate::wire::from_be16(buf@, 2)
                &&& h.status == crate::wire::from_be32(buf@, 4)
            },
            buf@.len() < 8 ==> r == Err::<OpHeader, ProtoError>(
                ProtoError::ShortRead { need: 8, got: buf@.len() as usize },
            ),
    {
        if buf.len() < Self::SIZE {
            return Err(ProtoError::ShortRead { need: Self::SIZE, got: buf.len() });
        }
        let mut o: usize = 0;
        let version: u16 = read_u16(buf, &mut o);
        let code: u16 = read_u16(buf, &mut o);
        let status: u32 = read_u32(buf, &mut o);
        Ok(OpHeader { version, code, status })
    }
}

/// What was encoded is decoded, whatever follows it in the buffer.
pub proof fn op_header_round_trip(h: OpHeader, rest: Seq<u8>)
    ensures
        h.wire().len() == 8,
        OpHeader::parse(h.wire() + rest) == h,
{
    let s = h.wire() + rest;
    assert(s.subrange(0, 2) =~= crate::wire::be16(h.version));
    assert(s.subrange(2, 4) =~= crate::wire::be16(h.code));
    assert(s.subrange(4, 8) =~= crate::wire::be32(h.status));
    crate::wire::be16_reads_back(s, 0, h.version);
    crate::wire::be16_reads_back(s, 2, h.code);
    crate::wire::be32_reads_back(s, 4, h.status);
}

/// One interface of a listed device.
#[derive(Debug, Clone, Copy, PartialEq, Eq, Structural)]
pub struct ExportedInterface {
    pub class: u8,
    pub subclass: u8,
    pub protocol: u8,
}

impl ExportedInterface {
    pub const SIZE: usize = 4;

    /// The bytes of the interface; the last one is padding.
    pub open spec fn wire(self) -> Seq<u8> {
        seq![self.class, self.subclass, self.protocol, 0u8]
    }

    /// The interface whose bytes stand at `at` in `s`; the padding is not read.
    pub open spec fn parse(s: Seq<u8>, at: int) -> ExportedInterface {
        ExportedInterface { class: s[at], subclass: s[at + 1], protocol: s[at + 2] }
    }

    /// Appends the bytes of the interface.
    pub fn encode(&self, out: &mut Vec<u8>)
        ensures
            final(out)@ == old(out)@ + self.wire(),
    {
        out.push(self.class);
        out.push(self.subclass);
        out.push(self.protocol);
        out.push(0);
        assert(out@ =~= old(out)@ + self.wire());
    }

    /// The interface at the start of `buf`.
    pub fn decode(buf: &[u8]) -> (r: Result<ExportedInterface, ProtoError>)
        ensures
            r matches Ok(i) ==> i.class == buf@[0] && i.subclass == buf@[1] && i.protocol
                == buf@[2],
            buf@.len() >= 4 ==> r == Ok::<ExportedInterface, ProtoError>(
                ExportedInterface::parse(buf@, 0),
            ),
            buf@.len() < 4 ==> r == Err::<ExportedInterface, ProtoError>(
                ProtoError::ShortRead { need: 4, got: buf@.len() as usize },
            ),
    {
        if buf.len() < Self::SIZE {
            return Err(ProtoError::ShortRead { need: Self::SIZE, got: buf.len() });
        }
        Ok(ExportedInterface { class: buf[0], subclass: buf[1], protocol: buf[2] })
    }
}

/// What was encoded is decoded, whatever follows it in the buffer.
pub proof fn exported_interface_round_trip(i: ExportedInterface, rest: Seq<u8>)
    ensures
        i.wire().len() == 4,
        ExportedInterface::parse(i.wire() + rest, 0) == i,
{
}

/// The bytes of a list of interfaces, four for each.
pub open spec fn interfaces_wire(list: Seq<ExportedInterface>) -> Seq<u8> {
    Seq::new((4 * list.len()) as nat, |i: int| list[i / 4].wire()[i % 4])
}

/// One device as it is listed: the fixed fields, then its interfaces.
#[derive(Debug, Clone, PartialEq, Eq)]
pub struct ExportedDevice {
    /// A path in the style of sysfs, unique and stable, in 256 bytes.
    pub path: String,
    /// The bus identifier, such as `1-2`, in 32 bytes.
    pub busid: String,
    pub busnum: u32,
    pub devnum: u32,
    pub speed: u32,
    pub id_vendor: u16,
    pub id_product: u16,
    pub bcd_device: u16,
    pub b_device_class: u8,
    pub b_device_subclass: u8,
    pub b_device_protocol: u8,
    pub b_configuration_value: u8,
    pub b_num_configurations: u8,
    pub interfaces: Vec<ExportedInterface>,
}

/// The contents of an [`ExportedDevice`].
#[verifier::ext_equal]
pub struct DeviceRecord {
    pub path: Seq<char>,
    pub busid: Seq<char>,
    pub busnum: u32,
    pub devnum: u32,
    pub speed: u32,
    pub id_vendor: u16,
    pub id_product: u16,
    pub bcd_device: u16,
    pub b_device_class: u8,
    pub b_device_subclass: u8,
    pub b_device_protocol: u8,
    pub b_configuration_value: u8,
    pub b_num_configurations: u8,
    pub interfaces: Seq<ExportedInterface>,
}

impl View for ExportedDevice {
    type V = DeviceRecord;

    open spec fn view(&self) -> DeviceRecord {
        DeviceRecord {
            path: self.path@,
            busid: self.busid@,
            busnum: self.busnum,
            devnum: self.devnum,
            speed: self.speed,
            id_vendor: self.id_vendor,
            id_product: self.id_product,
            bcd_device: self.bcd_device,
            b_device_class: self.b_device_class,
            b_device_subclass: self.b_device_subclass,
            b_device_protocol: self.b_device_protocol,
            b_configuration_value: self.b_configuration_value,
            b_num_configurations: self.b_num_configurations,
            interfaces: self.interfaces@,
        }
    }
}

impl DeviceRecord {
    /// The number of interfaces as one byte, 255 where there are more.
    pub open spec fn interface_count(self) -> u8 {
        if self.interfaces.len() <= 255 {
            self.interfaces.len() as u8
        } else {
            255
        }
    }

    /// The numbers after the two strings.
    pub open spec fn numbers_wire(self) -> Seq<u8> {
        crate::wire::be32(self.busnum) + crate::wire::be32(self.devnum) + crate::wire::be32(
            self.speed,
        ) + crate::wire::be16(self.id_vendor) + crate::wire::be16(self.id_product)
            + crate::wire::be16(self.bcd_device) + seq![
            self.b_device_class,
            self.b_device_subclass,
            self.b_device_protocol,
            self.b_configuration_value,
            self.b_num_configurations,
            self.interface_count(),
        ]
    }

    /// The bytes of the fixed fields.
    pub open spec fn header_wire(self) -> Seq<u8> {
        crate::text::fixed_str(self.path, 256) + crate::text::fixed_str(self.busid, 32)
            + self.numbers_wire()
    }

    /// The bytes of the whole record.
    pub open spec fn wire(self) -> Seq<u8> {
        self.header_wire() + interfaces_wire(self.interfaces)
    }

    /// The record that starts `s`.
    pub open spec fn parse(s: Seq<u8>) -> DeviceRecord {
        DeviceRecord {
            path: crate::text::fixed_str_text(s.subrange(0, 256)),
            busid: crate::text::fixed_str_text(s.subrange(256, 288)),
            busnum: crate::wire::from_be32(s, 288),
            devnum: crate::wire::from_be32(s, 292),
            speed: crate::wire::from_be32(s, 296),
            id_vendor: crate::wire::from_be16(s, 300),
            id_product: crate::wire::from_be16(s, 302),
            bcd_device: crate::wire::from_be16(s, 304),
            b_device_class: s[306],
            b_device_subclass: s[307],
            b_device_protocol: s[308],
            b_configuration_value: s[309],
            b_num_configurations: s[310],
            interfaces: Seq::new(
                s[311] as nat,
                |i: int| ExportedInterface::parse(s, 312 + 4 * i),
            ),
        }
    }

    /// The length of the record that starts `s`.
    pub open spec fn parsed_len(s: Seq<u8>) -> int {
        312 + 4 * s[311]
    }

    /// The record comes back from its bytes unchanged: its strings fit their
    /// fields and one byte can count its interfaces.
    pub open spec fn representable(self) -> bool {
        &&& crate::text::fits(self.path, 256)
        &&& crate::text::fits(self.busid, 32)
        &&& self.interfaces.len() <= 255
    }
}

impl ExportedDevice {
    /// The size of the fixed fields, before the interfaces.
    pub const HEADER_SIZE: usize = 312;

    /// Appends the fixed fields.
    pub fn encode_header(&self, out: &mut Vec<u8>)
        ensures
            final(out)@ == old(out)@ + self@.header_wire(),
    {
        write_fixed_str(out, self.path.as_str(), 256);
        write_fixed_str(out, self.busid.as_str(), 32);
        let ghost strings = out@;
        put_u32(out, self.busnum);
        put_u32(out, self.devnum);
        put_u32(out, self.speed);
        put_u16(out, self.id_vendor);
        put_u16(out, self.id_product);
        put_u16(out, self.bcd_device);
        out.push(self.b_device_class);
        out.push(self.b_device_subclass);
        out.push(self.b_device_protocol);
        out.push(self.b_configuration_value);
        out.push(self.b_num_configurations);
        let n_ifaces: u8 = if self.interfaces.len() <= 255 {
            self.interfaces.len() as u8
        } else {
            255
        };
        out.push(n_ifaces);
        assert(out@ =~= strings + self@.numbers_wire());
        assert(out@ =~= old(out)@ + self@.header_wire());
    }

    /// Appends the record. One byte counts the interfaces: where there are more
    /// than 255 it says 255, and all of them are written.
    pub fn encode(&self, out: &mut Vec<u8>)
        ensures
            final(out)@ == old(out)@ + self@.wire(),
    {
        self.encode_header(out);
        let ghost start = out@;
        let mut i: usize = 0;
        assert(self.interfaces@.take(0) =~= Seq::empty());
        assert(out@ =~= start + interfaces_wire(self.interfaces@.take(0)));
        while i < self.interfaces.len()
            invariant
                i <= self.interfaces@.len(),
                out@ == start + interfaces_wire(self.interfaces@.take(i as int)),
            decreases self.interfaces@.len() - i,
        {
            self.interfaces[i].encode(out);
            assert(interfaces_wire(self.interfaces@.take(i + 1)) =~= interfaces_wire(
                self.interfaces@.take(i as int),
            ) + self.interfaces@[i as int].wire());
            i += 1;
            assert(out@ =~= start + interfaces_wire(self.interfaces@.take(i as int)));
        }
        assert(self.interfaces@.take(i as int) =~= self.interfaces@);
        assert(out@ =~= old(out)@ + self@.wire());
    }

    /// The record at the start of `buf`, and its length.
    pub fn decode(buf: &[u8]) -> (r: Result<(ExportedDevice, usize), ProtoError>)
        ensures
            buf@.len() < 312 ==> r == Err::<(ExportedDevice, usize), ProtoError>(
                ProtoError::ShortRead { need: 312, got: buf@.len() as usize },
            ),
            312 <= buf@.len() < DeviceRecord::parsed_len(buf@) ==> r == Err::<
                (ExportedDevice, usize),
                ProtoError,
            >(
                ProtoError::ShortRead {
                    need: DeviceRecord::parsed_len(buf@) as usize,
                    got: buf@.len() as usize,
                },
            ),
            312 <= buf@.len() && DeviceRecord::parsed_len(buf@) <= buf@.len() ==> (r matches Ok((
                d,
                n,
            )) && d@ == DeviceRecord::parse(buf@) && n == DeviceRecord::parsed_len(buf@)),
    {
        if buf.len() < Self::HEADER_SIZE {
            return Err(ProtoError::ShortRead { need: Self::HEADER_SIZE, got: buf.len() });
        }
        let path: String = read_fixed_str(&buf[0..256]);
        let busid: String = read_fixed_str(&buf[256..288]);
        let mut o: usize = 288;
        let busnum: u32 = read_u32(buf, &mut o);
        let devnum: u32 = read_u32(buf, &mut o);
        let speed: u32 = read_u32(buf, &mut o);
        let id_vendor: u16 = read_u16(buf, &mut o);
        let id_product: u16 = read_u16(buf, &mut o);
        let bcd_device: u16 = read_u16(buf, &mut o);
        let b_device_class: u8 = buf[o];
        let b_device_subclass: u8 = buf[o + 1];
        let b_device_protocol: u8 = buf[o + 2];
        let b_configuration_value: u8 = buf[o + 3];
        let b_num_configurations: u8 = buf[o + 4];
        let n_ifaces: usize = buf[o + 5] as usize;
        o += 6;
        let need: usize = n_ifaces * ExportedInterface::SIZE;
        if buf.len() < o + need {
            return Err(ProtoError::ShortRead { need: o + need, got: buf.len() });
        }
        let mut interfaces: Vec<ExportedInterface> = Vec::with_capacity(n_ifaces);
        let mut k: usize = 0;
        while k < n_ifaces
            invariant
                k <= n_ifaces <= 255,
                o == 312 + 4 * k,
                312 + 4 * n_ifaces <= buf@.len(),
                interfaces@ == Seq::new(
                    k as nat,
                    |i: int| ExportedInterface::parse(buf@, 312 + 4 * i),
                ),
            decreases n_ifaces - k,
        {
            let iface = ExportedInterface {
                class: buf[o],
                subclass: buf[o + 1],
                protocol: buf[o + 2],
            };
            interfaces.push(iface);
            o += ExportedInterface::SIZE;
            k += 1;
            assert(interfaces@ =~= Seq::new(
                k as nat,
                |i: int| ExportedInterface::parse(buf@, 312 + 4 * i),
            ));
        }
        let device = ExportedDevice {
            path,
            busid,
            busnum,
            devnum,
            speed,
            id_vendor,
            id_product,
            bcd_device,
            b_device_class,
            b_device_subclass,
            b_device_protocol,
            b_configuration_value,
            b_num_configurations,
            interfaces,
        };
        assert(device@ =~= DeviceRecord::parse(buf@));
        Ok((device, o))
    }
}

/// A record that its fields can hold is decoded as it was encoded, whatever
/// follows it in the buffer, and its length is known from its bytes.
pub proof fn device_round_trip(d: DeviceRecord, rest: Seq<u8>)
    requires
        d.representable(),
    ensures
        d.header_wire().len() == 312,
        DeviceRecord::parsed_len(d.wire() + rest) == d.wire().len(),
        DeviceRecord::parse(d.wire() + rest) == d,
{
    let s = d.wire() + rest;
    let numbers = d.numbers_wire();
    crate::text::fixed_str_round_trip(d.path, 256);
    crate::text::fixed_str_round_trip(d.busid, 32);
    assert(numbers.len() == 24);
    assert(s.subrange(0, 256) =~= crate::text::fixed_str(d.path, 256));
    assert(s.subrange(256, 288) =~= crate::text::fixed_str(d.busid, 32));
    assert(s.subrange(288, 312) =~= numbers);
    assert forall|i: int| 0 <= i < 24 implies #[trigger] numbers[i] == s[288 + i] by {
        assert(s.subrange(288, 312)[i] == s[288 + i]);
    }
    assert(s.subrange(288, 292) =~= crate::wire::be32(d.busnum));
    assert(s.subrange(292, 296) =~= crate::wire::be32(d.devnum));
    assert(s.subrange(296, 300) =~= crate::wire::be32(d.speed));
    assert(s.subrange(300, 302) =~= crate::wire::be16(d.id_vendor));
    assert(s.subrange(302, 304) =~= crate::wire::be16(d.id_product));
    assert(s.subrange(304, 306) =~= crate::wire::be16(d.bcd_device));
    crate::wire::be32_reads_back(s, 288, d.busnum);
    crate::wire::be32_reads_back(s, 292, d.devnum);
    crate::wire::be32_reads_back(s, 296, d.speed);
    crate::wire::be16_reads_back(s, 300, d.id_vendor);
    crate::wire::be16_reads_back(s, 302, d.id_product);
    crate::wire::be16_reads_back(s, 304, d.bcd_device);
    assert(numbers[18] == d.b_device_class);
    assert(numbers[19] == d.b_device_subclass);
    assert(numbers[20] == d.b_device_protocol);
    assert(numbers[21] == d.b_configuration_value);
    assert(numbers[22] == d.b_num_configurations);
    assert(numbers[23] == d.interface_count());
    let p = DeviceRecord::parse(s);
    assert forall|i: int| 0 <= i < d.interfaces.len() implies #[trigger] p.interfaces[i]
        == d.interfaces[i] by {
        let w = interfaces_wire(d.interfaces);
        assert(s[312 + 4 * i] == w[4 * i]);
        assert(s[312 + 4 * i + 1] == w[4 * i + 1]);
        assert(s[312 + 4 * i + 2] == w[4 * i + 2]);
    }
    assert(p =~= d);
}

/// The status of a refused import.
pub const OP_STATUS_ERROR: u32 = 1;

/// The size of the bus identifier that follows the header of an import request.
pub const BUSID_SIZE: usize = 32;

/// The bus identifier that an import request asks for.
pub fn decode_req_import_busid(buf: &[u8]) -> (r: Result<String, ProtoError>)
    ensures
        buf@.len() < 32 ==> r == Err::<String, ProtoError>(
            ProtoError::ShortRead { need: 32, got: buf@.len() as usize },
        ),
        buf@.len() >= 32 ==> (r matches Ok(busid) && busid@ == crate::text::fixed_str_text(
            buf@.subrange(0, 32),
        ) && !busid@.contains('\0')),
{
    if buf.len() < BUSID_SIZE {
        return Err(ProtoError::ShortRead { need: BUSID_SIZE, got: buf.len() });
    }
    Ok(read_fixed_str(&buf[0..32]))
}

/// A client that asks for a busid that fits its field is asked about that busid.
pub proof fn import_busid_round_trip(busid: Seq<char>, rest: Seq<u8>)
    requires
        crate::text::fits(busid, 32),
    ensures
        crate::text::fixed_str_text((crate::text::fixed_str(busid, 32) + rest).subrange(0, 32))
            == busid,
{
    crate::text::fixed_str_round_trip(busid, 32);
    assert((crate::text::fixed_str(busid, 32) + rest).subrange(0, 32) =~= crate::text::fixed_str(
        busid,
        32,
    ));
}

/// The bytes of a granted import: the header, then the fixed fields of the
/// device. Its interfaces are counted there and do not follow.
pub open spec fn import_ok_wire(d: DeviceRecord) -> Seq<u8> {
    OpHeader { version: USBIP_VERSION, code: OP_REP_IMPORT, status: 0 }.wire() + d.header_wire()
}

/// The bytes of a refused import: the header alone.
pub open spec fn import_err_wire() -> Seq<u8> {
    OpHeader { version: USBIP_VERSION, code: OP_REP_IMPORT, status: OP_STATUS_ERROR }.wire()
}

/// Appends the reply that grants an import of `device`.
pub fn encode_rep_import_ok(out: &mut Vec<u8>, device: &ExportedDevice)
    ensures
        final(out)@ == old(out)@ + import_ok_wire(device@),
{
    OpHeader::new(OP_REP_IMPORT).encode(out);
    device.encode_header(out);
    assert(out@ =~= old(out)@ + import_ok_wire(device@));
}

/// Appends the reply that refuses an import.
pub fn encode_rep_import_err(out: &mut Vec<u8>)
    ensures
        final(out)@ == old(out)@ + import_err_wire(),
{
    let header = OpHeader {
        version: USBIP_VERSION,
        code: OP_REP_IMPORT,
        status: OP_STATUS_ERROR,
    };
    header.encode(out);
}

/// The bytes of device records, one after the other.
pub open spec fn records_wire(list: Seq<DeviceRecord>) -> Seq<u8>
    decreases list.len(),
{
    if list.len() == 0 {
        Seq::empty()
    } else {
        list[0].wire() + records_wire(list.drop_first())
    }
}

/// The contents of each device of `list`.
pub open spec fn records(list: Seq<ExportedDevice>) -> Seq<DeviceRecord> {
    list.map_values(|d: ExportedDevice| d@)
}

/// The number of devices of a list as 32 bits hold it.
pub open spec fn device_count(len: nat) -> u32 {
    if len <= u32::MAX {
        len as u32
    } else {
        u32::MAX
    }
}

/// The bytes of a device list: the header, the number of devices, the devices.
pub open spec fn devlist_wire(list: Seq<DeviceRecord>) -> Seq<u8> {
    OpHeader { version: USBIP_VERSION, code: OP_REP_DEVLIST, status: 0 }.wire()
        + crate::wire::be32(device_count(list.len())) + records_wire(list)
}

proof fn records_wire_push(list: Seq<DeviceRecord>, d: DeviceRecord)
    ensures
        records_wire(list.push(d)) == records_wire(list) + d.wire(),
    decreases list.len(),
{
    reveal_with_fuel(records_wire, 2);
    if list.len() == 0 {
        assert(list.push(d).drop_first() =~= Seq::empty());
        assert(records_wire(list.push(d)) =~= d.wire());
    } else {
        records_wire_push(list.drop_first(), d);
        assert(list.push(d).drop_first() =~= list.drop_first().push(d));
        assert(records_wire(list.push(d)) =~= records_wire(list) + d.wire());
    }
}

/// The reply that lists `devices`.
pub fn encode_rep_devlist(devices: &[ExportedDevice]) -> (out: Vec<u8>)
    ensures
        out@ == devlist_wire(records(devices@)),
{
    let mut out: Vec<u8> = Vec::new();
    OpHeader::new(OP_REP_DEVLIST).encode(&mut out);
    let count: u32 = if devices.len() <= 0xffff_ffff {
        devices.len() as u32
    } else {
        u32::MAX
    };
    put_u32(&mut out, count);
    let ghost start = out@;
    let ghost all = records(devices@);
    let mut i: usize = 0;
    assert(all.take(0) =~= Seq::empty());
    assert(out@ =~= start + records_wire(all.take(0)));
    while i < devices.len()
        invariant
            i <= devices@.len(),
            all == records(devices@),
            out@ == start + records_wire(all.take(i as int)),
        decreases devices@.len() - i,
    {
        devices[i].encode(&mut out);
        proof {
            records_wire_push(all.take(i as int), all[i as int]);
            assert(all.take(i + 1) =~= all.take(i as int).push(all[i as int]));
        }
        i += 1;
        assert(out@ =~= start + records_wire(all.take(i as int)));
    }
    assert(all.take(i as int) =~= all);
    assert(out@ =~= devlist_wire(all));
    out
}

/// The `n` records that start `s`.
pub open spec fn parse_records(s: Seq<u8>, n: nat) -> Seq<DeviceRecord>
    decreases n,
{
    if n == 0 {
        Seq::empty()
    } else {
        seq![DeviceRecord::parse(s)] + parse_records(
            s.skip(DeviceRecord::parsed_len(s)),
            (n - 1) as nat,
        )
    }
}

#[verifier::spinoff_prover]
proof fn first_record_read(list: Seq<DeviceRecord>, rest: Seq<u8>)
    requires
        list.len() > 0,
        list[0].representable(),
    ensures
        ({
            let s = records_wire(list) + rest;
            &&& DeviceRecord::parse(s) == list[0]
            &&& s.skip(DeviceRecord::parsed_len(s)) == records_wire(list.drop_first()) + rest
        }),
{
    let s = records_wire(list) + rest;
    let tail = records_wire(list.drop_first()) + rest;
    assert(s =~= list[0].wire() + tail);
    device_round_trip(list[0], tail);
    assert(s.skip(list[0].wire().len() as int) =~= tail);
}

#[verifier::spinoff_prover]
proof fn records_round_trip(list: Seq<DeviceRecord>, rest: Seq<u8>)
    requires
        forall|i: int| 0 <= i < list.len() ==> (#[trigger] list[i]).representable(),
    ensures
        parse_records(records_wire(list) + rest, list.len()) == list,
    decreases list.len(),
{
    let s = records_wire(list) + rest;
    if list.len() > 0 {
        let others = list.drop_first();
        assert forall|i: int| 0 <= i < others.len() implies (
        #[trigger] others[i]).representable() by {
            assert(others[i] == list[i + 1]);
        }
        first_record_read(list, rest);
        records_round_trip(others, rest);
        assert(parse_records(s, list.len()) == seq![list[0]] + others);
        assert(seq![list[0]] + others =~= list);
    } else {
        assert(parse_records(s, 0) =~= list);
    }
}

/// A client that reads a device list finds the server's version, the reply code,
/// status zero, the number of devices, and each device as the server had it.
pub proof fn devlist_round_trip(list: Seq<DeviceRecord>)
    requires
        forall|i: int| 0 <= i < list.len() ==> (#[trigger] list[i]).representable(),
        list.len() <= u32::MAX,
    ensures
        OpHeader::parse(devlist_wire(list)) == (OpHeader {
            version: USBIP_VERSION,
            code: OP_REP_DEVLIST,
            status: 0,
        }),
        crate::wire::from_be32(devlist_wire(list), 8) == list.len(),
        parse_records(devlist_wire(list).skip(12), list.len()) == list,
{
    let s = devlist_wire(list);
    let h = OpHeader { version: USBIP_VERSION, code: OP_REP_DEVLIST, status: 0 };
    let count = crate::wire::be32(device_count(list.len()));
    op_header_round_trip(h, count + records_wire(list));
    assert(s =~= h.wire() + (count + records_wire(list)));
    assert(s.subrange(8, 12) =~= count);
    crate::wire::be32_reads_back(s, 8, device_count(list.len()));
    records_round_trip(list, Seq::empty());
    assert(s.skip(12) =~= records_wire(list) + Seq::<u8>::empty());
}

/// A client tells a granted import from a refused one by the status, and finds
/// the fixed fields of the device after the header of a granted one.
pub proof fn import_reply_round_trip(d: DeviceRecord)
    requires
        d.representable(),
    ensures
        OpHeader::parse(import_err_wire()).code == OP_REP_IMPORT,
        OpHeader::parse(import_err_wire()).status != 0,
        OpHeader::parse(import_ok_wire(d)).code == OP_REP_IMPORT,
        OpHeader::parse(import_ok_wire(d)).status == 0,
        import_ok_wire(d).len() == 320,
        DeviceRecord::parse(import_ok_wire(d).skip(8) + interfaces_wire(d.interfaces)) == d,
{
    let ok = OpHeader { version: USBIP_VERSION, code: OP_REP_IMPORT, status: 0 };
    let err = OpHeader { version: USBIP_VERSION, code: OP_REP_IMPORT, status: OP_STATUS_ERROR };
    op_header_round_trip(ok, d.header_wire());
    op_header_round_trip(err, Seq::empty());
    assert(err.wire() + Seq::<u8>::empty() =~= err.wire());
    device_round_trip(d, Seq::empty());
    assert(import_ok_wire(d).skip(8) + interfaces_wire(d.interfaces) =~= d.wire() + Seq::<
        u8,
    >::empty());
}

/// The words of a header stand at bytes 0, 2 and 4, in both directions: the version, the
/// code and the status.
pub proof fn op_header_layout(s: Seq<u8>, h: OpHeader)
    ensures
        OpHeader::parse(s).version == crate::wire::from_be16(s, 0),
        OpHeader::parse(s).code == crate::wire::from_be16(s, 2),
        OpHeader::parse(s).status == crate::wire::from_be32(s, 4),
        h.wire().len() == 8,
        crate::wire::from_be16(h.wire(), 0) == h.version,
        crate::wire::from_be16(h.wire(), 2) == h.code,
        crate::wire::from_be32(h.wire(), 4) == h.status,
{
    op_header_round_trip(h, Seq::empty());
    assert(h.wire() + Seq::<u8>::empty() =~= h.wire());
}

/// An interface is its class, subclass and protocol, in this order, and a zero byte.
pub proof fn exported_interface_layout(i: ExportedInterface, s: Seq<u8>, at: int)
    ensures
        i.wire().len() == 4,
        i.wire()[0] == i.class,
        i.wire()[1] == i.subclass,
        i.wire()[2] == i.protocol,
        i.wire()[3] == 0,
        ExportedInterface::parse(s, at).class == s[at],
        ExportedInterface::parse(s, at).subclass == s[at + 1],
        ExportedInterface::parse(s, at).protocol == s[at + 2],
{
}

/// The fields of a record stand where clients look for them. Its interfaces follow, four
/// bytes for each, as many as byte 311 says.
pub proof fn device_layout(s: Seq<u8>)
    ensures
        ({
            let d = DeviceRecord::parse(s);
            &&& d.path == crate::text::fixed_str_text(s.subrange(0, 256))
            &&& d.busid == crate::text::fixed_str_text(s.subrange(256, 288))
            &&& d.busnum == crate::wire::from_be32(s, 288)
            &&& d.devnum == crate::wire::from_be32(s, 292)
            &&& d.speed == crate::wire::from_be32(s, 296)
            &&& d.id_vendor == crate::wire::from_be16(s, 300)
            &&& d.id_product == crate::wire::from_be16(s, 302)
            &&& d.bcd_device == crate::wire::from_be16(s, 304)
            &&& d.b_device_class == s[306]
            &&& d.b_device_subclass == s[307]
            &&& d.b_device_protocol == s[308]
            &&& d.b_configuration_value == s[309]
            &&& d.b_num_configurations == s[310]
            &&& d.interfaces.len() == s[311]
            &&& forall|i: int|
                0 <= i < s[311] ==> {
                    &&& (#[trigger] d.interfaces[i]).class == s[312 + 4 * i]
                    &&& d.interfaces[i].subclass == s[313 + 4 * i]
                    &&& d.interfaces[i].protocol == s[314 + 4 * i]
                }
            &&& DeviceRecord::parsed_len(s) == 312 + 4 * s[311]
        }),
{
}

/// What a server writes of a device stands in the same places, whatever its strings are.
/// One byte counts the interfaces, up to 255, and all of them are written.
pub proof fn device_written_layout(d: DeviceRecord)
    ensures
        ({
            let s = d.wire();
            &&& s.len() == 312 + 4 * d.interfaces.len()
            &&& s.take(312) == d.header_wire()
            &&& s.subrange(0, 256) == crate::text::fixed_str(d.path, 256)
            &&& s.subrange(256, 288) == crate::text::fixed_str(d.busid, 32)
            &&& crate::wire::from_be32(s, 288) == d.busnum
            &&& crate::wire::from_be32(s, 292) == d.devnum
            &&& crate::wire::from_be32(s, 296) == d.speed
            &&& crate::wire::from_be16(s, 300) == d.id_vendor
            &&& crate::wire::from_be16(s, 302) == d.id_product
            &&& crate::wire::from_be16(s, 304) == d.bcd_device
            &&& s[306] == d.b_device_class
            &&& s[307] == d.b_device_subclass
            &&& s[308] == d.b_device_protocol
            &&& s[309] == d.b_configuration_value
            &&& s[310] == d.b_num_configurations
            &&& d.interfaces.len() <= 255 ==> s[311] == d.interfaces.len()
            &&& d.interfaces.len() > 255 ==> s[311] == 255
            &&& forall|i: int|
                0 <= i < d.interfaces.len() ==> {
                    &&& s[312 + 4 * i] == (#[trigger] d.interfaces[i]).class
                    &&& s[313 + 4 * i] == d.interfaces[i].subclass
                    &&& s[314 + 4 * i] == d.interfaces[i].protocol
                    &&& s[315 + 4 * i] == 0
                }
        }),
{
    let s = d.wire();
    let n = d.numbers_wire();
    let w = interfaces_wire(d.interfaces);
    assert(crate::text::fixed_str(d.path, 256).len() == 256);
    assert(crate::text::fixed_str(d.busid, 32).len() == 32);
    assert(n.len() == 24);
    assert(s.take(312) =~= d.header_wire());
    assert(s.subrange(0, 256) =~= crate::text::fixed_str(d.path, 256));
    assert(s.subrange(256, 288) =~= crate::text::fixed_str(d.busid, 32));
    assert(s.subrange(288, 312) =~= n);
    assert forall|i: int| 0 <= i < 24 implies s[288 + i] == #[trigger] n[i] by {
        assert(s.subrange(288, 312)[i] == s[288 + i]);
    }
    assert(s.subrange(288, 292) =~= crate::wire::be32(d.busnum));
    assert(s.subrange(292, 296) =~= crate::wire::be32(d.devnum));
    assert(s.subrange(296, 300) =~= crate::wire::be32(d.speed));
    assert(s.subrange(300, 302) =~= crate::wire::be16(d.id_vendor));
    assert(s.subrange(302, 304) =~= crate::wire::be16(d.id_product));
    assert(s.subrange(304, 306) =~= crate::wire::be16(d.bcd_device));
    crate::wire::be32_reads_back(s, 288, d.busnum);
    crate::wire::be32_reads_back(s, 292, d.devnum);
    crate::wire::be32_reads_back(s, 296, d.speed);
    crate::wire::be16_reads_back(s, 300, d.id_vendor);
    crate::wire::be16_reads_back(s, 302, d.id_product);
    crate::wire::be16_reads_back(s, 304, d.bcd_device);
    assert(n[18] == d.b_device_class && n[19] == d.b_device_subclass && n[20]
        == d.b_device_protocol && n[21] == d.b_configuration_value && n[22]
        == d.b_num_configurations && n[23] == d.interface_count());
    assert forall|i: int| 0 <= i < d.interfaces.len() implies s[312 + 4 * i] == (
    #[trigger] d.interfaces[i]).class && s[313 + 4 * i] == d.interfaces[i].subclass && s[314 + 4
        * i] == d.interfaces[i].protocol && s[315 + 4 * i] == 0 by {
        assert(s[312 + 4 * i] == w[4 * i]);
        assert(s[313 + 4 * i] == w[4 * i + 1]);
        assert(s[314 + 4 * i] == w[4 * i + 2]);
        assert(s[315 + 4 * i] == w[4 * i + 3]);
    }
}

/// A device list starts with version 0x0111, code 5 and status zero, and the number of
/// devices. The records follow, each where the one before it ends.
pub proof fn devlist_layout(list: Seq<DeviceRecord>, d: DeviceRecord)
    ensures
        crate::wire::from_be16(devlist_wire(list), 0) == 0x0111,
        crate::wire::from_be16(devlist_wire(list), 2) == 0x0005,
        crate::wire::from_be32(devlist_wire(list), 4) == 0,
        list.len() <= u32::MAX ==> crate::wire::from_be32(devlist_wire(list), 8) == list.len(),
        devlist_wire(Seq::empty()).len() == 12,
        devlist_wire(list.push(d)).skip(12) == devlist_wire(list).skip(12) + d.wire(),
{
    let s = devlist_wire(list);
    let h = OpHeader { version: USBIP_VERSION, code: OP_REP_DEVLIST, status: 0 };
    let count = crate::wire::be32(device_count(list.len()));
    op_header_round_trip(h, count + records_wire(list));
    assert(s =~= h.wire() + (count + records_wire(list)));
    assert(s.subrange(8, 12) =~= count);
    crate::wire::be32_reads_back(s, 8, device_count(list.len()));
    records_wire_push(list, d);
    assert(s.skip(12) =~= records_wire(list));
    assert(devlist_wire(list.push(d)).skip(12) =~= records_wire(list.push(d)));
}

/// A reply to an import starts with version 0x0111 and code 3. Where it is granted the
/// status is zero and 312 bytes follow, which are those that start the record of the
/// device in a list. Where it is refused the status is 1 and nothing follows.
pub proof fn import_reply_layout(d: DeviceRecord)
    ensures
        crate::wire::from_be16(import_ok_wire(d), 0) == 0x0111,
        crate::wire::from_be16(import_ok_wire(d), 2) == 0x0003,
        crate::wire::from_be32(import_ok_wire(d), 4) == 0,
        import_ok_wire(d).len() == 320,
        import_ok_wire(d).skip(8) == d.wire().take(312),
        crate::wire::from_be16(import_err_wire(), 0) == 0x0111,
        crate::wire::from_be16(import_err_wire(), 2) == 0x0003,
        crate::wire::from_be32(import_err_wire(), 4) == 1,
        import_err_wire().len() == 8,
{
    let ok = OpHeader { version: USBIP_VERSION, code: OP_REP_IMPORT, status: 0 };
    let err = OpHeader { version: USBIP_VERSION, code: OP_REP_IMPORT, status: OP_STATUS_ERROR };
    op_header_round_trip(ok, d.header_wire());
    op_header_layout(import_err_wire(), err);
    device_written_layout(d);
    assert(d.header_wire().len() == 312);
    assert(import_ok_wire(d).skip(8) =~= d.header_wire());
}

/// The contents of a device are its fields.
pub proof fn exported_device_view(d: ExportedDevice)
    ensures
        d@.path == d.path@,
        d@.busid == d.busid@,
        d@.busnum == d.busnum,
        d@.devnum == d.devnum,
        d@.speed == d.speed,
        d@.id_vendor == d.id_vendor,
        d@.id_product == d.id_product,
        d@.bcd_device == d.bcd_device,
        d@.b_device_class == d.b_device_class,
        d@.b_device_subclass == d.b_device_subclass,
        d@.b_device_protocol == d.b_device_protocol,
        d@.b_configuration_value == d.b_configuration_value,
        d@.b_num_configurations == d.b_num_configurations,
        d@.interfaces == d.interfaces@,
{
}

/// The version and the codes have the numbers of the protocol: a reply has the code of its
/// request without the highest bit.
pub proof fn op_numbers_are()
    ensures
        USBIP_VERSION == 0x0111,
        OP_REQ_DEVLIST == 0x8005,
        OP_REQ_IMPORT == 0x8003,
        OP_REP_DEVLIST == OP_REQ_DEVLIST - 0x8000,
        OP_REP_IMPORT == OP_REQ_IMPORT - 0x8000,
        OP_STATUS_ERROR == 1,
        BUSID_SIZE == 32,
{
}

} // verus!
