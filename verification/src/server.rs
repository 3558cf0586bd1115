//! The first phase of a connection: a client asks for the list of devices, or for one
//! of them.

use vstd::prelude::*;

use crate::error::ProtoError;
use crate::host::{copy_interfaces, copy_opt, to_exported, UsbDevice, UsbRecord};
use crate::op::{
    encode_rep_devlist, encode_rep_import_err, encode_rep_import_ok, ExportedDevice,
    ExportedInterface, OpHeader, OP_REQ_DEVLIST, OP_REQ_IMPORT, USBIP_VERSION,
};
use crate::policy::{ImportLocks, Policy};

verus! {

/// What to do with a request.
#[derive(Debug)]
pub enum Reply {
    /// Send these bytes and close the connection.
    Bytes(Vec<u8>),
    /// Read the bus identifier that follows and begin the import.
    Import,
    /// Close the connection: there is no such operation.
    Unsupported(u16),
}

/// The contents of each device of `devices`.
pub open spec fn usb_records(devices: Seq<UsbDevice>) -> Seq<UsbRecord> {
    devices.map_values(|d: UsbDevice| d@)
}

/// The devices of `list` that `policy` exports, in order.
pub open spec fn exported(policy: Policy, list: Seq<UsbRecord>) -> Seq<
    UsbRecord,
> {
    list.filter(|d: UsbRecord| policy.exports(d))
}

/// The bytes of the device list that a client is sent.
pub open spec fn devlist_reply(policy: Policy, list: Seq<UsbRecord>) -> Seq<u8> {
    crate::op::devlist_wire(
        exported(policy, list).map_values(
            |d: UsbRecord| crate::host::exported_record(d),
        ),
    )
}

/// The devices of `devices` that `policy` exports, as they are exported.
fn exported_devices(policy: &Policy, devices: &[UsbDevice]) -> (out: Vec<ExportedDevice>)
    ensures
        crate::op::records(out@) == exported(*policy, usb_records(devices@)).map_values(
            |d: UsbRecord| crate::host::exported_record(d),
        ),
{
    let ghost all = usb_records(devices@);
    let ghost as_exported = |d: UsbRecord| crate::host::exported_record(d);
    let mut out: Vec<ExportedDevice> = Vec::new();
    let mut i: usize = 0;
    proof {
        reveal(Seq::filter);
        assert(crate::op::records(out@) =~= exported(*policy, all.take(0)).map_values(as_exported));
    }
    while i < devices.len()
        invariant
            i <= devices@.len(),
            all == usb_records(devices@),
            as_exported == (|d: UsbRecord| crate::host::exported_record(d)),
            crate::op::records(out@) == exported(*policy, all.take(i as int)).map_values(
                as_exported,
            ),
        decreases devices@.len() - i,
    {
        let ghost before = exported(*policy, all.take(i as int));
        let ghost so_far = out@;
        proof {
            reveal(Seq::filter);
            assert(all.take(i + 1).drop_last() =~= all.take(i as int));
            assert(all.take(i + 1).last() == devices@[i as int]@);
        }
        if policy.permits_export(&devices[i]) {
            out.push(to_exported(&devices[i]));
            assert(exported(*policy, all.take(i + 1)) == before.push(devices@[i as int]@));
            assert(crate::op::records(out@) =~= crate::op::records(so_far).push(
                as_exported(devices@[i as int]@),
            ));
            assert(before.push(devices@[i as int]@).map_values(as_exported) =~= before.map_values(
                as_exported,
            ).push(as_exported(devices@[i as int]@)));
        }
        i += 1;
    }
    assert(all.take(i as int) =~= all);
    out
}

/// What to do with the request `header`, where the host has `devices`.
pub fn handle_op(header: &OpHeader, policy: &Policy, devices: &[UsbDevice]) -> (r: Result<
    Reply,
    ProtoError,
>)
    ensures
        header.version != 0x0111 <==> r is Err,
        header.version == 0x0111 ==> (header.code == 0x8005 <==> r matches Ok(Reply::Bytes(_))),
        header.version == 0x0111 ==> (header.code == 0x8003 <==> r matches Ok(Reply::Import)),
        header.version != USBIP_VERSION ==> r == Err::<Reply, ProtoError>(
            ProtoError::UnsupportedVersion(header.version),
        ),
        header.version == USBIP_VERSION && header.code == OP_REQ_DEVLIST ==> (r matches Ok(
            Reply::Bytes(bytes),
        ) && bytes@ == devlist_reply(*policy, usb_records(devices@))),
        header.version == USBIP_VERSION && header.code == OP_REQ_IMPORT ==> r == Ok::<
            Reply,
            ProtoError,
        >(Reply::Import),
        header.version == USBIP_VERSION && header.code != OP_REQ_DEVLIST && header.code
            != OP_REQ_IMPORT ==> r == Ok::<Reply, ProtoError>(Reply::Unsupported(header.code)),
{
    if header.version != USBIP_VERSION {
        return Err(ProtoError::UnsupportedVersion(header.version));
    }
    match header.code {
        OP_REQ_DEVLIST => {
            let list: Vec<ExportedDevice> = exported_devices(policy, devices);
            Ok(Reply::Bytes(encode_rep_devlist(list.as_slice())))
        },
        OP_REQ_IMPORT => Ok(Reply::Import),
        code => Ok(Reply::Unsupported(code)),
    }
}

/// Why an import is refused. The client is told only that it is.
#[derive(Debug, Clone, Copy, PartialEq, Eq, Structural)]
pub enum ImportRefusal {
    /// No exported device has the bus identifier.
    NotExported,
    /// A client has the device.
    Busy,
}

/// The first device of `list` that `policy` exports and that has the bus identifier
/// `busid`.
pub open spec fn find_exported(
    policy: Policy,
    list: Seq<UsbRecord>,
    busid: Seq<char>,
) -> Option<int>
    decreases list.len(),
{
    if list.len() == 0 {
        None
    } else {
        match find_exported(policy, list.drop_last(), busid) {
            Some(i) => Some(i),
            None => if policy.exports(list.last()) && list.last().busid == busid {
                Some(list.len() - 1)
            } else {
                None
            },
        }
    }
}

/// Whether an import of `busid` is granted, and of which device of `list`, while the
/// devices in `locked` are imported.
pub open spec fn import_decision(
    policy: Policy,
    list: Seq<UsbRecord>,
    locked: Set<Seq<char>>,
    busid: Seq<char>,
) -> Result<int, ImportRefusal> {
    match find_exported(policy, list, busid) {
        None => Err(ImportRefusal::NotExported),
        Some(i) => if locked.contains(busid) {
            Err(ImportRefusal::Busy)
        } else {
            Ok(i)
        },
    }
}

/// The devices that are imported after that decision.
pub open spec fn locked_after(
    policy: Policy,
    list: Seq<UsbRecord>,
    locked: Set<Seq<char>>,
    busid: Seq<char>,
) -> Set<Seq<char>> {
    if import_decision(policy, list, locked, busid) is Ok {
        locked.insert(busid)
    } else {
        locked
    }
}

/// What an opened device says of itself.
#[derive(Debug)]
pub struct DescriptorSnapshot {
    pub busid: String,
    pub busnum: u32,
    pub devnum: u32,
    pub configuration_value: u8,
    pub num_configurations: u8,
    pub interfaces: Vec<ExportedInterface>,
}

/// The device `d` with what it said of itself when it was opened. Its other fields,
/// and its interfaces if it named none, are as they were reported before.
pub open spec fn with_snapshot(
    d: UsbRecord,
    snap: DescriptorSnapshot,
) -> UsbRecord {
    UsbRecord {
        busid: snap.busid@,
        busnum: snap.busnum,
        devnum: snap.devnum,
        configuration_value: snap.configuration_value,
        num_configurations: snap.num_configurations,
        interfaces: if snap.interfaces@.len() == 0 {
            d.interfaces
        } else {
            snap.interfaces@
        },
        ..d
    }
}

/// What all connections share: the policy, and the devices that are imported.
#[derive(Debug)]
pub struct Server {
    pub policy: Policy,
    pub locks: ImportLocks,
}

impl Server {
    /// A server that no client has imported anything from.
    pub fn new(policy: Policy) -> (s: Server)
        ensures
            s.policy == policy,
            s.locks@ == Set::<Seq<char>>::empty(),
    {
        Server { policy, locks: ImportLocks::new() }
    }

    /// A client asks for the device `busid`, where the host has `devices`. If it is
    /// granted one, that device is to be opened, and nobody else can import it.
    pub fn begin_import(&mut self, devices: &[UsbDevice], busid: &String) -> (r: Result<
        usize,
        ImportRefusal,
    >)
        ensures
            final(self).policy == old(self).policy,
            final(self).locks@ == locked_after(
                old(self).policy,
                usb_records(devices@),
                old(self).locks@,
                busid@,
            ),
            match import_decision(
                old(self).policy,
                usb_records(devices@),
                old(self).locks@,
                busid@,
            ) {
                Ok(i) => r matches Ok(n) && n == i && 0 <= i < devices@.len(),
                Err(e) => r == Err::<usize, ImportRefusal>(e),
            },
    {
        let ghost all = usb_records(devices@);
        let mut i: usize = 0;
        while i < devices.len()
            invariant
                i <= devices@.len(),
                all == usb_records(devices@),
                *self == *old(self),
                find_exported(self.policy, all.take(i as int), busid@) is None,
            decreases devices@.len() - i,
        {
            assert(all.take(i + 1).drop_last() =~= all.take(i as int));
            assert(all.take(i + 1).last() == devices@[i as int]@);
            if devices[i].busid == *busid && self.policy.permits_export(&devices[i]) {
                proof {
                    found_in_prefix(self.policy, all, busid@, i + 1);
                    assert(find_exported(self.policy, all.take(i + 1), busid@) == Some(i as int));
                }
                if self.locks.is_held(busid) {
                    return Err(ImportRefusal::Busy);
                }
                self.locks.acquire(busid);
                return Ok(i);
            }
            i += 1;
        }
        assert(all.take(i as int) =~= all);
        Err(ImportRefusal::NotExported)
    }

    /// The device `busid`, whose import was granted, could not be opened: it is free
    /// again, and this is the reply.
    pub fn open_failed(&mut self, busid: &String) -> (out: Vec<u8>)
        ensures
            final(self).policy == old(self).policy,
            final(self).locks@ == old(self).locks@.remove(busid@),
            out@ == crate::op::import_err_wire(),
    {
        self.locks.release(busid);
        refused()
    }

    /// The session of the client that has imported the device `busid` is over.
    pub fn session_ended(&mut self, busid: &String)
        ensures
            final(self).policy == old(self).policy,
            final(self).locks@ == old(self).locks@.remove(busid@),
    {
        self.locks.release(busid);
    }
}

/// The reply that refuses an import.
pub fn refused() -> (out: Vec<u8>)
    ensures
        out@ == crate::op::import_err_wire(),
{
    let mut out: Vec<u8> = Vec::new();
    encode_rep_import_err(&mut out);
    assert(out@ =~= crate::op::import_err_wire());
    out
}

/// The device `d` was opened and said `snap` of itself: the device as it is imported,
/// and the reply that grants it.
pub fn granted(d: &UsbDevice, snap: &DescriptorSnapshot) -> (r: (UsbDevice, Vec<u8>))
    ensures
        r.0@ == with_snapshot(d@, *snap),
        r.0.busid@ == snap.busid@,
        r.0.busnum == snap.busnum,
        r.0.devnum == snap.devnum,
        r.0.configuration_value == snap.configuration_value,
        r.0.num_configurations == snap.num_configurations,
        r.0.vendor_id == d.vendor_id,
        r.0.product_id == d.product_id,
        r.0.speed == d.speed,
        r.0.class == d.class,
        r.1@ == crate::op::import_ok_wire(crate::host::exported_record(with_snapshot(d@, *snap))),
{
    let interfaces: Vec<ExportedInterface> = if snap.interfaces.len() == 0 {
        copy_interfaces(&d.interfaces)
    } else {
        copy_interfaces(&snap.interfaces)
    };
    let merged = UsbDevice {
        busid: snap.busid.clone(),
        busnum: snap.busnum,
        devnum: snap.devnum,
        speed: d.speed,
        vendor_id: d.vendor_id,
        product_id: d.product_id,
        device_version: d.device_version,
        class: d.class,
        subclass: d.subclass,
        protocol: d.protocol,
        configuration_value: snap.configuration_value,
        num_configurations: snap.num_configurations,
        interfaces,
        manufacturer: copy_opt(&d.manufacturer),
        product: copy_opt(&d.product),
        serial: copy_opt(&d.serial),
    };
    assert(merged@ =~= with_snapshot(d@, *snap));
    let mut out: Vec<u8> = Vec::new();
    let device: ExportedDevice = to_exported(&merged);
    encode_rep_import_ok(&mut out, &device);
    assert(out@ =~= crate::op::import_ok_wire(device@));
    (merged, out)
}

/// What is found at the start of a list is found in the list.
proof fn found_in_prefix(
    policy: Policy,
    list: Seq<UsbRecord>,
    busid: Seq<char>,
    n: int,
)
    requires
        0 <= n <= list.len(),
    ensures
        find_exported(policy, list.take(n), busid) is Some ==> find_exported(policy, list, busid)
            == find_exported(policy, list.take(n), busid),
    decreases list.len() - n,
{
    if n < list.len() {
        assert(list.take(n + 1).drop_last() =~= list.take(n));
        found_in_prefix(policy, list, busid, n + 1);
    } else {
        assert(list.take(n) =~= list);
    }
}

/// What is found is an exported device with the bus identifier, and the first one.
pub proof fn find_exported_is_first(
    policy: Policy,
    list: Seq<UsbRecord>,
    busid: Seq<char>,
)
    ensures
        match find_exported(policy, list, busid) {
            Some(i) => {
                &&& 0 <= i < list.len()
                &&& policy.exports(list[i])
                &&& list[i].busid == busid
                &&& forall|k: int|
                    0 <= k < i ==> !(policy.exports(#[trigger] list[k]) && list[k].busid == busid)
            },
            None => forall|k: int|
                0 <= k < list.len() ==> !(policy.exports(#[trigger] list[k]) && list[k].busid
                    == busid),
        },
    decreases list.len(),
{
    if list.len() > 0 {
        let before = list.drop_last();
        find_exported_is_first(policy, before, busid);
        assert forall|k: int| 0 <= k < before.len() implies before[k] == #[trigger] list[k] by {}
    }
}

proof fn exported_member(
    policy: Policy,
    list: Seq<UsbRecord>,
    d: UsbRecord,
)
    ensures
        exported(policy, list).contains(d) <==> list.contains(d) && policy.exports(d),
    decreases list.len(),
{
    reveal(Seq::filter);
    if list.len() > 0 {
        let before = list.drop_last();
        let kept = exported(policy, before);
        exported_member(policy, before, d);
        assert(list =~= before.push(list.last()));
        assert(list.contains(d) <==> before.contains(d) || d == list.last()) by {
            if before.contains(d) {
                let i = before.index_of(d);
                assert(list[i] == d);
            }
            if d == list.last() {
                assert(list[list.len() - 1] == d);
            }
            if list.contains(d) {
                let i = list.index_of(d);
                assert(i == list.len() - 1 || before[i] == d);
            }
        }
        if policy.exports(list.last()) {
            assert(exported(policy, list) == kept.push(list.last()));
            assert(kept.push(list.last()).contains(d) <==> kept.contains(d) || d == list.last())
                by {
                let more = kept.push(list.last());
                if kept.contains(d) {
                    let i = kept.index_of(d);
                    assert(more[i] == d);
                }
                assert(more[kept.len() as int] == list.last());
                if more.contains(d) {
                    let i = more.index_of(d);
                    assert(i == kept.len() || kept[i] == d);
                }
            }
        }
    }
}

/// The list that clients see holds the devices that the policy exports and no others.
pub proof fn devlist_shows_exported(policy: Policy, list: Seq<UsbRecord>)
    ensures
        forall|d: UsbRecord| #[trigger]
            exported(policy, list).contains(d) <==> list.contains(d) && policy.exports(d),
{
    assert forall|d: UsbRecord| #[trigger]
        exported(policy, list).contains(d) <==> list.contains(d) && policy.exports(d) by {
        exported_member(policy, list, d);
    }
}

/// A bus identifier can be imported, while nobody has it, if and only if the list that
/// clients see holds a device with it.
pub proof fn listed_is_importable(
    policy: Policy,
    list: Seq<UsbRecord>,
    locked: Set<Seq<char>>,
    busid: Seq<char>,
)
    requires
        !locked.contains(busid),
    ensures
        import_decision(policy, list, locked, busid) is Ok <==> exists|d: UsbRecord|
            #[trigger] exported(policy, list).contains(d) && d.busid == busid,
{
    find_exported_is_first(policy, list, busid);
    devlist_shows_exported(policy, list);
    match find_exported(policy, list, busid) {
        Some(i) => {
            assert(list.contains(list[i]));
            assert(exported(policy, list).contains(list[i]));
        },
        None => {
            if exists|d: UsbRecord| #[trigger]
                exported(policy, list).contains(d) && d.busid == busid {
                let d = choose|d: UsbRecord| #[trigger]
                    exported(policy, list).contains(d) && d.busid == busid;
                let k = list.index_of(d);
                assert(policy.exports(list[k]));
            }
        },
    }
}

/// Without a word of the operator no device is listed and none can be imported.
pub proof fn deny_all_exports_nothing(
    list: Seq<UsbRecord>,
    locked: Set<Seq<char>>,
    busid: Seq<char>,
)
    ensures
        exported(Policy::DenyAll, list).len() == 0,
        import_decision(Policy::DenyAll, list, locked, busid) == Err::<int, ImportRefusal>(
            ImportRefusal::NotExported,
        ),
{
    let out = exported(Policy::DenyAll, list);
    if out.len() > 0 {
        exported_member(Policy::DenyAll, list, out[0]);
        assert(out.contains(out[0]));
    }
    find_exported_is_first(Policy::DenyAll, list, busid);
}

/// Under any policy no hub is listed, and no import opens one.
pub proof fn hubs_stay_home(
    policy: Policy,
    list: Seq<UsbRecord>,
    locked: Set<Seq<char>>,
    busid: Seq<char>,
)
    ensures
        forall|d: UsbRecord| #[trigger]
            exported(policy, list).contains(d) ==> d.class != crate::policy::USB_CLASS_HUB,
        import_decision(policy, list, locked, busid) matches Ok(i) ==> list[i].class
            != crate::policy::USB_CLASS_HUB,
{
    devlist_shows_exported(policy, list);
    find_exported_is_first(policy, list, busid);
}

/// While a client has a device, every other import of it is refused, whatever the host
/// has by then. Imports of other devices are decided as before. When the session
/// ends, everything is as it was before the import.
pub proof fn import_is_exclusive(
    policy: Policy,
    list: Seq<UsbRecord>,
    later: Seq<UsbRecord>,
    locked: Set<Seq<char>>,
    busid: Seq<char>,
)
    requires
        import_decision(policy, list, locked, busid) is Ok,
    ensures
        ({
            let held = locked_after(policy, list, locked, busid);
            &&& import_decision(policy, later, held, busid) is Err
            &&& locked_after(policy, later, held, busid) == held
            &&& forall|other: Seq<char>|
                other != busid ==> #[trigger] import_decision(policy, later, held, other)
                    == import_decision(policy, later, locked, other)
            &&& held.remove(busid) == locked
        }),
{
    let held = locked_after(policy, list, locked, busid);
    assert(held.remove(busid) =~= locked);
}

/// The client names the device in its requests by the numbers that the reply to its
/// import tells it, and these are the numbers that its session goes by.
pub proof fn imported_device_id(d: UsbRecord)
    ensures
        ({
            let told = crate::op::DeviceRecord::parse(
                crate::op::import_ok_wire(crate::host::exported_record(d)).skip(8),
            );
            crate::session::device_id(told.busnum, told.devnum) == crate::session::device_id(
                d.busnum,
                d.devnum,
            )
        }),
{
    let r = crate::host::exported_record(d);
    let s = crate::op::import_ok_wire(r).skip(8);
    assert(s =~= r.header_wire());
    assert(crate::text::fixed_str(r.path, 256).len() == 256);
    assert(crate::text::fixed_str(r.busid, 32).len() == 32);
    assert(s.subrange(288, 292) =~= crate::wire::be32(d.busnum));
    assert(s.subrange(292, 296) =~= crate::wire::be32(d.devnum));
    crate::wire::be32_reads_back(s, 288, d.busnum);
    crate::wire::be32_reads_back(s, 292, d.devnum);
}

/// The devices of two lists that are exported, one after the other, are those of both
/// together, and of one device that device or nothing: none is left out, moved, repeated
/// or changed.
pub proof fn exported_in_order(policy: Policy, a: Seq<UsbRecord>, b: Seq<UsbRecord>, d: UsbRecord)
    ensures
        exported(policy, a + b) == exported(policy, a) + exported(policy, b),
        policy.exports(d) ==> exported(policy, seq![d]) == seq![d],
        !policy.exports(d) ==> exported(policy, seq![d]) == Seq::<UsbRecord>::empty(),
        exported(policy, Seq::empty()) == Seq::<UsbRecord>::empty(),
{
    Seq::filter_distributes_over_add(a, b, |d: UsbRecord| policy.exports(d));
    reveal_with_fuel(Seq::filter, 2);
    assert(seq![d].drop_last() =~= Seq::empty());
    assert(exported(policy, Seq::empty()) =~= Seq::<UsbRecord>::empty());
    if policy.exports(d) {
        assert(exported(policy, seq![d]) =~= seq![d]);
    } else {
        assert(exported(policy, seq![d]) =~= Seq::<UsbRecord>::empty());
    }
}

/// Whatever its class is, a device that is no hub and that the operator allows is listed,
/// and while nobody has it, it can be imported.
pub proof fn allowed_devices_are_served(
    policy: Policy,
    list: Seq<UsbRecord>,
    locked: Set<Seq<char>>,
    i: int,
)
    requires
        0 <= i < list.len(),
        list[i].class != 9,
        policy is AllowAll || (policy matches Policy::AllowList(filters) && exists|k: int|
            0 <= k < filters@.len() && (#[trigger] filters@[k]).vendor_id == list[i].vendor_id
                && filters@[k].product_id == list[i].product_id),
    ensures
        exported(policy, list).contains(list[i]),
        !locked.contains(list[i].busid) ==> (import_decision(policy, list, locked, list[i].busid)
            matches Ok(k) && 0 <= k <= i && list[k].busid == list[i].busid && list[k].class != 9),
        locked.contains(list[i].busid) ==> import_decision(policy, list, locked, list[i].busid)
            == Err::<int, ImportRefusal>(ImportRefusal::Busy),
{
    if let Policy::AllowList(filters) = policy {
        crate::policy::policies_export(filters, list[i]);
    }
    assert(policy.exports(list[i]));
    assert(list.contains(list[i]));
    exported_member(policy, list, list[i]);
    find_exported_is_first(policy, list, list[i].busid);
}

/// An import is granted of the first exported device with the bus identifier, and of no
/// other, while nobody has it. It is refused as busy if there is such a device and
/// somebody has it, and as not exported if there is none. Only a granted import changes
/// what is locked, and it locks that device alone.
pub proof fn import_decision_cases(
    policy: Policy,
    list: Seq<UsbRecord>,
    locked: Set<Seq<char>>,
    busid: Seq<char>,
)
    ensures
        import_decision(policy, list, locked, busid) matches Ok(i) ==> {
            &&& !locked.contains(busid)
            &&& 0 <= i < list.len()
            &&& list[i].busid == busid
            &&& policy.exports(list[i])
            &&& forall|k: int|
                0 <= k < i ==> !(policy.exports(#[trigger] list[k]) && list[k].busid == busid)
            &&& locked_after(policy, list, locked, busid) == locked.insert(busid)
        },
        import_decision(policy, list, locked, busid) is Err ==> locked_after(
            policy,
            list,
            locked,
            busid,
        ) == locked,
        import_decision(policy, list, locked, busid) == Err::<int, ImportRefusal>(
            ImportRefusal::NotExported,
        ) <==> forall|k: int|
            0 <= k < list.len() ==> !(policy.exports(#[trigger] list[k]) && list[k].busid == busid),
        import_decision(policy, list, locked, busid) == Err::<int, ImportRefusal>(
            ImportRefusal::Busy,
        ) <==> locked.contains(busid) && exists|k: int|
            0 <= k < list.len() && policy.exports(#[trigger] list[k]) && list[k].busid == busid,
{
    find_exported_is_first(policy, list, busid);
    if let Some(i) = find_exported(policy, list, busid) {
        assert(policy.exports(list[i]) && list[i].busid == busid);
    }
}

/// Who reads the list finds the number of exported devices, and each of them, in order,
/// with the fields that the host reported.
pub proof fn client_reads_devices(policy: Policy, list: Seq<UsbRecord>, k: int)
    requires
        exported(policy, list).len() <= u32::MAX,
        forall|i: int|
            0 <= i < exported(policy, list).len() ==> crate::host::exported_record(
                #[trigger] exported(policy, list)[i],
            ).representable(),
        0 <= k < exported(policy, list).len(),
    ensures
        ({
            let s = devlist_reply(policy, list);
            let n = exported(policy, list).len();
            let read = crate::op::parse_records(s.skip(12), n)[k];
            let d = exported(policy, list)[k];
            &&& crate::wire::from_be16(s, 0) == 0x0111
            &&& crate::wire::from_be16(s, 2) == 0x0005
            &&& crate::wire::from_be32(s, 4) == 0
            &&& crate::wire::from_be32(s, 8) == n
            &&& crate::op::parse_records(s.skip(12), n).len() == n
            &&& read.busid == d.busid
            &&& read.busnum == d.busnum
            &&& read.devnum == d.devnum
            &&& read.speed == d.speed
            &&& read.id_vendor == d.vendor_id
            &&& read.id_product == d.product_id
            &&& read.bcd_device == d.device_version
            &&& read.b_device_class == d.class
            &&& read.b_device_subclass == d.subclass
            &&& read.b_device_protocol == d.protocol
            &&& read.b_configuration_value == d.configuration_value
            &&& read.b_num_configurations == d.num_configurations
            &&& read.interfaces == d.interfaces
        }),
{
    let out = exported(policy, list);
    let records = out.map_values(|d: UsbRecord| crate::host::exported_record(d));
    assert forall|i: int| 0 <= i < records.len() implies (
    #[trigger] records[i]).representable() by {
        assert(records[i] == crate::host::exported_record(out[i]));
    }
    crate::op::devlist_round_trip(records);
    crate::op::devlist_layout(records, records[k]);
    assert(records[k] == crate::host::exported_record(out[k]));
}

/// One more device of the host adds its record to the end of the list that a client is
/// sent, if it is exported, and nothing if it is not.
pub proof fn devlist_grows(policy: Policy, list: Seq<UsbRecord>, d: UsbRecord)
    ensures
        policy.exports(d) ==> devlist_reply(policy, list.push(d)).skip(12) == devlist_reply(
            policy,
            list,
        ).skip(12) + crate::host::exported_record(d).wire(),
        !policy.exports(d) ==> devlist_reply(policy, list.push(d)) == devlist_reply(policy, list),
        devlist_reply(policy, Seq::empty()).len() == 12,
{
    let f = |d: UsbRecord| crate::host::exported_record(d);
    exported_in_order(policy, list, seq![d], d);
    assert(list.push(d) =~= list + seq![d]);
    let before = exported(policy, list);
    crate::op::devlist_layout(before.map_values(f), crate::host::exported_record(d));
    assert(exported(policy, Seq::empty()).map_values(f) =~= Seq::empty());
    if policy.exports(d) {
        assert(exported(policy, list.push(d)) =~= before.push(d));
        assert(before.push(d).map_values(f) =~= before.map_values(f).push(
            crate::host::exported_record(d),
        ));
    } else {
        assert(exported(policy, list.push(d)) =~= before);
    }
}

/// What an opened device says of itself replaces what was reported of it: the bus
/// identifier, the numbers, the configuration, and the interfaces if it names any.
/// Everything else stays as it was reported.
pub proof fn snapshot_replaces(d: UsbRecord, snap: DescriptorSnapshot)
    ensures
        with_snapshot(d, snap).busid == snap.busid@,
        with_snapshot(d, snap).busnum == snap.busnum,
        with_snapshot(d, snap).devnum == snap.devnum,
        with_snapshot(d, snap).configuration_value == snap.configuration_value,
        with_snapshot(d, snap).num_configurations == snap.num_configurations,
        snap.interfaces@.len() > 0 ==> with_snapshot(d, snap).interfaces == snap.interfaces@,
        snap.interfaces@.len() == 0 ==> with_snapshot(d, snap).interfaces == d.interfaces,
        with_snapshot(d, snap).speed == d.speed,
        with_snapshot(d, snap).vendor_id == d.vendor_id,
        with_snapshot(d, snap).product_id == d.product_id,
        with_snapshot(d, snap).device_version == d.device_version,
        with_snapshot(d, snap).class == d.class,
        with_snapshot(d, snap).subclass == d.subclass,
        with_snapshot(d, snap).protocol == d.protocol,
        with_snapshot(d, snap).manufacturer == d.manufacturer,
        with_snapshot(d, snap).product == d.product,
        with_snapshot(d, snap).serial == d.serial,
{
}

/// The reply that grants an import tells the client the numbers of the device as it was
/// opened, its identifiers and its class, after a header with status zero.
pub proof fn granted_reply_tells(d: UsbRecord, snap: DescriptorSnapshot)
    ensures
        ({
            let s = crate::op::import_ok_wire(
                crate::host::exported_record(with_snapshot(d, snap)),
            );
            &&& s.len() == 320
            &&& crate::wire::from_be16(s, 2) == 0x0003
            &&& crate::wire::from_be32(s, 4) == 0
            &&& crate::wire::from_be32(s, 296) == snap.busnum
            &&& crate::wire::from_be32(s, 300) == snap.devnum
            &&& crate::wire::from_be32(s, 304) == d.speed
            &&& crate::wire::from_be16(s, 308) == d.vendor_id
            &&& crate::wire::from_be16(s, 310) == d.product_id
            &&& s[314] == d.class
            &&& s[317] == snap.configuration_value
            &&& s[318] == snap.num_configurations
        }),
{
    let r = crate::host::exported_record(with_snapshot(d, snap));
    let s = crate::op::import_ok_wire(r);
    crate::op::import_reply_layout(r);
    crate::op::device_written_layout(r);
    let t = s.skip(8);
    assert forall|i: int| 0 <= i < 312 implies s[8 + i] == #[trigger] r.wire()[i] by {
        assert(t[i] == r.wire().take(312)[i]);
    }
    assert(s[296] == r.wire()[288] && s[297] == r.wire()[289] && s[298] == r.wire()[290] && s[299]
        == r.wire()[291]);
    assert(s[300] == r.wire()[292] && s[301] == r.wire()[293] && s[302] == r.wire()[294] && s[303]
        == r.wire()[295]);
    assert(s[304] == r.wire()[296] && s[305] == r.wire()[297] && s[306] == r.wire()[298] && s[307]
        == r.wire()[299]);
    assert(s[308] == r.wire()[300] && s[309] == r.wire()[301] && s[310] == r.wire()[302] && s[311]
        == r.wire()[303]);
    assert(s[314] == r.wire()[306] && s[317] == r.wire()[309] && s[318] == r.wire()[310]);
}

} // verus!
