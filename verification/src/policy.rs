//! What the server may export, to whom, and where it may listen.
//!
//! USB/IP knows no authentication: whoever reaches the listener can ask for any
//! device that is exported. So nothing is exported unless the operator says so,
//! the listener stays on loopback, and a device has one client at a time.

use vstd::prelude::*;
use vstd::utf8::*;

use crate::host::UsbDevice;
use crate::text::parse_hex_u16;

verus! {

/// The device class of hubs, which are never exported.
pub const USB_CLASS_HUB: u8 = 0x09;

/// One entry of the allow list.
#[derive(Debug, Clone, Copy, PartialEq, Eq, Structural)]
pub struct DeviceFilter {
    pub vendor_id: u16,
    pub product_id: u16,
}

/// The filter that `VID:PID` stands for: one to four hexadecimal digits on each
/// side of the first colon.
pub open spec fn filter_of(bytes: Seq<u8>) -> Option<DeviceFilter> {
    match bytes.index_of_first(0x3au8) {
        None => None,
        Some(i) => match (
            crate::text::hex_u16(bytes.take(i)),
            crate::text::hex_u16(bytes.skip(i + 1)),
        ) {
            (Some(v), Some(p)) => Some(DeviceFilter { vendor_id: v as u16, product_id: p as u16 }),
            _ => None,
        },
    }
}

impl DeviceFilter {
    /// The filter that `text`, such as `1050:0407`, stands for.
    pub fn parse(text: &str) -> (r: Option<DeviceFilter>)
        ensures
            r == filter_of(encode_utf8(text@)),
    {
        let b: &[u8] = text.as_bytes();
        let mut i: usize = 0;
        while i < b.len() && b[i] != 0x3a
            invariant
                i <= b@.len(),
                forall|k: int| 0 <= k < i ==> b@[k] != 0x3a,
            decreases b@.len() - i,
        {
            i += 1;
        }
        proof {
            b@.index_of_first_ensures(0x3au8);
        }
        if i == b.len() {
            return None;
        }
        assert(b@.contains(b@[i as int]));
        let vendor: Option<u16> = parse_hex_u16(&b[0..i]);
        let product: Option<u16> = parse_hex_u16(&b[i + 1..b.len()]);
        assert(b@.subrange(0, i as int) =~= b@.take(i as int));
        assert(b@.subrange(i + 1, b@.len() as int) =~= b@.skip(i + 1));
        match (vendor, product) {
            (Some(vendor_id), Some(product_id)) => Some(DeviceFilter { vendor_id, product_id }),
            _ => None,
        }
    }
}

/// The text of a filter: four digits, a colon, four digits.
pub open spec fn filter_text(f: DeviceFilter) -> Seq<char> {
    crate::text::hex4(f.vendor_id).push(':') + crate::text::hex4(f.product_id)
}

/// The bytes of four hexadecimal digits read as their number.
pub proof fn hex4_reads_back(x: u16, b: Seq<u8>)
    requires
        b.len() == 4,
        forall|i: int| 0 <= i < 4 ==> b[i] == crate::text::hex4(x)[i] as u8,
    ensures
        crate::text::hex_u16(b) == Some(x as nat),
{
    reveal_with_fuel(crate::text::hex_value, 5);
    assert(b.drop_last().drop_last().drop_last().drop_last() =~= Seq::empty());
    assert(b[0] == crate::text::hex4(x)[0] as u8);
    assert(b[1] == crate::text::hex4(x)[1] as u8);
    assert(b[2] == crate::text::hex4(x)[2] as u8);
    assert(b[3] == crate::text::hex4(x)[3] as u8);
}

/// A device is allowed by the identifiers that the server shows for it.
pub proof fn filter_round_trip(f: DeviceFilter)
    ensures
        filter_of(encode_utf8(filter_text(f))) == Some(f),
{
    let t = filter_text(f);
    assert(is_ascii_chars(t));
    is_ascii_chars_encode_utf8(t);
    let b = encode_utf8(t);
    assert(b.len() == 9);
    b.index_of_first_ensures(0x3au8);
    assert(b[4] == 0x3a);
    assert(b.contains(0x3au8));
    assert forall|i: int| 0 <= i < 4 implies b[i] != 0x3a by {
        assert(b[i] == crate::text::hex4(f.vendor_id)[i] as u8);
    }
    assert forall|i: int| 0 <= i < 4 implies b.take(4)[i] == crate::text::hex4(
        f.vendor_id,
    )[i] as u8 by {
        assert(b[i] == t[i] as u8);
    }
    assert forall|i: int| 0 <= i < 4 implies b.skip(5)[i] == crate::text::hex4(
        f.product_id,
    )[i] as u8 by {
        assert(b[i + 5] == t[i + 5] as u8);
    }
    hex4_reads_back(f.vendor_id, b.take(4));
    hex4_reads_back(f.product_id, b.skip(5));
}

/// Which devices are exported. Without a word of the operator, none.
#[derive(Debug)]
pub enum Policy {
    DenyAll,
    AllowList(Vec<DeviceFilter>),
    AllowAll,
}

impl Policy {
    /// The policy exports devices with these identifiers.
    pub open spec fn allows(self, vendor_id: u16, product_id: u16) -> bool {
        match self {
            Policy::DenyAll => false,
            Policy::AllowList(list) => list@.contains(DeviceFilter { vendor_id, product_id }),
            Policy::AllowAll => true,
        }
    }

    /// The policy exports the device `d`: it is no hub and it is allowed.
    pub open spec fn exports(self, d: crate::host::UsbRecord) -> bool {
        d.class != USB_CLASS_HUB && self.allows(d.vendor_id, d.product_id)
    }

    /// The policy that the operator asks for: the listed devices, or all of them,
    /// or none. Both a list and all of them is no policy.
    pub fn from_flags(allow: Vec<DeviceFilter>, allow_all: bool) -> (r: Option<Policy>)
        ensures
            allow@.len() == 0 && !allow_all ==> r == Some(Policy::DenyAll),
            allow@.len() == 0 && allow_all ==> r == Some(Policy::AllowAll),
            allow@.len() > 0 && !allow_all ==> r == Some(Policy::AllowList(allow)),
            allow@.len() > 0 && allow_all ==> r is None,
    {
        if allow.len() == 0 {
            if allow_all {
                Some(Policy::AllowAll)
            } else {
                Some(Policy::DenyAll)
            }
        } else if allow_all {
            None
        } else {
            Some(Policy::AllowList(allow))
        }
    }

    /// Whether devices with these identifiers are exported.
    pub fn permits(&self, vendor_id: u16, product_id: u16) -> (b: bool)
        ensures
            b == self.allows(vendor_id, product_id),
    {
        match self {
            Policy::DenyAll => false,
            Policy::AllowAll => true,
            Policy::AllowList(list) => {
                let mut i: usize = 0;
                while i < list.len()
                    invariant
                        *self == Policy::AllowList(*list),
                        i <= list@.len(),
                        forall|k: int|
                            0 <= k < i ==> list@[k] != (DeviceFilter { vendor_id, product_id }),
                    decreases list@.len() - i,
                {
                    if list[i].vendor_id == vendor_id && list[i].product_id == product_id {
                        assert(list@[i as int] == (DeviceFilter { vendor_id, product_id }));
                        return true;
                    }
                    i += 1;
                }
                false
            },
        }
    }

    /// Whether the device `d` is exported.
    pub fn permits_export(&self, d: &UsbDevice) -> (b: bool)
        ensures
            b == self.exports(d@),
            b ==> d.class != 9,
            *self is AllowAll && d.class != 9 ==> b,
            *self is DenyAll ==> !b,
            *self matches Policy::AllowList(list) ==> (b <==> d.class != 9 && list@.contains(
                (DeviceFilter { vendor_id: d.vendor_id, product_id: d.product_id }),
            )),
    {
        d.class != USB_CLASS_HUB && self.permits(d.vendor_id, d.product_id)
    }
}

/// Whether the server may listen on a TCP address. An address that is not loopback
/// takes the operator's word for it.
pub fn may_listen(is_loopback: bool, allow_public: bool) -> (b: bool)
    ensures
        b == (is_loopback || allow_public),
{
    is_loopback || allow_public
}

/// The mode of a socket file: its owner alone can connect.
pub const SOCKET_MODE: u32 = 0o600;

/// What to do before a socket is bound to a path.
#[derive(Debug, Clone, Copy, PartialEq, Eq, Structural)]
pub enum BindPlan {
    /// Nothing is there: bind.
    Fresh,
    /// A socket is there, left by an earlier server: remove it, then bind.
    Replace,
    /// A file is there that is no socket: leave it alone and give up.
    Refuse,
}

/// What to do before a socket is bound to a path, given whether what stands there
/// already is a socket. Only a socket is ever removed.
pub fn plan_bind(existing_is_socket: Option<bool>) -> (plan: BindPlan)
    ensures
        plan == BindPlan::Fresh <==> existing_is_socket is None,
        plan == BindPlan::Replace <==> existing_is_socket == Some(true),
        plan == BindPlan::Refuse <==> existing_is_socket == Some(false),
{
    match existing_is_socket {
        None => BindPlan::Fresh,
        Some(true) => BindPlan::Replace,
        Some(false) => BindPlan::Refuse,
    }
}

/// The devices that are imported now, by bus identifier.
#[derive(Debug)]
pub struct ImportLocks {
    held: Vec<String>,
}

impl View for ImportLocks {
    type V = Set<Seq<char>>;

    closed spec fn view(&self) -> Set<Seq<char>> {
        Set::new(
            |busid: Seq<char>|
                exists|i: int| 0 <= i < self.held@.len() && (#[trigger] self.held@[i])@ == busid,
        )
    }
}

impl ImportLocks {
    /// Nothing is imported.
    pub fn new() -> (l: ImportLocks)
        ensures
            l@ == Set::<Seq<char>>::empty(),
    {
        let l = ImportLocks { held: Vec::new() };
        assert(l@ =~= Set::<Seq<char>>::empty());
        l
    }

    /// Whether the device `busid` is imported.
    pub fn is_held(&self, busid: &String) -> (b: bool)
        ensures
            b == self@.contains(busid@),
    {
        let mut i: usize = 0;
        while i < self.held.len()
            invariant
                i <= self.held@.len(),
                forall|k: int| 0 <= k < i ==> (#[trigger] self.held@[k])@ != busid@,
            decreases self.held@.len() - i,
        {
            if self.held[i] == *busid {
                assert(self.held@[i as int]@ == busid@);
                return true;
            }
            i += 1;
        }
        false
    }

    /// Takes the device `busid`, unless someone has it.
    pub fn acquire(&mut self, busid: &String) -> (b: bool)
        ensures
            b == !old(self)@.contains(busid@),
            final(self)@ == old(self)@.insert(busid@),
    {
        if self.is_held(busid) {
            assert(self@ =~= old(self)@.insert(busid@));
            return false;
        }
        self.held.push(busid.clone());
        proof {
            let was = old(self).held@;
            assert forall|x: Seq<char>| self@.contains(x) == (old(self)@.contains(x) || x
                == busid@) by {
                if old(self)@.contains(x) {
                    let i = choose|i: int| 0 <= i < was.len() && (#[trigger] was[i])@ == x;
                    assert(self.held@[i]@ == x);
                }
                assert(self.held@[was.len() as int]@ == busid@);
                if self@.contains(x) && x != busid@ {
                    let i = choose|i: int|
                        0 <= i < self.held@.len() && (#[trigger] self.held@[i])@ == x;
                    assert(was[i]@ == x);
                }
            }
        }
        assert(self@ =~= old(self)@.insert(busid@));
        true
    }

    /// Gives the device `busid` back.
    pub fn release(&mut self, busid: &String)
        ensures
            final(self)@ == old(self)@.remove(busid@),
    {
        let ghost was = self.held@;
        let mut kept: Vec<String> = Vec::new();
        let mut i: usize = 0;
        while i < self.held.len()
            invariant
                i <= self.held@.len(),
                self.held@ == was,
                forall|k: int|
                    0 <= k < i && (#[trigger] was[k])@ != busid@ ==> exists|j: int|
                        0 <= j < kept@.len() && (#[trigger] kept@[j])@ == was[k]@,
                forall|j: int|
                    0 <= j < kept@.len() ==> (#[trigger] kept@[j])@ != busid@ && exists|k: int|
                        0 <= k < i && (#[trigger] was[k])@ == kept@[j]@,
            decreases self.held@.len() - i,
        {
            if self.held[i] != *busid {
                let ghost before = kept@;
                kept.push(self.held[i].clone());
                assert(kept@[before.len() as int]@ == was[i as int]@);
                assert forall|k: int|
                    0 <= k < i + 1 && (#[trigger] was[k])@ != busid@ implies exists|j: int|
                    0 <= j < kept@.len() && (#[trigger] kept@[j])@ == was[k]@ by {
                    if k < i {
                        let j = choose|j: int|
                            0 <= j < before.len() && (#[trigger] before[j])@ == was[k]@;
                        assert(kept@[j]@ == was[k]@);
                    }
                }
            }
            i += 1;
        }
        let ghost left = kept@;
        self.held = kept;
        assert forall|x: Seq<char>| self@.contains(x) == (old(self)@.contains(x) && x
            != busid@) by {
            if old(self)@.contains(x) && x != busid@ {
                let k = choose|k: int| 0 <= k < was.len() && (#[trigger] was[k])@ == x;
                let j = choose|j: int| 0 <= j < left.len() && (#[trigger] left[j])@ == was[k]@;
                assert(self.held@[j]@ == x);
            }
            if self@.contains(x) {
                let j = choose|j: int|
                    0 <= j < self.held@.len() && (#[trigger] self.held@[j])@ == x;
                let k = choose|k: int| 0 <= k < was.len() && (#[trigger] was[k])@ == left[j]@;
                assert(was[k]@ == x);
            }
        }
        assert(self@ =~= old(self)@.remove(busid@));
    }
}

/// What each policy allows, by identifiers, and what it exports, by class and
/// identifiers. Every device that is no hub is exported under [`Policy::AllowAll`], and
/// every one that is no hub and listed under [`Policy::AllowList`]. No other device is.
pub proof fn policies_export(list: Vec<DeviceFilter>, d: crate::host::UsbRecord)
    ensures
        Policy::AllowAll.exports(d) <==> d.class != 9,
        !Policy::DenyAll.exports(d),
        Policy::AllowList(list).exports(d) <==> d.class != 9 && exists|i: int|
            0 <= i < list@.len() && (#[trigger] list@[i]).vendor_id == d.vendor_id
                && list@[i].product_id == d.product_id,
        Policy::AllowAll.allows(d.vendor_id, d.product_id),
        !Policy::DenyAll.allows(d.vendor_id, d.product_id),
        Policy::AllowList(list).allows(d.vendor_id, d.product_id) <==> exists|i: int|
            0 <= i < list@.len() && (#[trigger] list@[i]).vendor_id == d.vendor_id
                && list@[i].product_id == d.product_id,
{
    let f = DeviceFilter { vendor_id: d.vendor_id, product_id: d.product_id };
    if exists|i: int|
        0 <= i < list@.len() && (#[trigger] list@[i]).vendor_id == d.vendor_id
            && list@[i].product_id == d.product_id {
        let i = choose|i: int|
            0 <= i < list@.len() && (#[trigger] list@[i]).vendor_id == d.vendor_id
                && list@[i].product_id == d.product_id;
        assert(list@[i] == f);
    }
    if list@.contains(f) {
        let i = list@.index_of(f);
        assert(list@[i].vendor_id == d.vendor_id);
    }
}

/// Two hexadecimal numbers of up to four digits with a colon between them are a filter
/// with these numbers.
pub proof fn filter_reads_both_sides(vendor: Seq<u8>, product: Seq<u8>)
    requires
        crate::text::hex_u16(vendor) is Some,
        crate::text::hex_u16(product) is Some,
    ensures
        filter_of(vendor + seq![0x3au8] + product) matches Some(f) && f.vendor_id
            == crate::text::hex_u16(vendor)->0 && f.product_id == crate::text::hex_u16(product)->0,
{
    let b = vendor + seq![0x3au8] + product;
    let n = vendor.len() as int;
    crate::text::hex_u16_is_positional(vendor);
    crate::text::hex_u16_in_range(vendor);
    crate::text::hex_u16_in_range(product);
    assert(b[n] == 0x3a);
    assert(b.contains(0x3au8));
    assert forall|i: int| 0 <= i < n implies b[i] != 0x3a by {
        assert(b[i] == vendor[i]);
        assert(crate::text::hex_digit_value(vendor[i]) is Some);
    }
    b.index_of_first_ensures(0x3au8);
    assert(b.take(n) =~= vendor);
    assert(b.skip(n + 1) =~= product);
}

/// What is a filter has a colon with a hexadecimal number of up to four digits on each
/// side, and nothing else.
pub proof fn filters_are_pairs(bytes: Seq<u8>)
    requires
        filter_of(bytes) is Some,
    ensures
        exists|i: int|
            0 < i < bytes.len() && #[trigger] bytes[i] == 0x3a && crate::text::hex_u16(
                bytes.take(i),
            ) == Some(filter_of(bytes)->0.vendor_id as nat) && crate::text::hex_u16(
                bytes.skip(i + 1),
            ) == Some(filter_of(bytes)->0.product_id as nat),
{
    bytes.index_of_first_ensures(0x3au8);
    let i = bytes.index_of_first(0x3au8)->0;
    crate::text::hex_u16_in_range(bytes.take(i));
    crate::text::hex_u16_in_range(bytes.skip(i + 1));
    assert(bytes[i] == 0x3a);
}

/// Only the owner of a socket file can read and write it, and hubs have class 9.
pub proof fn policy_numbers_are()
    ensures
        SOCKET_MODE == 0o600,
        USB_CLASS_HUB == 9,
{
}

} // verus!
