//! What a control transfer asks of a device, and how much to ask of an endpoint.

use vstd::prelude::*;

use crate::urb::SetupPacket;

verus! {

/// Who defined a control request.
#[derive(Debug, Clone, Copy, PartialEq, Eq, Structural)]
pub enum ControlKind {
    Standard,
    Class,
    Vendor,
}

/// What a control request is for.
#[derive(Debug, Clone, Copy, PartialEq, Eq, Structural)]
pub enum ControlRecipient {
    Device,
    Interface,
    Endpoint,
    Other,
}

/// A control request that goes to the device as it is.
#[derive(Debug, Clone, Copy, PartialEq, Eq, Structural)]
pub struct ControlRequest {
    /// From the device to the host.
    pub dir_in: bool,
    pub kind: ControlKind,
    pub recipient: ControlRecipient,
    pub request: u8,
    pub value: u16,
    pub index: u16,
    pub length: u16,
}

/// How to carry out a control transfer. The host keeps track of the configuration and
/// the alternate settings of a device, so it has to make the requests that change them.
#[derive(Debug, Clone, Copy, PartialEq, Eq, Structural)]
pub enum ControlPlan {
    SetConfiguration(u8),
    SetInterface { interface: u8, alt_setting: u8 },
    Request(ControlRequest),
    /// The kind or the recipient is one that USB reserves.
    Unsupported,
}

/// The kind that the bits 5 and 6 of a request type stand for.
pub open spec fn kind_of(request_type: u8) -> Option<ControlKind> {
    if request_type / 32 % 4 == 0 {
        Some(ControlKind::Standard)
    } else if request_type / 32 % 4 == 1 {
        Some(ControlKind::Class)
    } else if request_type / 32 % 4 == 2 {
        Some(ControlKind::Vendor)
    } else {
        None
    }
}

/// The recipient that the bits 0 to 4 of a request type stand for.
pub open spec fn recipient_of(request_type: u8) -> Option<ControlRecipient> {
    if request_type % 32 == 0 {
        Some(ControlRecipient::Device)
    } else if request_type % 32 == 1 {
        Some(ControlRecipient::Interface)
    } else if request_type % 32 == 2 {
        Some(ControlRecipient::Endpoint)
    } else if request_type % 32 == 3 {
        Some(ControlRecipient::Other)
    } else {
        None
    }
}

/// The standard request `SET_CONFIGURATION` to the device.
pub open spec fn sets_configuration(p: SetupPacket) -> bool {
    p.bm_request_type == 0x00 && p.b_request == 0x09
}

/// The standard request `SET_INTERFACE` to an interface.
pub open spec fn sets_interface(p: SetupPacket) -> bool {
    p.bm_request_type == 0x01 && p.b_request == 0x0b
}

/// How to carry out the control transfer that `p` starts.
pub open spec fn control_plan(p: SetupPacket) -> ControlPlan {
    if sets_configuration(p) {
        ControlPlan::SetConfiguration((p.w_value % 0x100) as u8)
    } else if sets_interface(p) {
        ControlPlan::SetInterface {
            interface: (p.w_index % 0x100) as u8,
            alt_setting: (p.w_value % 0x100) as u8,
        }
    } else {
        match (kind_of(p.bm_request_type), recipient_of(p.bm_request_type)) {
            (Some(kind), Some(recipient)) => ControlPlan::Request(
                ControlRequest {
                    dir_in: p.bm_request_type >= 0x80,
                    kind,
                    recipient,
                    request: p.b_request,
                    value: p.w_value,
                    index: p.w_index,
                    length: p.w_length,
                },
            ),
            _ => ControlPlan::Unsupported,
        }
    }
}

/// How to carry out the control transfer that `p` starts.
pub fn plan_control(p: &SetupPacket) -> (plan: ControlPlan)
    ensures
        plan == control_plan(*p),
{
    if p.bm_request_type == 0x00 && p.b_request == 0x09 {
        return ControlPlan::SetConfiguration((p.w_value % 0x100) as u8);
    }
    if p.bm_request_type == 0x01 && p.b_request == 0x0b {
        return ControlPlan::SetInterface {
            interface: (p.w_index % 0x100) as u8,
            alt_setting: (p.w_value % 0x100) as u8,
        };
    }
    let kind: ControlKind = match p.bm_request_type / 32 % 4 {
        0 => ControlKind::Standard,
        1 => ControlKind::Class,
        2 => ControlKind::Vendor,
        _ => return ControlPlan::Unsupported,
    };
    let recipient: ControlRecipient = match p.bm_request_type % 32 {
        0 => ControlRecipient::Device,
        1 => ControlRecipient::Interface,
        2 => ControlRecipient::Endpoint,
        3 => ControlRecipient::Other,
        _ => return ControlPlan::Unsupported,
    };
    ControlPlan::Request(
        ControlRequest {
            dir_in: p.bm_request_type >= 0x80,
            kind,
            recipient,
            request: p.b_request,
            value: p.w_value,
            index: p.w_index,
            length: p.w_length,
        },
    )
}

/// How many packets of up to `packet` bytes fill a buffer of `length`: at least one.
pub open spec fn packets_for(length: nat, packet: nat) -> nat {
    if length == 0 {
        1
    } else {
        ((length - 1) as nat / packet + 1) as nat
    }
}

/// How many bytes to ask of an endpoint that sends packets of up to `packet` bytes, for
/// a buffer of `length`: that many whole packets. There is no answer where packets are
/// empty or the number is too large.
pub fn whole_packets(length: usize, packet: usize) -> (n: Option<usize>)
    ensures
        n is Some <==> packet > 0 && packets_for(length as nat, packet as nat) * packet
            <= usize::MAX,
        n matches Some(n) ==> n == packets_for(length as nat, packet as nat) * packet,
{
    if packet == 0 {
        return None;
    }
    let more: usize = if length == 0 {
        0
    } else {
        (length - 1) / packet
    };
    proof {
        assert(packets_for(length as nat, packet as nat) == more + 1);
        assert(more * packet + packet == (more + 1) * packet) by (nonlinear_arith);
        if length > 0 {
            assert(more * packet <= length - 1) by (nonlinear_arith)
                requires
                    more == (length - 1) / (packet as int),
                    packet > 0,
                    length > 0,
            ;
        }
    }
    let whole: usize = more * packet;
    if whole > usize::MAX - packet {
        return None;
    }
    Some(whole + packet)
}

/// What is asked of an endpoint fills the buffer, and no smaller number of whole
/// packets does.
pub proof fn packets_fill_buffer(length: nat, packet: nat)
    requires
        packet > 0,
    ensures
        packets_for(length, packet) * packet >= length,
        packets_for(length, packet) >= 1,
        forall|k: nat|
            k >= 1 && k < packets_for(length, packet) ==> #[trigger] (k * packet) < length,
{
    if length > 0 {
        let n = (length - 1) as nat;
        vstd::arithmetic::div_mod::lemma_fundamental_div_mod(n as int, packet as int);
        vstd::arithmetic::div_mod::lemma_mod_bound(n as int, packet as int);
        let more = n / packet;
        assert((more + 1) * packet == packet * more + packet) by (nonlinear_arith);
        assert forall|k: nat| k >= 1 && k < packets_for(length, packet) implies #[trigger] (k
            * packet) < length by {
            assert(k * packet <= packet * more) by (nonlinear_arith)
                requires
                    k <= more,
            ;
        }
    }
}

/// The number of a kind of control request.
pub open spec fn kind_number(kind: ControlKind) -> int {
    match kind {
        ControlKind::Standard => 0,
        ControlKind::Class => 1,
        ControlKind::Vendor => 2,
    }
}

/// The number of a recipient of a control request.
pub open spec fn recipient_number(recipient: ControlRecipient) -> int {
    match recipient {
        ControlRecipient::Device => 0,
        ControlRecipient::Interface => 1,
        ControlRecipient::Endpoint => 2,
        ControlRecipient::Other => 3,
    }
}

/// A control transfer that sets the configuration or an alternate setting, and no other,
/// is made by the host, with the numbers that its packet has. Every other goes to the
/// device with all that its packet says: the packet can be told from the plan. Only
/// packets with a reserved kind or recipient go nowhere.
pub proof fn control_plans_keep_packets(p: SetupPacket)
    ensures
        match control_plan(p) {
            ControlPlan::SetConfiguration(value) => {
                &&& p.bm_request_type == 0
                &&& p.b_request == 9
                &&& value == p.w_value % 0x100
            },
            ControlPlan::SetInterface { interface, alt_setting } => {
                &&& p.bm_request_type == 1
                &&& p.b_request == 11
                &&& interface == p.w_index % 0x100
                &&& alt_setting == p.w_value % 0x100
            },
            ControlPlan::Request(r) => {
                &&& !(p.bm_request_type == 0 && p.b_request == 9)
                &&& !(p.bm_request_type == 1 && p.b_request == 11)
                &&& p.bm_request_type == (if r.dir_in {
                    128int
                } else {
                    0int
                }) + 32 * kind_number(r.kind) + recipient_number(r.recipient)
                &&& r.request == p.b_request
                &&& r.value == p.w_value
                &&& r.index == p.w_index
                &&& r.length == p.w_length
            },
            ControlPlan::Unsupported => p.bm_request_type / 32 % 4 == 3 || p.bm_request_type % 32
                > 3,
        },
        p.bm_request_type == 0 && p.b_request == 9 ==> control_plan(p) is SetConfiguration,
        p.bm_request_type == 1 && p.b_request == 11 ==> control_plan(p) is SetInterface,
        p.bm_request_type / 32 % 4 == 3 || p.bm_request_type % 32 > 3 ==> control_plan(
            p,
        ) is Unsupported,
{
}

} // verus!
