//! The session of a client that has imported a device: what its requests mean,
//! which of them are in flight, and what they are answered.

use std::collections::HashMap;

use vstd::prelude::*;

use crate::error::ProtoError;
use crate::text::push_hex8;
use crate::urb::{
    write_ret_submit, write_ret_unlink, CmdSubmit, CmdUnlink, RetSubmit, SetupPacket, UrbHeader,
    USBIP_CMD_SUBMIT, USBIP_CMD_UNLINK, USBIP_DIR_IN,
};

verus! {

/// How long one transfer may take, in seconds. Long enough for slow bulk transfers
/// of mass storage, short enough that a wedged device frees the connection within a
/// minute.
pub const URB_TIMEOUT_SECS: u64 = 60;

/// How many transfers of one connection may run at a time. A client that floods the
/// server with submits waits before more of them are read.
pub const MAX_INFLIGHT_URBS: usize = 256;

/// The status of a transfer that failed, as Linux numbers it.
pub const EPIPE: i32 = -32;

/// The status of a transfer that brought more than was asked for.
pub const EOVERFLOW: i32 = -75;

/// The number by which a client names an imported device.
pub open spec fn device_id(busnum: u32, devnum: u32) -> u32 {
    (busnum << 16u32) | devnum
}

/// The number by which a client names the device `devnum` of bus `busnum`.
pub fn devid_of(busnum: u32, devnum: u32) -> (devid: u32)
    ensures
        devid == device_id(busnum, devnum),
{
    (busnum << 16u32) | devnum
}

/// Bus and device number can be read back from the number by which a client names the
/// device.
pub proof fn device_id_splits(busnum: u32, devnum: u32)
    requires
        busnum < 0x1_0000,
        devnum < 0x1_0000,
    ensures
        device_id(busnum, devnum) / 0x1_0000 == busnum,
        device_id(busnum, devnum) % 0x1_0000 == devnum,
{
    assert(((busnum << 16u32) | devnum) / 0x1_0000 == busnum && ((busnum << 16u32) | devnum)
        % 0x1_0000 == devnum) by (bit_vector)
        requires
            busnum < 0x1_0000,
            devnum < 0x1_0000,
    ;
}

/// Every device that the host reports has numbers that its identifier can hold.
pub proof fn reported_device_id_splits(info: crate::host::DeviceInfo)
    ensures
        device_id(info.record().busnum, info.record().devnum) / 0x1_0000 == info.record().busnum,
        device_id(info.record().busnum, info.record().devnum) % 0x1_0000 == info.record().devnum,
{
    crate::host::numbers_in_range(info);
    device_id_splits(info.record().busnum, info.record().devnum);
}

/// The address of endpoint `ep`: its number in the low four bits, and the direction
/// in the highest. Endpoint zero has one address for both directions.
pub open spec fn endpoint_address(ep: u32, dir_in: bool) -> u8 {
    if ep == 0 {
        0
    } else if dir_in {
        (ep % 16 + 0x80) as u8
    } else {
        (ep % 16) as u8
    }
}

/// The address of endpoint `ep` for transfers in one direction.
pub fn endpoint_addr(ep: u32, dir_in: bool) -> (a: u8)
    ensures
        a == endpoint_address(ep, dir_in),
{
    if ep == 0 {
        return 0;
    }
    let number: u8 = (ep % 16) as u8;
    if dir_in {
        number + 0x80
    } else {
        number
    }
}

/// A transfer that a client asks for.
#[derive(Debug, Clone, Copy, PartialEq, Eq, Structural)]
pub struct SubmitRequest {
    pub seqnum: u32,
    /// From the device to the client.
    pub dir_in: bool,
    pub ep: u32,
    /// The size of the client's buffer.
    pub length: usize,
    /// Of a transfer on endpoint zero.
    pub setup: SetupPacket,
}

/// The size that a transfer buffer length stands for. A negative one is none.
pub open spec fn buffer_size(transfer_buffer_length: i32) -> usize {
    if transfer_buffer_length > 0 {
        transfer_buffer_length as usize
    } else {
        0
    }
}

impl SubmitRequest {
    /// The request that both parts of a header stand for.
    pub open spec fn of(basic: UrbHeader, cmd: crate::urb::SubmitFields) -> SubmitRequest {
        SubmitRequest {
            seqnum: basic.seqnum,
            dir_in: basic.direction == USBIP_DIR_IN,
            ep: basic.ep,
            length: buffer_size(cmd.transfer_buffer_length),
            setup: SetupPacket::parse(cmd.setup),
        }
    }

    /// The size of the payload that follows the header.
    pub open spec fn payload_size(self) -> usize {
        if self.dir_in {
            0
        } else {
            self.length
        }
    }

    /// How many bytes follow the header: all of the buffer of a transfer to the
    /// device, and none of one from it.
    pub fn payload_len(&self) -> (n: usize)
        ensures
            n == self.payload_size(),
    {
        if self.dir_in {
            0
        } else {
            self.length
        }
    }

    /// The address of the endpoint.
    pub fn ep_addr(&self) -> (a: u8)
        ensures
            a == endpoint_address(self.ep, self.dir_in),
    {
        endpoint_addr(self.ep, self.dir_in)
    }

    /// What to ask of the device.
    pub fn plan(&self) -> (p: TransferPlan)
        ensures
            self.ep == 0 ==> p == (TransferPlan::Control { setup: self.setup }),
            self.ep != 0 ==> p == (TransferPlan::Data {
                ep_addr: endpoint_address(self.ep, self.dir_in),
                length: self.length,
            }),
    {
        if self.ep == 0 {
            TransferPlan::Control { setup: self.setup }
        } else {
            TransferPlan::Data { ep_addr: self.ep_addr(), length: self.length }
        }
    }
}

/// What to ask of the device for a submit.
#[derive(Debug, Clone, Copy, PartialEq, Eq, Structural)]
pub enum TransferPlan {
    /// A control transfer on endpoint zero.
    Control { setup: SetupPacket },
    /// A bulk or interrupt transfer.
    Data { ep_addr: u8, length: usize },
}

/// A request of a client in a session.
#[derive(Debug, Clone, Copy, PartialEq, Eq, Structural)]
pub enum UrbRequest {
    Submit(SubmitRequest),
    /// The submit `unlink_seqnum` is to be cancelled.
    Unlink { seqnum: u32, unlink_seqnum: u32 },
}

/// Why a session ends before the client leaves.
#[derive(Debug, Clone, Copy, PartialEq, Eq, Structural)]
pub enum SessionError {
    /// The header is too short.
    Proto(ProtoError),
    /// The request is for another device than the one imported.
    DevidMismatch { got: u32, expected: u32 },
    /// No such command.
    UnknownCommand(u32),
}

impl SessionError {
    /// The sentence that describes the error.
    pub open spec fn text(self) -> Seq<char> {
        match self {
            SessionError::Proto(e) => e.text(),
            SessionError::DevidMismatch { got, expected } => "URB devid mismatch"@,
            SessionError::UnknownCommand(command) => "unknown URB command 0x"@
                + crate::text::hex8(command) + "; closing connection"@,
        }
    }

    /// A sentence that describes the error.
    pub fn message(&self) -> (s: String)
        ensures
            s@ == self.text(),
    {
        let mut s: String = String::new();
        match self {
            SessionError::Proto(e) => {
                s = e.message();
            },
            SessionError::DevidMismatch { got: _, expected: _ } => {
                s.append("URB devid mismatch");
            },
            SessionError::UnknownCommand(command) => {
                s.append("unknown URB command 0x");
                push_hex8(&mut s, *command);
                s.append("; closing connection");
            },
        }
        assert(s@ =~= self.text());
        s
    }
}

/// What a header asks for, in the session of device `devid`. A request for another
/// device is refused, whatever it asks.
pub open spec fn request_of(devid: u32, s: Seq<u8>) -> Result<UrbRequest, SessionError> {
    let basic = UrbHeader::parse(s);
    let rest = s.skip(20);
    if s.len() < 20 {
        Err(SessionError::Proto(ProtoError::ShortRead { need: 20, got: s.len() as usize }))
    } else if basic.devid != devid {
        Err(SessionError::DevidMismatch { got: basic.devid, expected: devid })
    } else if basic.command != USBIP_CMD_SUBMIT && basic.command != USBIP_CMD_UNLINK {
        Err(SessionError::UnknownCommand(basic.command))
    } else if rest.len() < 28 {
        Err(SessionError::Proto(ProtoError::ShortRead { need: 28, got: rest.len() as usize }))
    } else if basic.command == USBIP_CMD_SUBMIT {
        Ok(UrbRequest::Submit(SubmitRequest::of(basic, crate::urb::SubmitFields::parse(rest))))
    } else {
        Ok(
            UrbRequest::Unlink {
                seqnum: basic.seqnum,
                unlink_seqnum: crate::wire::from_be32(rest, 0),
            },
        )
    }
}

/// What a header asks for, in the session of device `devid`.
pub fn decode_request(devid: u32, header: &[u8]) -> (r: Result<UrbRequest, SessionError>)
    ensures
        r == request_of(devid, header@),
{
    let basic: UrbHeader = match UrbHeader::decode(header) {
        Ok(basic) => basic,
        Err(e) => return Err(SessionError::Proto(e)),
    };
    if basic.devid != devid {
        return Err(SessionError::DevidMismatch { got: basic.devid, expected: devid });
    }
    let rest: &[u8] = &header[20..header.len()];
    assert(rest@ =~= header@.skip(20));
    match basic.command {
        USBIP_CMD_SUBMIT => match CmdSubmit::decode(rest) {
            Ok(cmd) => {
                let length: usize = if cmd.transfer_buffer_length > 0 {
                    cmd.transfer_buffer_length as usize
                } else {
                    0
                };
                Ok(
                    UrbRequest::Submit(
                        SubmitRequest {
                            seqnum: basic.seqnum,
                            dir_in: basic.direction == USBIP_DIR_IN,
                            ep: basic.ep,
                            length,
                            setup: SetupPacket::from_bytes(cmd.setup),
                        },
                    ),
                )
            },
            Err(e) => Err(SessionError::Proto(e)),
        },
        USBIP_CMD_UNLINK => match CmdUnlink::decode(rest) {
            Ok(cmd) => Ok(
                UrbRequest::Unlink { seqnum: basic.seqnum, unlink_seqnum: cmd.unlink_seqnum },
            ),
            Err(e) => Err(SessionError::Proto(e)),
        },
        other => Err(SessionError::UnknownCommand(other)),
    }
}

/// A submit is understood as the client encoded it. What is read after its header is
/// its payload, and the next request starts where that ends.
pub proof fn submit_understood(
    devid: u32,
    basic: UrbHeader,
    cmd: CmdSubmit,
    payload: Seq<u8>,
    next: Seq<u8>,
)
    requires
        basic.devid == devid,
        basic.command == USBIP_CMD_SUBMIT,
        payload.len() == if basic.direction == USBIP_DIR_IN || cmd.transfer_buffer_length < 0 {
            0
        } else {
            cmd.transfer_buffer_length as nat
        },
    ensures
        ({
            let s = basic.wire() + cmd@.wire() + payload + next;
            let req = SubmitRequest::of(basic, cmd@);
            &&& request_of(devid, s) == Ok::<UrbRequest, SessionError>(UrbRequest::Submit(req))
            &&& s.subrange(48, 48 + req.payload_size()) == payload
            &&& s.skip(48 + req.payload_size()) == next
        }),
{
    let s = basic.wire() + cmd@.wire() + payload + next;
    let rest = payload + next;
    let req = SubmitRequest::of(basic, cmd@);
    crate::urb::urb_header_round_trip(basic, cmd@.wire() + rest);
    crate::urb::cmd_submit_round_trip(cmd, rest);
    assert(s =~= basic.wire() + (cmd@.wire() + rest));
    assert(s.skip(20) =~= cmd@.wire() + rest);
    assert(req.payload_size() == payload.len());
    assert(s.subrange(48, 48 + req.payload_size()) =~= payload);
    assert(s.skip(48 + req.payload_size()) =~= next);
}

/// An unlink is understood as the client encoded it.
pub proof fn unlink_understood(devid: u32, basic: UrbHeader, target: u32, rest: Seq<u8>)
    requires
        basic.devid == devid,
        basic.command == USBIP_CMD_UNLINK,
        rest.len() >= 24,
    ensures
        request_of(devid, basic.wire() + crate::wire::be32(target) + rest) == Ok::<
            UrbRequest,
            SessionError,
        >(UrbRequest::Unlink { seqnum: basic.seqnum, unlink_seqnum: target }),
{
    let s = basic.wire() + crate::wire::be32(target) + rest;
    let tail = crate::wire::be32(target) + rest;
    crate::urb::urb_header_round_trip(basic, tail);
    assert(s =~= basic.wire() + tail);
    assert(s.skip(20) =~= tail);
    assert(tail.subrange(0, 4) =~= crate::wire::be32(target));
    crate::wire::be32_reads_back(tail, 0, target);
}

/// Whatever it asks, a request for another device is refused.
pub proof fn other_device_refused(devid: u32, s: Seq<u8>)
    requires
        s.len() >= 20,
        UrbHeader::parse(s).devid != devid,
    ensures
        request_of(devid, s) == Err::<UrbRequest, SessionError>(
            SessionError::DevidMismatch { got: UrbHeader::parse(s).devid, expected: devid },
        ),
{
}

/// What a device did for a submit.
#[derive(Debug)]
pub struct TransferDone {
    pub actual_length: usize,
    /// What came from the device.
    pub data: Vec<u8>,
}

impl TransferDone {
    /// A control transfer that brought `data` and sent `sent` bytes. It is as long as
    /// what went in its direction.
    pub fn control(dir_in: bool, data: Vec<u8>, sent: usize) -> (t: TransferDone)
        ensures
            t.data == data,
            t.actual_length == if dir_in {
                data@.len()
            } else {
                sent as nat
            },
    {
        let actual_length: usize = if dir_in {
            data.len()
        } else {
            sent
        };
        TransferDone { actual_length, data }
    }
}

/// What a client is told of a submit.
#[verifier::ext_equal]
pub struct Answer {
    pub status: i32,
    pub actual_length: i32,
    pub payload: Seq<u8>,
}

/// What a client is told of the submit `req`, given what the device did, if it did
/// anything: data only of a transfer from the device, and no more than fits the
/// client's buffer.
pub open spec fn answer(req: SubmitRequest, done: Option<TransferDone>) -> Answer {
    match done {
        None => Answer { status: EPIPE, actual_length: 0, payload: Seq::empty() },
        Some(done) => if req.dir_in && done.data@.len() > req.length {
            Answer { status: EOVERFLOW, actual_length: 0, payload: Seq::empty() }
        } else {
            Answer {
                status: 0,
                actual_length: if done.actual_length > i32::MAX {
                    i32::MAX
                } else {
                    done.actual_length as i32
                },
                payload: if req.dir_in {
                    done.data@
                } else {
                    Seq::empty()
                },
            }
        },
    }
}

/// The bytes of an answer to submit `seqnum`.
pub open spec fn answer_wire(seqnum: u32, a: Answer) -> Seq<u8> {
    crate::urb::reply_header(crate::urb::USBIP_RET_SUBMIT, seqnum).wire()
        + crate::wire::be32_signed(a.status) + crate::wire::be32_signed(a.actual_length)
        + crate::wire::be32_signed(0) + crate::wire::be32_signed(0) + crate::wire::be32_signed(0)
        + crate::wire::zeros(8) + a.payload
}

/// The reply to the submit `req`, given what the device did, if it did anything. A
/// submit that was cancelled is not answered.
pub fn submit_reply(req: &SubmitRequest, cancelled: bool, done: Option<TransferDone>) -> (r: Option<
    Vec<u8>,
>)
    ensures
        cancelled ==> r is None,
        !cancelled ==> (r matches Some(bytes) && bytes@ == answer_wire(
            req.seqnum,
            answer(*req, done),
        )),
{
    if cancelled {
        return None;
    }
    let ghost a = answer(*req, done);
    let mut ret: RetSubmit = RetSubmit::default();
    let mut payload: Vec<u8> = Vec::new();
    match done {
        None => {
            ret.status = EPIPE;
        },
        Some(done) => {
            if req.dir_in && done.data.len() > req.length {
                ret.status = EOVERFLOW;
            } else {
                ret.actual_length = if done.actual_length > i32::MAX as usize {
                    i32::MAX
                } else {
                    done.actual_length as i32
                };
                if req.dir_in {
                    payload = done.data;
                }
            }
        },
    }
    assert(payload@ =~= a.payload);
    let mut out: Vec<u8> = Vec::new();
    write_ret_submit(&mut out, req.seqnum, &ret, payload.as_slice());
    assert(out@ =~= answer_wire(req.seqnum, a));
    Some(out)
}

/// A client that reads an answer finds what it is told where it looks for it.
pub proof fn answer_reads_back(seqnum: u32, a: Answer)
    ensures
        ({
            let s = answer_wire(seqnum, a);
            &&& s.len() == 48 + a.payload.len()
            &&& UrbHeader::parse(s) == crate::urb::reply_header(
                crate::urb::USBIP_RET_SUBMIT,
                seqnum,
            )
            &&& crate::wire::from_be32_signed(s, 20) == a.status
            &&& crate::wire::from_be32_signed(s, 24) == a.actual_length
            &&& s.skip(48) == a.payload
        }),
{
    let s = answer_wire(seqnum, a);
    let h = crate::urb::reply_header(crate::urb::USBIP_RET_SUBMIT, seqnum);
    let tail = s.skip(20);
    assert(h.wire().len() == 20);
    assert(s =~= h.wire() + tail);
    crate::urb::urb_header_round_trip(h, tail);
    assert(s.subrange(20, 24) =~= crate::wire::be32_signed(a.status));
    assert(s.subrange(24, 28) =~= crate::wire::be32_signed(a.actual_length));
    crate::wire::be32_signed_reads_back(s, 20, a.status);
    crate::wire::be32_signed_reads_back(s, 24, a.actual_length);
    assert(s.skip(48) =~= a.payload);
}

/// A client never gets more data than its buffer holds, and none for a transfer to
/// the device.
pub proof fn answer_fits_buffer(req: SubmitRequest, done: Option<TransferDone>)
    ensures
        answer(req, done).payload.len() <= req.length,
        !req.dir_in ==> answer(req, done).payload.len() == 0,
        answer(req, done).status != 0 ==> answer(req, done).payload.len() == 0 && answer(
            req,
            done,
        ).actual_length == 0,
{
}

/// Where the device counts what it brought, the length that the client is told is
/// the length of the data that follows.
pub proof fn answer_counts_payload(req: SubmitRequest, done: TransferDone)
    requires
        req.dir_in,
        req.length <= i32::MAX,
        done.actual_length == done.data@.len(),
    ensures
        answer(req, Some(done)).actual_length == answer(req, Some(done)).payload.len(),
{
}

/// What the device brings reaches the client: who reads the reply to a transfer from the
/// device finds success, the length of the data, and the data.
pub proof fn data_reaches_client(req: SubmitRequest, done: TransferDone)
    requires
        req.dir_in,
        req.length <= i32::MAX,
        done.data@.len() <= req.length,
        done.actual_length == done.data@.len(),
    ensures
        ({
            let s = answer_wire(req.seqnum, answer(req, Some(done)));
            &&& UrbHeader::parse(s).command == crate::urb::USBIP_RET_SUBMIT
            &&& UrbHeader::parse(s).seqnum == req.seqnum
            &&& crate::wire::from_be32_signed(s, 20) == 0
            &&& crate::wire::from_be32_signed(s, 24) == done.data@.len()
            &&& s.skip(48) == done.data@
        }),
{
    answer_reads_back(req.seqnum, answer(req, Some(done)));
}

/// The buffer of a request that came over the wire is no longer than its length
/// field can say.
pub proof fn request_length_bounded(basic: UrbHeader, cmd: crate::urb::SubmitFields)
    ensures
        SubmitRequest::of(basic, cmd).length <= i32::MAX,
        cmd.transfer_buffer_length >= 0 ==> SubmitRequest::of(basic, cmd).length
            == cmd.transfer_buffer_length,
        cmd.transfer_buffer_length < 0 ==> SubmitRequest::of(basic, cmd).length == 0,
{
}

/// A submit in flight: what stops it, and the endpoint it waits for.
#[derive(Debug)]
pub struct InflightUrb<H> {
    pub handle: H,
    pub ep_addr: u8,
}

/// What to stop when a submit is cancelled.
#[derive(Debug)]
pub struct Cancellation<H> {
    pub handle: H,
    /// The endpoint whose transfers are to be cancelled. A control transfer has none.
    pub endpoint: Option<u8>,
}

/// What happens to the submits in flight.
pub enum InflightStep<H> {
    /// A submit starts.
    Begin { seqnum: u32, urb: InflightUrb<H> },
    /// A submit comes to its end or is cancelled.
    End { seqnum: u32 },
}

impl<H> InflightStep<H> {
    /// The sequence number that the step is about.
    pub open spec fn about(self) -> u32 {
        match self {
            InflightStep::Begin { seqnum, urb } => seqnum,
            InflightStep::End { seqnum } => seqnum,
        }
    }
}

/// The submits in flight after `step`, where `m` were before.
pub open spec fn inflight_step<H>(
    m: Map<u32, InflightUrb<H>>,
    step: InflightStep<H>,
) -> Map<u32, InflightUrb<H>> {
    match step {
        InflightStep::Begin { seqnum, urb } => m.insert(seqnum, urb),
        InflightStep::End { seqnum } => m.remove(seqnum),
    }
}

/// The submits in flight after `steps`.
pub open spec fn inflight_after<H>(steps: Seq<InflightStep<H>>) -> Map<u32, InflightUrb<H>>
    decreases steps.len(),
{
    if steps.len() == 0 {
        Map::empty()
    } else {
        inflight_step(inflight_after(steps.drop_last()), steps.last())
    }
}

/// `target` is what stops the submit `seqnum`, where it is in flight, and nothing
/// where it is not.
pub open spec fn cancels<H>(
    inflight: Map<u32, InflightUrb<H>>,
    seqnum: u32,
    target: Option<Cancellation<H>>,
) -> bool {
    match target {
        None => !inflight.contains_key(seqnum),
        Some(c) => {
            &&& inflight.contains_key(seqnum)
            &&& c.handle == inflight[seqnum].handle
            &&& c.endpoint == if inflight[seqnum].ep_addr != 0 {
                Some(inflight[seqnum].ep_addr)
            } else {
                None
            }
        },
    }
}

/// `list` holds each submit in flight once, with what stops it.
pub open spec fn lists<H>(inflight: Map<u32, InflightUrb<H>>, list: Seq<(u32, H)>) -> bool {
    &&& list.len() == inflight.dom().len()
    &&& forall|i: int|
        0 <= i < list.len() ==> inflight.contains_key((#[trigger] list[i]).0) && list[i].1
            == inflight[list[i].0].handle
    &&& forall|i: int, j: int|
        0 <= i < j < list.len() ==> (#[trigger] list[i]).0 != (#[trigger] list[j]).0
    &&& forall|k: u32|
        inflight.contains_key(k) ==> exists|i: int|
            0 <= i < list.len() && (#[trigger] list[i]).0 == k
}

/// The submits in flight of one session, by sequence number. `H` is what stops one.
#[derive(Debug)]
pub struct InflightTable<H> {
    by_seqnum: HashMap<u32, InflightUrb<H>>,
}

impl<H> View for InflightTable<H> {
    type V = Map<u32, InflightUrb<H>>;

    closed spec fn view(&self) -> Map<u32, InflightUrb<H>> {
        self.by_seqnum@
    }
}

impl<H> InflightTable<H> {
    /// Nothing is in flight.
    pub fn new() -> (t: InflightTable<H>)
        ensures
            t@ == Map::<u32, InflightUrb<H>>::empty(),
    {
        InflightTable { by_seqnum: HashMap::new() }
    }

    /// How many submits are in flight.
    pub fn len(&self) -> (n: usize)
        ensures
            n == self@.dom().len(),
            self@.dom().finite(),
    {
        broadcast use vstd::std_specs::hash::group_hash_axioms;

        self.by_seqnum.len()
    }

    /// The submit `seqnum` has started. One that had the number before is forgotten.
    pub fn begin(&mut self, seqnum: u32, handle: H, ep_addr: u8)
        ensures
            final(self)@ == inflight_step(
                old(self)@,
                (InflightStep::Begin { seqnum, urb: InflightUrb { handle, ep_addr } }),
            ),
    {
        broadcast use vstd::std_specs::hash::group_hash_axioms;

        self.by_seqnum.insert(seqnum, InflightUrb { handle, ep_addr });
    }

    /// The submit `seqnum` has come to its end.
    pub fn finish(&mut self, seqnum: u32)
        ensures
            final(self)@ == inflight_step(old(self)@, (InflightStep::End { seqnum })),
    {
        broadcast use vstd::std_specs::hash::group_hash_axioms;

        self.by_seqnum.remove(&seqnum);
    }

    /// The client asks in request `seqnum` to cancel the submit `unlink_seqnum`: what
    /// to stop, and the reply. A submit that has ended, or never was, is nothing to
    /// stop, and the reply is the same.
    pub fn unlink(&mut self, seqnum: u32, unlink_seqnum: u32) -> (r: (
        Option<Cancellation<H>>,
        Vec<u8>,
    ))
        ensures
            final(self)@ == inflight_step(
                old(self)@,
                (InflightStep::End { seqnum: unlink_seqnum }),
            ),
            r.1@ == crate::urb::ret_unlink_wire(seqnum, 0),
            cancels(old(self)@, unlink_seqnum, r.0),
    {
        broadcast use vstd::std_specs::hash::group_hash_axioms;

        let mut out: Vec<u8> = Vec::new();
        write_ret_unlink(&mut out, seqnum, 0);
        assert(out@ =~= crate::urb::ret_unlink_wire(seqnum, 0));
        match self.by_seqnum.remove(&unlink_seqnum) {
            Some(urb) => {
                let endpoint: Option<u8> = if urb.ep_addr != 0 {
                    Some(urb.ep_addr)
                } else {
                    None
                };
                (Some(Cancellation { handle: urb.handle, endpoint }), out)
            },
            None => (None, out),
        }
    }

    /// The client has left: everything that was in flight is to be stopped. Each
    /// submit comes once, in no particular order.
    pub fn drain(&mut self) -> (r: Vec<(u32, H)>)
        ensures
            final(self)@ == Map::<u32, InflightUrb<H>>::empty(),
            lists(old(self)@, r@),
    {
        broadcast use vstd::std_specs::hash::group_hash_axioms;

        let ghost start = self.by_seqnum@;
        let ghost listed = vstd::std_specs::iter::IteratorSpec::remaining(
            &vstd::std_specs::hash::spec_keys_iter(&self.by_seqnum),
        );
        let mut seqnums: Vec<u32> = Vec::new();
        for k in it: self.by_seqnum.keys()
            invariant
                it.seq() == listed,
                self.by_seqnum@ == start,
                seqnums@.len() == it.index(),
                forall|i: int| 0 <= i < it.index() ==> seqnums@[i] == *it.seq()[i],
        {
            seqnums.push(*k);
        }
        assert(seqnums@ =~= listed.unref());
        assert forall|i: int, j: int| 0 <= i < j < seqnums@.len() implies seqnums@[i]
            != seqnums@[j] by {
            assert(listed[i] != listed[j]);
        }
        assert forall|k: u32| start.contains_key(k) == seqnums@.contains(k) by {
            assert(listed.unref().to_set().contains(k) == start.dom().contains(k));
        }
        let mut r: Vec<(u32, H)> = Vec::new();
        let mut i: usize = 0;
        while i < seqnums.len()
            invariant
                i <= seqnums@.len(),
                forall|k: u32| start.contains_key(k) == seqnums@.contains(k),
                forall|a: int, b: int|
                    0 <= a < b < seqnums@.len() ==> seqnums@[a] != seqnums@[b],
                forall|k: u32|
                    #[trigger] self.by_seqnum@.contains_key(k) == (start.contains_key(k)
                        && !seqnums@.take(i as int).contains(k)),
                forall|k: u32|
                    self.by_seqnum@.contains_key(k) ==> self.by_seqnum@[k] == start[k],
                r@.len() == i,
                forall|a: int|
                    0 <= a < i ==> (#[trigger] r@[a]).0 == seqnums@[a] && r@[a].1
                        == start[seqnums@[a]].handle,
            decreases seqnums@.len() - i,
        {
            let seqnum: u32 = seqnums[i];
            let ghost done = seqnums@.take(i as int);
            assert(!done.contains(seqnum));
            assert(seqnums@.contains(seqnum));
            assert(seqnums@.take(i + 1) =~= done.push(seqnum));
            assert forall|k: u32| done.push(seqnum).contains(k) == (done.contains(k) || k
                == seqnum) by {
                if done.contains(k) {
                    let a = done.index_of(k);
                    assert(done.push(seqnum)[a] == k);
                }
                assert(done.push(seqnum)[i as int] == seqnum);
            }
            let ghost before = self.by_seqnum@;
            assert(before.contains_key(seqnum));
            if let Some(urb) = self.by_seqnum.remove(&seqnum) {
                r.push((seqnum, urb.handle));
            }
            i += 1;
            assert forall|k: u32| #[trigger]
                self.by_seqnum@.contains_key(k) == (start.contains_key(k) && !seqnums@.take(
                    i as int,
                ).contains(k)) by {
                assert(before.contains_key(k) == (start.contains_key(k) && !done.contains(k)));
            }
        }
        assert(seqnums@.take(i as int) =~= seqnums@);
        assert forall|k: u32| !self.by_seqnum@.contains_key(k) by {
            assert(start.contains_key(k) == seqnums@.contains(k));
        }
        assert(self.by_seqnum@ =~= Map::<u32, InflightUrb<H>>::empty());
        assert forall|k: u32| start.contains_key(k) implies exists|i: int|
            0 <= i < r@.len() && (#[trigger] r@[i]).0 == k by {
            let i = seqnums@.index_of(k);
            assert(r@[i].0 == k);
        }
        r
    }
}

/// A submit is in flight if and only if the last thing that happened under its
/// number is that it started.
pub proof fn in_flight_by_last_step<H>(steps: Seq<InflightStep<H>>, seqnum: u32)
    ensures
        inflight_after(steps).contains_key(seqnum) <==> exists|i: int|
            0 <= i < steps.len() && (#[trigger] steps[i]) is Begin && steps[i].about() == seqnum
                && forall|j: int| i < j < steps.len() ==> (#[trigger] steps[j]).about() != seqnum,
    decreases steps.len(),
{
    if steps.len() > 0 {
        let n = steps.len() - 1;
        let before = steps.drop_last();
        in_flight_by_last_step(before, seqnum);
        if steps[n].about() == seqnum {
            if steps[n] is Begin {
                assert(inflight_after(steps).contains_key(seqnum));
            }
        } else {
            if inflight_after(before).contains_key(seqnum) {
                let i = choose|i: int|
                    0 <= i < before.len() && (#[trigger] before[i]) is Begin && before[i].about()
                        == seqnum && forall|j: int|
                        i < j < before.len() ==> (#[trigger] before[j]).about() != seqnum;
                assert(steps[i] is Begin);
                assert forall|j: int| i < j < steps.len() implies (#[trigger] steps[j]).about()
                    != seqnum by {
                    if j < n {
                        assert(before[j] == steps[j]);
                    }
                }
            }
            if exists|i: int|
                0 <= i < steps.len() && (#[trigger] steps[i]) is Begin && steps[i].about() == seqnum
                    && forall|j: int|
                    i < j < steps.len() ==> (#[trigger] steps[j]).about() != seqnum {
                let i = choose|i: int|
                    0 <= i < steps.len() && (#[trigger] steps[i]) is Begin && steps[i].about()
                        == seqnum && forall|j: int|
                        i < j < steps.len() ==> (#[trigger] steps[j]).about() != seqnum;
                assert(i < n);
                assert(before[i] is Begin);
                assert forall|j: int| i < j < before.len() implies (#[trigger] before[j]).about()
                    != seqnum by {
                    assert(before[j] == steps[j]);
                }
            }
        }
    }
}

/// What to do with a request.
#[derive(Debug)]
pub enum Action<H> {
    /// Read the payload, wait until [`Session::may_start`], start the transfer, and say so
    /// with [`Session::started`].
    Start(SubmitRequest),
    /// Stop what is to be stopped and send the reply.
    Cancel { target: Option<Cancellation<H>>, reply: Vec<u8> },
    /// Close the connection.
    Close(SessionError),
}

/// The session of one client. `H` is what stops a submit.
#[derive(Debug)]
pub struct Session<H> {
    devid: u32,
    inflight: InflightTable<H>,
    running: usize,
}

impl<H> Session<H> {
    /// The number by which the client names the device.
    pub closed spec fn device(self) -> u32 {
        self.devid
    }

    /// The submits in flight.
    pub closed spec fn inflight(self) -> Map<u32, InflightUrb<H>> {
        self.inflight@
    }

    /// How many transfers have started and are not over. That of a submit which was
    /// cancelled counts until it has stopped.
    pub closed spec fn running(self) -> nat {
        self.running as nat
    }

    /// Every submit in flight has a transfer that runs, and no more of them run than may.
    pub open spec fn wf(self) -> bool {
        &&& self.inflight().dom().finite()
        &&& self.inflight().dom().len() <= self.running()
        &&& self.running() <= MAX_INFLIGHT_URBS
    }

    /// A session with the device `devnum` of bus `busnum`.
    pub fn new(busnum: u32, devnum: u32) -> (s: Session<H>)
        ensures
            s.wf(),
            s.device() == device_id(busnum, devnum),
            s.inflight() == Map::<u32, InflightUrb<H>>::empty(),
            s.running() == 0,
    {
        Session { devid: devid_of(busnum, devnum), inflight: InflightTable::new(), running: 0 }
    }

    /// The header of a request has come.
    pub fn on_header(&mut self, header: &[u8]) -> (a: Action<H>)
        requires
            old(self).wf(),
        ensures
            final(self).wf(),
            final(self).device() == old(self).device(),
            final(self).running() == old(self).running(),
            match request_of(old(self).device(), header@) {
                Err(e) => a == Action::<H>::Close(e) && final(self).inflight() == old(
                    self,
                ).inflight(),
                Ok(UrbRequest::Submit(req)) => a == Action::<H>::Start(req)
                    && final(self).inflight() == old(self).inflight(),
                Ok(UrbRequest::Unlink { seqnum, unlink_seqnum }) => {
                    &&& a is Cancel
                    &&& a->reply@ == crate::urb::ret_unlink_wire(seqnum, 0)
                    &&& final(self).inflight() == inflight_step(
                        old(self).inflight(),
                        (InflightStep::End { seqnum: unlink_seqnum }),
                    )
                    &&& cancels(old(self).inflight(), unlink_seqnum, a->target)
                },
            },
    {
        match decode_request(self.devid, header) {
            Err(e) => Action::Close(e),
            Ok(UrbRequest::Submit(req)) => Action::Start(req),
            Ok(UrbRequest::Unlink { seqnum, unlink_seqnum }) => {
                let (target, reply) = self.inflight.unlink(seqnum, unlink_seqnum);
                Action::Cancel { target, reply }
            },
        }
    }

    /// Whether one more transfer may start now.
    pub fn may_start(&self) -> (b: bool)
        ensures
            b == (self.running() < MAX_INFLIGHT_URBS),
    {
        self.running < MAX_INFLIGHT_URBS
    }

    /// The transfer of `req` has started, and `handle` stops it.
    pub fn started(&mut self, req: &SubmitRequest, handle: H)
        requires
            old(self).wf(),
            old(self).running() < MAX_INFLIGHT_URBS,
        ensures
            final(self).wf(),
            final(self).device() == old(self).device(),
            final(self).running() == old(self).running() + 1,
            final(self).inflight() == inflight_step(
                old(self).inflight(),
                (InflightStep::Begin {
                    seqnum: req.seqnum,
                    urb: InflightUrb { handle, ep_addr: endpoint_address(req.ep, req.dir_in) },
                }),
            ),
    {
        self.inflight.begin(req.seqnum, handle, req.ep_addr());
        self.running = self.running + 1;
    }

    /// The submit `seqnum` has been carried out: it is no longer in flight.
    pub fn finished(&mut self, seqnum: u32)
        requires
            old(self).wf(),
        ensures
            final(self).wf(),
            final(self).device() == old(self).device(),
            final(self).running() == old(self).running(),
            final(self).inflight() == inflight_step(
                old(self).inflight(),
                (InflightStep::End { seqnum }),
            ),
    {
        self.inflight.finish(seqnum);
    }

    /// A transfer is over, and another may start in its place. Its submit has finished or
    /// was cancelled; while every transfer that runs has its submit in flight, none is over.
    pub fn ended(&mut self)
        requires
            old(self).wf(),
        ensures
            final(self).wf(),
            final(self).device() == old(self).device(),
            final(self).inflight() == old(self).inflight(),
            old(self).inflight().dom().len() < old(self).running() ==> final(self).running()
                == old(self).running() - 1,
            old(self).inflight().dom().len() == old(self).running() ==> final(self).running()
                == old(self).running(),
    {
        if self.inflight.len() < self.running {
            self.running = self.running - 1;
        }
    }

    /// The client has left: the submits to stop, each once.
    pub fn close(&mut self) -> (r: Vec<(u32, H)>)
        requires
            old(self).wf(),
        ensures
            final(self).wf(),
            final(self).device() == old(self).device(),
            final(self).running() == old(self).running(),
            final(self).inflight() == Map::<u32, InflightUrb<H>>::empty(),
            lists(old(self).inflight(), r@),
    {
        self.inflight.drain()
    }
}

/// No more than [`MAX_INFLIGHT_URBS`] submits of a session are in flight at a time,
/// whatever the client sends, and while that many are, no other may start.
pub proof fn inflight_is_capped<H>(s: Session<H>)
    requires
        s.wf(),
    ensures
        s.inflight().dom().len() <= MAX_INFLIGHT_URBS <= 256,
        s.running() <= 256,
        s.inflight().dom().len() == MAX_INFLIGHT_URBS ==> s.running() == MAX_INFLIGHT_URBS,
{
}

/// What the words of a header mean. The device is at byte 8 and decides first. Command 1,
/// at byte 0, is a submit: its number is at byte 4, it is from the device if the word at
/// byte 12 is 1, its endpoint is at byte 16, its length at byte 24, where a negative one
/// is none, and its SETUP packet, with the low bytes first, at byte 40. Command 2 is an
/// unlink of the number at byte 20. There are no other commands.
pub proof fn request_layout(devid: u32, s: Seq<u8>)
    requires
        s.len() >= 48,
    ensures
        ({
            let command = crate::wire::from_be32(s, 0);
            let got = crate::wire::from_be32(s, 8);
            let length = crate::wire::from_be32_signed(s, 24);
            &&& got != devid ==> request_of(devid, s) == Err::<UrbRequest, SessionError>(
                SessionError::DevidMismatch { got, expected: devid },
            )
            &&& got == devid && command == 1 ==> (request_of(devid, s) matches Ok(
                UrbRequest::Submit(req),
            ) && {
                &&& req.seqnum == crate::wire::from_be32(s, 4)
                &&& req.dir_in <==> crate::wire::from_be32(s, 12) == 1
                &&& req.ep == crate::wire::from_be32(s, 16)
                &&& length >= 0 ==> req.length == length
                &&& length < 0 ==> req.length == 0
                &&& req.setup.bm_request_type == s[40]
                &&& req.setup.b_request == s[41]
                &&& req.setup.w_value == s[42] + 0x100 * s[43]
                &&& req.setup.w_index == s[44] + 0x100 * s[45]
                &&& req.setup.w_length == s[46] + 0x100 * s[47]
            })
            &&& got == devid && command == 2 ==> request_of(devid, s) == Ok::<
                UrbRequest,
                SessionError,
            >(
                UrbRequest::Unlink {
                    seqnum: crate::wire::from_be32(s, 4),
                    unlink_seqnum: crate::wire::from_be32(s, 20),
                },
            )
            &&& got == devid && command != 1 && command != 2 ==> request_of(devid, s) == Err::<
                UrbRequest,
                SessionError,
            >(SessionError::UnknownCommand(command))
        }),
{
    let rest = s.skip(20);
    assert(rest[0] == s[20] && rest[1] == s[21] && rest[2] == s[22] && rest[3] == s[23]);
    assert(rest[4] == s[24] && rest[5] == s[25] && rest[6] == s[26] && rest[7] == s[27]);
    assert(rest.len() >= 28);
    let setup = crate::urb::SubmitFields::parse(rest).setup;
    assert forall|i: int| 0 <= i < 8 implies #[trigger] setup[i] == s[40 + i] by {
        assert(rest[20 + i] == s[40 + i]);
    }
    crate::urb::setup_packet_layout(setup);
    assert(setup[0] == s[40] && setup[1] == s[41] && setup[2] == s[42] && setup[3] == s[43]
        && setup[4] == s[44] && setup[5] == s[45] && setup[6] == s[46] && setup[7] == s[47]);
}

/// A header that is too short is an error that says how much is missing of which part.
pub proof fn short_request_refused(devid: u32, s: Seq<u8>)
    ensures
        s.len() < 20 ==> request_of(devid, s) == Err::<UrbRequest, SessionError>(
            SessionError::Proto(ProtoError::ShortRead { need: 20, got: s.len() as usize }),
        ),
        20 <= s.len() < 48 && crate::wire::from_be32(s, 8) == devid && (crate::wire::from_be32(s, 0)
            == 1 || crate::wire::from_be32(s, 0) == 2) ==> request_of(devid, s) == Err::<
            UrbRequest,
            SessionError,
        >(SessionError::Proto(ProtoError::ShortRead { need: 28, got: (s.len() - 20) as usize })),
{
}

/// What follows the header of a submit: all of the buffer if it goes to the device, and
/// nothing if it comes from it.
pub proof fn payload_follows(req: SubmitRequest)
    ensures
        req.dir_in ==> req.payload_size() == 0,
        !req.dir_in ==> req.payload_size() == req.length,
{
}

/// The address of an endpoint has the low four bits of its number, and the highest bit for
/// transfers from the device. Endpoint zero has address zero.
pub proof fn endpoint_address_bits(ep: u32, dir_in: bool)
    ensures
        ep == 0 ==> endpoint_address(ep, dir_in) == 0,
        endpoint_address(ep, dir_in) % 128 == ep % 16,
        ep != 0 ==> (endpoint_address(ep, dir_in) >= 128 <==> dir_in),
{
}

/// The number by which a client names a device is the bus number and below it, in sixteen
/// bits, the device number.
pub proof fn device_id_is(busnum: u32, devnum: u32)
    requires
        busnum < 0x1_0000,
        devnum < 0x1_0000,
    ensures
        device_id(busnum, devnum) == busnum * 0x1_0000 + devnum,
{
    device_id_splits(busnum, devnum);
}

/// How a transfer is reported. One that failed has status -32. One from the device that
/// brought more than the buffer holds has status -75. Every other has status zero, the
/// length that was transferred, and the data if it comes from the device.
pub proof fn answers_report(req: SubmitRequest, done: TransferDone)
    ensures
        answer(req, None).status == -32,
        answer(req, None).actual_length == 0,
        answer(req, None).payload.len() == 0,
        answer(req, Some(done)).status == 0 <==> !(req.dir_in && done.data@.len() > req.length),
        req.dir_in && done.data@.len() > req.length ==> {
            &&& answer(req, Some(done)).status == -75
            &&& answer(req, Some(done)).actual_length == 0
            &&& answer(req, Some(done)).payload.len() == 0
        },
        answer(req, Some(done)).status == 0 && done.actual_length <= 0x7fff_ffff ==> answer(
            req,
            Some(done),
        ).actual_length == done.actual_length,
        answer(req, Some(done)).status == 0 && done.actual_length > 0x7fff_ffff ==> answer(
            req,
            Some(done),
        ).actual_length == 0x7fff_ffff,
        answer(req, Some(done)).status == 0 && req.dir_in ==> answer(req, Some(done)).payload
            == done.data@,
        !req.dir_in ==> answer(req, Some(done)).payload.len() == 0,
{
}

/// What the device takes is reported: who reads the reply to a transfer to the device
/// finds success, the length that the device took, and nothing more.
pub proof fn writes_are_reported(req: SubmitRequest, done: TransferDone)
    requires
        !req.dir_in,
        done.actual_length <= 0x7fff_ffff,
    ensures
        ({
            let s = answer_wire(req.seqnum, answer(req, Some(done)));
            &&& s.len() == 48
            &&& crate::wire::from_be32(s, 0) == 3
            &&& crate::wire::from_be32(s, 4) == req.seqnum
            &&& crate::wire::from_be32_signed(s, 20) == 0
            &&& crate::wire::from_be32_signed(s, 24) == done.actual_length
        }),
{
    answer_layout(req.seqnum, answer(req, Some(done)));
}

/// What the device refuses is reported: who reads the reply to a transfer that failed
/// finds status -32, no length and no data.
pub proof fn failures_are_reported(req: SubmitRequest)
    ensures
        ({
            let s = answer_wire(req.seqnum, answer(req, None));
            &&& s.len() == 48
            &&& crate::wire::from_be32(s, 0) == 3
            &&& crate::wire::from_be32(s, 4) == req.seqnum
            &&& crate::wire::from_be32_signed(s, 20) == -32
            &&& crate::wire::from_be32_signed(s, 24) == 0
        }),
{
    answer_layout(req.seqnum, answer(req, None));
}

/// The words of an answer stand where Linux has them, and those that do not count are
/// zero.
pub proof fn answer_layout(seqnum: u32, a: Answer)
    ensures
        ({
            let s = answer_wire(seqnum, a);
            &&& s.len() == 48 + a.payload.len()
            &&& crate::wire::from_be32(s, 0) == 3
            &&& crate::wire::from_be32(s, 4) == seqnum
            &&& forall|i: int| 8 <= i < 20 ==> #[trigger] s[i] == 0
            &&& crate::wire::from_be32_signed(s, 20) == a.status
            &&& crate::wire::from_be32_signed(s, 24) == a.actual_length
            &&& forall|i: int| 28 <= i < 48 ==> #[trigger] s[i] == 0
            &&& s.skip(48) == a.payload
        }),
{
    let s = answer_wire(seqnum, a);
    let h = crate::urb::reply_header(crate::urb::USBIP_RET_SUBMIT, seqnum);
    answer_reads_back(seqnum, a);
    crate::urb::urb_header_layout(s, h);
}

/// What an unlink stops is the submit in flight under its number, by its own handle, with
/// its endpoint unless that is endpoint zero. Without such a submit it stops nothing.
pub proof fn unlink_stops<H>(
    inflight: Map<u32, InflightUrb<H>>,
    seqnum: u32,
    target: Option<Cancellation<H>>,
)
    requires
        cancels(inflight, seqnum, target),
    ensures
        target is Some <==> inflight.contains_key(seqnum),
        target matches Some(c) ==> {
            &&& c.handle == inflight[seqnum].handle
            &&& inflight[seqnum].ep_addr == 0 ==> c.endpoint is None
            &&& inflight[seqnum].ep_addr != 0 ==> c.endpoint == Some(inflight[seqnum].ep_addr)
        },
{
}

/// Starting a submit puts it in flight under its number; ending it takes that number out.
/// No other number is touched.
pub proof fn steps_touch_one_number<H>(
    m: Map<u32, InflightUrb<H>>,
    seqnum: u32,
    urb: InflightUrb<H>,
    other: u32,
)
    requires
        other != seqnum,
    ensures
        inflight_step(m, InflightStep::Begin { seqnum, urb }).contains_key(seqnum),
        inflight_step(m, InflightStep::Begin { seqnum, urb })[seqnum] == urb,
        !inflight_step(m, InflightStep::End { seqnum }).contains_key(seqnum),
        inflight_step(m, InflightStep::Begin { seqnum, urb }).contains_key(other)
            == m.contains_key(other),
        inflight_step(m, InflightStep::End { seqnum }).contains_key(other) == m.contains_key(other),
        m.contains_key(other) ==> inflight_step(m, InflightStep::Begin { seqnum, urb })[other]
            == m[other] && inflight_step(m, InflightStep::End { seqnum })[other] == m[other],
{
}

/// Who stops everything in a list of what was in flight stops every submit, each once and
/// by its own handle, and nothing else.
pub proof fn lists_are_complete<H>(inflight: Map<u32, InflightUrb<H>>, list: Seq<(u32, H)>, k: u32)
    requires
        lists(inflight, list),
    ensures
        list.len() == inflight.dom().len(),
        inflight.contains_key(k) ==> list.contains((k, inflight[k].handle)),
        forall|i: int|
            0 <= i < list.len() && (#[trigger] list[i]).0 == k ==> inflight.contains_key(k)
                && list[i].1 == inflight[k].handle,
        forall|i: int, j: int|
            0 <= i < list.len() && 0 <= j < list.len() && (#[trigger] list[i]).0 == k && (
            #[trigger] list[j]).0 == k ==> i == j,
{
    if inflight.contains_key(k) {
        let i = choose|i: int| 0 <= i < list.len() && (#[trigger] list[i]).0 == k;
        assert(list[i] == (k, inflight[k].handle));
    }
}

/// A session that ends says why, and names the command that it does not know in eight
/// hexadecimal digits.
pub proof fn session_errors_say_why(got: u32, expected: u32, e: ProtoError)
    ensures
        SessionError::Proto(e).text() == e.text(),
        (SessionError::DevidMismatch { got, expected }).text() == "URB devid mismatch"@,
        SessionError::UnknownCommand(got).text() == "unknown URB command 0x"@ + crate::text::hex8(
            got,
        ) + "; closing connection"@,
{
}

/// A transfer may take a minute, and 256 of them may run in one session.
pub proof fn session_limits()
    ensures
        URB_TIMEOUT_SECS == 60,
        MAX_INFLIGHT_URBS == 256,
        EPIPE == -32,
        EOVERFLOW == -75,
{
}

} // verus!
