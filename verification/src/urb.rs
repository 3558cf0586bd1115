//! The messages of an imported device: `CMD_SUBMIT`, `RET_SUBMIT`, `CMD_UNLINK`
//! and `RET_UNLINK`.
//!
//! Each starts with a basic header of 20 bytes and 28 bytes that depend on the
//! command, as in `struct usbip_header` of the Linux sources.

use vstd::prelude::*;

use crate::error::ProtoError;
use crate::wire::{put_bytes, put_i32, put_u32, read_i32, read_u32};

verus! {

pub const USBIP_CMD_SUBMIT: u32 = 0x0000_0001;

pub const USBIP_RET_SUBMIT: u32 = 0x0000_0003;

pub const USBIP_CMD_UNLINK: u32 = 0x0000_0002;

pub const USBIP_RET_UNLINK: u32 = 0x0000_0004;

/// The size of both parts of a URB header.
pub const URB_HEADER_SIZE: usize = 48;

/// The direction of a transfer to the device.
pub const USBIP_DIR_OUT: u32 = 0;

/// The direction of a transfer from the device.
pub const USBIP_DIR_IN: u32 = 1;

/// The basic header of every URB message.
#[derive(Debug, Clone, Copy, PartialEq, Eq, Structural)]
pub struct UrbHeader {
    pub command: u32,
    pub seqnum: u32,
    /// `(busnum << 16) | devnum`.
    pub devid: u32,
    /// [`USBIP_DIR_OUT`] or [`USBIP_DIR_IN`].
    pub direction: u32,
    /// The endpoint number, without the direction bit.
    pub ep: u32,
}

impl UrbHeader {
    pub const SIZE: usize = 20;

    /// The bytes of the header.
    pub open spec fn wire(self) -> Seq<u8> {
        crate::wire::be32(self.command) + crate::wire::be32(self.seqnum) + crate::wire::be32(
            self.devid,
        ) + crate::wire::be32(self.direction) + crate::wire::be32(self.ep)
    }

    /// The header that the first twenty bytes of `s` stand for.
    pub open spec fn parse(s: Seq<u8>) -> UrbHeader {
        UrbHeader {
            command: crate::wire::from_be32(s, 0),
            seqnum: crate::wire::from_be32(s, 4),
            devid: crate::wire::from_be32(s, 8),
            direction: crate::wire::from_be32(s, 12),
            ep: crate::wire::from_be32(s, 16),
        }
    }

    /// Appends the bytes of the header.
    pub fn encode(&self, out: &mut Vec<u8>)
        ensures
            final(out)@ == old(out)@ + self.wire(),
    {
        put_u32(out, self.command);
        put_u32(out, self.seqnum);
        put_u32(out, self.devid);
        put_u32(out, self.direction);
        put_u32(out, self.ep);
        assert(out@ =~= old(out)@ + self.wire());
    }

    /// The header at the start of `buf`.
    pub fn decode(buf: &[u8]) -> (r: Result<UrbHeader, ProtoError>)
        ensures
            buf@.len() >= 20 ==> r == Ok::<UrbHeader, ProtoError>(UrbHeader::parse(buf@)),
            r matches Ok(h) ==> {
                &&& h.command == crate::wire::from_be32(buf@, 0)
                &&& h.seqnum == crate::wire::from_be32(buf@, 4)
                &&& h.devid == crate::wire::from_be32(buf@, 8)
                &&& h.direction == crate::wire::from_be32(buf@, 12)
                &&& h.ep == crate::wire::from_be32(buf@, 16)
            },
            buf@.len() < 20 ==> r == Err::<UrbHeader, ProtoError>(
                ProtoError::ShortRead { need: 20, got: buf@.len() as usize },
            ),
    {
        if buf.len() < Self::SIZE {
            return Err(ProtoError::ShortRead { need: Self::SIZE, got: buf.len() });
        }
        let mut o: usize = 0;
        let command: u32 = read_u32(buf, &mut o);
        let seqnum: u32 = read_u32(buf, &mut o);
        let devid: u32 = read_u32(buf, &mut o);
        let direction: u32 = read_u32(buf, &mut o);
        let ep: u32 = read_u32(buf, &mut o);
        Ok(UrbHeader { command, seqnum, devid, direction, ep })
    }
}

/// What was encoded is decoded, whatever follows it in the buffer.
pub proof fn urb_header_round_trip(h: UrbHeader, rest: Seq<u8>)
    ensures
        h.wire().len() == 20,
        UrbHeader::parse(h.wire() + rest) == h,
{
    let s = h.wire() + rest;
    assert(s.subrange(0, 4) =~= crate::wire::be32(h.command));
    assert(s.subrange(4, 8) =~= crate::wire::be32(h.seqnum));
    assert(s.subrange(8, 12) =~= crate::wire::be32(h.devid));
    assert(s.subrange(12, 16) =~= crate::wire::be32(h.direction));
    assert(s.subrange(16, 20) =~= crate::wire::be32(h.ep));
    crate::wire::be32_reads_back(s, 0, h.command);
    crate::wire::be32_reads_back(s, 4, h.seqnum);
    crate::wire::be32_reads_back(s, 8, h.devid);
    crate::wire::be32_reads_back(s, 12, h.direction);
    crate::wire::be32_reads_back(s, 16, h.ep);
}

/// The second part of a `CMD_SUBMIT` header.
#[derive(Debug, Clone, Copy, PartialEq, Eq)]
pub struct CmdSubmit {
    pub transfer_flags: u32,
    /// The size of the transfer buffer. Clients send no negative one.
    pub transfer_buffer_length: i32,
    pub start_frame: i32,
    /// `-1` for transfers that are not isochronous.
    pub number_of_packets: i32,
    pub interval: i32,
    /// The SETUP packet of a control transfer, little-endian; else zeros.
    pub setup: [u8; 8],
}

/// The contents of a [`CmdSubmit`].
#[verifier::ext_equal]
pub struct SubmitFields {
    pub transfer_flags: u32,
    pub transfer_buffer_length: i32,
    pub start_frame: i32,
    pub number_of_packets: i32,
    pub interval: i32,
    pub setup: Seq<u8>,
}

impl View for CmdSubmit {
    type V = SubmitFields;

    open spec fn view(&self) -> SubmitFields {
        SubmitFields {
            transfer_flags: self.transfer_flags,
            transfer_buffer_length: self.transfer_buffer_length,
            start_frame: self.start_frame,
            number_of_packets: self.number_of_packets,
            interval: self.interval,
            setup: self.setup@,
        }
    }
}

impl SubmitFields {
    /// The bytes of the fields.
    pub open spec fn wire(self) -> Seq<u8> {
        crate::wire::be32(self.transfer_flags) + crate::wire::be32_signed(
            self.transfer_buffer_length,
        ) + crate::wire::be32_signed(self.start_frame) + crate::wire::be32_signed(
            self.number_of_packets,
        ) + crate::wire::be32_signed(self.interval) + self.setup
    }

    /// The fields that the first 28 bytes of `s` stand for.
    pub open spec fn parse(s: Seq<u8>) -> SubmitFields {
        SubmitFields {
            transfer_flags: crate::wire::from_be32(s, 0),
            transfer_buffer_length: crate::wire::from_be32_signed(s, 4),
            start_frame: crate::wire::from_be32_signed(s, 8),
            number_of_packets: crate::wire::from_be32_signed(s, 12),
            interval: crate::wire::from_be32_signed(s, 16),
            setup: s.subrange(20, 28),
        }
    }
}

impl CmdSubmit {
    pub const SIZE: usize = 28;

    /// Appends the bytes of the fields.
    pub fn encode(&self, out: &mut Vec<u8>)
        ensures
            final(out)@ == old(out)@ + self@.wire(),
    {
        put_u32(out, self.transfer_flags);
        put_i32(out, self.transfer_buffer_length);
        put_i32(out, self.start_frame);
        put_i32(out, self.number_of_packets);
        put_i32(out, self.interval);
        put_bytes(out, self.setup.as_slice());
        assert(out@ =~= old(out)@ + self@.wire());
    }

    /// The fields at the start of `buf`.
    pub fn decode(buf: &[u8]) -> (r: Result<CmdSubmit, ProtoError>)
        ensures
            buf@.len() >= 28 ==> (r matches Ok(cmd) && cmd@ == SubmitFields::parse(buf@)),
            r matches Ok(cmd) ==> {
                &&& cmd.transfer_flags == crate::wire::from_be32(buf@, 0)
                &&& cmd.transfer_buffer_length == crate::wire::from_be32_signed(buf@, 4)
                &&& cmd.start_frame == crate::wire::from_be32_signed(buf@, 8)
                &&& cmd.number_of_packets == crate::wire::from_be32_signed(buf@, 12)
                &&& cmd.interval == crate::wire::from_be32_signed(buf@, 16)
                &&& cmd.setup@ == buf@.subrange(20, 28)
            },
            buf@.len() < 28 ==> r == Err::<CmdSubmit, ProtoError>(
                ProtoError::ShortRead { need: 28, got: buf@.len() as usize },
            ),
    {
        if buf.len() < Self::SIZE {
            return Err(ProtoError::ShortRead { need: Self::SIZE, got: buf.len() });
        }
        let mut o: usize = 0;
        let transfer_flags: u32 = read_u32(buf, &mut o);
        let transfer_buffer_length: i32 = read_i32(buf, &mut o);
        let start_frame: i32 = read_i32(buf, &mut o);
        let number_of_packets: i32 = read_i32(buf, &mut o);
        let interval: i32 = read_i32(buf, &mut o);
        let setup: [u8; 8] = [
            buf[20],
            buf[21],
            buf[22],
            buf[23],
            buf[24],
            buf[25],
            buf[26],
            buf[27],
        ];
        let cmd = CmdSubmit {
            transfer_flags,
            transfer_buffer_length,
            start_frame,
            number_of_packets,
            interval,
            setup,
        };
        assert(cmd@ =~= SubmitFields::parse(buf@));
        Ok(cmd)
    }
}

/// What was encoded is decoded, whatever follows it in the buffer.
pub proof fn cmd_submit_round_trip(cmd: CmdSubmit, rest: Seq<u8>)
    ensures
        cmd@.wire().len() == 28,
        SubmitFields::parse(cmd@.wire() + rest) == cmd@,
{
    let f = cmd@;
    let s = f.wire() + rest;
    assert(s.subrange(0, 4) =~= crate::wire::be32(f.transfer_flags));
    assert(s.subrange(4, 8) =~= crate::wire::be32_signed(f.transfer_buffer_length));
    assert(s.subrange(8, 12) =~= crate::wire::be32_signed(f.start_frame));
    assert(s.subrange(12, 16) =~= crate::wire::be32_signed(f.number_of_packets));
    assert(s.subrange(16, 20) =~= crate::wire::be32_signed(f.interval));
    crate::wire::be32_reads_back(s, 0, f.transfer_flags);
    crate::wire::be32_signed_reads_back(s, 4, f.transfer_buffer_length);
    crate::wire::be32_signed_reads_back(s, 8, f.start_frame);
    crate::wire::be32_signed_reads_back(s, 12, f.number_of_packets);
    crate::wire::be32_signed_reads_back(s, 16, f.interval);
    assert(s.subrange(20, 28) =~= f.setup);
    assert(SubmitFields::parse(s) =~= f);
}

/// The SETUP packet of a control transfer.
#[derive(Debug, Clone, Copy, PartialEq, Eq, Structural)]
pub struct SetupPacket {
    pub bm_request_type: u8,
    pub b_request: u8,
    pub w_value: u16,
    pub w_index: u16,
    pub w_length: u16,
}

impl SetupPacket {
    /// The packet that eight bytes stand for; its numbers are little-endian.
    pub open spec fn parse(s: Seq<u8>) -> SetupPacket {
        SetupPacket {
            bm_request_type: s[0],
            b_request: s[1],
            w_value: (s[2] + s[3] * 0x100) as u16,
            w_index: (s[4] + s[5] * 0x100) as u16,
            w_length: (s[6] + s[7] * 0x100) as u16,
        }
    }

    /// The packet that `b` stands for.
    pub fn from_bytes(b: [u8; 8]) -> (p: SetupPacket)
        ensures
            p == SetupPacket::parse(b@),
            p.bm_request_type == b@[0],
            p.b_request == b@[1],
            p.w_value % 0x100 == b@[2] && p.w_value / 0x100 == b@[3],
            p.w_index % 0x100 == b@[4] && p.w_index / 0x100 == b@[5],
            p.w_length % 0x100 == b@[6] && p.w_length / 0x100 == b@[7],
    {
        SetupPacket {
            bm_request_type: b[0],
            b_request: b[1],
            w_value: b[2] as u16 + b[3] as u16 * 0x100,
            w_index: b[4] as u16 + b[5] as u16 * 0x100,
            w_length: b[6] as u16 + b[7] as u16 * 0x100,
        }
    }
}

/// The second part of a `RET_SUBMIT` header.
#[derive(Debug, Clone, Copy, PartialEq, Eq)]
pub struct RetSubmit {
    /// Zero, or a negative Linux errno.
    pub status: i32,
    pub actual_length: i32,
    pub start_frame: i32,
    pub number_of_packets: i32,
    pub error_count: i32,
    pub padding: [u8; 8],
}

impl RetSubmit {
    pub const SIZE: usize = 28;

    /// The bytes of the fields.
    pub open spec fn wire(self) -> Seq<u8> {
        crate::wire::be32_signed(self.status) + crate::wire::be32_signed(self.actual_length)
            + crate::wire::be32_signed(self.start_frame) + crate::wire::be32_signed(
            self.number_of_packets,
        ) + crate::wire::be32_signed(self.error_count) + self.padding@
    }

    /// Appends the bytes of the fields.
    pub fn encode(&self, out: &mut Vec<u8>)
        ensures
            final(out)@ == old(out)@ + self.wire(),
    {
        put_i32(out, self.status);
        put_i32(out, self.actual_length);
        put_i32(out, self.start_frame);
        put_i32(out, self.number_of_packets);
        put_i32(out, self.error_count);
        put_bytes(out, self.padding.as_slice());
        assert(out@ =~= old(out)@ + self.wire());
    }
}

impl Default for RetSubmit {
    fn default() -> (r: RetSubmit)
        ensures
            r.status == 0,
            r.actual_length == 0,
            r.start_frame == 0,
            r.number_of_packets == 0,
            r.error_count == 0,
            r.padding@ == crate::wire::zeros(8),
    {
        let r = RetSubmit {
            status: 0,
            actual_length: 0,
            start_frame: 0,
            number_of_packets: 0,
            error_count: 0,
            padding: [0; 8],
        };
        assert(r.padding@ =~= crate::wire::zeros(8));
        r
    }
}

/// The second part of a `CMD_UNLINK` header.
#[derive(Debug, Clone, Copy, PartialEq, Eq)]
pub struct CmdUnlink {
    pub unlink_seqnum: u32,
    pub padding: [u8; 24],
}

impl CmdUnlink {
    pub const SIZE: usize = 28;

    /// The fields at the start of `buf`.
    pub fn decode(buf: &[u8]) -> (r: Result<CmdUnlink, ProtoError>)
        ensures
            buf@.len() >= 28 ==> (r matches Ok(cmd) && cmd.unlink_seqnum == crate::wire::from_be32(
                buf@,
                0,
            ) && cmd.padding@ == buf@.subrange(4, 28)),
            buf@.len() < 28 ==> r == Err::<CmdUnlink, ProtoError>(
                ProtoError::ShortRead { need: 28, got: buf@.len() as usize },
            ),
    {
        if buf.len() < Self::SIZE {
            return Err(ProtoError::ShortRead { need: Self::SIZE, got: buf.len() });
        }
        let mut o: usize = 0;
        let unlink_seqnum: u32 = read_u32(buf, &mut o);
        let mut padding: [u8; 24] = [0; 24];
        let mut i: usize = 0;
        while i < 24
            invariant
                i <= 24,
                buf@.len() >= 28,
                forall|k: int| 0 <= k < i ==> padding@[k] == buf@[k + 4],
            decreases 24 - i,
        {
            padding[i] = buf[i + 4];
            i += 1;
        }
        assert(padding@ =~= buf@.subrange(4, 28));
        Ok(CmdUnlink { unlink_seqnum, padding })
    }
}

/// The second part of a `RET_UNLINK` header.
#[derive(Debug, Clone, Copy, PartialEq, Eq)]
pub struct RetUnlink {
    pub status: i32,
    pub padding: [u8; 24],
}

impl RetUnlink {
    pub const SIZE: usize = 28;

    /// The bytes of the fields.
    pub open spec fn wire(self) -> Seq<u8> {
        crate::wire::be32_signed(self.status) + self.padding@
    }

    /// Appends the bytes of the fields.
    pub fn encode(&self, out: &mut Vec<u8>)
        ensures
            final(out)@ == old(out)@ + self.wire(),
    {
        put_i32(out, self.status);
        put_bytes(out, self.padding.as_slice());
        assert(out@ =~= old(out)@ + self.wire());
    }
}

impl Default for RetUnlink {
    fn default() -> (r: RetUnlink)
        ensures
            r.status == 0,
            r.padding@ == crate::wire::zeros(24),
    {
        let r = RetUnlink { status: 0, padding: [0; 24] };
        assert(r.padding@ =~= crate::wire::zeros(24));
        r
    }
}

/// The basic header of a reply: only the command and the sequence number count.
pub open spec fn reply_header(command: u32, seqnum: u32) -> UrbHeader {
    UrbHeader { command, seqnum, devid: 0, direction: 0, ep: 0 }
}

/// The bytes of a `RET_SUBMIT` with its payload.
pub open spec fn ret_submit_wire(seqnum: u32, ret: RetSubmit, payload: Seq<u8>) -> Seq<u8> {
    reply_header(USBIP_RET_SUBMIT, seqnum).wire() + ret.wire() + payload
}

/// The bytes of a `RET_UNLINK`.
pub open spec fn ret_unlink_wire(seqnum: u32, status: i32) -> Seq<u8> {
    reply_header(USBIP_RET_UNLINK, seqnum).wire() + crate::wire::be32_signed(status)
        + crate::wire::zeros(24)
}

/// Appends a whole `RET_SUBMIT`: both headers and the payload.
pub fn write_ret_submit(out: &mut Vec<u8>, seqnum: u32, ret: &RetSubmit, payload: &[u8])
    ensures
        final(out)@ == old(out)@ + ret_submit_wire(seqnum, *ret, payload@),
{
    let hdr = UrbHeader { command: USBIP_RET_SUBMIT, seqnum, devid: 0, direction: 0, ep: 0 };
    hdr.encode(out);
    ret.encode(out);
    put_bytes(out, payload);
    assert(out@ =~= old(out)@ + ret_submit_wire(seqnum, *ret, payload@));
}

/// Appends a whole `RET_UNLINK`.
pub fn write_ret_unlink(out: &mut Vec<u8>, seqnum: u32, status: i32)
    ensures
        final(out)@ == old(out)@ + ret_unlink_wire(seqnum, status),
{
    let hdr = UrbHeader { command: USBIP_RET_UNLINK, seqnum, devid: 0, direction: 0, ep: 0 };
    hdr.encode(out);
    let tail = RetUnlink { status, padding: [0; 24] };
    tail.encode(out);
    assert(tail.padding@ =~= crate::wire::zeros(24));
    assert(out@ =~= old(out)@ + ret_unlink_wire(seqnum, status));
}

/// A client that reads a `RET_SUBMIT` finds the command, the sequence number, the
/// status and the length where it looks for them, and the payload after 48 bytes.
pub proof fn ret_submit_reads_back(seqnum: u32, ret: RetSubmit, payload: Seq<u8>)
    ensures
        ({
            let s = ret_submit_wire(seqnum, ret, payload);
            &&& s.len() == 48 + payload.len()
            &&& UrbHeader::parse(s) == reply_header(USBIP_RET_SUBMIT, seqnum)
            &&& crate::wire::from_be32_signed(s, 20) == ret.status
            &&& crate::wire::from_be32_signed(s, 24) == ret.actual_length
            &&& s.skip(48) == payload
        }),
{
    let s = ret_submit_wire(seqnum, ret, payload);
    let h = reply_header(USBIP_RET_SUBMIT, seqnum);
    urb_header_round_trip(h, ret.wire() + payload);
    assert(s =~= h.wire() + (ret.wire() + payload));
    assert(s.subrange(20, 24) =~= crate::wire::be32_signed(ret.status));
    assert(s.subrange(24, 28) =~= crate::wire::be32_signed(ret.actual_length));
    crate::wire::be32_signed_reads_back(s, 20, ret.status);
    crate::wire::be32_signed_reads_back(s, 24, ret.actual_length);
    assert(s.skip(48) =~= payload);
}

/// A client that reads a `RET_UNLINK` finds the command, the sequence number and
/// the status in 48 bytes.
pub proof fn ret_unlink_reads_back(seqnum: u32, status: i32)
    ensures
        ({
            let s = ret_unlink_wire(seqnum, status);
            &&& s.len() == 48
            &&& UrbHeader::parse(s) == reply_header(USBIP_RET_UNLINK, seqnum)
            &&& crate::wire::from_be32_signed(s, 20) == status
        }),
{
    let s = ret_unlink_wire(seqnum, status);
    let h = reply_header(USBIP_RET_UNLINK, seqnum);
    let tail = crate::wire::be32_signed(status) + crate::wire::zeros(24);
    urb_header_round_trip(h, tail);
    assert(s =~= h.wire() + tail);
    assert(s.subrange(20, 24) =~= crate::wire::be32_signed(status));
    crate::wire::be32_signed_reads_back(s, 20, status);
}

/// The five words of a header stand at bytes 0, 4, 8, 12 and 16, in both directions:
/// the command, the sequence number, the device, the direction and the endpoint.
pub proof fn urb_header_layout(s: Seq<u8>, h: UrbHeader)
    ensures
        UrbHeader::parse(s).command == crate::wire::from_be32(s, 0),
        UrbHeader::parse(s).seqnum == crate::wire::from_be32(s, 4),
        UrbHeader::parse(s).devid == crate::wire::from_be32(s, 8),
        UrbHeader::parse(s).direction == crate::wire::from_be32(s, 12),
        UrbHeader::parse(s).ep == crate::wire::from_be32(s, 16),
        h.wire().len() == 20,
        crate::wire::from_be32(h.wire(), 0) == h.command,
        crate::wire::from_be32(h.wire(), 4) == h.seqnum,
        crate::wire::from_be32(h.wire(), 8) == h.devid,
        crate::wire::from_be32(h.wire(), 12) == h.direction,
        crate::wire::from_be32(h.wire(), 16) == h.ep,
{
    urb_header_round_trip(h, Seq::empty());
    assert(h.wire() + Seq::<u8>::empty() =~= h.wire());
}

/// The words of a submit stand at bytes 0, 4, 8, 12 and 16 of its part of the header, in
/// both directions, and the SETUP packet at bytes 20 to 27.
pub proof fn cmd_submit_layout(s: Seq<u8>, cmd: CmdSubmit)
    requires
        s.len() >= 28,
    ensures
        SubmitFields::parse(s).transfer_flags == crate::wire::from_be32(s, 0),
        SubmitFields::parse(s).transfer_buffer_length == crate::wire::from_be32_signed(s, 4),
        SubmitFields::parse(s).start_frame == crate::wire::from_be32_signed(s, 8),
        SubmitFields::parse(s).number_of_packets == crate::wire::from_be32_signed(s, 12),
        SubmitFields::parse(s).interval == crate::wire::from_be32_signed(s, 16),
        SubmitFields::parse(s).setup.len() == 8,
        forall|i: int| 0 <= i < 8 ==> #[trigger] SubmitFields::parse(s).setup[i] == s[20 + i],
        cmd@.wire().len() == 28,
        crate::wire::from_be32(cmd@.wire(), 0) == cmd.transfer_flags,
        crate::wire::from_be32_signed(cmd@.wire(), 4) == cmd.transfer_buffer_length,
        crate::wire::from_be32_signed(cmd@.wire(), 8) == cmd.start_frame,
        crate::wire::from_be32_signed(cmd@.wire(), 12) == cmd.number_of_packets,
        crate::wire::from_be32_signed(cmd@.wire(), 16) == cmd.interval,
        forall|i: int| 0 <= i < 8 ==> cmd@.wire()[20 + i] == #[trigger] cmd.setup@[i],
{
    cmd_submit_round_trip(cmd, Seq::empty());
    let w = cmd@.wire();
    assert(w + Seq::<u8>::empty() =~= w);
    assert forall|i: int| 0 <= i < 8 implies w[20 + i] == #[trigger] cmd.setup@[i] by {
        assert(w.subrange(20, 28)[i] == w[20 + i]);
        assert(SubmitFields::parse(w).setup == cmd.setup@);
    }
}

/// A SETUP packet determines its bytes: the request type, the request, and three numbers
/// whose low byte comes first.
pub proof fn setup_packet_layout(s: Seq<u8>)
    ensures
        SetupPacket::parse(s).bm_request_type == s[0],
        SetupPacket::parse(s).b_request == s[1],
        SetupPacket::parse(s).w_value % 0x100 == s[2],
        SetupPacket::parse(s).w_value / 0x100 == s[3],
        SetupPacket::parse(s).w_index % 0x100 == s[4],
        SetupPacket::parse(s).w_index / 0x100 == s[5],
        SetupPacket::parse(s).w_length % 0x100 == s[6],
        SetupPacket::parse(s).w_length / 0x100 == s[7],
{
}

/// The words of a reply to a submit stand where Linux has them: command 3, the sequence
/// number, three words that do not count and are zero, the status, the length, the frame,
/// the packets, the errors and eight more bytes. The payload follows.
pub proof fn ret_submit_layout(seqnum: u32, ret: RetSubmit, payload: Seq<u8>)
    ensures
        ({
            let s = ret_submit_wire(seqnum, ret, payload);
            &&& s.len() == 48 + payload.len()
            &&& crate::wire::from_be32(s, 0) == 3
            &&& crate::wire::from_be32(s, 4) == seqnum
            &&& crate::wire::from_be32(s, 8) == 0
            &&& crate::wire::from_be32(s, 12) == 0
            &&& crate::wire::from_be32(s, 16) == 0
            &&& crate::wire::from_be32_signed(s, 20) == ret.status
            &&& crate::wire::from_be32_signed(s, 24) == ret.actual_length
            &&& crate::wire::from_be32_signed(s, 28) == ret.start_frame
            &&& crate::wire::from_be32_signed(s, 32) == ret.number_of_packets
            &&& crate::wire::from_be32_signed(s, 36) == ret.error_count
            &&& s.subrange(40, 48) == ret.padding@
            &&& s.skip(48) == payload
        }),
{
    let s = ret_submit_wire(seqnum, ret, payload);
    ret_submit_reads_back(seqnum, ret, payload);
    assert(s.subrange(28, 32) =~= crate::wire::be32_signed(ret.start_frame));
    assert(s.subrange(32, 36) =~= crate::wire::be32_signed(ret.number_of_packets));
    assert(s.subrange(36, 40) =~= crate::wire::be32_signed(ret.error_count));
    crate::wire::be32_signed_reads_back(s, 28, ret.start_frame);
    crate::wire::be32_signed_reads_back(s, 32, ret.number_of_packets);
    crate::wire::be32_signed_reads_back(s, 36, ret.error_count);
    assert(s.subrange(40, 48) =~= ret.padding@);
    urb_header_layout(s, reply_header(USBIP_RET_SUBMIT, seqnum));
}

/// The words of a reply to an unlink stand where Linux has them: command 4, the sequence
/// number, three zero words, the status, and zeros to the end.
pub proof fn ret_unlink_layout(seqnum: u32, status: i32)
    ensures
        ({
            let s = ret_unlink_wire(seqnum, status);
            &&& s.len() == 48
            &&& crate::wire::from_be32(s, 0) == 4
            &&& crate::wire::from_be32(s, 4) == seqnum
            &&& crate::wire::from_be32(s, 8) == 0
            &&& crate::wire::from_be32(s, 12) == 0
            &&& crate::wire::from_be32(s, 16) == 0
            &&& crate::wire::from_be32_signed(s, 20) == status
            &&& forall|i: int| 24 <= i < 48 ==> #[trigger] s[i] == 0
        }),
{
    ret_unlink_reads_back(seqnum, status);
    urb_header_layout(
        ret_unlink_wire(seqnum, status),
        reply_header(USBIP_RET_UNLINK, seqnum),
    );
}

/// The contents of a submit are its fields.
pub proof fn cmd_submit_view(cmd: CmdSubmit)
    ensures
        cmd@.transfer_flags == cmd.transfer_flags,
        cmd@.transfer_buffer_length == cmd.transfer_buffer_length,
        cmd@.start_frame == cmd.start_frame,
        cmd@.number_of_packets == cmd.number_of_packets,
        cmd@.interval == cmd.interval,
        cmd@.setup == cmd.setup@,
{
}

/// The commands and directions have the numbers of the protocol.
pub proof fn urb_numbers_are()
    ensures
        USBIP_CMD_SUBMIT == 1,
        USBIP_CMD_UNLINK == 2,
        USBIP_RET_SUBMIT == 3,
        USBIP_RET_UNLINK == 4,
        USBIP_DIR_OUT == 0,
        USBIP_DIR_IN == 1,
        URB_HEADER_SIZE == 48,
{
}

} // verus!
