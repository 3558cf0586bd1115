//! Why a message could not be decoded or served.

use vstd::prelude::*;

use crate::text::{push_decimal, push_hex4};

verus! {

/// What is wrong with a message from the peer.
#[derive(Debug, Clone, Copy, PartialEq, Eq, Structural)]
pub enum ProtoError {
    /// The buffer ends before the message does.
    ShortRead { need: usize, got: usize },
    /// No such operation.
    UnknownOp(u16),
    /// The peer speaks another version of the protocol.
    UnsupportedVersion(u16),
}

impl ProtoError {
    /// The sentence that describes the error.
    pub open spec fn text(self) -> Seq<char> {
        match self {
            ProtoError::ShortRead { need, got } => "short read: need "@ + crate::text::decimal(
                need as nat,
            ) + " bytes, got "@ + crate::text::decimal(got as nat),
            ProtoError::UnknownOp(code) => "unknown op code: 0x"@ + crate::text::hex4(code),
            ProtoError::UnsupportedVersion(version) => "unsupported protocol version: 0x"@
                + crate::text::hex4(version),
        }
    }

    /// A sentence that describes the error.
    pub fn message(&self) -> (s: String)
        ensures
            s@ == self.text(),
    {
        let mut s: String = String::new();
        match self {
            ProtoError::ShortRead { need, got } => {
                s.append("short read: need ");
                push_decimal(&mut s, *need as u64);
                s.append(" bytes, got ");
                push_decimal(&mut s, *got as u64);
            },
            ProtoError::UnknownOp(code) => {
                s.append("unknown op code: 0x");
                push_hex4(&mut s, *code);
            },
            ProtoError::UnsupportedVersion(version) => {
                s.append("unsupported protocol version: 0x");
                push_hex4(&mut s, *version);
            },
        }
        assert(s@ =~= self.text());
        s
    }
}

/// Each error is a sentence of its own that ends in the numbers that it is about: lengths
/// in decimal, codes and versions in four hexadecimal digits.
pub proof fn errors_name_their_numbers(need: usize, got: usize, code: u16)
    ensures
        (ProtoError::ShortRead { need, got }).text() == "short read: need "@ + crate::text::decimal(
            need as nat,
        ) + " bytes, got "@ + crate::text::decimal(got as nat),
        ProtoError::UnknownOp(code).text() == "unknown op code: 0x"@ + crate::text::hex4(code),
        ProtoError::UnsupportedVersion(code).text() == "unsupported protocol version: 0x"@
            + crate::text::hex4(code),
{
}

} // verus!
