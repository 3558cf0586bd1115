//! A USB/IP server: the wire codec, the decisions of a client session, the
//! device policy, the hotplug event stream and the device-capture sequence.
//!
//! Everything here is a function of plain values. Sockets, USB transfers and
//! processes belong to the program around the library.

pub mod capture;
pub mod error;
pub mod events;
pub mod host;
pub mod hub;
pub mod json;
pub mod op;
pub mod policy;
pub mod server;
pub mod session;
pub mod text;
pub mod transfer;
pub mod urb;
pub mod wire;
