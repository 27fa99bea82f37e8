//! Framing shared by all requests and responses.
use vstd::prelude::*;

verus! {

/// The bytes in front of the payload of a request or a response: start code, total length,
/// sequence number and the two opcodes, two bytes each.
pub const HEADER_LENGTH: usize = 10;

/// The response code of a request that was carried out.
pub const CODE_OK: u16 = 1;

} // verus!
