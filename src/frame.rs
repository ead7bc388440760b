//! What the broker reads off an encoded outbound frame, and the one frame it
//! synthesises itself.
use vstd::prelude::*;

verus! {

/// The opcode of a close frame (RFC 6455, section 5.5.1).
pub const CLOSE_OPCODE: u8 = 8;

/// An encoded frame is a close frame when the low four bits of its first byte
/// carry the close opcode.
pub open spec fn is_close_payload(p: Seq<u8>) -> bool {
    p.len() > 0 && p[0] & 0x0fu8 == CLOSE_OPCODE
}

/// The encoded close frame with status 1002 (protocol error) and no reason:
/// FIN and the close opcode, a two-byte payload, then the status big-endian.
pub open spec fn protocol_error_close_bytes() -> Seq<u8> {
    seq![0x88u8, 0x02u8, 0x03u8, 0xeau8]
}

/// Whether an encoded frame is a close frame.
pub fn is_close_frame(payload: &Vec<u8>) -> (r: bool)
    ensures
        r == is_close_payload(payload@),
{
    payload.len() > 0 && (payload[0] & 0x0f) == CLOSE_OPCODE
}

/// The close frame sent to a connection whose stream broke or carried bytes
/// that are not a frame.
pub fn protocol_error_close_frame() -> (r: Vec<u8>)
    ensures
        r@ == protocol_error_close_bytes(),
        is_close_payload(r@),
{
    let r: Vec<u8> = vec![0x88u8, 0x02u8, 0x03u8, 0xeau8];
    assert(0x88u8 & 0x0fu8 == 8u8) by (bit_vector);
    r
}

} // verus!
