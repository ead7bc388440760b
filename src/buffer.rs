//! The reader's byte buffer, a `bytes::BytesMut`, seen through the bytes it
//! holds.
use vstd::prelude::*;

verus! {

#[verifier::external_type_specification]
#[verifier::external_body]
pub struct ExBytesMut(bytes::BytesMut);

/// The bytes a buffer holds, front first.
pub uninterp spec fn buffered_bytes(b: bytes::BytesMut) -> Seq<u8>;

/// Relies on bytes::BytesMut::new: a buffer that holds nothing.
#[verifier::external_body]
pub(crate) fn buffer_new() -> (r: bytes::BytesMut)
    ensures
        buffered_bytes(r) == Seq::<u8>::empty(),
{
    bytes::BytesMut::new()
}

/// Relies on bytes::BytesMut::extend_from_slice: `data` is appended at the
/// back.
#[verifier::external_body]
pub(crate) fn buffer_extend(b: &mut bytes::BytesMut, data: &[u8])
    ensures
        buffered_bytes(*final(b)) == buffered_bytes(*old(b)) + data@,
{
    b.extend_from_slice(data)
}

/// Relies on bytes::Buf::advance for BytesMut: the first `n` bytes are
/// dropped. It panics past the end, which `requires` rules out.
#[verifier::external_body]
pub(crate) fn buffer_advance(b: &mut bytes::BytesMut, n: usize)
    requires
        n <= buffered_bytes(*old(b)).len(),
    ensures
        buffered_bytes(*final(b)) == buffered_bytes(*old(b)).subrange(
            n as int,
            buffered_bytes(*old(b)).len() as int,
        ),
{
    bytes::Buf::advance(b, n)
}

/// Relies on the `Deref` of BytesMut to `[u8]`: the bytes it holds.
#[verifier::external_body]
pub(crate) fn buffer_bytes(b: &bytes::BytesMut) -> (r: &[u8])
    ensures
        r@ == buffered_bytes(*b),
{
    &b[..]
}

} // verus!
