//! The frame buffer: `heapless::Vec<u8, MTU>`, a byte vector of fixed
//! capacity that needs no allocator, so that it can lie in a buffer pool.
//!
//! Verus does not read `heapless`. What this library relies on is stated
//! here, one function each, and is believed rather than proved.

use vstd::prelude::*;
use crate::MTU;

verus! {

// `heapless::Vec`, made known to Verus as a type of which it sees nothing
// inside.
#[verifier::external_type_specification]
#[verifier::external_body]
#[verifier::reject_recursive_types(T)]
pub struct ExHeaplessVec<T, const N: usize>(heapless::Vec<T, N>);

/// One frame buffer: at most `MTU` bytes.
pub type Buf = heapless::Vec<u8, MTU>;

/// The bytes that a frame buffer holds, first byte first.
pub uninterp spec fn frame_bytes(buf: heapless::Vec<u8, MTU>) -> Seq<u8>;

/// `heapless::Vec::new`: the new buffer holds no bytes.
#[verifier::external_body]
pub(crate) fn frame_new() -> (buf: Buf)
    ensures
        frame_bytes(buf) == Seq::<u8>::empty(),
{
    heapless::Vec::new()
}

/// `heapless::Vec::clear`: afterwards the buffer holds no bytes.
#[verifier::external_body]
pub(crate) fn frame_clear(buf: &mut Buf)
    ensures
        frame_bytes(*final(buf)) == Seq::<u8>::empty(),
{
    buf.clear()
}

/// `heapless::Vec::extend_from_slice`: where the buffer's bytes and `bytes`
/// together are at most `MTU`, `bytes` are appended in order; where they are
/// more, the call fails and the buffer keeps what it held.
#[verifier::external_body]
pub(crate) fn frame_extend_from_slice(buf: &mut Buf, bytes: &[u8]) -> (appended: Result<(), ()>)
    ensures
        appended is Ok <==> frame_bytes(*old(buf)).len() + bytes@.len() <= MTU,
        appended is Ok ==> frame_bytes(*final(buf)) == frame_bytes(*old(buf)) + bytes@,
        appended is Err ==> frame_bytes(*final(buf)) == frame_bytes(*old(buf)),
{
    buf.extend_from_slice(bytes)
}

/// `bytes` cut to `length`, or filled up to `length` with `value`.
pub open spec fn resized(bytes: Seq<u8>, length: nat, value: u8) -> Seq<u8> {
    Seq::new(
        length,
        |i: int|
            if i < bytes.len() {
                bytes[i]
            } else {
                value
            },
    )
}

/// `heapless::Vec::resize`: a length of more than `MTU` is refused, and the
/// buffer keeps what it held. Otherwise the buffer has the new length
/// afterwards: its first bytes, as many as the new length allows, stay as
/// they were, and each byte beyond them is `value`.
#[verifier::external_body]
pub(crate) fn frame_resize(buf: &mut Buf, length: usize, value: u8) -> (fitted: Result<(), ()>)
    ensures
        fitted is Ok <==> length <= MTU,
        fitted is Err ==> frame_bytes(*final(buf)) == frame_bytes(*old(buf)),
        fitted is Ok ==> frame_bytes(*final(buf)) == resized(
            frame_bytes(*old(buf)),
            length as nat,
            value,
        ),
{
    buf.resize(length, value)
}

/// `heapless::Vec::as_slice`: the slice is the buffer's bytes.
#[verifier::external_body]
pub(crate) fn frame_as_slice(buf: &Buf) -> (bytes: &[u8])
    ensures
        bytes@ == frame_bytes(*buf),
{
    buf.as_slice()
}

/// `DerefMut::deref_mut` of `heapless::Vec`: the slice starts as the
/// buffer's bytes, and what is written to the slice is written to the
/// buffer.
#[verifier::external_body]
pub(crate) fn frame_as_mut_slice(buf: &mut Buf) -> (bytes: &mut [u8])
    ensures
        bytes@ == frame_bytes(*old(buf)),
        final(bytes)@ == frame_bytes(*final(buf)),
{
    core::ops::DerefMut::deref_mut(buf)
}

/// `Clone::clone` of `heapless::Vec`: the copy holds the same bytes.
#[verifier::external_body]
pub(crate) fn frame_clone(buf: &Buf) -> (copy: Buf)
    ensures
        frame_bytes(copy) == frame_bytes(*buf),
{
    Clone::clone(buf)
}

} // verus!
