//! The growable byte buffer of the `bytes` crate, as far as the encoder uses
//! it.
//!
//! Verus sees nothing inside a `BytesMut`. What it holds is named by
//! [`buffer_bytes`], and the contracts below say what each call does to that.
//! They are taken on trust from the crate's source; nothing here proves them.

use bytes::{BufMut, BytesMut};
use vstd::prelude::*;

verus! {

/// `BytesMut`, taken as it is: a value of it is carried through, and read
/// and changed by the calls below only.
#[verifier::external_type_specification]
#[verifier::external_body]
pub struct ExBytesMut(BytesMut);

/// The bytes that a buffer holds, first to last: what `&buf[..]` shows.
pub uninterp spec fn buffer_bytes(buf: BytesMut) -> Seq<u8>;

/// `BytesMut::len`: the number of bytes that the buffer holds.
pub assume_specification[ BytesMut::len ](buf: &BytesMut) -> (n: usize)
    ensures
        n == buffer_bytes(*buf).len(),
;

/// `BytesMut::reserve`: makes room for `additional` bytes more and leaves the
/// bytes that the buffer holds as they are. The call is kept to requests
/// that stay within `isize::MAX` bytes in all, the most that the buffer says
/// it can hold. Memory that the allocator cannot give is outside this
/// contract, as it is for `Vec`.
pub assume_specification[ BytesMut::reserve ](buf: &mut BytesMut, additional: usize)
    requires
        buffer_bytes(*old(buf)).len() + additional <= isize::MAX,
    ensures
        buffer_bytes(*final(buf)) == buffer_bytes(*old(buf)),
;

/// `BufMut::put` on a `BytesMut`, with a slice as the source: the bytes of
/// the slice are appended to those that the buffer holds. The call is kept to
/// slices that the buffer has room for by its own count, `isize::MAX` less
/// its length.
#[verifier::external_body]
pub(crate) fn put_slice(buf: &mut BytesMut, src: &[u8])
    requires
        buffer_bytes(*old(buf)).len() + src@.len() <= isize::MAX,
    ensures
        buffer_bytes(*final(buf)) == buffer_bytes(*old(buf)) + src@,
{
    buf.put(src)
}

/// `BufMut::put_u8` on a `BytesMut`: the byte is appended to those that the
/// buffer holds. The call is kept to buffers that have room for one byte
/// more by their own count.
#[verifier::external_body]
pub(crate) fn put_byte(buf: &mut BytesMut, byte: u8)
    requires
        buffer_bytes(*old(buf)).len() + 1 <= isize::MAX,
    ensures
        buffer_bytes(*final(buf)) == buffer_bytes(*old(buf)).push(byte),
{
    buf.put_u8(byte)
}

} // verus!
