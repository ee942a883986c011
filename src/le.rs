use bytes::{Buf, BufMut};
use crate::format::{le_bytes, le_value};
use vstd::prelude::*;

verus! {

/// Relies on bytes::BufMut::put_uint_le for Vec<u8>: appends the `width` low
/// bytes of `n`, least significant first (`width` at most 8, else it panics).
#[verifier::external_body]
pub(crate) fn append_le(dest: &mut Vec<u8>, n: u64, width: usize)
    requires
        width <= 8,
    ensures
        final(dest)@ == old(dest)@ + le_bytes(n as nat, width as nat),
{
    dest.put_uint_le(n, width)
}

/// Relies on bytes::Buf::get_uint_le for &[u8]: reads `width` bytes, least
/// significant first (it panics when `width` is above 8 or above the length).
#[verifier::external_body]
pub(crate) fn read_le(src: &[u8], width: usize) -> (r: u64)
    requires
        width <= 8,
        width <= src@.len(),
    ensures
        r as nat == le_value(src@.subrange(0, width as int)),
{
    let mut cursor: &[u8] = src;
    cursor.get_uint_le(width)
}

} // verus!
