//! Bounds-checked windows into a packet.
use vstd::prelude::*;

use crate::error::Error;

verus! {

/// Whether `size` bytes at `offset` lie within a packet of `packet_len` bytes.
pub open spec fn in_bounds(packet_len: nat, offset: int, size: int) -> bool {
    offset + size <= packet_len
}

/// Hands out the `size` bytes of `packet` that start at `offset`, for reading
/// and writing in place.
///
/// Succeeds exactly if the window lies within the packet; a window that ends
/// at the packet's last byte is the largest that does. Nothing is truncated:
/// the window has the size that was asked for or there is none. While the
/// window is alive the packet cannot be reached by any other way, and what is
/// written through it is what the packet holds there afterwards.
pub fn ref_mut_at<'a>(packet: &'a mut [u8], offset: usize, size: usize) -> (r: Result<
    &'a mut [u8],
    Error,
>)
    ensures
        r is Ok <==> in_bounds(old(packet)@.len(), offset as int, size as int),
        r is Err ==> r == Err::<&mut [u8], Error>(Error::OutOfBounds) && final(packet)@ == old(
            packet,
        )@,
        r is Ok ==> r.unwrap()@ == old(packet)@.subrange(offset as int, offset + size)
            && final(packet)@ == old(packet)@.subrange(0, offset as int) + final(r.unwrap())@
            + old(packet)@.subrange(offset + size, old(packet)@.len() as int),
{
    let packet_len: usize = packet.len();
    if offset > packet_len || packet_len - offset < size {
        return Err(Error::OutOfBounds);
    }
    let (_, tail) = packet.split_at_mut(offset);
    let (window, _) = tail.split_at_mut(size);
    Ok(window)
}

} // verus!
