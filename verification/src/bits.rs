//! Bit addressing of byte buffers, most significant bit first.

use bitvec::order::Msb0;
use bitvec::view::BitView;
use vstd::prelude::*;

verus! {

/// Largest buffer, in bytes, that is viewed bit by bit.
pub const MAX_VIEW_BYTES: usize = 0x0100_0000;

/// Bit `n` of `bytes`, counting across the bytes in order and, inside each
/// byte, from the most significant bit (index 0) to the least (index 7).
pub open spec fn msb0_bit(bytes: Seq<u8>, n: int) -> bool {
    (bytes[n / 8] as int / pow2_u8(7 - n % 8)) % 2 == 1
}

/// Two to the power `k`, for `k` in `0..8`.
pub open spec fn pow2_u8(k: int) -> int {
    if k <= 0 {
        1
    } else if k == 1 {
        2
    } else if k == 2 {
        4
    } else if k == 3 {
        8
    } else if k == 4 {
        16
    } else if k == 5 {
        32
    } else if k == 6 {
        64
    } else {
        128
    }
}

/// Reads one bit through `bitvec`: `BitView::view_bits::<Msb0>` on the byte
/// slice, then `BitSlice`'s `Index<usize>`. The contract claims that the
/// result is bit `n` in most-significant-first order, for an index inside
/// the buffer (outside it the index operation panics).
#[verifier::external_body]
pub(crate) fn bit_at(bytes: &Vec<u8>, n: usize) -> (bit: bool)
    requires
        bytes@.len() <= MAX_VIEW_BYTES,
        n < bytes@.len() * 8,
    ensures
        bit == msb0_bit(bytes@, n as int),
{
    bytes.as_slice().view_bits::<Msb0>()[n]
}

/// Writes one bit through `bitvec`: `BitView::view_bits_mut::<Msb0>` on the
/// byte slice, then `BitSlice::set`. The contract claims that bit `n`, in
/// most-significant-first order, becomes `value`, and that the length and
/// every other bit stay as they were (outside the buffer `set` panics).
#[verifier::external_body]
pub(crate) fn set_bit(bytes: &mut Vec<u8>, n: usize, value: bool)
    requires
        old(bytes)@.len() <= MAX_VIEW_BYTES,
        n < old(bytes)@.len() * 8,
    ensures
        final(bytes)@.len() == old(bytes)@.len(),
        forall|i: int|
            0 <= i < old(bytes)@.len() * 8 ==> #[trigger] msb0_bit(final(bytes)@, i) == (if i == n {
                value
            } else {
                msb0_bit(old(bytes)@, i)
            }),
{
    bytes.as_mut_slice().view_bits_mut::<Msb0>().set(n, value)
}

} // verus!
