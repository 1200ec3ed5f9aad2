//! The chunk model: how a content item's byte stream maps onto fixed-size,
//! zero-indexed chunks, with a possibly shorter final chunk.

use vstd::prelude::*;

verus! {

/// The number of bytes in every chunk but the last one of a content item.
pub const BYTES_PER_CHUNK: usize = 32768;

/// Ceiling division: the least `q` with `q * b >= a`, for `a >= 0` and `b > 0`.
pub open spec fn ceil_div(a: int, b: int) -> int {
    (a + b - 1) / b
}

/// Relies on num_integer::div_ceil: ceiling division of two unsigned
/// integers, which panics only when the divisor is zero.
#[verifier::external_body]
fn div_ceil_usize(a: usize, b: usize) -> (r: usize)
    requires
        b > 0,
    ensures
        r == ceil_div(a as int, b as int),
{
    num_integer::div_ceil(a, b)
}

/// How many chunks a content item of `total_bytes` bytes occupies:
/// full chunks of `chunk_size` bytes plus one shorter final chunk
/// for any remainder.
pub fn chunk_count(total_bytes: usize, chunk_size: usize) -> (count: usize)
    requires
        chunk_size > 0,
    ensures
        count == ceil_div(total_bytes as int, chunk_size as int),
        count * chunk_size >= total_bytes,
        total_bytes > 0 ==> (count - 1) * chunk_size < total_bytes,
{
    let count = div_ceil_usize(total_bytes, chunk_size);
    proof {
        lemma_ceil_div_bounds(total_bytes as int, chunk_size as int);
    }
    count
}

/// Ceiling division rounds up: the quotient's multiple reaches `a`, and one
/// multiple less falls short.
pub proof fn lemma_ceil_div_bounds(a: int, b: int)
    requires
        a >= 0,
        b > 0,
    ensures
        ceil_div(a, b) * b >= a,
        a > 0 ==> (ceil_div(a, b) - 1) * b < a,
{
    let x = a + b - 1;
    let q = ceil_div(a, b);
    vstd::arithmetic::div_mod::lemma_fundamental_div_mod(x, b);
    vstd::arithmetic::div_mod::lemma_mod_bound(x, b);
    assert(x == b * q + x % b);
    assert(q * b == b * q) by (nonlinear_arith);
    assert((q - 1) * b == q * b - b) by (nonlinear_arith);
}

/// The byte offset at which the chunk with the given index begins.
pub fn byte_offset_of_chunk(index: usize, chunk_size: usize) -> (offset: usize)
    requires
        index * chunk_size <= usize::MAX,
    ensures
        offset == index * chunk_size,
{
    index * chunk_size
}

/// The completion test of a transfer, exactly as the protocol states it:
/// the buffer is complete once at least one byte of the last expected chunk
/// has arrived, that is once `buffer_len + chunk_size` exceeds
/// `requested_chunk_count * chunk_size`.
pub open spec fn spec_transfer_complete(
    buffer_len: int,
    requested_chunk_count: int,
    chunk_size: int,
) -> bool {
    buffer_len + chunk_size > requested_chunk_count * chunk_size
}

/// Whether a transfer of `requested_chunk_count` chunks is complete, given
/// how many bytes the buffer holds so far. This is the protocol's boundary
/// heuristic: it fires as soon as one byte of the final expected chunk is in.
pub fn is_transfer_complete(
    buffer_len: usize,
    requested_chunk_count: usize,
    chunk_size: usize,
) -> (complete: bool)
    ensures
        complete == spec_transfer_complete(
            buffer_len as int,
            requested_chunk_count as int,
            chunk_size as int,
        ),
{
    let n: u128 = requested_chunk_count as u128;
    let c: u128 = chunk_size as u128;
    proof {
        assert(n <= u64::MAX && c <= u64::MAX);
        assert(n * c <= (u64::MAX as u128) * (u64::MAX as u128)) by (nonlinear_arith)
            requires
                0 <= n <= u64::MAX as u128,
                0 <= c <= u64::MAX as u128,
        ;
    }
    let lhs: u128 = buffer_len as u128 + c;
    let rhs: u128 = n * c;
    lhs > rhs
}

/// Whether the song is completely downloaded, given the amount of chunks
/// that it should contain.
pub fn song_is_complete(song: &[u8], chunks: usize) -> (complete: bool)
    ensures
        complete == spec_transfer_complete(
            song@.len() as int,
            chunks as int,
            BYTES_PER_CHUNK as int,
        ),
{
    is_transfer_complete(song.len(), chunks, BYTES_PER_CHUNK)
}

} // verus!
