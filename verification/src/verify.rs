//! The integrity verifier: recomputes per-chunk digests over an assembled
//! buffer and compares them, in order, against the authoritative hash
//! sequence the ledger supplies.

use vstd::prelude::*;
use vstd::math::min;
use vstd::slice::slice_subrange;
use crate::chunk::{ceil_div, lemma_ceil_div_bounds};
use crate::songid::SongId;

verus! {

/// The Keccak-256 digest of a byte sequence, as the outside hashing code
/// computes it: a function of the bytes alone.
pub uninterp spec fn keccak256_of(bytes: Seq<u8>) -> Seq<u8>;

/// Relies on ethers_core::utils::keccak256: the Keccak-256 digest of the
/// input bytes, 32 bytes long, depending on the input bytes alone.
#[verifier::external_body]
fn keccak256_digest(bytes: &[u8]) -> (digest: [u8; 32])
    ensures
        digest@ == keccak256_of(bytes@),
{
    ethers_core::utils::keccak256(bytes)
}

/// The bytes of the chunk with index `i` within `data`: a full slice of
/// `chunk_size` bytes, except that the final chunk stops at the data's end.
pub open spec fn spec_chunk_at(data: Seq<u8>, chunk_size: int, i: int) -> Seq<u8> {
    data.subrange(i * chunk_size, min(data.len() as int, (i + 1) * chunk_size))
}

/// The digest sequence of a buffer: one Keccak-256 digest per chunk, in
/// chunk-index order.
pub open spec fn spec_chunk_hashes(data: Seq<u8>, chunk_size: int) -> Seq<Seq<u8>> {
    Seq::new(
        ceil_div(data.len() as int, chunk_size) as nat,
        |i: int| keccak256_of(spec_chunk_at(data, chunk_size, i)),
    )
}

/// Whether an authoritative hash sequence matches a buffer: the sequence
/// holds exactly one entry per chunk of the buffer, and every entry equals
/// the digest of its chunk.
pub open spec fn spec_hashes_match(data: Seq<u8>, hashes: Seq<SongId>, chunk_size: int) -> bool {
    &&& hashes.len() == ceil_div(data.len() as int, chunk_size)
    &&& forall|i: int|
        0 <= i < hashes.len() ==> (#[trigger] hashes[i]).0@ == keccak256_of(
            spec_chunk_at(data, chunk_size, i),
        )
}

/// Compute the digest of every chunk of the buffer, in chunk-index order.
pub fn hash_song_chunks(data: &[u8], chunk_size: usize) -> (hashes: Vec<SongId>)
    requires
        chunk_size > 0,
    ensures
        hashes@.len() == ceil_div(data@.len() as int, chunk_size as int),
        forall|i: int|
            0 <= i < hashes@.len() ==> (#[trigger] hashes@[i]).0@ == keccak256_of(
                spec_chunk_at(data@, chunk_size as int, i),
            ),
{
    let ghost n = ceil_div(data@.len() as int, chunk_size as int);
    proof {
        lemma_ceil_div_bounds(data@.len() as int, chunk_size as int);
    }
    let mut hashes: Vec<SongId> = Vec::new();
    let mut pos: usize = 0;
    proof {
        assert(hashes@.len() * chunk_size == 0) by (nonlinear_arith)
            requires
                hashes@.len() == 0,
        ;
    }
    while pos < data.len()
        invariant
            chunk_size > 0,
            n == ceil_div(data@.len() as int, chunk_size as int),
            n * chunk_size >= data@.len(),
            hashes@.len() <= n,
            pos == min(hashes@.len() * chunk_size, data@.len() as int),
            forall|i: int|
                0 <= i < hashes@.len() ==> (#[trigger] hashes@[i]).0@ == keccak256_of(
                    spec_chunk_at(data@, chunk_size as int, i),
                ),
        decreases data@.len() - pos,
    {
        let ghost i = hashes@.len() as int;
        proof {
            assert(i * chunk_size < data@.len());
            assert(i < n) by (nonlinear_arith)
                requires
                    i * chunk_size < data@.len(),
                    n * chunk_size >= data@.len(),
                    chunk_size > 0,
                    i >= 0,
                    n >= 0,
            ;
        }
        let end = if data.len() - pos < chunk_size {
            data.len()
        } else {
            pos + chunk_size
        };
        proof {
            assert((i + 1) * chunk_size == i * chunk_size + chunk_size) by (nonlinear_arith);
            assert(end == min(data@.len() as int, (i + 1) * chunk_size as int));
        }
        let chunk = slice_subrange(data, pos, end);
        let digest = keccak256_digest(chunk);
        hashes.push(SongId(digest));
        pos = end;
        proof {
            if pos < data@.len() {
                assert(pos == min(hashes@.len() * chunk_size, data@.len() as int));
            } else {
                assert(hashes@.len() * chunk_size >= data@.len());
            }
        }
    }
    proof {
        let m = hashes@.len() as int;
        assert(m * chunk_size >= data@.len());
        if m > n {
            assert(m >= n + 1);
            assert((m - 1) * chunk_size >= n * chunk_size) by (nonlinear_arith)
                requires
                    m - 1 >= n,
                    chunk_size > 0,
            ;
            assert(min(m * chunk_size, data@.len() as int) < m * chunk_size);
        }
        if m < n {
            if data@.len() == 0 {
                vstd::arithmetic::div_mod::lemma_basic_div(chunk_size - 1, chunk_size as int);
                assert(n == 0);
            } else {
                assert((n - 1) * chunk_size < data@.len());
                assert(m * chunk_size <= (n - 1) * chunk_size) by (nonlinear_arith)
                    requires
                        m <= n - 1,
                        chunk_size > 0,
                        m >= 0,
                ;
            }
        }
        assert(m == n);
    }
    hashes
}

/// Whether the assembled buffer matches the authoritative hash sequence:
/// true exactly when the sequence holds one digest per chunk of the buffer
/// and every digest equals the recomputed one. Any other outcome means the
/// content is not trustworthy and must be discarded whole.
pub fn verify_song_hashes(data: &[u8], contract_hashes: &Vec<SongId>, chunk_size: usize) -> (ok:
    bool)
    requires
        chunk_size > 0,
    ensures
        ok == spec_hashes_match(data@, contract_hashes@, chunk_size as int),
{
    let computed = hash_song_chunks(data, chunk_size);
    if computed.len() != contract_hashes.len() {
        return false;
    }
    let mut i: usize = 0;
    while i < computed.len()
        invariant
            computed@.len() == contract_hashes@.len(),
            i <= computed@.len(),
            chunk_size > 0,
            computed@.len() == ceil_div(data@.len() as int, chunk_size as int),
            forall|j: int|
                0 <= j < computed@.len() ==> (#[trigger] computed@[j]).0@ == keccak256_of(
                    spec_chunk_at(data@, chunk_size as int, j),
                ),
            forall|j: int|
                0 <= j < i ==> (#[trigger] contract_hashes@[j]).0@ == keccak256_of(
                    spec_chunk_at(data@, chunk_size as int, j),
                ),
        decreases computed@.len() - i,
    {
        let same = contract_hashes[i].matches(&computed[i]);
        if !same {
            return false;
        }
        i = i + 1;
    }
    true
}

/// The verification round trip: a hash sequence that was computed over the
/// buffer by the digest rule itself — one Keccak-256 digest per chunk, in
/// order, as `hash_song_chunks` returns it — always matches that buffer.
pub proof fn lemma_verify_round_trip(data: Seq<u8>, hashes: Seq<SongId>, chunk_size: int)
    requires
        chunk_size > 0,
        hashes.len() == ceil_div(data.len() as int, chunk_size),
        forall|i: int|
            0 <= i < hashes.len() ==> (#[trigger] hashes[i]).0@ == keccak256_of(
                spec_chunk_at(data, chunk_size, i),
            ),
    ensures
        spec_hashes_match(data, hashes, chunk_size),
{
}

} // verus!
