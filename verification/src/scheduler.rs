//! The request scheduler: partitions a requested chunk range into
//! bounded-size segments on the global batch grid and gates their dispatch
//! behind a bounded pipelining window.

use vstd::prelude::*;
use vstd::math::min;
use crate::chunk::{ceil_div, BYTES_PER_CHUNK};

verus! {

/// The largest number of chunks one wire-level request may ask for.
pub const CHUNKS_PER_REQUEST: usize = 20;

/// The pipelining window: how far ahead of confirmed progress the head
/// segment's start index may lie and still be dispatched.
pub const CONCURRENT_REQUESTS: usize = 3;

/// The smallest multiple of `b` that is at least `first`, for `first >= 0`
/// and `b > 0`.
pub open spec fn align_up(first: int, b: int) -> int {
    if first % b == 0 {
        first
    } else {
        first + (b - first % b)
    }
}

/// The segments the scheduler produces when it walks the batch grid from
/// `s` (a grid point) up to `last`: each grid point below `last` starts a
/// segment of at most `CHUNKS_PER_REQUEST` chunks, clipped at `last`.
pub open spec fn schedule_from(s: int, last: int) -> Seq<(usize, usize)>
    decreases last - s,
{
    if s >= last {
        Seq::empty()
    } else {
        let count = min(CHUNKS_PER_REQUEST as int, last - s);
        seq![(s as usize, count as usize)] + schedule_from(s + count, last)
    }
}

/// The full schedule for the chunk range `[first, last)`: segment starts are
/// the multiples of `CHUNKS_PER_REQUEST` inside the range, so an unaligned
/// `first` leaves the leading chunks below the first grid point unscheduled.
pub open spec fn schedule(first: int, last: int) -> Seq<(usize, usize)> {
    schedule_from(align_up(first, CHUNKS_PER_REQUEST as int), last)
}

/// The dispatch gate, exactly as the protocol states it: the head segment
/// may go out once its start index is no more than the buffer's byte length
/// multiplied by the chunk size, plus the window constant.
pub open spec fn gate_open(start_chunk_id: int, buffer_len: int, chunk_size: int) -> bool {
    start_chunk_id <= buffer_len * chunk_size + CONCURRENT_REQUESTS as int
}

/// A queue of requests for a (part of a) song, dequeued in ascending order
/// of start index. The view is the sequence of `(start_chunk_id, chunk_count)`
/// segments still pending, head first.
pub struct RequestQueue(Vec<(usize, usize)>);

impl View for RequestQueue {
    type V = Seq<(usize, usize)>;

    /// Segments in dequeue order; the inner vector stores them reversed so
    /// that dequeuing the head is a pop from the back.
    closed spec fn view(&self) -> Seq<(usize, usize)> {
        Seq::new(self.0@.len(), |i: int| self.0@[self.0@.len() - 1 - i])
    }
}

impl RequestQueue {
    /// Create a new request-queue that requests chunks from start-end.
    pub fn new(first_chunk_id: usize, last_chunk_id: usize) -> (queue: Self)
        requires
            first_chunk_id <= last_chunk_id,
        ensures
            queue@ == schedule(first_chunk_id as int, last_chunk_id as int),
    {
        let ghost a0 = align_up(first_chunk_id as int, CHUNKS_PER_REQUEST as int);
        let mut asc: Vec<(usize, usize)> = Vec::new();
        let rem = first_chunk_id % CHUNKS_PER_REQUEST;
        let pad = if rem == 0 {
            0
        } else {
            CHUNKS_PER_REQUEST - rem
        };
        if pad < last_chunk_id - first_chunk_id {
            let mut s = first_chunk_id + pad;
            proof {
                assert(s as int == a0);
            }
            while s < last_chunk_id
                invariant
                    s <= last_chunk_id,
                    schedule_from(a0, last_chunk_id as int) == asc@ + schedule_from(
                        s as int,
                        last_chunk_id as int,
                    ),
                decreases last_chunk_id - s,
            {
                let remaining = last_chunk_id - s;
                let count = if remaining < CHUNKS_PER_REQUEST {
                    remaining
                } else {
                    CHUNKS_PER_REQUEST
                };
                let ghost asc0 = asc@;
                let ghost s0 = s as int;
                asc.push((s, count));
                s = s + count;
                proof {
                    assert(schedule_from(s0, last_chunk_id as int) == seq![
                        (s0 as usize, count),
                    ] + schedule_from(s0 + count as int, last_chunk_id as int));
                    assert(asc@ + schedule_from(s as int, last_chunk_id as int) =~= (asc0
                        + schedule_from(s0, last_chunk_id as int)));
                }
            }
            proof {
                assert(schedule_from(s as int, last_chunk_id as int) == Seq::<(
                    usize,
                    usize,
                )>::empty());
                assert(asc@ =~= asc@ + schedule_from(s as int, last_chunk_id as int));
            }
        } else {
            proof {
                assert(a0 >= last_chunk_id as int);
                assert(schedule_from(a0, last_chunk_id as int) == Seq::<(usize, usize)>::empty());
                assert(asc@ =~= schedule_from(a0, last_chunk_id as int));
            }
        }
        let mut inner: Vec<(usize, usize)> = Vec::new();
        let mut i = asc.len();
        while i > 0
            invariant
                i <= asc.len(),
                inner@.len() == asc@.len() - i,
                forall|k: int|
                    0 <= k < inner@.len() ==> inner@[k] == asc@[asc@.len() - 1 - k],
            decreases i,
        {
            i = i - 1;
            let seg = asc[i];
            inner.push(seg);
        }
        let queue = RequestQueue(inner);
        proof {
            assert(queue@ =~= asc@);
        }
        queue
    }

    /// The dispatch gate over an explicit buffer length and chunk size:
    /// removes and returns the head segment when the window admits it, and
    /// otherwise leaves the queue unchanged.
    pub fn ready_to_send(&mut self, buffer_len: usize, chunk_size: usize) -> (request: Option<
        (usize, usize),
    >)
        ensures
            ({
                let q0 = old(self)@;
                if q0.len() > 0 && gate_open(q0[0].0 as int, buffer_len as int, chunk_size as int) {
                    &&& request == Some(q0[0])
                    &&& final(self)@ == q0.drop_first()
                } else {
                    &&& request is None
                    &&& final(self)@ == q0
                }
            }),
    {
        let n = self.0.len();
        if n > 0 {
            let head = self.0[n - 1];
            let lhs: u128 = head.0 as u128;
            let bl: u128 = buffer_len as u128;
            let cs: u128 = chunk_size as u128;
            proof {
                assert(bl * cs <= (u64::MAX as u128) * (u64::MAX as u128)) by (nonlinear_arith)
                    requires
                        0 <= bl <= u64::MAX as u128,
                        0 <= cs <= u64::MAX as u128,
                ;
            }
            let rhs: u128 = bl * cs + CONCURRENT_REQUESTS as u128;
            if lhs <= rhs {
                let ghost q0 = self@;
                let popped = self.0.pop().unwrap();
                proof {
                    assert(self@ =~= q0.drop_first());
                }
                return Some(popped);
            }
        }
        None
    }

    /// Whether a new request should be made now, given the bytes of the song
    /// received so far.
    ///
    /// Returns (chunk_id, amount_of_chunks).
    pub fn request_now(&mut self, song: &[u8]) -> (request: Option<(usize, usize)>)
        ensures
            ({
                let q0 = old(self)@;
                if q0.len() > 0 && gate_open(
                    q0[0].0 as int,
                    song@.len() as int,
                    BYTES_PER_CHUNK as int,
                ) {
                    &&& request == Some(q0[0])
                    &&& final(self)@ == q0.drop_first()
                } else {
                    &&& request is None
                    &&& final(self)@ == q0
                }
            }),
    {
        self.ready_to_send(song.len(), BYTES_PER_CHUNK)
    }

    /// How many segments are still pending.
    pub fn len(&self) -> (n: usize)
        ensures
            n == self@.len(),
    {
        self.0.len()
    }
}

proof fn lemma_schedule_from_closed_form(s: int, last: int)
    requires
        0 <= s,
        last <= usize::MAX,
    ensures
        schedule_from(s, last).len() == (if s >= last {
            0int
        } else {
            ceil_div(last - s, CHUNKS_PER_REQUEST as int)
        }),
        forall|i: int|
            0 <= i < schedule_from(s, last).len() ==> {
                let seg = #[trigger] schedule_from(s, last)[i];
                &&& seg.0 == s + i * (CHUNKS_PER_REQUEST as int)
                &&& seg.1 == min(CHUNKS_PER_REQUEST as int, last - seg.0)
                &&& s + i * (CHUNKS_PER_REQUEST as int) < last
            },
    decreases schedule_from(s, last).len(),
{
    let b = CHUNKS_PER_REQUEST as int;
    if s < last {
        let count = min(b, last - s);
        let sq = schedule_from(s, last);
        let rest = schedule_from(s + count, last);
        assert(sq == seq![(s as usize, count as usize)] + rest);
        lemma_schedule_from_closed_form(s + count, last);
        assert forall|i: int| 0 <= i < sq.len() implies {
            let seg = #[trigger] sq[i];
            &&& seg.0 == s + i * b
            &&& seg.1 == min(b, last - seg.0)
            &&& s + i * b < last
        } by {
            if i > 0 {
                assert(sq[i] == rest[i - 1]);
                assert(rest[i - 1].0 == (s + count) + (i - 1) * b);
                assert((s + count) + (i - 1) * b == s + i * b);
            }
        }
    }
}

/// For any chunk index `c` in a grid-aligned range `[first, last)`, the
/// segment at position `(c - first) / CHUNKS_PER_REQUEST` of the schedule
/// contains `c`, and no other segment does: the schedule covers the range
/// exactly once.
pub proof fn lemma_schedule_covers(first: int, last: int, c: int)
    requires
        0 <= first <= last <= usize::MAX,
        first % (CHUNKS_PER_REQUEST as int) == 0,
        first <= c < last,
    ensures
        ({
            let sched = schedule(first, last);
            let k = (c - first) / (CHUNKS_PER_REQUEST as int);
            &&& 0 <= k < sched.len()
            &&& sched[k].0 <= c < sched[k].0 + sched[k].1
            &&& forall|j: int|
                0 <= j < sched.len() && j != k ==> !((#[trigger] sched[j]).0 <= c < sched[j].0
                    + sched[j].1)
        }),
{
    let b = CHUNKS_PER_REQUEST as int;
    assert(align_up(first, b) == first);
    lemma_schedule_from_closed_form(first, last);
    let sched = schedule(first, last);
    let k = (c - first) / b;
    vstd::arithmetic::div_mod::lemma_fundamental_div_mod(c - first, b);
    vstd::arithmetic::div_mod::lemma_mod_bound(c - first, b);
    assert(c - first == b * k + (c - first) % b);
    assert(b * k == k * b) by (nonlinear_arith);
    assert(first + k * b <= c < first + k * b + b);
    assert(k * b <= c - first);
    assert(k >= 0) by (nonlinear_arith)
        requires
            k * b >= 0,
            b > 0,
    ;
    assert(sched.len() == ceil_div(last - first, b));
    vstd::arithmetic::div_mod::lemma_mod_bound(last - first + b - 1, b);
    vstd::arithmetic::div_mod::lemma_fundamental_div_mod(last - first + b - 1, b);
    assert(ceil_div(last - first, b) * b == b * ceil_div(last - first, b)) by (nonlinear_arith);
    assert(ceil_div(last - first, b) * b >= last - first);
    assert(k < sched.len()) by (nonlinear_arith)
        requires
            k * b <= c - first,
            c - first < last - first,
            sched.len() * b >= last - first,
            b > 0,
    ;
    assert(sched[k].0 == first + k * b);
    assert(sched[k].0 <= c < sched[k].0 + sched[k].1);
    assert forall|j: int|
        0 <= j < sched.len() && j != k implies !((#[trigger] sched[j]).0 <= c < sched[j].0
        + sched[j].1) by {
        assert(sched[j].0 == first + j * b);
        assert(sched[j].1 <= b);
        if sched[j].0 <= c < sched[j].0 + sched[j].1 {
            assert(first + j * b <= c < first + j * b + b);
            vstd::arithmetic::div_mod::lemma_fundamental_div_mod_converse(
                c - first,
                b,
                j,
                c - first - j * b,
            );
            assert(j == k);
        }
    }
}

/// The request schedule for a grid-aligned range start partitions the whole
/// chunk range `[first, last)`: every segment is non-empty and lies inside
/// the range, each segment begins exactly where its predecessor ended, and
/// distinct segments never overlap. Together with `lemma_schedule_covers`,
/// the union of the segments' chunk ranges is `[first, last)` exactly once,
/// in ascending order of start index.
pub proof fn lemma_schedule_exhaustive(first: int, last: int)
    requires
        0 <= first <= last <= usize::MAX,
        first % (CHUNKS_PER_REQUEST as int) == 0,
    ensures
        forall|i: int|
            0 <= i < schedule(first, last).len() ==> {
                let seg = #[trigger] schedule(first, last)[i];
                &&& first <= seg.0
                &&& seg.1 >= 1
                &&& seg.0 + seg.1 <= last
            },
        forall|i: int|
            0 <= i && i + 1 < schedule(first, last).len() ==> (#[trigger] schedule(first, last)[i
                + 1]).0 == schedule(first, last)[i].0 + schedule(first, last)[i].1,
        forall|i: int, j: int|
            0 <= i < j < schedule(first, last).len() ==> (#[trigger] schedule(first, last)[i]).0
                + schedule(first, last)[i].1 <= (#[trigger] schedule(first, last)[j]).0,
{
    let b = CHUNKS_PER_REQUEST as int;
    assert(align_up(first, b) == first);
    lemma_schedule_from_closed_form(first, last);
    let sched = schedule(first, last);
    assert forall|i: int| 0 <= i < sched.len() implies {
        let seg = #[trigger] sched[i];
        &&& first <= seg.0
        &&& seg.1 >= 1
        &&& seg.0 + seg.1 <= last
    } by {
        assert(sched[i].0 == first + i * b);
        assert(i * b >= 0) by (nonlinear_arith)
            requires
                i >= 0,
                b > 0,
        ;
    }
    assert forall|i: int| 0 <= i && i + 1 < sched.len() implies (#[trigger] sched[i + 1]).0
        == sched[i].0 + sched[i].1 by {
        assert(sched[i].0 == first + i * b);
        assert(sched[i + 1].0 == first + (i + 1) * b);
        assert((i + 1) * b == i * b + b);
        assert(first + (i + 1) * b < last);
        assert(sched[i].1 == min(b, last - (first + i * b)));
    }
    assert forall|i: int, j: int| 0 <= i < j < sched.len() implies (#[trigger] sched[i]).0
        + sched[i].1 <= (#[trigger] sched[j]).0 by {
        assert(sched[i].0 == first + i * b);
        assert(sched[j].0 == first + j * b);
        assert(sched[i].1 <= b);
        assert((i + 1) * b <= j * b) by (nonlinear_arith)
            requires
                i + 1 <= j,
                b > 0,
        ;
        assert((i + 1) * b == i * b + b);
    }
}

/// A segment whose start index is zero passes the dispatch gate whatever
/// the buffer holds: its start can never exceed a non-negative bound.
pub proof fn lemma_zero_start_always_dispatchable(buffer_len: int, chunk_size: int)
    requires
        buffer_len >= 0,
        chunk_size >= 0,
    ensures
        gate_open(0, buffer_len, chunk_size),
{
    assert(buffer_len * chunk_size >= 0) by (nonlinear_arith)
        requires
            buffer_len >= 0,
            chunk_size >= 0,
    ;
}

} // verus!
