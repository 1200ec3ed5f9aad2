//! The download protocol state: one attempt at assembling one chunk range
//! from one distributor. The surrounding task performs the network sends and
//! receives; every decision the loop takes — whether a request may go out,
//! whether an inbound frame is acceptable, when the transfer is done — is a
//! method here, with a contract.

use vstd::prelude::*;
use crate::chunk::{is_transfer_complete, spec_transfer_complete};
use crate::scheduler::{gate_open, schedule, RequestQueue};

verus! {

/// Why a download attempt failed.
#[derive(Clone, Copy, Debug, PartialEq, Eq, Structural)]
pub enum DownloadError {
    /// The transport failed at the I/O layer.
    ConnectionError,
    /// The peer closed the stream before the requested range was assembled.
    StreamClosedEarly,
    /// An inbound frame's declared chunk index was not the next expected one.
    ProtocolViolation,
    /// The assembled bytes did not match the authoritative hashes.
    VerificationFailure,
}

/// The state of one download attempt: the pending request segments, the
/// contiguous bytes received so far, and the attempt's fixed parameters.
pub struct DownloadSession {
    queue: RequestQueue,
    song: Vec<u8>,
    chunk_amount: usize,
    chunk_size: usize,
}

impl DownloadSession {
    /// The attempt's parameters never change and the chunk size is positive.
    pub closed spec fn wf(&self) -> bool {
        self.chunk_size > 0
    }

    /// The bytes assembled so far, contiguous from the start of the range.
    pub closed spec fn song_view(&self) -> Seq<u8> {
        self.song@
    }

    /// The request segments not yet dispatched, head first.
    pub closed spec fn queue_view(&self) -> Seq<(usize, usize)> {
        self.queue@
    }

    pub closed spec fn spec_chunk_amount(&self) -> usize {
        self.chunk_amount
    }

    pub closed spec fn spec_chunk_size(&self) -> usize {
        self.chunk_size
    }

    /// Start a download attempt for the chunk range
    /// `[first_chunk_id, first_chunk_id + chunk_amount)`.
    pub fn new(first_chunk_id: usize, chunk_amount: usize, chunk_size: usize) -> (session: Self)
        requires
            chunk_size > 0,
            first_chunk_id + chunk_amount <= usize::MAX,
        ensures
            session.wf(),
            session.song_view() == Seq::<u8>::empty(),
            session.queue_view() == schedule(
                first_chunk_id as int,
                first_chunk_id + chunk_amount as int,
            ),
            session.spec_chunk_amount() == chunk_amount,
            session.spec_chunk_size() == chunk_size,
    {
        let last_chunk_id = first_chunk_id + chunk_amount;
        DownloadSession {
            queue: RequestQueue::new(first_chunk_id, last_chunk_id),
            song: Vec::new(),
            chunk_amount,
            chunk_size,
        }
    }

    /// Whether the requested range is fully assembled, by the protocol's
    /// boundary test.
    pub fn is_complete(&self) -> (complete: bool)
        ensures
            complete == spec_transfer_complete(
                self.song_view().len() as int,
                self.spec_chunk_amount() as int,
                self.spec_chunk_size() as int,
            ),
    {
        is_transfer_complete(self.song.len(), self.chunk_amount, self.chunk_size)
    }

    /// If the pipelining window lets the head segment go out now, remove it
    /// and hand it to the caller for dispatch; otherwise change nothing.
    pub fn next_request(&mut self) -> (request: Option<(usize, usize)>)
        requires
            old(self).wf(),
        ensures
            final(self).wf(),
            final(self).song_view() == old(self).song_view(),
            final(self).spec_chunk_amount() == old(self).spec_chunk_amount(),
            final(self).spec_chunk_size() == old(self).spec_chunk_size(),
            ({
                let q0 = old(self).queue_view();
                if q0.len() > 0 && gate_open(
                    q0[0].0 as int,
                    old(self).song_view().len() as int,
                    old(self).spec_chunk_size() as int,
                ) {
                    &&& request == Some(q0[0])
                    &&& final(self).queue_view() == q0.drop_first()
                } else {
                    &&& request is None
                    &&& final(self).queue_view() == q0
                }
            }),
    {
        let buffer_len = self.song.len();
        self.queue.ready_to_send(buffer_len, self.chunk_size)
    }

    /// Consume one inbound frame. The declared start index must be exactly
    /// the next expected chunk index, `buffer_len / chunk_size`; any other
    /// index is a protocol violation and leaves the state unchanged. On
    /// success the payload is appended to the buffer.
    pub fn accept_frame(&mut self, start_chunk_id: usize, payload: &[u8]) -> (outcome: Result<
        (),
        DownloadError,
    >)
        requires
            old(self).wf(),
            old(self).song_view().len() + payload@.len() <= usize::MAX,
        ensures
            final(self).wf(),
            final(self).queue_view() == old(self).queue_view(),
            final(self).spec_chunk_amount() == old(self).spec_chunk_amount(),
            final(self).spec_chunk_size() == old(self).spec_chunk_size(),
            if start_chunk_id as int == old(self).song_view().len() as int / old(
                self,
            ).spec_chunk_size() as int {
                &&& outcome is Ok
                &&& final(self).song_view() == old(self).song_view() + payload@
            } else {
                &&& outcome == Result::<(), DownloadError>::Err(DownloadError::ProtocolViolation)
                &&& final(self).song_view() == old(self).song_view()
            },
    {
        let expected = self.song.len() / self.chunk_size;
        if start_chunk_id != expected {
            return Err(DownloadError::ProtocolViolation);
        }
        let mut i: usize = 0;
        let ghost song0 = self.song@;
        while i < payload.len()
            invariant
                i <= payload@.len(),
                song0.len() + payload@.len() <= usize::MAX,
                self.song@ == song0 + payload@.subrange(0, i as int),
                self.queue == old(self).queue,
                self.chunk_amount == old(self).chunk_amount,
                self.chunk_size == old(self).chunk_size,
            decreases payload@.len() - i,
        {
            let byte = payload[i];
            self.song.push(byte);
            i = i + 1;
            proof {
                assert(song0 + payload@.subrange(0, i - 1 as int) + seq![payload@[i - 1]] =~= song0
                    + payload@.subrange(0, i as int));
            }
        }
        proof {
            assert(payload@.subrange(0, payload@.len() as int) =~= payload@);
        }
        Ok(())
    }

    /// The decision taken when the transport yields no further frames: if
    /// the range was not yet fully assembled, the peer closed the stream
    /// early and the attempt fails; otherwise nothing is wrong.
    pub fn on_stream_end(&self) -> (outcome: Result<(), DownloadError>)
        ensures
            if spec_transfer_complete(
                self.song_view().len() as int,
                self.spec_chunk_amount() as int,
                self.spec_chunk_size() as int,
            ) {
                outcome is Ok
            } else {
                outcome == Result::<(), DownloadError>::Err(DownloadError::StreamClosedEarly)
            },
    {
        if self.is_complete() {
            Ok(())
        } else {
            Err(DownloadError::StreamClosedEarly)
        }
    }

    /// Hand the assembled bytes to the caller, consuming the attempt.
    pub fn into_song(self) -> (song: Vec<u8>)
        ensures
            song@ == self.song_view(),
    {
        self.song
    }

    /// The number of bytes assembled so far.
    pub fn song_len(&self) -> (n: usize)
        ensures
            n == self.song_view().len(),
    {
        self.song.len()
    }
}

} // verus!
