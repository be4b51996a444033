//! The streaming controller: the state machine of one playback session.
//!
//! A session owns the two audio buffers by role. One buffer drains — the DMA
//! reads it sample by sample — while the other fills from the file. The
//! controller decides, from the session state and the byte count each read
//! delivered, when the roles swap, when the DMA source is reprogrammed, and
//! when the stream ends. The unverified shell performs the reads, the
//! register writes and the flag waits; every decision between them is made
//! here.

use vstd::prelude::*;

verus! {

/// Which of the two audio buffers.
#[derive(Clone, Copy, Debug, PartialEq, Eq, Structural)]
pub enum BufferId {
    A,
    B,
}

impl BufferId {
    /// The other buffer.
    pub open spec fn spec_other(self) -> BufferId {
        match self {
            BufferId::A => BufferId::B,
            BufferId::B => BufferId::A,
        }
    }

    /// The other buffer.
    pub fn other(self) -> (r: BufferId)
        ensures
            r == self.spec_other(),
            r != self,
    {
        match self {
            BufferId::A => BufferId::B,
            BufferId::B => BufferId::A,
        }
    }
}

/// When a refill ends the stream.
#[derive(Clone, Copy, Debug, PartialEq, Eq, Structural)]
pub enum Policy {
    /// Handoff on the transfer-complete flag; whole-buffer refills; only a
    /// read of zero bytes ends the stream, so a short final read is still
    /// handed to the pipeline.
    FullCycle,
    /// Handoff on the half-transfer flag; any short read ends the stream
    /// and its bytes are dropped rather than played as a partial fragment.
    HalfCycle,
}

/// Whether a refill that delivered `n` of the `chunk` requested bytes ends
/// the stream under `policy`.
pub open spec fn spec_ends_stream(policy: Policy, chunk: int, n: int) -> bool {
    match policy {
        Policy::FullCycle => n == 0,
        Policy::HalfCycle => n < chunk,
    }
}

/// Whether a refill of `n` bytes ends the stream.
pub fn ends_stream(policy: Policy, chunk: usize, n: usize) -> (r: bool)
    ensures
        r == spec_ends_stream(policy, chunk as int, n as int),
{
    match policy {
        Policy::FullCycle => n == 0,
        Policy::HalfCycle => n < chunk,
    }
}

/// The phase of a playback session.
#[derive(Clone, Copy, Debug, PartialEq, Eq, Structural)]
pub enum Phase {
    /// Seek to offset zero and read the first chunk into buffer A.
    Prime,
    /// Primed; waiting for the button press.
    Armed,
    /// The pipeline drains one buffer while the other refills.
    Streaming,
    /// The stream ended; the pipeline is disarmed.
    EndOfFile,
}

/// One playback session: the stream cursor, the buffer roles, and the
/// phase. The cursor only ever moves forward by the bytes a refill
/// delivered; it returns to zero only by priming anew.
pub struct Session {
    /// Where the session stands.
    pub phase: Phase,
    /// The buffer the DMA is programmed to drain.
    pub dma_source: BufferId,
    /// The stream cursor: how many bytes of the file have been read.
    pub offset: u64,
    /// How many streaming refills this pass has made.
    pub visits: u64,
    /// Bytes per refill.
    pub chunk: usize,
    /// When a refill ends the stream.
    pub policy: Policy,
}

impl Session {
    /// A session is well formed when its refills request at least one byte.
    pub open spec fn wf(self) -> bool {
        self.chunk >= 1
    }

    /// A fresh session, ready to prime.
    pub fn new(chunk: usize, policy: Policy) -> (s: Session)
        requires
            chunk >= 1,
        ensures
            s.wf(),
            s.phase == Phase::Prime,
            s.dma_source == BufferId::A,
            s.offset == 0,
            s.visits == 0,
            s.chunk == chunk,
            s.policy == policy,
    {
        Session {
            phase: Phase::Prime,
            dma_source: BufferId::A,
            offset: 0,
            visits: 0,
            chunk,
            policy,
        }
    }

    /// The buffer the priming read fills and the pipeline first drains:
    /// always buffer A.
    pub fn prime_target(&self) -> (r: BufferId)
        requires
            self.phase == Phase::Prime,
        ensures
            r == BufferId::A,
    {
        BufferId::A
    }

    /// Record the priming read: the cursor was seeked to zero and `n` bytes
    /// went into buffer A, which becomes the DMA source. The session is now
    /// armed, waiting for the trigger.
    pub fn on_primed(&mut self, n: usize)
        requires
            old(self).wf(),
            old(self).phase == Phase::Prime,
            n <= old(self).chunk,
        ensures
            final(self).wf(),
            final(self).phase == Phase::Armed,
            final(self).dma_source == BufferId::A,
            final(self).offset == n,
            final(self).visits == 0,
            final(self).chunk == old(self).chunk,
            final(self).policy == old(self).policy,
    {
        self.phase = Phase::Armed;
        self.dma_source = BufferId::A;
        self.offset = n as u64;
        self.visits = 0;
    }

    /// Record the trigger: the pipeline has been armed on buffer A and the
    /// session streams.
    pub fn on_trigger(&mut self)
        requires
            old(self).wf(),
            old(self).phase == Phase::Armed,
        ensures
            final(self).wf(),
            final(self).phase == Phase::Streaming,
            final(self).dma_source == old(self).dma_source,
            final(self).offset == old(self).offset,
            final(self).visits == old(self).visits,
            final(self).chunk == old(self).chunk,
            final(self).policy == old(self).policy,
    {
        self.phase = Phase::Streaming;
    }

    /// The buffer the next refill must fill: never the one the DMA drains.
    pub fn fill_target(&self) -> (r: BufferId)
        requires
            self.phase == Phase::Streaming,
        ensures
            r == self.dma_source.spec_other(),
            r != self.dma_source,
    {
        self.dma_source.other()
    }

    /// Record one streaming refill that delivered `n` bytes into the fill
    /// target. Either the stream ends — the cursor and the DMA source stay
    /// where they are, nothing is handed off — or the freshly filled buffer
    /// becomes the new DMA source, the roles swap, and the cursor advances
    /// by exactly the bytes delivered: for every continuing refill it
    /// strictly increases.
    pub fn on_refill(&mut self, n: usize) -> (handoff: Option<BufferId>)
        requires
            old(self).wf(),
            old(self).phase == Phase::Streaming,
            n <= old(self).chunk,
            old(self).offset + n <= u64::MAX,
            old(self).visits < u64::MAX,
        ensures
            final(self).wf(),
            final(self).visits == old(self).visits + 1,
            final(self).chunk == old(self).chunk,
            final(self).policy == old(self).policy,
            spec_ends_stream(old(self).policy, old(self).chunk as int, n as int) ==> {
                &&& final(self).phase == Phase::EndOfFile
                &&& final(self).offset == old(self).offset
                &&& final(self).dma_source == old(self).dma_source
                &&& handoff is None
            },
            !spec_ends_stream(old(self).policy, old(self).chunk as int, n as int) ==> {
                &&& final(self).phase == Phase::Streaming
                &&& final(self).offset == old(self).offset + n
                &&& final(self).offset > old(self).offset
                &&& final(self).dma_source == old(self).dma_source.spec_other()
                &&& handoff == Some(old(self).dma_source.spec_other())
            },
    {
        self.visits = self.visits + 1;
        if ends_stream(self.policy, self.chunk, n) {
            self.phase = Phase::EndOfFile;
            None
        } else {
            self.offset = self.offset + n as u64;
            self.dma_source = self.dma_source.other();
            Some(self.dma_source)
        }
    }

    /// Re-arm after end of file: the session returns to exactly the state a
    /// fresh session with the same chunk size and policy starts in, so the
    /// next pass primes from offset zero again.
    pub fn rearm(&mut self)
        requires
            old(self).wf(),
            old(self).phase == Phase::EndOfFile,
        ensures
            final(self).wf(),
            final(self).phase == Phase::Prime,
            final(self).dma_source == BufferId::A,
            final(self).offset == 0,
            final(self).visits == 0,
            final(self).chunk == old(self).chunk,
            final(self).policy == old(self).policy,
    {
        self.phase = Phase::Prime;
        self.dma_source = BufferId::A;
        self.offset = 0;
        self.visits = 0;
    }
}

} // verus!
