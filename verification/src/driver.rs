//! A whole playback session run against an in-memory file image.
//!
//! The streaming controller only decides; on the device the reads come from
//! the SD card and the waits from the DMA flags. This driver supplies both
//! from a byte image of the file and a model of the sticky handoff flag, so
//! that a complete pass — prime, arm, stream, end of file — is itself a
//! verified function: which bytes reach the pipeline, in which buffer, how
//! many refills run, and how the flag is waited on and cleared are all
//! pinned to spec-level functions of the file, the chunk size and the
//! policy alone.

use crate::stream::{spec_ends_stream, BufferId, Phase, Policy, Session};
use vstd::arithmetic::div_mod::{
    lemma_basic_div, lemma_div_plus_one, lemma_div_pos_is_pos, lemma_fundamental_div_mod,
    lemma_mod_bound,
};
use vstd::prelude::*;
use vstd::seq_lib::*;

verus! {

/// One touch of the DMA handoff flag.
#[derive(Clone, Copy, Debug, PartialEq, Eq, Structural)]
pub enum FlagOp {
    /// Busy-wait until the sticky flag is up.
    Wait,
    /// Write the flag-clear register once.
    Clear,
}

/// One streaming refill as the driver performed it.
#[derive(Clone, Copy, Debug, PartialEq, Eq, Structural)]
pub struct RefillRecord {
    /// The buffer the read filled.
    pub target: BufferId,
    /// The buffer the DMA was draining while the read ran.
    pub source: BufferId,
    /// How many bytes the read delivered.
    pub delivered: usize,
}

/// One segment handed to the pipeline: a buffer and the bytes the file
/// delivered into it.
#[derive(Debug, PartialEq, Eq)]
pub struct Segment {
    pub buffer: BufferId,
    pub data: Vec<u8>,
}

/// Everything one pass observed, in order.
pub struct Report {
    /// The byte count of every file read, the priming read first.
    pub reads: Vec<usize>,
    /// Every streaming refill.
    pub refills: Vec<RefillRecord>,
    /// Every segment handed to the pipeline, the primed buffer first.
    pub played: Vec<Segment>,
    /// Every wait on and clear of the handoff flag, in order.
    pub flag_ops: Vec<FlagOp>,
    /// How many streaming refills ran.
    pub visits: u64,
}

/// How many bytes a read of `c` bytes at offset `off` of an `s`-byte file
/// delivers: the full chunk, or whatever remains at the tail.
pub open spec fn spec_read_len(s: int, c: int, off: int) -> int {
    if s - off < c {
        s - off
    } else {
        c
    }
}

/// The byte counts of the streaming reads from cursor `off` on, counting
/// also the read that ends the stream.
pub open spec fn spec_stream_reads(s: int, c: int, off: int, policy: Policy) -> Seq<int>
    decreases s - off,
    when 1 <= c && 0 <= off <= s
{
    let n = spec_read_len(s, c, off);
    if spec_ends_stream(policy, c, n) {
        seq![n]
    } else {
        seq![n] + spec_stream_reads(s, c, off + n, policy)
    }
}

/// The segments the streaming refills hand to the pipeline from cursor
/// `off` on. The read that ends the stream hands nothing off, so its bytes
/// appear in no segment.
pub open spec fn spec_stream_segs(file: Seq<u8>, c: int, off: int, policy: Policy) -> Seq<Seq<u8>>
    decreases file.len() - off,
    when 1 <= c && 0 <= off <= file.len()
{
    let n = spec_read_len(file.len() as int, c, off);
    if spec_ends_stream(policy, c, n) {
        Seq::empty()
    } else {
        seq![file.subrange(off, off + n)] + spec_stream_segs(file, c, off + n, policy)
    }
}

/// The byte counts of every read of one pass, the priming read first.
pub open spec fn spec_reads(s: int, c: int, policy: Policy) -> Seq<int> {
    seq![spec_read_len(s, c, 0)] + spec_stream_reads(s, c, spec_read_len(s, c, 0), policy)
}

/// Every segment one pass plays, the primed buffer first.
pub open spec fn spec_played(file: Seq<u8>, c: int, policy: Policy) -> Seq<Seq<u8>> {
    let n = spec_read_len(file.len() as int, c, 0);
    seq![file.subrange(0, n)] + spec_stream_segs(file, c, n, policy)
}

/// How many streaming refills one pass makes before end of file.
pub open spec fn spec_visits(s: int, c: int, policy: Policy) -> int {
    spec_stream_reads(s, c, spec_read_len(s, c, 0), policy).len() as int
}

/// The read byte counts as mathematical integers.
pub open spec fn reads_view(v: Seq<usize>) -> Seq<int> {
    v.map_values(|n: usize| n as int)
}

/// The played segments as byte sequences.
pub open spec fn segs_view(v: Seq<Segment>) -> Seq<Seq<u8>> {
    v.map_values(|g: Segment| g.data@)
}

/// Read up to `chunk` bytes of `file` at `offset`: the model of the
/// filesystem client's sequential read, which delivers fewer bytes at the
/// tail and zero at the exact end.
pub fn read_chunk(file: &Vec<u8>, offset: usize, chunk: usize) -> (r: Vec<u8>)
    requires
        1 <= chunk,
        offset <= file@.len(),
    ensures
        r@.len() == spec_read_len(file@.len() as int, chunk as int, offset as int),
        r@ == file@.subrange(
            offset as int,
            offset + spec_read_len(file@.len() as int, chunk as int, offset as int),
        ),
{
    let len: usize = file.len();
    let end: usize = if len - offset < chunk {
        len
    } else {
        offset + chunk
    };
    let mut r: Vec<u8> = Vec::new();
    proof {
        assert(r@ =~= file@.subrange(offset as int, offset as int));
    }
    let mut k: usize = offset;
    while k < end
        invariant
            offset <= k <= end <= file@.len(),
            end - offset == spec_read_len(file@.len() as int, chunk as int, offset as int),
            r@ == file@.subrange(offset as int, k as int),
        decreases end - k,
    {
        r.push(file[k]);
        proof {
            assert(file@.subrange(offset as int, k + 1) =~= file@.subrange(
                offset as int,
                k as int,
            ).push(file@[k as int]));
        }
        k = k + 1;
    }
    r
}

/// Run one whole playback session against `file`: prime buffer A from
/// offset zero, arm on the trigger, then stream — wait on the handoff flag,
/// refill the idle buffer, hand it off or end the stream, and clear the
/// observed flag exactly once per cycle. The report pins every observation
/// to a function of the file image, the chunk size and the policy:
/// no segment is ever delivered into the buffer the DMA is draining, the
/// flag operations strictly alternate wait then clear, and the buffers
/// alternate starting at A.
pub fn run_session(file: &Vec<u8>, s: &mut Session) -> (report: Report)
    requires
        old(s).wf(),
        old(s).phase == Phase::Prime,
        file@.len() < u64::MAX,
    ensures
        final(s).wf(),
        final(s).phase == Phase::EndOfFile,
        final(s).chunk == old(s).chunk,
        final(s).policy == old(s).policy,
        final(s).visits == spec_visits(
            file@.len() as int,
            old(s).chunk as int,
            old(s).policy,
        ),
        final(s).offset == segs_view(report.played@).flatten().len(),
        report.visits == final(s).visits,
        report.refills@.len() == report.visits,
        report.reads@.len() == report.visits + 1,
        forall|i: int|
            0 <= i < report.refills@.len() ==> (#[trigger] report.refills@[i]).delivered
                == report.reads@[i + 1],
        forall|i: int|
            0 <= i < report.refills@.len() ==> (#[trigger] report.refills@[i]).source == (
            if i % 2 == 0 {
                BufferId::A
            } else {
                BufferId::B
            }),
        reads_view(report.reads@) == spec_reads(
            file@.len() as int,
            old(s).chunk as int,
            old(s).policy,
        ),
        segs_view(report.played@) == spec_played(file@, old(s).chunk as int, old(s).policy),
        forall|i: int|
            0 <= i < report.refills@.len() ==> (#[trigger] report.refills@[i]).target
                != report.refills@[i].source,
        forall|i: int|
            0 <= i < report.played@.len() ==> (#[trigger] report.played@[i]).buffer == (
            if i % 2 == 0 {
                BufferId::A
            } else {
                BufferId::B
            }),
        report.flag_ops@.len() == 2 * report.visits,
        forall|i: int|
            0 <= i < report.flag_ops@.len() ==> report.flag_ops@[i] == (if i % 2 == 0 {
                FlagOp::Wait
            } else {
                FlagOp::Clear
            }),
{
    let ghost fileseq = file@;
    let ghost sz = file@.len() as int;
    // A real vector's length fits in a machine word; the cursor arithmetic
    // below leans on that bound.
    let flen: usize = file.len();
    proof {
        assert(flen == fileseq.len());
    }
    let ghost c = old(s).chunk as int;
    let ghost policy = old(s).policy;

    let mut report = Report {
        reads: Vec::new(),
        refills: Vec::new(),
        played: Vec::new(),
        flag_ops: Vec::new(),
        visits: 0,
    };

    // PRIME: seek the cursor to zero and read the first chunk into buffer
    // A, the pipeline's initial source.
    let target0 = s.prime_target();
    let first = read_chunk(file, 0, s.chunk);
    let n0 = first.len();
    s.on_primed(n0);
    report.reads.push(n0);
    report.played.push(Segment { buffer: target0, data: first });
    let mut cursor: usize = n0;

    // ARMED: the button press arrives and the pipeline is armed on A.
    s.on_trigger();

    proof {
        assert(reads_view(report.reads@) =~= seq![n0 as int]);
        assert(segs_view(report.played@) =~= seq![fileseq.subrange(0, n0 as int)]);
        assert(segs_view(report.played@) =~= Seq::<Seq<u8>>::empty().push(
            fileseq.subrange(0, n0 as int),
        ));
        Seq::<Seq<u8>>::empty().lemma_flatten_push(fileseq.subrange(0, n0 as int));
        assert(Seq::<u8>::empty() + fileseq.subrange(0, n0 as int) =~= fileseq.subrange(
            0,
            n0 as int,
        ));
        assert(spec_reads(sz, c, policy) == reads_view(report.reads@) + spec_stream_reads(
            sz,
            c,
            cursor as int,
            policy,
        ));
        assert(spec_played(fileseq, c, policy) == segs_view(report.played@) + spec_stream_segs(
            fileseq,
            c,
            cursor as int,
            policy,
        ));
    }

    // STREAMING: one iteration per refill, until a refill ends the stream.
    let mut done: bool = false;
    while !done
        invariant
            s.wf(),
            s.chunk == c,
            s.policy == policy,
            file@ == fileseq,
            sz == fileseq.len(),
            sz < u64::MAX,
            fileseq.len() <= usize::MAX,
            cursor <= fileseq.len(),
            s.offset == cursor,
            s.visits <= cursor + (if done {
                1int
            } else {
                0int
            }),
            !done ==> s.phase == Phase::Streaming,
            done ==> s.phase == Phase::EndOfFile,
            report.refills@.len() == s.visits,
            report.reads@.len() == s.visits + 1,
            cursor == segs_view(report.played@).flatten().len(),
            !done ==> report.played@.len() == report.refills@.len() + 1,
            forall|i: int|
                0 <= i < report.refills@.len() ==> (#[trigger] report.refills@[i]).delivered
                    == report.reads@[i + 1],
            forall|i: int|
                0 <= i < report.refills@.len() ==> (#[trigger] report.refills@[i]).source == (
                if i % 2 == 0 {
                    BufferId::A
                } else {
                    BufferId::B
                }),
            report.flag_ops@.len() == 2 * s.visits,
            forall|i: int|
                0 <= i < report.flag_ops@.len() ==> report.flag_ops@[i] == (if i % 2 == 0 {
                    FlagOp::Wait
                } else {
                    FlagOp::Clear
                }),
            forall|i: int|
                0 <= i < report.refills@.len() ==> (#[trigger] report.refills@[i]).target
                    != report.refills@[i].source,
            forall|i: int|
                0 <= i < report.played@.len() ==> (#[trigger] report.played@[i]).buffer == (
                if i % 2 == 0 {
                    BufferId::A
                } else {
                    BufferId::B
                }),
            !done ==> s.dma_source == (if report.played@.len() % 2 == 1 {
                BufferId::A
            } else {
                BufferId::B
            }),
            !done ==> spec_reads(sz, c, policy) == reads_view(report.reads@) + spec_stream_reads(
                sz,
                c,
                cursor as int,
                policy,
            ),
            done ==> spec_reads(sz, c, policy) == reads_view(report.reads@),
            !done ==> spec_played(fileseq, c, policy) == segs_view(report.played@)
                + spec_stream_segs(fileseq, c, cursor as int, policy),
            done ==> spec_played(fileseq, c, policy) == segs_view(report.played@),
            !done ==> spec_visits(sz, c, policy) == s.visits + spec_stream_reads(
                sz,
                c,
                cursor as int,
                policy,
            ).len(),
            done ==> spec_visits(sz, c, policy) == s.visits,
        decreases fileseq.len() - cursor, (if done {
            0int
        } else {
            1int
        }),
    {
        // Wait for the chosen handoff flag.
        report.flag_ops.push(FlagOp::Wait);

        // Refill the buffer the DMA is not draining.
        let source = s.dma_source;
        let target = s.fill_target();
        let data = read_chunk(file, cursor, s.chunk);
        let n = data.len();
        report.reads.push(n);
        report.refills.push(RefillRecord { target, source, delivered: n });

        let ghost old_reads = reads_view(report.reads@).drop_last();
        let ghost old_segs = segs_view(report.played@);

        let handoff = s.on_refill(n);

        // Clear the observed flag: once per cycle, in both outcomes, so the
        // next wait never returns on a stale flag.
        report.flag_ops.push(FlagOp::Clear);

        proof {
            assert(reads_view(report.reads@) =~= old_reads.push(n as int));
            assert(old_reads + (seq![n as int] + spec_stream_reads(
                sz,
                c,
                cursor + n,
                policy,
            )) =~= (old_reads + seq![n as int]) + spec_stream_reads(sz, c, cursor + n, policy));
            assert(old_reads + seq![n as int] =~= old_reads.push(n as int));
        }

        match handoff {
            Some(b) => {
                // Reprogram the DMA source to the freshly filled buffer and
                // swap the roles: the segment plays.
                report.played.push(Segment { buffer: b, data });
                proof {
                    assert(segs_view(report.played@) =~= old_segs.push(
                        fileseq.subrange(cursor as int, cursor + n),
                    ));
                    old_segs.lemma_flatten_push(fileseq.subrange(cursor as int, cursor + n));
                    assert(old_segs + (seq![fileseq.subrange(cursor as int, cursor + n)]
                        + spec_stream_segs(fileseq, c, cursor + n, policy)) =~= old_segs.push(
                        fileseq.subrange(cursor as int, cursor + n),
                    ) + spec_stream_segs(fileseq, c, cursor + n, policy));
                }
                cursor = cursor + n;
            },
            None => {
                // The stream ended: nothing is handed off, the pipeline is
                // disarmed.
                proof {
                    assert(segs_view(report.played@) == old_segs);
                    assert(spec_stream_segs(fileseq, c, cursor as int, policy) =~= Seq::<
                        Seq<u8>,
                    >::empty());
                    assert(old_segs + Seq::<Seq<u8>>::empty() =~= old_segs);
                }
                done = true;
            },
        }
    }

    report.visits = s.visits;
    report
}

/// How many streaming reads remain from cursor `off` under the full-cycle
/// policy: every remaining byte is delivered chunk by chunk, then one final
/// read observes zero bytes and ends the stream.
proof fn lemma_stream_reads_len_full(s: int, c: int, off: int)
    requires
        1 <= c,
        0 <= off <= s,
    ensures
        spec_stream_reads(s, c, off, Policy::FullCycle).len() == if off < s {
            (s - off + c - 1) / c + 1
        } else {
            1
        },
    decreases s - off,
{
    let n = spec_read_len(s, c, off);
    if off < s {
        lemma_stream_reads_len_full(s, c, off + n);
        if s - off <= c {
            // the read drains the tail; only the zero read follows
            lemma_div_plus_one(s - off - 1, c);
            lemma_basic_div(s - off - 1, c);
        } else {
            // a full chunk; one more read per remaining chunk
            lemma_div_plus_one(s - off - c + c - 1, c);
        }
    }
}

/// How many streaming reads remain from cursor `off` under the half-cycle
/// policy: one per full chunk still available, plus the short read that
/// ends the stream.
proof fn lemma_stream_reads_len_half(s: int, c: int, off: int)
    requires
        1 <= c,
        0 <= off <= s,
    ensures
        spec_stream_reads(s, c, off, Policy::HalfCycle).len() == (s - off) / c + 1,
    decreases s - off,
{
    let n = spec_read_len(s, c, off);
    if spec_ends_stream(Policy::HalfCycle, c, n) {
        lemma_basic_div(s - off, c);
    } else {
        lemma_stream_reads_len_half(s, c, off + c);
        lemma_div_plus_one(s - off - c, c);
    }
}

/// Termination of a pass under the full-cycle policy: a file of `s` bytes
/// read in chunks of `c` is streamed in exactly the least number of chunks
/// that cover it — the streaming phase runs one refill per chunk and no
/// more. The one exception is the empty file, which still runs the single
/// refill that observes zero bytes and ends the stream.
pub proof fn lemma_termination(s: int, c: int)
    requires
        1 <= c,
        0 <= s,
    ensures
        1 <= s ==> spec_visits(s, c, Policy::FullCycle) == (s + c - 1) / c,
        s == 0 ==> spec_visits(s, c, Policy::FullCycle) == 1,
{
    if s >= 1 {
        let first = spec_read_len(s, c, 0);
        lemma_stream_reads_len_full(s, c, first);
        if s <= c {
            lemma_div_plus_one(s - 1, c);
            lemma_basic_div(s - 1, c);
        } else {
            lemma_div_plus_one(s - c + c - 1, c);
        }
    }
}

/// Termination of a pass under the half-cycle policy: one refill per full
/// chunk the file holds, and a file shorter than one chunk still runs the
/// one refill that observes the short tail. A trailing fragment is dropped,
/// so the count is the floor, not the ceiling.
pub proof fn lemma_termination_half_cycle(s: int, c: int)
    requires
        1 <= c,
        0 <= s,
    ensures
        spec_visits(s, c, Policy::HalfCycle) == if s < c {
            1int
        } else {
            s / c
        },
{
    let first = spec_read_len(s, c, 0);
    lemma_stream_reads_len_half(s, c, first);
    if s < c {
        lemma_basic_div(s - first, c);
    } else {
        lemma_div_plus_one(s - c, c);
        lemma_basic_div(0, c);
    }
}

/// Concatenating a head segment onto flattened segments.
proof fn lemma_cons_flatten(x: Seq<u8>, rest: Seq<Seq<u8>>)
    ensures
        (seq![x] + rest).flatten() == x + rest.flatten(),
{
    let whole = seq![x] + rest;
    assert(whole.first() == x);
    assert(whole.drop_first() =~= rest);
}

/// The bytes the streaming refills hand off from cursor `off` on under the
/// full-cycle policy: everything up to the end of the file, in order.
proof fn lemma_segs_flatten_full(file: Seq<u8>, c: int, off: int)
    requires
        1 <= c,
        0 <= off <= file.len(),
    ensures
        spec_stream_segs(file, c, off, Policy::FullCycle).flatten() == file.subrange(
            off,
            file.len() as int,
        ),
    decreases file.len() - off,
{
    let s = file.len() as int;
    let n = spec_read_len(s, c, off);
    if off == s {
        assert(Seq::<Seq<u8>>::empty().flatten() =~= file.subrange(off, s));
    } else {
        lemma_segs_flatten_full(file, c, off + n);
        lemma_cons_flatten(
            file.subrange(off, off + n),
            spec_stream_segs(file, c, off + n, Policy::FullCycle),
        );
        assert(file.subrange(off, off + n) + file.subrange(off + n, s) =~= file.subrange(off, s));
    }
}

/// Under the full-cycle policy every byte of the file reaches the pipeline
/// exactly once and in order: the played segments concatenate to the file
/// itself. Together with the buffer alternation this is the engine's
/// purpose: the DMA is always handed the next bytes of the stream, never a
/// repeat and never a gap.
pub proof fn lemma_full_cycle_plays_whole_file(file: Seq<u8>, c: int)
    requires
        1 <= c,
    ensures
        spec_played(file, c, Policy::FullCycle).flatten() == file,
{
    let s = file.len() as int;
    let n = spec_read_len(s, c, 0);
    lemma_segs_flatten_full(file, c, n);
    lemma_cons_flatten(file.subrange(0, n), spec_stream_segs(file, c, n, Policy::FullCycle));
    assert(file.subrange(0, n) + file.subrange(n, s) =~= file.subrange(0, s));
    assert(file.subrange(0, s) =~= file);
}

/// The bytes the streaming refills hand off from cursor `off` on under the
/// half-cycle policy: whole chunks only, up to the last chunk boundary.
proof fn lemma_segs_flatten_half(file: Seq<u8>, c: int, off: int)
    requires
        1 <= c,
        0 <= off <= file.len(),
    ensures
        spec_stream_segs(file, c, off, Policy::HalfCycle).flatten() == file.subrange(
            off,
            off + ((file.len() - off) as int / c) * c,
        ),
    decreases file.len() - off,
{
    let s = file.len() as int;
    let n = spec_read_len(s, c, off);
    if s - off < c {
        lemma_basic_div(s - off, c);
        assert(Seq::<Seq<u8>>::empty().flatten() =~= file.subrange(off, off));
    } else {
        lemma_segs_flatten_half(file, c, off + c);
        lemma_cons_flatten(
            file.subrange(off, off + c),
            spec_stream_segs(file, c, off + c, Policy::HalfCycle),
        );
        lemma_div_plus_one(s - off - c, c);
        let q = (s - off - c) / c;
        lemma_div_pos_is_pos(s - off - c, c);
        lemma_fundamental_div_mod(s - off - c, c);
        lemma_mod_bound(s - off - c, c);
        assert((1 + q) * c == c + q * c) by (nonlinear_arith);
        assert(0 <= q * c <= s - off - c) by (nonlinear_arith)
            requires
                0 <= q,
                1 <= c,
                s - off - c == c * q + (s - off - c) % c,
                0 <= (s - off - c) % c,
        ;
        assert(file.subrange(off, off + c) + file.subrange(off + c, off + c + q * c)
            =~= file.subrange(off, off + c + q * c));
    }
}

/// Under the half-cycle policy the played bytes are exactly the file up to
/// its last whole chunk: a trailing fragment shorter than one chunk is
/// dropped, never played. A file shorter than a single chunk is played
/// whole, because priming is the read that delivers it.
pub proof fn lemma_half_cycle_drops_tail(file: Seq<u8>, c: int)
    requires
        1 <= c,
    ensures
        file.len() < c ==> spec_played(file, c, Policy::HalfCycle).flatten() == file,
        file.len() >= c ==> spec_played(file, c, Policy::HalfCycle).flatten() == file.subrange(
            0,
            (file.len() as int / c) * c,
        ),
{
    let s = file.len() as int;
    let n = spec_read_len(s, c, 0);
    lemma_segs_flatten_half(file, c, n);
    lemma_cons_flatten(file.subrange(0, n), spec_stream_segs(file, c, n, Policy::HalfCycle));
    if s < c {
        lemma_basic_div(s - n, c);
        assert(file.subrange(0, s) + file.subrange(s, s) =~= file);
    } else {
        lemma_div_plus_one(s - c, c);
        let q = (s - c) / c;
        lemma_div_pos_is_pos(s - c, c);
        lemma_fundamental_div_mod(s - c, c);
        lemma_mod_bound(s - c, c);
        assert((1 + q) * c == c + q * c) by (nonlinear_arith);
        assert(0 <= q * c <= s - c) by (nonlinear_arith)
            requires
                0 <= q,
                1 <= c,
                s - c == c * q + (s - c) % c,
                0 <= (s - c) % c,
        ;
        assert(file.subrange(0, c) + file.subrange(c, c + q * c) =~= file.subrange(0, c + q * c));
    }
}

/// Idempotent re-arm: everything a pass delivers — the segments played,
/// the read counts, the refill count — is a function of the file image, the
/// chunk size and the policy alone. Two sessions ready to prime with the
/// same chunk size and policy therefore replay the same file identically,
/// and `Session::rearm` returns a session to exactly the state
/// `Session::new` gives, so a pass after end of file repeats the first.
pub proof fn lemma_rearm_replay(first: Session, second: Session, file: Seq<u8>)
    requires
        first.wf(),
        second.wf(),
        first.phase == Phase::Prime,
        second.phase == Phase::Prime,
        first.chunk == second.chunk,
        first.policy == second.policy,
    ensures
        spec_played(file, first.chunk as int, first.policy) == spec_played(
            file,
            second.chunk as int,
            second.policy,
        ),
        spec_reads(file.len() as int, first.chunk as int, first.policy) == spec_reads(
            file.len() as int,
            second.chunk as int,
            second.policy,
        ),
        spec_visits(file.len() as int, first.chunk as int, first.policy) == spec_visits(
            file.len() as int,
            second.chunk as int,
            second.policy,
        ),
{
}

} // verus!
