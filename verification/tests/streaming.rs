use pcm_player::driver::{run_session, FlagOp};
use pcm_player::stream::{BufferId, Phase, Policy, Session};

fn pattern(len: usize) -> Vec<u8> {
    let mut v = Vec::new();
    for i in 0..len {
        v.push((i % 251) as u8);
    }
    v
}

#[test]
fn scenario_full_buffer() {
    // A file of exactly one buffer: priming fills buffer A fully, the one
    // streaming refill observes zero remaining bytes, and buffer B is never
    // filled.
    let file = pattern(1024);
    let mut s = Session::new(1024, Policy::FullCycle);
    let report = run_session(&file, &mut s);

    assert_eq!(report.reads, vec![1024usize, 0]);
    assert_eq!(report.visits, 1);
    assert_eq!(report.played.len(), 1);
    assert_eq!(report.played[0].buffer, BufferId::A);
    assert_eq!(report.played[0].data, file);
    assert_eq!(report.refills.len(), 1);
    assert_eq!(report.refills[0].target, BufferId::B);
    assert_eq!(report.refills[0].source, BufferId::A);
    assert_eq!(report.refills[0].delivered, 0);
    assert_eq!(s.phase, Phase::EndOfFile);
}

#[test]
fn scenario_trailing_fragment() {
    // A file of two full chunks and ten trailing bytes under the half-cycle
    // policy: three reads deliver 1024, 1024 and 10 bytes; the short third
    // read ends the stream even though it delivered bytes, and the ten
    // trailing bytes are never played.
    let file = pattern(2 * 1024 + 10);
    let mut s = Session::new(1024, Policy::HalfCycle);
    let report = run_session(&file, &mut s);

    assert_eq!(report.reads, vec![1024usize, 1024, 10]);
    assert_eq!(report.visits, 2);
    assert_eq!(report.played.len(), 2);
    assert_eq!(report.played[0].data, file[..1024].to_vec());
    assert_eq!(report.played[1].data, file[1024..2048].to_vec());
    let played_bytes: usize = report.played.iter().map(|g| g.data.len()).sum();
    assert_eq!(played_bytes, 2048);
    assert_eq!(s.offset, 2048);
    assert_eq!(s.phase, Phase::EndOfFile);
}

#[test]
fn full_cycle_plays_every_byte() {
    // Under the full-cycle policy a short read is still handed off, so the
    // whole file reaches the pipeline and only the zero read ends the
    // stream.
    let file = pattern(2 * 1024 + 10);
    let mut s = Session::new(1024, Policy::FullCycle);
    let report = run_session(&file, &mut s);

    assert_eq!(report.reads, vec![1024usize, 1024, 10, 0]);
    assert_eq!(report.visits, 3);
    let mut flat = Vec::new();
    for g in &report.played {
        flat.extend_from_slice(&g.data);
    }
    assert_eq!(flat, file);
    // the cursor ends exactly at the count of bytes handed to the pipeline
    assert_eq!(s.offset, file.len() as u64);
}

#[test]
fn empty_file() {
    // An empty file still primes (zero bytes) and runs the one refill that
    // observes zero bytes.
    let file = Vec::new();
    let mut s = Session::new(512, Policy::FullCycle);
    let report = run_session(&file, &mut s);

    assert_eq!(report.reads, vec![0usize, 0]);
    assert_eq!(report.visits, 1);
    assert_eq!(report.played.len(), 1);
    assert!(report.played[0].data.is_empty());
    assert_eq!(report.flag_ops, vec![FlagOp::Wait, FlagOp::Clear]);
}

#[test]
fn flag_clear_discipline() {
    // Every observed handoff flag is cleared exactly once before the next
    // wait: the flag operations strictly alternate wait, clear, wait, ...
    let file = pattern(5000);
    let mut s = Session::new(512, Policy::FullCycle);
    let report = run_session(&file, &mut s);

    assert_eq!(report.flag_ops.len() as u64, 2 * report.visits);
    for (i, op) in report.flag_ops.iter().enumerate() {
        if i % 2 == 0 {
            assert_eq!(*op, FlagOp::Wait);
        } else {
            assert_eq!(*op, FlagOp::Clear);
        }
    }
}

#[test]
fn buffer_role_exclusivity() {
    // No refill ever writes the buffer the DMA is draining, and the played
    // buffers alternate starting at A.
    let file = pattern(10 * 512 + 100);
    let mut s = Session::new(512, Policy::FullCycle);
    let report = run_session(&file, &mut s);

    for (i, r) in report.refills.iter().enumerate() {
        assert_ne!(r.target, r.source);
        let expect = if i % 2 == 0 { BufferId::A } else { BufferId::B };
        assert_eq!(r.source, expect);
        assert_eq!(r.delivered, report.reads[i + 1]);
    }
    for (i, g) in report.played.iter().enumerate() {
        let expect = if i % 2 == 0 { BufferId::A } else { BufferId::B };
        assert_eq!(g.buffer, expect);
    }
}

#[test]
fn termination_visit_count() {
    // A file of s bytes with chunk c is streamed in exactly
    // ceil(s / c) refills under the full-cycle policy.
    for (len, chunk, expect) in
        [(1usize, 512usize, 1u64), (511, 512, 1), (512, 512, 1), (513, 512, 2), (2058, 1024, 3)]
    {
        let file = pattern(len);
        let mut s = Session::new(chunk, Policy::FullCycle);
        let report = run_session(&file, &mut s);
        assert_eq!(report.visits, expect);
        assert_eq!(report.visits, ((len + chunk - 1) / chunk) as u64);
    }
}

#[test]
fn monotonic_cursor() {
    // The cursor strictly increases by the delivered size on every
    // continuing refill, and returns to zero only by priming anew.
    let mut s = Session::new(4, Policy::FullCycle);
    assert_eq!(s.prime_target(), BufferId::A);
    s.on_primed(4);
    assert_eq!(s.offset, 4);
    s.on_trigger();
    assert_eq!(s.fill_target(), BufferId::B);
    assert_eq!(s.on_refill(4), Some(BufferId::B));
    assert_eq!(s.offset, 8);
    assert_eq!(s.fill_target(), BufferId::A);
    assert_eq!(s.on_refill(3), Some(BufferId::A));
    assert_eq!(s.offset, 11);
    assert_eq!(s.on_refill(0), None);
    assert_eq!(s.offset, 11);
    assert_eq!(s.phase, Phase::EndOfFile);
    s.rearm();
    assert_eq!(s.offset, 0);
    assert_eq!(s.phase, Phase::Prime);
}

#[test]
fn half_cycle_short_read_ends_stream() {
    // Under the half-cycle policy a refill short of the chunk ends the
    // stream even though it delivered bytes.
    let mut s = Session::new(4, Policy::HalfCycle);
    s.on_primed(4);
    s.on_trigger();
    assert_eq!(s.on_refill(4), Some(BufferId::B));
    assert_eq!(s.on_refill(3), None);
    assert_eq!(s.phase, Phase::EndOfFile);
    assert_eq!(s.offset, 8);
}

#[test]
fn rearm_replays_identically() {
    // Re-arming after end of file and playing the same file again delivers
    // the same reads, the same segments into the same buffers, and the same
    // refill count.
    let file = pattern(2100);
    let mut s = Session::new(512, Policy::FullCycle);
    let first = run_session(&file, &mut s);
    s.rearm();
    let second = run_session(&file, &mut s);

    assert_eq!(first.reads, second.reads);
    assert_eq!(first.visits, second.visits);
    assert_eq!(first.played, second.played);
    assert_eq!(first.refills, second.refills);
    assert_eq!(first.flag_ops, second.flag_ops);
}
