//! Configuration and sequencing of the audio output pipeline.
//!
//! The pipeline is a hardware chain: a timer reloads at the sample period
//! and pulses a DMA request on every reload; the DMA, in circular
//! byte-transfer mode, pushes the next buffered byte into the DAC data
//! register and wraps after a full buffer. Arming and disarming must follow
//! a fixed order so that no DMA request ever finds the chain half set up.

use vstd::prelude::*;

verus! {

/// One register-level step of arming or disarming the pipeline.
#[derive(Clone, Copy, Debug, PartialEq, Eq)]
pub enum PipelineOp {
    /// Write a zero sample to the DAC data register.
    ZeroDac,
    /// Enable the DMA channel.
    EnableDma,
    /// Start the sample-rate timer.
    StartTimer,
    /// Stop the sample-rate timer.
    StopTimer,
    /// Disable the DMA channel.
    DisableDma,
}

/// The steps that arm the pipeline, in the one order that guarantees the
/// first DMA pulse finds a valid buffer programmed: quiet the DAC, enable
/// the DMA channel, and only then start the timer that raises requests.
pub fn arm_sequence() -> (r: Vec<PipelineOp>)
    ensures
        r@ == seq![PipelineOp::ZeroDac, PipelineOp::EnableDma, PipelineOp::StartTimer],
{
    let mut ops: Vec<PipelineOp> = Vec::new();
    ops.push(PipelineOp::ZeroDac);
    ops.push(PipelineOp::EnableDma);
    ops.push(PipelineOp::StartTimer);
    proof {
        assert(ops@ =~= seq![PipelineOp::ZeroDac, PipelineOp::EnableDma, PipelineOp::StartTimer]);
    }
    ops
}

/// The steps that disarm the pipeline: stop the timer first so no request
/// is raised mid-teardown, then disable the DMA channel.
pub fn disarm_sequence() -> (r: Vec<PipelineOp>)
    ensures
        r@ == seq![PipelineOp::StopTimer, PipelineOp::DisableDma],
{
    let mut ops: Vec<PipelineOp> = Vec::new();
    ops.push(PipelineOp::StopTimer);
    ops.push(PipelineOp::DisableDma);
    proof {
        assert(ops@ =~= seq![PipelineOp::StopTimer, PipelineOp::DisableDma]);
    }
    ops
}

/// The timer reload value for a target sample rate: the timer ticks at
/// `timer_hz` and reloads every `timer_hz / sample_rate` ticks.
pub fn timer_reload(timer_hz: u32, sample_rate: u32) -> (r: u32)
    requires
        1 <= sample_rate <= timer_hz,
    ensures
        r == timer_hz / sample_rate,
        r >= 1,
{
    proof {
        assert(timer_hz / sample_rate >= 1) by (nonlinear_arith)
            requires
                1 <= sample_rate <= timer_hz,
        ;
    }
    timer_hz / sample_rate
}

/// The DMA transfer count for one full pass over a buffer: one transfer per
/// byte, as the 16-bit count register holds it.
pub fn dma_transfer_count(bufsize: usize) -> (r: u16)
    requires
        1 <= bufsize <= 0xffff,
    ensures
        r == bufsize,
{
    bufsize as u16
}

} // verus!
