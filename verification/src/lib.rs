//! Verified core of a bare-metal audio player: a double-buffered DMA
//! streaming engine that feeds a DAC from two fixed-size buffers while the
//! idle buffer is refilled from a file on an SD card.
//!
//! The crate holds the logic that can be checked: register bitfield
//! arithmetic, the SPI status-flag decisions, track-name selection from an
//! optional configuration file, the audio-pipeline configuration values and
//! arming order, and the streaming controller's state machine together with
//! a driver that runs a whole playback session against an in-memory file
//! image. The unverifiable shell (volatile register access, the SD-card
//! transport, fault traps) lives outside the library and consults it for
//! every decision.

pub mod config;
pub mod driver;
pub mod pipeline;
pub mod regs;
pub mod spi;
pub mod stream;

use vstd::prelude::*;

verus! {

/// Size in bytes of each of the two audio buffers.
pub const BUFSIZE: usize = 2048;

} // verus!
