//! Decisions of the synchronous SPI transceiver.
//!
//! A byte exchange polls the SPI status register instead of using
//! interrupts. Each poll reads the register once and then decides: fail on a
//! sticky error flag, finish when the ready flag is up, or keep spinning.
//! The functions here take the sampled flags and return that decision; the
//! unverified shell reads the register, calls them, and acts.

use crate::regs;
use vstd::prelude::*;

verus! {

/// The status flags of one sample of the SPI status register.
pub struct SpiStatus {
    /// Receive buffer not empty: a received byte is ready.
    pub rxne: bool,
    /// Transmit buffer empty: a byte may be sent.
    pub txe: bool,
    /// Hardware CRC mismatch.
    pub crcerr: bool,
    /// Mode fault: master arbitration lost.
    pub modf: bool,
    /// Overrun: a received byte was lost.
    pub ovr: bool,
}

/// Bit positions of the flags in the SPI status register.
pub const SR_RXNE_BIT: u32 = 0;

pub const SR_TXE_BIT: u32 = 1;

pub const SR_CRCERR_BIT: u32 = 4;

pub const SR_MODF_BIT: u32 = 5;

pub const SR_OVR_BIT: u32 = 6;

/// Decode one raw sample of the status register into its named flags.
pub fn status_from_raw(sr: u32) -> (st: SpiStatus)
    ensures
        st.rxne == regs::spec_bit(sr, SR_RXNE_BIT),
        st.txe == regs::spec_bit(sr, SR_TXE_BIT),
        st.crcerr == regs::spec_bit(sr, SR_CRCERR_BIT),
        st.modf == regs::spec_bit(sr, SR_MODF_BIT),
        st.ovr == regs::spec_bit(sr, SR_OVR_BIT),
{
    SpiStatus {
        rxne: regs::bit_is_set(sr, SR_RXNE_BIT),
        txe: regs::bit_is_set(sr, SR_TXE_BIT),
        crcerr: regs::bit_is_set(sr, SR_CRCERR_BIT),
        modf: regs::bit_is_set(sr, SR_MODF_BIT),
        ovr: regs::bit_is_set(sr, SR_OVR_BIT),
    }
}

/// The transport errors a byte exchange can raise.
#[derive(Clone, Copy, Debug, PartialEq, Eq)]
pub enum SpiError {
    Overrun,
    ModeFault,
    CrcError,
}

/// The decision of one receive poll.
#[derive(Clone, Copy, Debug, PartialEq, Eq)]
pub enum ReadStep {
    /// The ready flag was up: the received byte is taken.
    Data(u8),
    /// An error flag was up.
    Fault(SpiError),
    /// No flag was up: poll again.
    Pending,
}

/// The decision of one send poll.
#[derive(Clone, Copy, Debug, PartialEq, Eq)]
pub enum SendStep {
    /// The transmit buffer is free: the byte may be written.
    Ready,
    /// An error flag was up.
    Fault(SpiError),
    /// No flag was up: poll again.
    Pending,
}

/// Decide one receive poll from the sampled flags. Error flags are checked
/// first, overrun before mode fault before CRC error; only with all of them
/// clear does a raised receive flag hand the data byte out.
pub fn read_step(st: &SpiStatus, data: u8) -> (r: ReadStep)
    ensures
        st.ovr ==> r == ReadStep::Fault(SpiError::Overrun),
        !st.ovr && st.modf ==> r == ReadStep::Fault(SpiError::ModeFault),
        !st.ovr && !st.modf && st.crcerr ==> r == ReadStep::Fault(SpiError::CrcError),
        !st.ovr && !st.modf && !st.crcerr && st.rxne ==> r == ReadStep::Data(data),
        !st.ovr && !st.modf && !st.crcerr && !st.rxne ==> r == ReadStep::Pending,
{
    if st.ovr {
        ReadStep::Fault(SpiError::Overrun)
    } else if st.modf {
        ReadStep::Fault(SpiError::ModeFault)
    } else if st.crcerr {
        ReadStep::Fault(SpiError::CrcError)
    } else if st.rxne {
        ReadStep::Data(data)
    } else {
        ReadStep::Pending
    }
}

/// Decide one send poll from the sampled flags, with the same error
/// priority as a receive poll; only with every error flag clear does a
/// raised transmit flag allow the byte out.
pub fn send_step(st: &SpiStatus) -> (r: SendStep)
    ensures
        st.ovr ==> r == SendStep::Fault(SpiError::Overrun),
        !st.ovr && st.modf ==> r == SendStep::Fault(SpiError::ModeFault),
        !st.ovr && !st.modf && st.crcerr ==> r == SendStep::Fault(SpiError::CrcError),
        !st.ovr && !st.modf && !st.crcerr && st.txe ==> r == SendStep::Ready,
        !st.ovr && !st.modf && !st.crcerr && !st.txe ==> r == SendStep::Pending,
{
    if st.ovr {
        SendStep::Fault(SpiError::Overrun)
    } else if st.modf {
        SendStep::Fault(SpiError::ModeFault)
    } else if st.crcerr {
        SendStep::Fault(SpiError::CrcError)
    } else if st.txe {
        SendStep::Ready
    } else {
        SendStep::Pending
    }
}

/// The baud-rate divisor field for the two speeds the SD protocol needs:
/// a conservative clock while the card is identified, the fastest one once
/// it reports ready.
pub fn spi_baud_bits(fast: bool) -> (r: u32)
    ensures
        fast ==> r == 0,
        !fast ==> r == 0b101,
{
    if fast {
        0
    } else {
        0b101
    }
}

} // verus!
