//! Interface between the driver and the hardware it owns: the SPI bus
//! endpoint, the chip-select output pin, and a delay source.
//!
//! The contracts of [`FlashBus`] state how each primitive moves the chip
//! model of [`crate::protocol`].  A software model of the chip implements
//! the trait inside this crate ([`crate::sim::SimBus`]); an embedded
//! integration implements it over its SPI controller, GPIO pin and timer.

use vstd::prelude::*;
use crate::protocol::{ChipState, cs_fall, cs_rise, rx_extend, sent_advance, stream_seq, tick};

verus! {

/// Electrical or controller-level fault of a bus exchange, mirroring the
/// error kinds an SPI controller distinguishes.
#[derive(Clone, Copy, Debug, PartialEq, Eq, Structural)]
pub enum BusFault {
    Overrun,
    ModeFault,
    FrameFormat,
    ChipSelect,
    Other,
}

/// Exclusive access to one flash chip: SPI endpoint, chip-select pin and
/// delay source.
///
/// `chip()` is the model state of the chip behind the bus and `reliable()`
/// says that the bus is currently fault-free, so that exchanges are owed
/// success.  A write or read that fails may have clocked a prefix of the
/// requested bytes; the contracts say no more than that, and the chip-select
/// edges always take effect.
pub trait FlashBus: Sized {
    /// Model state of the chip and chip-select line behind this bus.
    spec fn chip(&self) -> ChipState;

    /// The bus is currently fault-free: exchanges are owed success.
    spec fn reliable(&self) -> bool;

    /// Drive chip-select low, opening a command frame.
    fn set_cs_low(&mut self)
        requires
            !old(self).chip().cs_low,
        ensures
            final(self).chip() == cs_fall(old(self).chip()),
            final(self).reliable() == old(self).reliable(),
    ;

    /// Drive chip-select high, committing the accumulated command.
    fn set_cs_high(&mut self)
        requires
            old(self).chip().cs_low,
            old(self).chip().wf(),
        ensures
            final(self).chip() == cs_rise(old(self).chip()),
            final(self).reliable() == old(self).reliable(),
    ;

    /// Shift `data` out on the bus within the current frame.  On a fault,
    /// some prefix of `data` may have reached the chip.
    fn bus_write(&mut self, data: &Vec<u8>) -> (r: Result<(), BusFault>)
        requires
            old(self).chip().cs_low,
        ensures
            old(self).reliable() ==> r is Ok && final(self).reliable(),
            r is Ok ==> final(self).chip() == rx_extend(old(self).chip(), data@),
            r is Err ==> exists|k: int|
                0 <= k <= data@.len() && final(self).chip() == rx_extend(
                    old(self).chip(),
                    data@.take(k),
                ),
    ;

    /// Shift `buf.len()` bytes in from the bus within the current frame,
    /// overwriting `buf`.  On a fault, the stream position may have
    /// advanced by any amount up to the requested length and the buffer
    /// contents are unspecified.
    fn bus_read(&mut self, buf: &mut Vec<u8>) -> (r: Result<(), BusFault>)
        requires
            old(self).chip().cs_low,
            old(self).chip().wf(),
            old(self).chip().sent + old(buf)@.len() <= usize::MAX,
        ensures
            final(buf)@.len() == old(buf)@.len(),
            old(self).reliable() ==> r is Ok && final(self).reliable(),
            r is Ok ==> final(self).chip() == sent_advance(old(self).chip(), old(buf)@.len() as nat)
                && final(buf)@ == stream_seq(old(self).chip(), old(buf)@.len() as nat),
            r is Err ==> exists|k: nat|
                k <= old(buf)@.len() && final(self).chip() == #[trigger] sent_advance(
                    old(self).chip(),
                    k,
                ),
    ;

    /// Pause for `us` microseconds; the chip's internal operation
    /// progresses by one tick.
    fn delay_micros(&mut self, us: u64)
        ensures
            final(self).chip() == tick(old(self).chip()),
            final(self).reliable() == old(self).reliable(),
    ;
}

} // verus!
