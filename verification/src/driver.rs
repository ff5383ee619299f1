//! The public driver: identify, status, read, fast read, page program,
//! sector erase, and the one-shot activation sequence.
//!
//! Every operation frames its command with the chip-select line and leaves
//! chip-select released on every exit path.  Modifying operations wait for
//! the chip to go idle, issue Write Enable immediately before the
//! modifying command, and wait for completion before returning, so the
//! chip is observably idle whenever an operation has returned.

use vstd::prelude::*;
use crate::bus::{BusFault, FlashBus};
use crate::protocol::{
    ChipState, DEVICE_SIZE, PAGE_SIZE, SECTOR_SIZE, OPCODE_FAST_READ, OPCODE_PAGE_PROGRAM,
    OPCODE_READ_DATA, OPCODE_READ_JEDEC_ID, OPCODE_READ_STATUS_REG_1, OPCODE_SECTOR_ERASE,
    OPCODE_WRITE_ENABLE, JEDEC_CAPACITY, JEDEC_MAN_ID, JEDEC_MEM_TYPE, cs_fall, cs_rise,
    erase_applied, lemma_page_fits, lemma_pack_address_value, lemma_program_applied_in_page,
    lemma_status_busy_bit, payload_of, programmed, rx_address, rx_extend, sector_base,
    sent_advance, spec_pack_address, spec_status_byte, stream_byte,
};

verus! {

/// What can go wrong in a driver operation: a bus fault surfaced verbatim,
/// or an argument the driver rejects before touching the bus.
#[derive(Clone, Copy, Debug, PartialEq, Eq, Structural)]
pub enum Error {
    /// The SPI endpoint reported a fault; the chip-select line was
    /// released before returning.
    Bus(BusFault),
    /// A program of zero bytes was requested.
    DataEmpty,
    /// A program of more than one page was requested.
    DataTooLong { len: usize },
    /// The program would run past the end of the 256-byte page it starts in.
    PageBoundaryCrossed { address: u32, len: usize },
    /// The address has bits above bit 23.
    AddressOutOfRange { address: u32 },
    /// The erase address is not 4 KiB-aligned.
    NotSectorAligned { address: u32 },
}

/// Validation of a page program request, in the order the checks are made.
pub open spec fn spec_validate_program(address: u32, len: nat) -> Option<Error> {
    if len == 0 {
        Some(Error::DataEmpty)
    } else if len > PAGE_SIZE {
        Some(Error::DataTooLong { len: len as usize })
    } else if address >= DEVICE_SIZE {
        Some(Error::AddressOutOfRange { address })
    } else if address % 256 + len > PAGE_SIZE {
        Some(Error::PageBoundaryCrossed { address, len: len as usize })
    } else {
        None
    }
}

/// Validation of a sector erase request, in the order the checks are made.
pub open spec fn spec_validate_erase(address: u32) -> Option<Error> {
    if address >= DEVICE_SIZE {
        Some(Error::AddressOutOfRange { address })
    } else if address % (SECTOR_SIZE as u32) != 0 {
        Some(Error::NotSectorAligned { address })
    } else {
        None
    }
}

/// Checks a page program request: rejects empty data, more than a page of
/// data, an address above bit 23, and a program that would cross the
/// boundary of the page it starts in.
pub fn validate_program(address: u32, len: usize) -> (r: Option<Error>)
    ensures
        r == spec_validate_program(address, len as nat),
{
    if len == 0 {
        Some(Error::DataEmpty)
    } else if len > PAGE_SIZE {
        Some(Error::DataTooLong { len })
    } else if address >= DEVICE_SIZE as u32 {
        Some(Error::AddressOutOfRange { address })
    } else if (address % 256) as usize + len > PAGE_SIZE {
        Some(Error::PageBoundaryCrossed { address, len })
    } else {
        None
    }
}

/// Checks a sector erase request: rejects an address above bit 23 and one
/// whose low 12 bits are not zero.
pub fn validate_erase(address: u32) -> (r: Option<Error>)
    ensures
        r == spec_validate_erase(address),
{
    if address >= DEVICE_SIZE as u32 {
        Some(Error::AddressOutOfRange { address })
    } else if address % (SECTOR_SIZE as u32) != 0 {
        Some(Error::NotSectorAligned { address })
    } else {
        None
    }
}

/// Packs a 24-bit address big-endian: byte 0 is A23..A16, byte 1 is
/// A15..A8, byte 2 is A7..A0.
pub fn pack_address(address: u32) -> (r: (u8, u8, u8))
    ensures
        seq![r.0, r.1, r.2] == spec_pack_address(address),
{
    let b2 = (address / 0x10000) as u8;
    let b1 = ((address / 0x100) % 0x100) as u8;
    let b0 = (address % 0x100) as u8;
    proof {
        assert(seq![b2, b1, b0] =~= spec_pack_address(address));
    }
    (b2, b1, b0)
}

/// The BUSY flag of a Status Register 1 byte (bit 0).
pub fn status_is_busy(status: u8) -> (b: bool)
    ensures
        b == (status & 0x01 != 0),
{
    status & 0x01 != 0
}

/// Driver handle for one W25Q128JV chip.  It exclusively owns the bus
/// resources it was constructed from; chip-select is high whenever no
/// operation is in flight.
pub struct W25q128jv<B: FlashBus> {
    bus: B,
}

impl<B: FlashBus> W25q128jv<B> {
    /// Model state of the chip behind the handle.
    pub closed spec fn chip(&self) -> ChipState {
        self.bus.chip()
    }

    /// The underlying bus is currently fault-free.
    pub closed spec fn reliable(&self) -> bool {
        self.bus.reliable()
    }

    /// Takes exclusive ownership of the bus resources.  The chip-select
    /// line must be in its released (high) state.
    pub fn new(bus: B) -> (s: Self)
        requires
            !bus.chip().cs_low,
        ensures
            s.chip() == bus.chip(),
            s.reliable() == bus.reliable(),
    {
        W25q128jv { bus }
    }

    /// Gives the bus resources back, consuming the handle.
    pub fn release(self) -> (bus: B)
        ensures
            bus.chip() == self.chip(),
            bus.reliable() == self.reliable(),
    {
        self.bus
    }

    /// Activates the chip: a clean high-to-low-to-high transition on
    /// chip-select with 10 µs gaps, placing it in a defined post-reset
    /// state.  No bus traffic is produced.  Idempotent; meant to be run
    /// once after power-up.
    pub fn init(&mut self)
        requires
            !old(self).chip().cs_low,
            old(self).chip().wf(),
        ensures
            !final(self).chip().cs_low,
            final(self).chip().wf(),
            final(self).chip().mem == old(self).chip().mem,
            final(self).chip().wel == old(self).chip().wel,
            final(self).chip().t_prog == old(self).chip().t_prog,
            final(self).chip().t_erase == old(self).chip().t_erase,
            final(self).chip().busy == (if old(self).chip().busy >= 3 {
                (old(self).chip().busy - 3) as nat
            } else {
                0nat
            }),
            final(self).reliable() == old(self).reliable(),
    {
        self.bus.delay_micros(10);
        self.bus.set_cs_low();
        self.bus.delay_micros(10);
        self.bus.set_cs_high();
        self.bus.delay_micros(10);
    }

    /// One framed exchange that only sends a single-byte command.
    fn command(&mut self, cmd: u8) -> (r: Result<(), BusFault>)
        requires
            !old(self).chip().cs_low,
            old(self).chip().wf(),
        ensures
            !final(self).chip().cs_low,
            final(self).chip().wf(),
            final(self).chip().mem == old(self).chip().mem,
            final(self).chip().busy == old(self).chip().busy,
            final(self).chip().t_prog == old(self).chip().t_prog,
            final(self).chip().t_erase == old(self).chip().t_erase,
            old(self).reliable() ==> r is Ok && final(self).reliable(),
            r is Ok ==> final(self).chip() == cs_rise(
                rx_extend(cs_fall(old(self).chip()), seq![cmd]),
            ),
            r is Err ==> final(self).chip() == cs_rise(cs_fall(old(self).chip()))
                || final(self).chip() == cs_rise(rx_extend(cs_fall(old(self).chip()), seq![cmd])),
    {
        let ghost c0 = self.chip();
        let mut tx: Vec<u8> = Vec::new();
        tx.push(cmd);
        proof {
            assert(tx@ =~= seq![cmd]);
        }
        self.bus.set_cs_low();
        let w = self.bus.bus_write(&tx);
        let ghost mid = self.bus.chip();
        self.bus.set_cs_high();
        proof {
            if w is Err {
                let k = choose|k: int|
                    0 <= k <= tx@.len() && mid == rx_extend(cs_fall(c0), tx@.take(k));
                if k == 0 {
                    assert(tx@.take(0) =~= Seq::<u8>::empty());
                    assert(rx_extend(cs_fall(c0), Seq::<u8>::empty()) =~= cs_fall(c0));
                } else {
                    assert(tx@.take(1) =~= tx@);
                }
            }
        }
        w
    }

    /// One framed exchange that sends a single-byte command and reads a
    /// one-byte response.
    fn command_read_byte(&mut self, cmd: u8) -> (r: Result<u8, BusFault>)
        requires
            !old(self).chip().cs_low,
            old(self).chip().wf(),
        ensures
            !final(self).chip().cs_low,
            final(self).chip().wf(),
            final(self).chip().mem == old(self).chip().mem,
            final(self).chip().busy == old(self).chip().busy,
            final(self).chip().t_prog == old(self).chip().t_prog,
            final(self).chip().t_erase == old(self).chip().t_erase,
            old(self).reliable() ==> r is Ok && final(self).reliable(),
            r matches Ok(b) ==> b == stream_byte(rx_extend(cs_fall(old(self).chip()), seq![cmd]), 0)
                && final(self).chip() == cs_rise(
                sent_advance(rx_extend(cs_fall(old(self).chip()), seq![cmd]), 1),
            ),
    {
        let ghost c0 = self.chip();
        let mut tx: Vec<u8> = Vec::new();
        tx.push(cmd);
        proof {
            assert(tx@ =~= seq![cmd]);
        }
        self.bus.set_cs_low();
        let w = self.bus.bus_write(&tx);
        if let Err(e) = w {
            let ghost mid = self.bus.chip();
            self.bus.set_cs_high();
            proof {
                let k = choose|k: int|
                    0 <= k <= tx@.len() && mid == rx_extend(cs_fall(c0), tx@.take(k));
                if k == 0 {
                    assert(tx@.take(0) =~= Seq::<u8>::empty());
                    assert(rx_extend(cs_fall(c0), Seq::<u8>::empty()) =~= cs_fall(c0));
                } else {
                    assert(tx@.take(1) =~= tx@);
                }
            }
            return Err(e);
        }
        let mut buf: Vec<u8> = Vec::new();
        buf.push(0);
        let rd = self.bus.bus_read(&mut buf);
        self.bus.set_cs_high();
        match rd {
            Err(e) => Err(e),
            Ok(()) => Ok(buf[0]),
        }
    }

    /// Polls Status Register 1 every 100 µs until BUSY reads as 0.
    fn wait_idle(&mut self) -> (r: Result<(), BusFault>)
        requires
            !old(self).chip().cs_low,
            old(self).chip().wf(),
        ensures
            !final(self).chip().cs_low,
            final(self).chip().wf(),
            final(self).chip().mem == old(self).chip().mem,
            final(self).chip().t_prog == old(self).chip().t_prog,
            final(self).chip().t_erase == old(self).chip().t_erase,
            old(self).reliable() ==> r is Ok && final(self).reliable(),
            r is Ok ==> final(self).chip().busy == 0 && !final(self).chip().wel,
    {
        loop
            invariant
                !self.chip().cs_low,
                self.chip().wf(),
                self.chip().mem == old(self).chip().mem,
                self.chip().t_prog == old(self).chip().t_prog,
                self.chip().t_erase == old(self).chip().t_erase,
                old(self).reliable() ==> self.reliable(),
            decreases self.chip().busy,
        {
            let ghost ch = self.chip();
            let st = match self.command_read_byte(OPCODE_READ_STATUS_REG_1) {
                Ok(b) => b,
                Err(e) => {
                    return Err(e);
                },
            };
            let busy = status_is_busy(st);
            proof {
                lemma_status_busy_bit(rx_extend(cs_fall(ch), seq![OPCODE_READ_STATUS_REG_1]));
            }
            if !busy {
                return Ok(());
            }
            self.bus.delay_micros(100);
        }
    }

    /// Reads the JEDEC identity: manufacturer id, memory type, capacity.
    /// Legal while a program or erase is in progress, but the returned
    /// bytes are only meaningful when the chip is idle.
    pub fn read_jedec_id(&mut self) -> (r: Result<(u8, u8, u8), Error>)
        requires
            !old(self).chip().cs_low,
            old(self).chip().wf(),
        ensures
            !final(self).chip().cs_low,
            final(self).chip().wf(),
            final(self).chip().mem == old(self).chip().mem,
            final(self).chip().busy == old(self).chip().busy,
            final(self).chip().t_prog == old(self).chip().t_prog,
            final(self).chip().t_erase == old(self).chip().t_erase,
            old(self).reliable() ==> r is Ok && final(self).reliable(),
            r matches Ok(id) ==> id == (JEDEC_MAN_ID, JEDEC_MEM_TYPE, JEDEC_CAPACITY),
            r matches Err(e) ==> e is Bus,
    {
        let ghost c0 = self.chip();
        let mut tx: Vec<u8> = Vec::new();
        tx.push(OPCODE_READ_JEDEC_ID);
        proof {
            assert(tx@ =~= seq![OPCODE_READ_JEDEC_ID]);
        }
        self.bus.set_cs_low();
        let w = self.bus.bus_write(&tx);
        if let Err(e) = w {
            let ghost mid = self.bus.chip();
            self.bus.set_cs_high();
            proof {
                let k = choose|k: int|
                    0 <= k <= tx@.len() && mid == rx_extend(cs_fall(c0), tx@.take(k));
                if k == 0 {
                    assert(tx@.take(0) =~= Seq::<u8>::empty());
                    assert(rx_extend(cs_fall(c0), Seq::<u8>::empty()) =~= cs_fall(c0));
                } else {
                    assert(tx@.take(1) =~= tx@);
                }
            }
            return Err(Error::Bus(e));
        }
        let mut buf: Vec<u8> = Vec::new();
        buf.push(0);
        buf.push(0);
        buf.push(0);
        let rd = self.bus.bus_read(&mut buf);
        self.bus.set_cs_high();
        match rd {
            Err(e) => Err(Error::Bus(e)),
            Ok(()) => Ok((buf[0], buf[1], buf[2])),
        }
    }

    /// Reads the raw byte of Status Register 1.
    pub fn read_status_register(&mut self) -> (r: Result<u8, Error>)
        requires
            !old(self).chip().cs_low,
            old(self).chip().wf(),
        ensures
            !final(self).chip().cs_low,
            final(self).chip().wf(),
            final(self).chip().mem == old(self).chip().mem,
            final(self).chip().busy == old(self).chip().busy,
            final(self).chip().t_prog == old(self).chip().t_prog,
            final(self).chip().t_erase == old(self).chip().t_erase,
            old(self).reliable() ==> r is Ok && final(self).reliable(),
            r matches Ok(s) ==> s == spec_status_byte(old(self).chip()),
            r matches Err(e) ==> e is Bus,
    {
        match self.command_read_byte(OPCODE_READ_STATUS_REG_1) {
            Ok(b) => Ok(b),
            Err(e) => Err(Error::Bus(e)),
        }
    }

    /// Waits for idleness, then performs one framed read exchange:
    /// opcode, big-endian address, for a fast read one dummy byte, then
    /// `buf.len()` data bytes into `buf`.
    fn read_frame(&mut self, fast: bool, address: u32, buf: &mut Vec<u8>) -> (r: Result<
        (),
        BusFault,
    >)
        requires
            !old(self).chip().cs_low,
            old(self).chip().wf(),
            address < DEVICE_SIZE,
        ensures
            !final(self).chip().cs_low,
            final(self).chip().wf(),
            final(self).chip().mem == old(self).chip().mem,
            final(self).chip().t_prog == old(self).chip().t_prog,
            final(self).chip().t_erase == old(self).chip().t_erase,
            final(buf)@.len() == old(buf)@.len(),
            old(self).reliable() ==> r is Ok && final(self).reliable(),
            r is Ok ==> final(self).chip().busy == 0 && !final(self).chip().wel && final(buf)@
                == payload_of(old(self).chip().mem, address as int, old(buf)@.len() as nat),
    {
        if let Err(e) = self.wait_idle() {
            return Err(e);
        }
        let ghost c1 = self.chip();
        let (b2, b1, b0) = pack_address(address);
        let mut tx: Vec<u8> = Vec::new();
        if fast {
            tx.push(OPCODE_FAST_READ);
        } else {
            tx.push(OPCODE_READ_DATA);
        }
        tx.push(b2);
        tx.push(b1);
        tx.push(b0);
        if fast {
            tx.push(0x00);
        }
        proof {
            if fast {
                assert(tx@ =~= seq![OPCODE_FAST_READ, b2, b1, b0, 0x00u8]);
            } else {
                assert(tx@ =~= seq![OPCODE_READ_DATA, b2, b1, b0]);
            }
            lemma_pack_address_value(address);
        }
        self.bus.set_cs_low();
        let w = self.bus.bus_write(&tx);
        if let Err(e) = w {
            let ghost mid = self.bus.chip();
            self.bus.set_cs_high();
            proof {
                let k = choose|k: int|
                    0 <= k <= tx@.len() && mid == rx_extend(cs_fall(c1), tx@.take(k));
                assert(mid.rx =~= tx@.take(k));
                if k >= 1 {
                    assert(mid.rx[0] == tx@[0]);
                }
            }
            return Err(e);
        }
        let ghost c2 = self.bus.chip();
        let n = buf.len();
        proof {
            assert(c2.sent + n <= usize::MAX);
        }
        let rd = self.bus.bus_read(buf);
        let ghost c3 = self.bus.chip();
        self.bus.set_cs_high();
        proof {
            assert(c2.rx =~= tx@);
        }
        match rd {
            Err(e) => {
                proof {
                    let k = choose|k: nat|
                        k <= old(buf)@.len() && c3 == sent_advance(c2, k);
                    assert(c3.rx[0] == tx@[0]);
                }
                Err(e)
            },
            Ok(()) => {
                proof {
                    assert(final(buf)@ =~= payload_of(
                        old(self).chip().mem,
                        address as int,
                        old(buf)@.len() as nat,
                    ));
                }
                Ok(())
            },
        }
    }

    /// Standard read: waits for idleness, then streams `buf.len()` bytes
    /// from `address` into `buf`, wrapping at the end of the device.
    pub fn read_data(&mut self, address: u32, buf: &mut Vec<u8>) -> (r: Result<(), Error>)
        requires
            !old(self).chip().cs_low,
            old(self).chip().wf(),
        ensures
            !final(self).chip().cs_low,
            final(self).chip().wf(),
            final(self).chip().mem == old(self).chip().mem,
            final(self).chip().t_prog == old(self).chip().t_prog,
            final(self).chip().t_erase == old(self).chip().t_erase,
            final(buf)@.len() == old(buf)@.len(),
            (address >= DEVICE_SIZE) <==> r == Err::<(), Error>((Error::AddressOutOfRange { address })),
            address >= DEVICE_SIZE ==> final(self).chip() == old(self).chip() && final(buf)@
                == old(buf)@ && final(self).reliable() == old(self).reliable(),
            address < DEVICE_SIZE && old(self).reliable() ==> r is Ok && final(self).reliable(),
            r is Ok ==> final(self).chip().busy == 0 && !final(self).chip().wel && final(buf)@
                == payload_of(old(self).chip().mem, address as int, old(buf)@.len() as nat),
            r matches Err(e) ==> (e is Bus || e == (Error::AddressOutOfRange { address })),
    {
        if address >= DEVICE_SIZE as u32 {
            return Err(Error::AddressOutOfRange { address });
        }
        match self.read_frame(false, address, buf) {
            Ok(()) => Ok(()),
            Err(e) => Err(Error::Bus(e)),
        }
    }

    /// Fast read: protocol-level equivalent of [`Self::read_data`] — the
    /// same address range yields the same payload — at the cost of one
    /// dummy byte, permitting higher bus clocks.
    pub fn fast_read(&mut self, address: u32, buf: &mut Vec<u8>) -> (r: Result<(), Error>)
        requires
            !old(self).chip().cs_low,
            old(self).chip().wf(),
        ensures
            !final(self).chip().cs_low,
            final(self).chip().wf(),
            final(self).chip().mem == old(self).chip().mem,
            final(self).chip().t_prog == old(self).chip().t_prog,
            final(self).chip().t_erase == old(self).chip().t_erase,
            final(buf)@.len() == old(buf)@.len(),
            (address >= DEVICE_SIZE) <==> r == Err::<(), Error>((Error::AddressOutOfRange { address })),
            address >= DEVICE_SIZE ==> final(self).chip() == old(self).chip() && final(buf)@
                == old(buf)@ && final(self).reliable() == old(self).reliable(),
            address < DEVICE_SIZE && old(self).reliable() ==> r is Ok && final(self).reliable(),
            r is Ok ==> final(self).chip().busy == 0 && !final(self).chip().wel && final(buf)@
                == payload_of(old(self).chip().mem, address as int, old(buf)@.len() as nat),
            r matches Err(e) ==> (e is Bus || e == (Error::AddressOutOfRange { address })),
    {
        if address >= DEVICE_SIZE as u32 {
            return Err(Error::AddressOutOfRange { address });
        }
        match self.read_frame(true, address, buf) {
            Ok(()) => Ok(()),
            Err(e) => Err(Error::Bus(e)),
        }
    }

    /// Page program: waits for idleness, issues Write Enable in its own
    /// frame, then programs `data` at `address` and waits for completion,
    /// so the chip is idle again on return.  Programming only clears
    /// bits: each programmed byte becomes the AND of its old value and
    /// the data byte; erase first to restore ones.  Rejects empty data,
    /// more than one page of data, an address above bit 23, and a
    /// program that would cross the boundary of the page it starts in.
    /// If the bus faults mid-frame the chip may have programmed a prefix
    /// of `data`; nothing else of the array can have changed.
    pub fn write_data(&mut self, address: u32, data: &Vec<u8>) -> (r: Result<(), Error>)
        requires
            !old(self).chip().cs_low,
            old(self).chip().wf(),
        ensures
            !final(self).chip().cs_low,
            final(self).chip().wf(),
            final(self).chip().t_prog == old(self).chip().t_prog,
            final(self).chip().t_erase == old(self).chip().t_erase,
            spec_validate_program(address, data@.len()) matches Some(e) ==> r == Err::<(), Error>(
                e,
            ) && final(self).chip() == old(self).chip()
                && final(self).reliable() == old(self).reliable(),
            spec_validate_program(address, data@.len()) is None && old(self).reliable() ==> r is Ok
                && final(self).reliable(),
            r is Ok ==> spec_validate_program(address, data@.len()) is None
                && final(self).chip().mem == programmed(old(self).chip().mem, address as int, data@)
                && final(self).chip().busy == 0 && !final(self).chip().wel,
            r matches Err(e) ==> (spec_validate_program(address, data@.len()) is None ==> e is Bus
                && exists|k: int|
                0 <= k <= data@.len() && final(self).chip().mem == programmed(
                    old(self).chip().mem,
                    address as int,
                    #[trigger] data@.take(k),
                )),
    {
        let ghost c0 = self.chip();
        if let Some(e) = validate_program(address, data.len()) {
            return Err(e);
        }
        if let Err(e) = self.wait_idle() {
            proof {
                assert(programmed(c0.mem, address as int, data@.take(0)) =~= c0.mem);
            }
            return Err(Error::Bus(e));
        }
        if let Err(e) = self.command(OPCODE_WRITE_ENABLE) {
            proof {
                assert(programmed(c0.mem, address as int, data@.take(0)) =~= c0.mem);
            }
            return Err(Error::Bus(e));
        }
        let ghost c2 = self.chip();
        proof {
            assert(c2.mem == c0.mem && c2.busy == 0 && c2.wel);
        }
        let (b2, b1, b0) = pack_address(address);
        let mut tx: Vec<u8> = Vec::new();
        tx.push(OPCODE_PAGE_PROGRAM);
        tx.push(b2);
        tx.push(b1);
        tx.push(b0);
        proof {
            assert(tx@ =~= seq![OPCODE_PAGE_PROGRAM, b2, b1, b0]);
            lemma_pack_address_value(address);
            lemma_page_fits(address as int);
        }
        self.bus.set_cs_low();
        let w1 = self.bus.bus_write(&tx);
        if let Err(e) = w1 {
            let ghost mid = self.bus.chip();
            self.bus.set_cs_high();
            proof {
                let k = choose|k: int|
                    0 <= k <= tx@.len() && mid == rx_extend(cs_fall(c2), tx@.take(k));
                assert(mid.rx =~= tx@.take(k));
                if k == 4 {
                    assert(mid.rx.skip(4) =~= Seq::<u8>::empty());
                } else if k >= 1 {
                    assert(mid.rx[0] == OPCODE_PAGE_PROGRAM && mid.rx.len() < 4);
                }
                assert(self.chip().mem == c0.mem);
                assert(programmed(c0.mem, address as int, data@.take(0)) =~= c0.mem);
            }
            return Err(Error::Bus(e));
        }
        let ghost c4 = self.bus.chip();
        let w2 = self.bus.bus_write(data);
        let ghost c5 = self.bus.chip();
        self.bus.set_cs_high();
        proof {
            lemma_pack_address_value(address);
            lemma_page_fits(address as int);
        }
        if let Err(e) = w2 {
            proof {
                let k = choose|k: int|
                    0 <= k <= data@.len() && c5 == rx_extend(c4, data@.take(k));
                assert(c5.rx =~= tx@ + data@.take(k));
                assert(c5.rx[0] == OPCODE_PAGE_PROGRAM && c5.rx.len() >= 4 && c5.wel);
                assert(c5.rx[1] == b2 && c5.rx[2] == b1 && c5.rx[3] == b0);
                assert(rx_address(c5.rx) == address);
                assert(c5.rx.skip(4) =~= data@.take(k));
                lemma_program_applied_in_page(c0.mem, address as int, data@.take(k));
                assert(self.chip().mem == programmed(c0.mem, address as int, data@.take(k)));
            }
            return Err(Error::Bus(e));
        }
        proof {
            assert(c5.rx =~= tx@ + data@);
            assert(c5.rx[0] == OPCODE_PAGE_PROGRAM && c5.rx.len() >= 4 && c5.wel);
            assert(c5.rx[1] == b2 && c5.rx[2] == b1 && c5.rx[3] == b0);
            assert(rx_address(c5.rx) == address);
            assert(c5.rx.skip(4) =~= data@);
            lemma_program_applied_in_page(c0.mem, address as int, data@);
            assert(self.chip().mem == programmed(c0.mem, address as int, data@));
            assert(self.chip().mem.len() == c0.mem.len());
        }
        if let Err(e) = self.wait_idle() {
            proof {
                assert(data@.take(data@.len() as int) =~= data@);
            }
            return Err(Error::Bus(e));
        }
        Ok(())
    }

    /// Sector erase: waits for idleness, issues Write Enable in its own
    /// frame, then erases the 4 KiB sector at `sector_address` to all
    /// ones and waits for completion, so the chip is idle again on
    /// return.  Rejects an address above bit 23 and one that is not
    /// 4 KiB-aligned.  If the bus faults, the sector is either fully
    /// erased or untouched; nothing else of the array can have changed.
    pub fn erase_sector(&mut self, sector_address: u32) -> (r: Result<(), Error>)
        requires
            !old(self).chip().cs_low,
            old(self).chip().wf(),
        ensures
            !final(self).chip().cs_low,
            final(self).chip().wf(),
            final(self).chip().t_prog == old(self).chip().t_prog,
            final(self).chip().t_erase == old(self).chip().t_erase,
            spec_validate_erase(sector_address) matches Some(e) ==> r == Err::<(), Error>(e)
                && final(self).chip() == old(self).chip()
                && final(self).reliable() == old(self).reliable(),
            spec_validate_erase(sector_address) is None && old(self).reliable() ==> r is Ok
                && final(self).reliable(),
            r is Ok ==> spec_validate_erase(sector_address) is None
                && final(self).chip().mem == erase_applied(
                old(self).chip().mem,
                sector_address as int,
            ) && final(self).chip().busy == 0 && !final(self).chip().wel,
            r matches Err(e) ==> (spec_validate_erase(sector_address) is None ==> e is Bus && (
            final(self).chip().mem == old(self).chip().mem || final(self).chip().mem
                == erase_applied(old(self).chip().mem, sector_address as int))),
    {
        let ghost c0 = self.chip();
        if let Some(e) = validate_erase(sector_address) {
            return Err(e);
        }
        if let Err(e) = self.wait_idle() {
            return Err(Error::Bus(e));
        }
        if let Err(e) = self.command(OPCODE_WRITE_ENABLE) {
            return Err(Error::Bus(e));
        }
        let ghost c2 = self.chip();
        proof {
            assert(c2.mem == c0.mem && c2.busy == 0 && c2.wel);
        }
        let (b2, b1, b0) = pack_address(sector_address);
        let mut tx: Vec<u8> = Vec::new();
        tx.push(OPCODE_SECTOR_ERASE);
        tx.push(b2);
        tx.push(b1);
        tx.push(b0);
        proof {
            assert(tx@ =~= seq![OPCODE_SECTOR_ERASE, b2, b1, b0]);
            lemma_pack_address_value(sector_address);
        }
        self.bus.set_cs_low();
        let w = self.bus.bus_write(&tx);
        let ghost mid = self.bus.chip();
        self.bus.set_cs_high();
        if let Err(e) = w {
            proof {
                let k = choose|k: int|
                    0 <= k <= tx@.len() && mid == rx_extend(cs_fall(c2), tx@.take(k));
                assert(mid.rx =~= tx@.take(k));
                if k == 4 {
                    assert(mid.rx[1] == b2 && mid.rx[2] == b1 && mid.rx[3] == b0);
                    assert(rx_address(mid.rx) == sector_address);
                    assert(sector_base(sector_address as int) == sector_address as int);
                    assert(self.chip().mem == erase_applied(c0.mem, sector_address as int));
                } else if k >= 1 {
                    assert(mid.rx[0] == OPCODE_SECTOR_ERASE && mid.rx.len() < 4);
                }
            }
            return Err(Error::Bus(e));
        }
        proof {
            assert(mid.rx =~= tx@);
            assert(mid.rx[0] == OPCODE_SECTOR_ERASE && mid.rx.len() == 4 && mid.wel);
            assert(mid.rx[1] == b2 && mid.rx[2] == b1 && mid.rx[3] == b0);
            assert(rx_address(mid.rx) == sector_address);
            assert(sector_base(sector_address as int) == sector_address as int);
            assert(self.chip().mem == erase_applied(c0.mem, sector_address as int));
            assert(self.chip().mem.len() == c0.mem.len());
        }
        if let Err(e) = self.wait_idle() {
            return Err(Error::Bus(e));
        }
        Ok(())
    }

    /// Whether the chip currently reports BUSY (bit 0 of Status
    /// Register 1).
    pub fn is_busy(&mut self) -> (r: Result<bool, Error>)
        requires
            !old(self).chip().cs_low,
            old(self).chip().wf(),
        ensures
            !final(self).chip().cs_low,
            final(self).chip().wf(),
            final(self).chip().mem == old(self).chip().mem,
            final(self).chip().busy == old(self).chip().busy,
            final(self).chip().t_prog == old(self).chip().t_prog,
            final(self).chip().t_erase == old(self).chip().t_erase,
            old(self).reliable() ==> r is Ok && final(self).reliable(),
            r matches Ok(b) ==> b == (old(self).chip().busy > 0),
            r matches Err(e) ==> e is Bus,
    {
        let ghost c0 = self.chip();
        match self.read_status_register() {
            Ok(status) => {
                proof {
                    lemma_status_busy_bit(c0);
                }
                Ok(status_is_busy(status))
            },
            Err(e) => Err(e),
        }
    }
}

} // verus!
