//! Formal model of the W25Q128JV SPI command protocol.
//!
//! The chip is modelled as a state machine over [`ChipState`].  While the
//! chip-select line is low, bytes shifted out by the controller accumulate
//! in `rx`; bytes shifted in are a function of the accumulated command
//! (`stream_byte`).  Raising chip-select commits the accumulated command
//! (`commit`): Write Enable sets the write-enable latch, and a page program
//! or sector erase with the latch set modifies the memory array and starts
//! the internal busy period.  The busy period is modelled as a tick counter
//! that the delay source decrements (`tick`); a real chip clears BUSY after
//! a physical latency, which the polling loop of the driver rides out in
//! the same way.
//!
//! One simplification: the write-enable latch is modelled as consumed when
//! a program or erase command is accepted, rather than when the internal
//! operation completes.  The driver never exposes the latch between those
//! two points, so the difference is not observable through the public API.

use vstd::prelude::*;
use vstd::arithmetic::div_mod::{lemma_fundamental_div_mod, lemma_small_mod, lemma_mod_bound};

verus! {

/// JEDEC manufacturer id of a genuine part.
pub const JEDEC_MAN_ID: u8 = 0xEF;

/// JEDEC memory type id of a genuine part.
pub const JEDEC_MEM_TYPE: u8 = 0x40;

/// JEDEC capacity id of a genuine part (16 MiB).
pub const JEDEC_CAPACITY: u8 = 0x18;

/// Smallest erase granule, in bytes.
pub const SECTOR_SIZE: usize = 4096;

/// Programming unit, in bytes; a page program must not cross a page boundary.
pub const PAGE_SIZE: usize = 256;

/// Size of the memory array, in bytes (16 MiB, addressed by 24 bits).
pub const DEVICE_SIZE: usize = 0x100_0000;

/// Read JEDEC ID.
pub const OPCODE_READ_JEDEC_ID: u8 = 0x9F;

/// Read Status Register 1.
pub const OPCODE_READ_STATUS_REG_1: u8 = 0x05;

/// Write Enable; required immediately before every program or erase.
pub const OPCODE_WRITE_ENABLE: u8 = 0x06;

/// Standard read.
pub const OPCODE_READ_DATA: u8 = 0x03;

/// Fast read; one dummy byte between address and data.
pub const OPCODE_FAST_READ: u8 = 0x0B;

/// Page program.
pub const OPCODE_PAGE_PROGRAM: u8 = 0x02;

/// Sector erase.  The driver issues 0xD8 for its 4 KiB sector erase.
/// Note that the datasheet assigns 0x20 to the 4 KiB sector erase and
/// 0xD8 to the 64 KiB block erase; firmware that depends on the exact
/// erase granule should double-check which opcode its chip revision
/// honours for which unit.
pub const OPCODE_SECTOR_ERASE: u8 = 0xD8;

/// Model state of the flash chip together with its chip-select line.
///
/// `mem` is the memory array (always `DEVICE_SIZE` bytes for a well-formed
/// state), `busy` the remaining delay ticks of the internal program or
/// erase operation, `wel` the write-enable latch, and `t_prog` / `t_erase`
/// the latencies, in delay ticks, that an accepted program or erase starts.
/// `rx` holds the bytes received since chip-select last fell and `sent`
/// counts the bytes already streamed out within the current frame.
#[verifier::ext_equal]
pub struct ChipState {
    pub mem: Seq<u8>,
    pub cs_low: bool,
    pub wel: bool,
    pub busy: nat,
    pub t_prog: nat,
    pub t_erase: nat,
    pub rx: Seq<u8>,
    pub sent: nat,
}

impl ChipState {
    /// A well-formed state has a full-size memory array.
    pub open spec fn wf(self) -> bool {
        self.mem.len() == DEVICE_SIZE as nat
    }
}

/// State of a factory-fresh (or fully erased) chip: all bytes 0xFF, idle,
/// latch clear, chip-select released.
pub open spec fn fresh_chip(t_prog: nat, t_erase: nat) -> ChipState {
    ChipState {
        mem: Seq::new(DEVICE_SIZE as nat, |i: int| 0xFFu8),
        cs_low: false,
        wel: false,
        busy: 0,
        t_prog,
        t_erase,
        rx: Seq::empty(),
        sent: 0,
    }
}

/// The 24-bit address encoded by three big-endian bytes.
pub open spec fn spec_address_value(b2: u8, b1: u8, b0: u8) -> int {
    (b2 as int) * 0x10000 + (b1 as int) * 0x100 + (b0 as int)
}

/// Big-endian packing of a 24-bit address into three bytes.
pub open spec fn spec_pack_address(address: u32) -> Seq<u8> {
    seq![
        (address / 0x10000) as u8,
        ((address / 0x100) % 0x100) as u8,
        (address % 0x100) as u8,
    ]
}

/// Packing followed by decoding returns the address unchanged.
pub proof fn lemma_pack_address_value(address: u32)
    requires
        address < DEVICE_SIZE,
    ensures
        spec_address_value(
            spec_pack_address(address)[0],
            spec_pack_address(address)[1],
            spec_pack_address(address)[2],
        ) == address,
{
    assert(((address / 0x10000) as u8) as u32 == address / 0x10000
        && (((address / 0x100) % 0x100) as u8) as u32 == (address / 0x100) % 0x100
        && ((address % 0x100) as u8) as u32 == address % 0x100
        && (address / 0x10000) * 0x10000 + ((address / 0x100) % 0x100) * 0x100 + address % 0x100
            == address) by (bit_vector)
        requires
            address < 0x100_0000,
    ;
}

/// Chip-select falling edge: a new command frame begins.
pub open spec fn cs_fall(c: ChipState) -> ChipState {
    ChipState { cs_low: true, rx: Seq::empty(), sent: 0, ..c }
}

/// Bytes shifted out by the controller accumulate in the frame.
pub open spec fn rx_extend(c: ChipState, bytes: Seq<u8>) -> ChipState {
    ChipState { rx: c.rx + bytes, ..c }
}

/// Bytes shifted in advance the stream position of the frame.
pub open spec fn sent_advance(c: ChipState, n: nat) -> ChipState {
    ChipState { sent: c.sent + n, ..c }
}

/// One tick of the delay source: the internal operation progresses.
pub open spec fn tick(c: ChipState) -> ChipState {
    ChipState { busy: if c.busy > 0 { (c.busy - 1) as nat } else { 0 }, ..c }
}

/// The address field of a command frame (bytes 1..4, big-endian).
pub open spec fn rx_address(rx: Seq<u8>) -> int {
    spec_address_value(rx[1], rx[2], rx[3])
}

/// Base address of the 256-byte page containing `a`.
pub open spec fn page_base(a: int) -> int {
    a - a % 256
}

/// Base address of the 4 KiB sector containing `a`.
pub open spec fn sector_base(a: int) -> int {
    a - a % 4096
}

/// Location of the `k`-th programmed byte for a program starting at `a`:
/// the address advances within the page and wraps at the page boundary.
pub open spec fn prog_loc(a: int, k: int) -> int {
    page_base(a) + (a % 256 + k) % 256
}

/// Memory array after a page program of `data` at `a`: each data byte is
/// AND-ed into its location (programming only clears bits), and the
/// location wraps within the 256-byte page.
pub open spec fn program_applied(mem: Seq<u8>, a: int, data: Seq<u8>) -> Seq<u8>
    decreases data.len(),
{
    if data.len() == 0 {
        mem
    } else {
        let m1 = program_applied(mem, a, data.drop_last());
        let loc = prog_loc(a, data.len() - 1);
        m1.update(loc, m1[loc] & data.last())
    }
}

/// Memory array after erasing the 4 KiB sector at `base`.
pub open spec fn erase_applied(mem: Seq<u8>, base: int) -> Seq<u8> {
    Seq::new(mem.len(), |i: int| if base <= i < base + SECTOR_SIZE { 0xFFu8 } else { mem[i] })
}

/// Effect of raising chip-select on the accumulated command.
///
/// While busy the chip ignores commands.  Write Enable sets the latch; an
/// accepted program or erase modifies the array, starts the busy period
/// and consumes the latch; any other completed command clears the latch.
pub open spec fn commit(c: ChipState) -> ChipState {
    if c.busy > 0 || c.rx.len() == 0 {
        c
    } else if c.rx.len() == 1 && c.rx[0] == OPCODE_WRITE_ENABLE {
        ChipState { wel: true, ..c }
    } else if c.rx[0] == OPCODE_PAGE_PROGRAM && c.rx.len() >= 4 && c.wel {
        ChipState {
            mem: program_applied(c.mem, rx_address(c.rx), c.rx.skip(4)),
            wel: false,
            busy: c.t_prog,
            ..c
        }
    } else if c.rx[0] == OPCODE_SECTOR_ERASE && c.rx.len() == 4 && c.wel {
        ChipState {
            mem: erase_applied(c.mem, sector_base(rx_address(c.rx))),
            wel: false,
            busy: c.t_erase,
            ..c
        }
    } else {
        ChipState { wel: false, ..c }
    }
}

/// Chip-select rising edge: the accumulated command commits.
pub open spec fn cs_rise(c: ChipState) -> ChipState {
    ChipState { cs_low: false, ..commit(c) }
}

/// Byte `j` of the continuously repeated JEDEC identity stream.
pub open spec fn jedec_id_byte(j: int) -> u8 {
    if j % 3 == 0 {
        JEDEC_MAN_ID
    } else if j % 3 == 1 {
        JEDEC_MEM_TYPE
    } else {
        JEDEC_CAPACITY
    }
}

/// Status Register 1: bit 0 is BUSY, bit 1 is the write-enable latch.
pub open spec fn spec_status_byte(c: ChipState) -> u8 {
    ((if c.busy > 0 { 1int } else { 0int }) + (if c.wel { 2int } else { 0int })) as u8
}

/// Bit 0 of the status byte is set exactly while the chip is busy.
pub proof fn lemma_status_busy_bit(c: ChipState)
    ensures
        (spec_status_byte(c) & 0x01 != 0) <==> c.busy > 0,
{
    assert(0u8 & 0x01 == 0) by (bit_vector);
    assert(1u8 & 0x01 == 1) by (bit_vector);
    assert(2u8 & 0x01 == 0) by (bit_vector);
    assert(3u8 & 0x01 == 1) by (bit_vector);
}

/// Byte at stream position `j` of the current frame, as a function of the
/// accumulated command.  Read commands stream the array from the decoded
/// address onward, wrapping at the end of the device; an incomplete or
/// unknown command streams zeros.
pub open spec fn stream_byte(c: ChipState, j: int) -> u8 {
    if c.rx.len() == 1 && c.rx[0] == OPCODE_READ_JEDEC_ID {
        jedec_id_byte(j)
    } else if c.rx.len() == 1 && c.rx[0] == OPCODE_READ_STATUS_REG_1 {
        spec_status_byte(c)
    } else if c.rx.len() == 4 && c.rx[0] == OPCODE_READ_DATA {
        c.mem[(rx_address(c.rx) + j) % (DEVICE_SIZE as int)]
    } else if c.rx.len() == 5 && c.rx[0] == OPCODE_FAST_READ {
        c.mem[(rx_address(c.rx) + j) % (DEVICE_SIZE as int)]
    } else {
        0u8
    }
}

/// The next `n` bytes streamed out of the current frame.
pub open spec fn stream_seq(c: ChipState, n: nat) -> Seq<u8> {
    Seq::new(n, |i: int| stream_byte(c, c.sent + i))
}

/// The `n` bytes of the array starting at `a`, wrapping at the device end:
/// what a read command started at `a` returns.
pub open spec fn payload_of(mem: Seq<u8>, a: int, n: nat) -> Seq<u8> {
    Seq::new(n, |i: int| mem[(a + i) % (DEVICE_SIZE as int)])
}

/// Memory array after an in-page program of `data` at `a`, stated
/// byte-wise: programmed locations hold the AND of old and new byte,
/// all others are untouched.
pub open spec fn programmed(mem: Seq<u8>, a: int, data: Seq<u8>) -> Seq<u8> {
    Seq::new(
        mem.len(),
        |i: int| if a <= i < a + data.len() { mem[i] & data[i - a] } else { mem[i] },
    )
}

/// Every 256-byte page lies entirely within the device.
pub proof fn lemma_page_fits(a: int)
    requires
        0 <= a < DEVICE_SIZE,
    ensures
        0 <= page_base(a) <= a,
        page_base(a) + 256 <= DEVICE_SIZE,
{
    lemma_fundamental_div_mod(a, 256);
    lemma_mod_bound(a, 256);
    let q = a / 256;
    assert(page_base(a) == 256 * q);
    assert(q <= 65535) by (nonlinear_arith)
        requires
            256 * q < 0x100_0000,
    ;
    assert(256 * q <= 256 * 65535) by (nonlinear_arith)
        requires
            q <= 65535,
    ;
}

/// Every 4 KiB sector lies entirely within the device.
pub proof fn lemma_sector_fits(a: int)
    requires
        0 <= a < DEVICE_SIZE,
    ensures
        0 <= sector_base(a) <= a,
        sector_base(a) + SECTOR_SIZE <= DEVICE_SIZE,
{
    lemma_fundamental_div_mod(a, 4096);
    lemma_mod_bound(a, 4096);
    let q = a / 4096;
    assert(sector_base(a) == 4096 * q);
    assert(q <= 4095) by (nonlinear_arith)
        requires
            4096 * q < 0x100_0000,
    ;
    assert(4096 * q <= 4096 * 4095) by (nonlinear_arith)
        requires
            q <= 4095,
    ;
}

/// For a program that stays within one page, the wrapping accumulation of
/// `program_applied` is exactly the byte-wise `programmed`.
pub proof fn lemma_program_applied_in_page(mem: Seq<u8>, a: int, data: Seq<u8>)
    requires
        0 <= a,
        a % 256 + data.len() <= 256,
        a + data.len() <= mem.len(),
    ensures
        program_applied(mem, a, data) == programmed(mem, a, data),
    decreases data.len(),
{
    lemma_mod_bound(a, 256);
    if data.len() == 0 {
        assert(program_applied(mem, a, data) =~= programmed(mem, a, data));
    } else {
        lemma_program_applied_in_page(mem, a, data.drop_last());
        let k = data.len() - 1;
        lemma_small_mod((a % 256 + k) as nat, 256);
        assert(prog_loc(a, k) == a + k);
        assert(program_applied(mem, a, data)
            =~= programmed(mem, a, data.drop_last()).update(a + k, mem[a + k] & data[k]));
        assert(programmed(mem, a, data.drop_last()).update(a + k, mem[a + k] & data[k])
            =~= programmed(mem, a, data));
    }
}

} // verus!
