//! Guarantees that relate several driver operations, proved once over the
//! protocol model.
//!
//! The per-operation guarantees live in the contracts of
//! [`crate::driver::W25q128jv`]; chaining those contracts together needs
//! the protocol-level facts below.  Chip-select being high after every
//! operation, success or failure, is stated directly as an `ensures` of
//! each operation and needs no separate lemma.

use vstd::prelude::*;
use vstd::arithmetic::div_mod::{
    lemma_fundamental_div_mod, lemma_mod_bound, lemma_mod_mod, lemma_small_mod,
};
use crate::protocol::{
    ChipState, DEVICE_SIZE, SECTOR_SIZE, OPCODE_FAST_READ, OPCODE_READ_DATA, cs_fall,
    erase_applied, lemma_sector_fits, lemma_status_busy_bit, payload_of, programmed, rx_extend,
    sector_base, spec_status_byte, stream_seq,
};

verus! {

/// After a modifying operation has returned with success the chip is
/// idle, so the next observation of Status Register 1 has BUSY
/// (bit 0) clear: `write_data` and `erase_sector` ensure `busy == 0`,
/// and `read_status_register` then returns this byte.
pub proof fn lemma_idle_status_not_busy(c: ChipState)
    requires
        c.busy == 0,
    ensures
        spec_status_byte(c) & 0x01 == 0,
{
    lemma_status_busy_bit(c);
}

/// A standard-read frame and a fast-read frame for the same address
/// stream identical payloads: `read_data` and `fast_read` return the
/// same bytes for the same address range on a quiescent chip.
pub proof fn lemma_fast_read_matches_read_data(c: ChipState, b2: u8, b1: u8, b0: u8, n: nat)
    ensures
        stream_seq(rx_extend(cs_fall(c), seq![OPCODE_READ_DATA, b2, b1, b0]), n) == stream_seq(
            rx_extend(cs_fall(c), seq![OPCODE_FAST_READ, b2, b1, b0, 0x00]),
            n,
        ),
{
    let c1 = rx_extend(cs_fall(c), seq![OPCODE_READ_DATA, b2, b1, b0]);
    let c2 = rx_extend(cs_fall(c), seq![OPCODE_FAST_READ, b2, b1, b0, 0x00]);
    assert(c1.rx =~= seq![OPCODE_READ_DATA, b2, b1, b0]);
    assert(c2.rx =~= seq![OPCODE_FAST_READ, b2, b1, b0, 0x00u8]);
    assert(stream_seq(c1, n) =~= stream_seq(c2, n));
}

/// Reading any range that lies within a freshly erased sector yields
/// all ones: after `erase_sector(a - a % 4096)`, a read of `n` bytes at
/// `a` with `a % 4096 + n <= 4096` returns `0xFF` bytes only.
pub proof fn lemma_erased_sector_reads_ones(mem: Seq<u8>, a: int, n: nat)
    requires
        mem.len() == DEVICE_SIZE,
        0 <= a < DEVICE_SIZE,
        a % 4096 + n <= SECTOR_SIZE,
    ensures
        payload_of(erase_applied(mem, sector_base(a)), a, n) == Seq::new(n, |i: int| 0xFFu8),
{
    lemma_sector_fits(a);
    lemma_mod_bound(a, 4096);
    assert forall|i: int| 0 <= i < n implies payload_of(erase_applied(mem, sector_base(a)), a, n)[i]
        == 0xFFu8 by {
        lemma_small_mod((a + i) as nat, DEVICE_SIZE as nat);
        assert(sector_base(a) <= a + i < sector_base(a) + SECTOR_SIZE);
    }
    assert(payload_of(erase_applied(mem, sector_base(a)), a, n) =~= Seq::new(
        n,
        |i: int| 0xFFu8,
    ));
}

/// Round trip: erasing the sector containing a page-aligned address `a`
/// and then programming a payload `p` of at most one page at `a` makes
/// a read of `|p|` bytes at `a` return exactly `p`.
pub proof fn lemma_round_trip(mem: Seq<u8>, a: int, p: Seq<u8>)
    requires
        mem.len() == DEVICE_SIZE,
        0 <= a < DEVICE_SIZE,
        a % 256 == 0,
        0 < p.len() <= 256,
    ensures
        payload_of(programmed(erase_applied(mem, sector_base(a)), a, p), a, p.len()) == p,
{
    lemma_sector_fits(a);
    lemma_mod_bound(a, 4096);
    lemma_mod_mod(a, 256, 16);
    assert(256 * 16 == 4096);
    let m = a % 4096;
    assert(m % 256 == 0);
    lemma_fundamental_div_mod(m, 256);
    let q = m / 256;
    assert(q <= 15) by (nonlinear_arith)
        requires
            256 * q < 4096,
    ;
    assert(256 * q <= 256 * 15) by (nonlinear_arith)
        requires
            q <= 15,
    ;
    assert(m + p.len() <= SECTOR_SIZE);
    let erased = erase_applied(mem, sector_base(a));
    assert(forall|x: u8| #[trigger] (0xFFu8 & x) == x) by (bit_vector);
    let readback = payload_of(programmed(erased, a, p), a, p.len());
    assert forall|i: int| 0 <= i < p.len() implies readback[i] == p[i] by {
        lemma_small_mod((a + i) as nat, DEVICE_SIZE as nat);
        assert(sector_base(a) <= a + i < sector_base(a) + SECTOR_SIZE);
        assert(erased[a + i] == 0xFFu8);
        assert(programmed(erased, a, p)[a + i] == (0xFFu8 & p[i]));
    }
    assert(payload_of(programmed(erased, a, p), a, p.len()) =~= p);
}

/// Programming only clears bits: a byte holding `v` reads back as
/// `v & w` after `w` is programmed over it, and no other byte of the
/// array changes.
pub proof fn lemma_program_clears_bits(mem: Seq<u8>, a: int, w: u8)
    requires
        mem.len() == DEVICE_SIZE,
        0 <= a < DEVICE_SIZE,
    ensures
        payload_of(programmed(mem, a, seq![w]), a, 1) == seq![mem[a] & w],
        forall|j: int| 0 <= j < mem.len() && j != a ==> programmed(mem, a, seq![w])[j] == mem[j],
{
    lemma_small_mod(a as nat, DEVICE_SIZE as nat);
    assert(payload_of(programmed(mem, a, seq![w]), a, 1) =~= seq![mem[a] & w]);
}

} // verus!
