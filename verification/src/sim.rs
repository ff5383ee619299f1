//! Verified software model of a W25Q128JV behind a [`FlashBus`].
//!
//! `SimBus` executes the protocol transitions of [`crate::protocol`]
//! faithfully, so the driver can be exercised — identity, reads, page
//! programs, sector erases, busy polling, and injected bus faults —
//! without hardware.

use vstd::prelude::*;
use vstd::arithmetic::div_mod::{lemma_add_mod_noop, lemma_mod_bound, lemma_small_mod};
use crate::bus::{BusFault, FlashBus};
use crate::protocol::{
    ChipState, DEVICE_SIZE, SECTOR_SIZE, OPCODE_FAST_READ, OPCODE_PAGE_PROGRAM, OPCODE_READ_DATA,
    OPCODE_READ_JEDEC_ID, OPCODE_READ_STATUS_REG_1, OPCODE_SECTOR_ERASE, OPCODE_WRITE_ENABLE,
    JEDEC_CAPACITY, JEDEC_MAN_ID, JEDEC_MEM_TYPE, cs_fall, cs_rise, erase_applied, fresh_chip,
    program_applied, prog_loc, rx_address, rx_extend, sector_base, sent_advance,
    spec_address_value, spec_status_byte, stream_byte, stream_seq, tick,
};

verus! {

/// Software chip model: the memory array, the chip-select and latch
/// state, the remaining busy ticks, the configured program and erase
/// latencies, the bytes of the open frame, and a one-shot injected fault.
pub struct SimBus {
    mem: Vec<u8>,
    cs_low: bool,
    wel: bool,
    busy: u32,
    t_prog: u32,
    t_erase: u32,
    rx: Vec<u8>,
    sent: usize,
    fault_armed: bool,
}

/// Decodes a big-endian 24-bit address field.
fn decode_address(b2: u8, b1: u8, b0: u8) -> (a: u32)
    ensures
        a as int == spec_address_value(b2, b1, b0),
        a < DEVICE_SIZE,
{
    (b2 as u32) * 0x10000 + (b1 as u32) * 0x100 + (b0 as u32)
}

impl SimBus {
    /// Builds a factory-fresh chip (all bytes 0xFF, idle) whose accepted
    /// programs take `t_prog` and erases `t_erase` delay ticks.
    pub fn new(t_prog: u32, t_erase: u32) -> (s: Self)
        ensures
            s.chip() == fresh_chip(t_prog as nat, t_erase as nat),
            s.reliable(),
    {
        let mut mem: Vec<u8> = Vec::new();
        let mut i: usize = 0;
        while i < DEVICE_SIZE
            invariant
                i <= DEVICE_SIZE,
                mem@.len() == i,
                forall|k: int| 0 <= k < i ==> mem@[k] == 0xFFu8,
            decreases DEVICE_SIZE - i,
        {
            mem.push(0xFF);
            i += 1;
        }
        let s = SimBus {
            mem,
            cs_low: false,
            wel: false,
            busy: 0,
            t_prog,
            t_erase,
            rx: Vec::new(),
            sent: 0,
            fault_armed: false,
        };
        proof {
            assert(s.chip() =~= fresh_chip(t_prog as nat, t_erase as nat));
        }
        s
    }

    /// Arms a one-shot bus fault: the next exchange fails.
    pub fn arm_fault(&mut self)
        ensures
            final(self).chip() == old(self).chip(),
            !final(self).reliable(),
    {
        self.fault_armed = true;
    }

    /// Whether the chip-select line is currently driven low.
    pub fn cs_is_low(&self) -> (b: bool)
        ensures
            b == self.chip().cs_low,
    {
        self.cs_low
    }

    /// Programs the data phase of the accumulated command into the array:
    /// each byte is AND-ed in, the location wrapping within its page.
    fn apply_program(&mut self, a: u32)
        requires
            a < DEVICE_SIZE,
            a as int == rx_address(old(self).rx@),
            old(self).rx@.len() >= 4,
            old(self).mem@.len() == DEVICE_SIZE,
        ensures
            final(self).mem@ == program_applied(old(self).mem@, a as int, old(self).rx@.skip(4)),
            final(self).mem@.len() == DEVICE_SIZE,
            final(self).cs_low == old(self).cs_low,
            final(self).wel == old(self).wel,
            final(self).busy == old(self).busy,
            final(self).t_prog == old(self).t_prog,
            final(self).t_erase == old(self).t_erase,
            final(self).rx@ == old(self).rx@,
            final(self).sent == old(self).sent,
            final(self).fault_armed == old(self).fault_armed,
    {
        let off: u32 = a % 256;
        let page: u32 = a - off;
        let n = self.rx.len();
        let ghost data = old(self).rx@.skip(4);
        let mut i: usize = 4;
        proof {
            assert(data.take(0) =~= Seq::<u8>::empty());
        }
        while i < n
            invariant
                4 <= i <= n,
                n == self.rx@.len(),
                a < DEVICE_SIZE,
                off == a % 256,
                page == a - off,
                data == old(self).rx@.skip(4),
                self.mem@ == program_applied(old(self).mem@, a as int, data.take(i - 4)),
                self.mem@.len() == DEVICE_SIZE,
                self.cs_low == old(self).cs_low,
                self.wel == old(self).wel,
                self.busy == old(self).busy,
                self.t_prog == old(self).t_prog,
                self.t_erase == old(self).t_erase,
                self.rx@ == old(self).rx@,
                self.sent == old(self).sent,
                self.fault_armed == old(self).fault_armed,
            decreases n - i,
        {
            let k: usize = i - 4;
            let km: u32 = (k % 256) as u32;
            let loc: u32 = page + (off + km) % 256;
            proof {
                lemma_mod_bound(off as int, 256);
                lemma_mod_bound(k as int, 256);
                lemma_small_mod((off % 256) as nat, 256);
                lemma_small_mod(((k as int) % 256) as nat, 256);
                lemma_add_mod_noop(off as int, k as int, 256);
                lemma_add_mod_noop(off as int, (k as int) % 256, 256);
                assert((off + km) as int % 256 == ((a as int) % 256 + k as int) % 256);
                assert(loc as int == prog_loc(a as int, k as int));
            }
            let d = self.rx[i];
            let prev = self.mem[loc as usize];
            self.mem[loc as usize] = prev & d;
            i = i + 1;
            proof {
                assert(data.take(i - 4).drop_last() =~= data.take(i - 5));
                assert(data.take(i - 4).last() == data[i - 5]);
                assert(data[i - 5] == old(self).rx@[i - 1]);
                assert(self.mem@ == program_applied(old(self).mem@, a as int, data.take(i - 4)));
            }
        }
        proof {
            assert(data.take(n - 4) =~= data);
        }
    }

    /// Erases the 4 KiB sector containing `a` to all ones.
    fn apply_erase(&mut self, a: u32)
        requires
            a < DEVICE_SIZE,
            old(self).mem@.len() == DEVICE_SIZE,
        ensures
            final(self).mem@ == erase_applied(old(self).mem@, sector_base(a as int)),
            final(self).mem@.len() == DEVICE_SIZE,
            final(self).cs_low == old(self).cs_low,
            final(self).wel == old(self).wel,
            final(self).busy == old(self).busy,
            final(self).t_prog == old(self).t_prog,
            final(self).t_erase == old(self).t_erase,
            final(self).rx@ == old(self).rx@,
            final(self).sent == old(self).sent,
            final(self).fault_armed == old(self).fault_armed,
    {
        let off: u32 = a % 4096;
        let base: u32 = a - off;
        let mut j: usize = 0;
        while j < SECTOR_SIZE
            invariant
                j <= SECTOR_SIZE,
                base as int == sector_base(a as int),
                base + 4096 <= 0x100_0000,
                self.mem@.len() == DEVICE_SIZE,
                forall|i: int|
                    0 <= i < DEVICE_SIZE ==> self.mem@[i] == (if base <= i < base + j {
                        0xFFu8
                    } else {
                        old(self).mem@[i]
                    }),
                self.cs_low == old(self).cs_low,
                self.wel == old(self).wel,
                self.busy == old(self).busy,
                self.t_prog == old(self).t_prog,
                self.t_erase == old(self).t_erase,
                self.rx@ == old(self).rx@,
                self.sent == old(self).sent,
                self.fault_armed == old(self).fault_armed,
            decreases SECTOR_SIZE - j,
        {
            self.mem[base as usize + j] = 0xFF;
            j = j + 1;
        }
        proof {
            assert(self.mem@ =~= erase_applied(old(self).mem@, sector_base(a as int)));
        }
    }

    /// Byte at stream position `j` of the open frame.
    fn stream_byte_at(&self, j: usize) -> (b: u8)
        requires
            self.mem@.len() == DEVICE_SIZE,
        ensures
            b == stream_byte(self.chip(), j as int),
    {
        let n = self.rx.len();
        if n == 1 && self.rx[0] == OPCODE_READ_JEDEC_ID {
            let m = j % 3;
            if m == 0 {
                JEDEC_MAN_ID
            } else if m == 1 {
                JEDEC_MEM_TYPE
            } else {
                JEDEC_CAPACITY
            }
        } else if n == 1 && self.rx[0] == OPCODE_READ_STATUS_REG_1 {
            let mut s: u8 = 0;
            if self.busy > 0 {
                s = 1;
            }
            if self.wel {
                s = s + 2;
            }
            s
        } else if (n == 4 && self.rx[0] == OPCODE_READ_DATA) || (n == 5 && self.rx[0]
            == OPCODE_FAST_READ) {
            let a = decode_address(self.rx[1], self.rx[2], self.rx[3]);
            let jm: usize = j % DEVICE_SIZE;
            let idx: usize = (a as usize + jm) % DEVICE_SIZE;
            proof {
                let s = DEVICE_SIZE as int;
                lemma_mod_bound(j as int, s);
                lemma_small_mod(((j as int) % s) as nat, s as nat);
                lemma_small_mod(a as nat, s as nat);
                lemma_add_mod_noop(a as int, j as int, s);
                lemma_add_mod_noop(a as int, (j as int) % s, s);
                assert(idx as int == (rx_address(self.rx@) + j as int) % s);
                lemma_mod_bound(a as int + j as int, s);
            }
            self.mem[idx]
        } else {
            0
        }
    }
}

impl FlashBus for SimBus {
    closed spec fn chip(&self) -> ChipState {
        ChipState {
            mem: self.mem@,
            cs_low: self.cs_low,
            wel: self.wel,
            busy: self.busy as nat,
            t_prog: self.t_prog as nat,
            t_erase: self.t_erase as nat,
            rx: self.rx@,
            sent: self.sent as nat,
        }
    }

    closed spec fn reliable(&self) -> bool {
        !self.fault_armed
    }

    fn set_cs_low(&mut self) {
        self.cs_low = true;
        self.rx.clear();
        self.sent = 0;
        proof {
            assert(self.chip() =~= cs_fall(old(self).chip()));
        }
    }

    fn set_cs_high(&mut self) {
        self.cs_low = false;
        if self.busy > 0 || self.rx.len() == 0 {
            proof {
                assert(self.chip() =~= cs_rise(old(self).chip()));
            }
            return;
        }
        let n = self.rx.len();
        let op = self.rx[0];
        if n == 1 && op == OPCODE_WRITE_ENABLE {
            self.wel = true;
        } else if op == OPCODE_PAGE_PROGRAM && n >= 4 && self.wel {
            let a = decode_address(self.rx[1], self.rx[2], self.rx[3]);
            self.apply_program(a);
            self.wel = false;
            self.busy = self.t_prog;
        } else if op == OPCODE_SECTOR_ERASE && n == 4 && self.wel {
            let a = decode_address(self.rx[1], self.rx[2], self.rx[3]);
            self.apply_erase(a);
            self.wel = false;
            self.busy = self.t_erase;
        } else {
            self.wel = false;
        }
        proof {
            assert(self.chip() =~= cs_rise(old(self).chip()));
        }
    }

    fn bus_write(&mut self, data: &Vec<u8>) -> (r: Result<(), BusFault>) {
        if self.fault_armed {
            self.fault_armed = false;
            proof {
                assert(self.chip() =~= rx_extend(old(self).chip(), data@.take(0)));
            }
            return Err(BusFault::Other);
        }
        let n = data.len();
        let mut i: usize = 0;
        while i < n
            invariant
                i <= n,
                n == data@.len(),
                self.rx@ == old(self).rx@ + data@.take(i as int),
                self.mem@ == old(self).mem@,
                self.cs_low == old(self).cs_low,
                self.wel == old(self).wel,
                self.busy == old(self).busy,
                self.t_prog == old(self).t_prog,
                self.t_erase == old(self).t_erase,
                self.sent == old(self).sent,
                self.fault_armed == old(self).fault_armed,
            decreases n - i,
        {
            self.rx.push(data[i]);
            i = i + 1;
            proof {
                assert(old(self).rx@ + data@.take(i as int) =~= (old(self).rx@ + data@.take(
                    i - 1,
                )).push(data@[i - 1]));
            }
        }
        proof {
            assert(data@.take(n as int) =~= data@);
            assert(self.chip() =~= rx_extend(old(self).chip(), data@));
        }
        Ok(())
    }

    fn bus_read(&mut self, buf: &mut Vec<u8>) -> (r: Result<(), BusFault>) {
        if self.fault_armed {
            self.fault_armed = false;
            proof {
                assert(self.chip() =~= sent_advance(old(self).chip(), 0));
            }
            return Err(BusFault::Other);
        }
        let ghost c0 = self.chip();
        let n = buf.len();
        let start = self.sent;
        let mut i: usize = 0;
        while i < n
            invariant
                i <= n,
                n == buf@.len(),
                start == self.sent,
                start + n <= usize::MAX,
                self.mem@.len() == DEVICE_SIZE,
                c0 == self.chip(),
                forall|k: int| 0 <= k < i ==> buf@[k] == stream_byte(c0, c0.sent + k),
            decreases n - i,
        {
            let b = self.stream_byte_at(start + i);
            buf[i] = b;
            i = i + 1;
        }
        self.sent = self.sent + n;
        proof {
            assert(buf@ =~= stream_seq(c0, n as nat));
            assert(self.chip() =~= sent_advance(c0, n as nat));
        }
        Ok(())
    }

    fn delay_micros(&mut self, us: u64) {
        if self.busy > 0 {
            self.busy = self.busy - 1;
        }
        proof {
            assert(self.chip() =~= tick(old(self).chip()));
        }
    }
}

} // verus!
