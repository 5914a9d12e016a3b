//! The three hardware timers at 0x1F80_1100 + 0x10 * n.
pub mod timer;

use timer::Timer;
use crate::bits::lemma_and_le;
use vstd::prelude::*;

verus! {

pub const IRQ_TIMER0: u32 = 4;
pub const IRQ_TIMER1: u32 = 5;
pub const IRQ_TIMER2: u32 = 6;

#[derive(Debug, Clone, Copy, PartialEq, Eq)]
pub struct Timers {
    pub timer0: Timer,
    pub timer1: Timer,
    pub timer2: Timer,
}

/// Which timer a register address selects (3: none).
pub open spec fn timer_index(paddr: u32) -> u32 {
    (paddr >> 4u32) & 3
}

/// Which register of the timer: 0 counter, 4 mode, 8 target.
pub open spec fn timer_register(paddr: u32) -> u32 {
    paddr & 0xF
}

impl Timers {
    pub open spec fn timer_at(self, idx: u32) -> Timer {
        if idx == 0 {
            self.timer0
        } else if idx == 1 {
            self.timer1
        } else {
            self.timer2
        }
    }

    pub open spec fn with_timer(self, idx: u32, t: Timer) -> Timers {
        if idx == 0 {
            Timers { timer0: t, ..self }
        } else if idx == 1 {
            Timers { timer1: t, ..self }
        } else {
            Timers { timer2: t, ..self }
        }
    }

    /// A halfword read: the counter, the mode (clearing its reached bits) or the target of
    /// the addressed timer, 0 elsewhere.
    pub open spec fn half_read(self, paddr: u32) -> (u16, Timers) {
        let idx = timer_index(paddr);
        let reg = timer_register(paddr);
        let t = self.timer_at(idx);
        if idx == 3 {
            (0, self)
        } else if reg == 0 {
            (t.val, self)
        } else if reg == 4 {
            (t.mode, self.with_timer(idx, Timer { mode: t.mode & !0x1800u16, ..t }))
        } else if reg == 8 {
            (t.target, self)
        } else {
            (0, self)
        }
    }

    /// A halfword write: the counter, the mode (see `Timer::write_mode`) or the target.
    pub open spec fn half_written(self, paddr: u32, val: u16) -> Timers {
        let idx = timer_index(paddr);
        let reg = timer_register(paddr);
        let t = self.timer_at(idx);
        if idx == 3 {
            self
        } else if reg == 0 {
            self.with_timer(idx, Timer { val, ..t })
        } else if reg == 4 {
            self.with_timer(idx, Timer { mode: val | 0x400u16, val: 0, irq_fired_once: false, ..t })
        } else if reg == 8 {
            self.with_timer(idx, Timer { target: val, ..t })
        } else {
            self
        }
    }

    /// A byte read: one byte of the halfword read at the even address.
    pub open spec fn byte_read(self, paddr: u32) -> (u8, Timers) {
        let (h, t) = self.half_read(paddr & !1u32);
        ((h >> (((paddr & 1) * 8) as u16)) as u8, t)
    }

    /// A byte write: the halfword is read (with its side effect), the byte merged in and the
    /// halfword written back.
    pub open spec fn byte_written(self, paddr: u32, val: u8) -> Timers {
        let base = paddr & !1u32;
        let shift = ((paddr & 1) * 8) as u16;
        let (cur, t1) = self.half_read(base);
        t1.half_written(base, (cur & !(0xFFu16 << shift)) | ((val as u16) << shift))
    }

    /// Whether advancing by `cycles` keeps the divided clock's accumulator in range.
    pub open spec fn can_step(self, cycles: u32) -> bool {
        self.timer2.divides_by_8(2) ==> self.timer2.accum + cycles <= u32::MAX
    }

    /// The timers after `cycles` CPU cycles, and the INTC lines they raised.
    pub open spec fn after_cycles(self, cycles: u32) -> (Timers, u32) {
        let (t0, i0) = self.timer0.after_cycles(cycles, 0);
        let (t1, i1) = self.timer1.after_cycles(cycles, 1);
        let (t2, i2) = self.timer2.after_cycles(cycles, 2);
        (
            Timers { timer0: t0, timer1: t1, timer2: t2 },
            (if i0 { 0x10u32 } else { 0u32 }) | (if i1 { 0x20u32 } else { 0u32 }) | (if i2 {
                0x40u32
            } else {
                0u32
            }),
        )
    }

    pub fn new() -> (r: Self)
        ensures
            r.timer0 == (Timer { val: 0, mode: 0x0400, target: 0, accum: 0, irq_fired_once: false }),
            r.timer1 == r.timer0,
            r.timer2 == r.timer0,
    {
        Timers { timer0: Timer::new(), timer1: Timer::new(), timer2: Timer::new() }
    }

    /// Advances all three timers by `cycles`; returns the INTC lines (bits 4..6) raised.
    pub fn step(&mut self, cycles: u32) -> (r: u32)
        requires
            old(self).can_step(cycles),
        ensures
            (*final(self), r) == old(self).after_cycles(cycles),
    {
        let i0 = self.timer0.step(cycles, 0);
        let i1 = self.timer1.step(cycles, 1);
        let i2 = self.timer2.step(cycles, 2);
        (if i0 {
            0x10u32
        } else {
            0u32
        }) | (if i1 {
            0x20u32
        } else {
            0u32
        }) | (if i2 {
            0x40u32
        } else {
            0u32
        })
    }

    pub fn read32(&mut self, paddr: u32) -> (r: u32)
        ensures
            (r, *final(self)) == ((old(self).half_read(paddr).0 as u32), old(self).half_read(
                paddr,
            ).1),
    {
        self.read16(paddr) as u32
    }

    pub fn read16(&mut self, paddr: u32) -> (r: u16)
        ensures
            (r, *final(self)) == old(self).half_read(paddr),
    {
        let timer_idx = (paddr >> 4u32) & 0x3;
        let reg_offset = paddr & 0xF;
        if timer_idx == 3 {
            return 0;
        }
        if reg_offset == 0 {
            if timer_idx == 0 {
                self.timer0.val
            } else if timer_idx == 1 {
                self.timer1.val
            } else {
                self.timer2.val
            }
        } else if reg_offset == 4 {
            if timer_idx == 0 {
                self.timer0.read_mode()
            } else if timer_idx == 1 {
                self.timer1.read_mode()
            } else {
                self.timer2.read_mode()
            }
        } else if reg_offset == 8 {
            if timer_idx == 0 {
                self.timer0.target
            } else if timer_idx == 1 {
                self.timer1.target
            } else {
                self.timer2.target
            }
        } else {
            0
        }
    }

    pub fn read8(&mut self, paddr: u32) -> (r: u8)
        ensures
            (r, *final(self)) == old(self).byte_read(paddr),
    {
        let bit = paddr & 1;
        proof {
            lemma_and_le(paddr, 1);
        }
        let shift = (bit * 8) as u16;
        (self.read16(paddr & !1u32) >> shift) as u8
    }

    pub fn write32(&mut self, paddr: u32, val: u32)
        ensures
            *final(self) == old(self).half_written(paddr, val as u16),
    {
        self.write16(paddr, val as u16);
    }

    pub fn write16(&mut self, paddr: u32, val: u16)
        ensures
            *final(self) == old(self).half_written(paddr, val),
    {
        let timer_idx = (paddr >> 4u32) & 0x3;
        let reg_offset = paddr & 0xF;
        if timer_idx == 3 {
            return;
        }
        if reg_offset == 0 {
            if timer_idx == 0 {
                self.timer0.val = val;
            } else if timer_idx == 1 {
                self.timer1.val = val;
            } else {
                self.timer2.val = val;
            }
        } else if reg_offset == 4 {
            if timer_idx == 0 {
                self.timer0.write_mode(val);
            } else if timer_idx == 1 {
                self.timer1.write_mode(val);
            } else {
                self.timer2.write_mode(val);
            }
        } else if reg_offset == 8 {
            if timer_idx == 0 {
                self.timer0.target = val;
            } else if timer_idx == 1 {
                self.timer1.target = val;
            } else {
                self.timer2.target = val;
            }
        }
    }

    pub fn write8(&mut self, paddr: u32, val: u8)
        ensures
            *final(self) == old(self).byte_written(paddr, val),
    {
        let base = paddr & !1u32;
        let bit = paddr & 1;
        proof {
            lemma_and_le(paddr, 1);
        }
        let shift = (bit * 8) as u16;
        let cur = self.read16(base);
        let mask = !(0xFFu16 << shift);
        let new_val = (cur & mask) | ((val as u16) << shift);
        self.write16(base, new_val);
    }
}

impl Default for Timers {
    fn default() -> (r: Self)
        ensures
            r.timer0 == (Timer { val: 0, mode: 0x0400, target: 0, accum: 0, irq_fired_once: false }),
            r.timer1 == r.timer0,
            r.timer2 == r.timer0,
    {
        Self::new()
    }
}

/// Reading a timer's mode clears its reached-target and reached-overflow flags but does
/// not re-arm a one-shot IRQ that has fired; writing the mode re-arms it and restarts the
/// counter.
pub proof fn lemma_mode_read_and_write(t: Timers, paddr: u32, val: u16)
    requires
        timer_index(paddr) < 3,
        timer_register(paddr) == 4,
    ensures
        t.half_read(paddr).0 == t.timer_at(timer_index(paddr)).mode,
        t.half_read(paddr).1.timer_at(timer_index(paddr)).mode & 0x1800u16 == 0,
        t.half_read(paddr).1.timer_at(timer_index(paddr)).irq_fired_once == t.timer_at(
            timer_index(paddr),
        ).irq_fired_once,
        !t.half_written(paddr, val).timer_at(timer_index(paddr)).irq_fired_once,
        t.half_written(paddr, val).timer_at(timer_index(paddr)).val == 0,
{
    let mode = t.timer_at(timer_index(paddr)).mode;
    assert((mode & !0x1800u16) & 0x1800u16 == 0) by (bit_vector);
}

} // verus!
