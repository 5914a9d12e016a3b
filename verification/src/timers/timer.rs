//! One 16-bit hardware timer: counter, mode and target.
use vstd::prelude::*;

verus! {

pub const MODE_RESET_ON_TARGET: u16 = 0x8;
pub const MODE_IRQ_ON_TARGET: u16 = 0x10;
pub const MODE_IRQ_ON_OVERFLOW: u16 = 0x20;
pub const MODE_IRQ_REPEAT: u16 = 0x40;
pub const MODE_IRQ_TOGGLE: u16 = 0x80;
pub const MODE_IRQ_LINE: u16 = 0x400;
pub const MODE_REACHED_TARGET: u16 = 0x800;
pub const MODE_REACHED_OVERFLOW: u16 = 0x1000;

#[derive(Debug, Clone, Copy, PartialEq, Eq)]
pub struct Timer {
    pub val: u16,
    pub mode: u16,
    pub target: u16,
    pub accum: u32,
    pub irq_fired_once: bool,
}

/// The mode after an IRQ fires: bit 10 toggles in toggle mode, else goes low (active).
pub open spec fn fire_line(mode: u16) -> u16 {
    if mode & MODE_IRQ_TOGGLE != 0 {
        mode ^ MODE_IRQ_LINE
    } else {
        mode & !MODE_IRQ_LINE
    }
}

/// Setting the status bits (10..12) leaves the configuration bits alone.
proof fn lemma_mode_flags(x: u16)
    by (bit_vector)
    ensures
        (x | 0x800u16) & 0x40u16 == x & 0x40u16,
        (x | 0x800u16) & 0x80u16 == x & 0x80u16,
        (x | 0x1000u16) & 0x40u16 == x & 0x40u16,
        (x | 0x1000u16) & 0x80u16 == x & 0x80u16,
        (x ^ 0x400u16) & 0x40u16 == x & 0x40u16,
        (x ^ 0x400u16) & 0x80u16 == x & 0x80u16,
        (x & !0x400u16) & 0x40u16 == x & 0x40u16,
        (x & !0x400u16) & 0x80u16 == x & 0x80u16,
{
}

impl Timer {
    /// Whether an IRQ condition may fire now: always in repeat mode, once in one-shot mode.
    pub open spec fn may_fire(self) -> bool {
        self.mode & MODE_IRQ_REPEAT != 0 || !self.irq_fired_once
    }

    /// One counter tick and the IRQ it raises. The counter counts up (wrapping at 2^16); on
    /// reaching the target bit 11 is set, the counter resets when so configured and the
    /// target IRQ may fire; on wrapping from 0xFFFF to 0 bit 12 is set and the overflow IRQ
    /// may fire.
    pub open spec fn tick(self) -> (Timer, bool) {
        let prev = self.val;
        let v = if prev == 0xFFFF {
            0u16
        } else {
            (prev + 1) as u16
        };
        let at_target = v == self.target;
        let t1 = if at_target {
            let m = self.mode | MODE_REACHED_TARGET;
            let v1 = if self.mode & MODE_RESET_ON_TARGET != 0 {
                0u16
            } else {
                v
            };
            if self.mode & MODE_IRQ_ON_TARGET != 0 && self.may_fire() {
                Timer { val: v1, mode: fire_line(m), irq_fired_once: true, ..self }
            } else {
                Timer { val: v1, mode: m, ..self }
            }
        } else {
            Timer { val: v, ..self }
        };
        let irq1 = at_target && self.mode & MODE_IRQ_ON_TARGET != 0 && self.may_fire();
        if prev == 0xFFFF && t1.val == 0 {
            let m = t1.mode | MODE_REACHED_OVERFLOW;
            if self.mode & MODE_IRQ_ON_OVERFLOW != 0 && t1.may_fire() {
                (Timer { mode: fire_line(m), irq_fired_once: true, ..t1 }, true)
            } else {
                (Timer { mode: m, ..t1 }, irq1)
            }
        } else {
            (t1, irq1)
        }
    }

    /// `n` ticks, and whether any of them raised an IRQ.
    pub open spec fn ticks(self, n: nat) -> (Timer, bool)
        decreases n,
    {
        if n == 0 {
            (self, false)
        } else {
            let (t1, i1) = self.tick();
            let (t2, i2) = t1.ticks((n - 1) as nat);
            (t2, i1 || i2)
        }
    }

    /// Whether timer `idx` counts system clock / 8 (timer 2 with clock source 2 or 3).
    pub open spec fn divides_by_8(self, idx: usize) -> bool {
        idx == 2 && ((self.mode >> 8u16) & 3 == 2 || (self.mode >> 8u16) & 3 == 3)
    }

    /// The timer after `cycles` CPU cycles, and whether it raised an IRQ: one tick per cycle,
    /// or one per eight cycles through the accumulator for a divided clock.
    pub open spec fn after_cycles(self, cycles: u32, idx: usize) -> (Timer, bool) {
        if self.divides_by_8(idx) {
            let total = self.accum + cycles;
            Timer { accum: (total % 8) as u32, ..self }.ticks((total / 8) as nat)
        } else {
            self.ticks(cycles as nat)
        }
    }

    /// Counter and target clear, IRQ line inactive (bit 10 set), armed.
    pub fn new() -> (r: Self)
        ensures
            r == (Timer { val: 0, mode: 0x0400, target: 0, accum: 0, irq_fired_once: false }),
    {
        Timer { val: 0, mode: 0x0400, target: 0, accum: 0, irq_fired_once: false }
    }

    /// Writes the mode register: the IRQ line goes inactive, the counter restarts and a
    /// one-shot IRQ is armed again.
    pub fn write_mode(&mut self, new_mode: u16)
        ensures
            *final(self) == (Timer {
                mode: new_mode | MODE_IRQ_LINE,
                val: 0,
                irq_fired_once: false,
                ..*old(self)
            }),
    {
        self.mode = new_mode | 0x400u16;
        self.val = 0;
        self.irq_fired_once = false;
    }

    /// Reads the mode register; reading clears the reached-target and reached-overflow bits.
    pub fn read_mode(&mut self) -> (r: u16)
        ensures
            r == old(self).mode,
            *final(self) == (Timer {
                mode: old(self).mode & !0x1800u16,
                ..*old(self)
            }),
    {
        let m = self.mode;
        self.mode = self.mode & !0x1800u16;
        m
    }

    /// One tick.
    fn tick_once(&mut self) -> (r: bool)
        ensures
            (*final(self), r) == old(self).tick(),
    {
        let reset_on_target = (self.mode & 0x8u16) != 0;
        let irq_on_target = (self.mode & 0x10u16) != 0;
        let irq_on_overflow = (self.mode & 0x20u16) != 0;
        let irq_repeat = (self.mode & 0x40u16) != 0;
        let irq_toggle = (self.mode & 0x80u16) != 0;
        let mut irq_triggered = false;
        let prev = self.val;
        self.val = self.val.wrapping_add(1);
        if self.val == self.target {
            self.mode = self.mode | 0x800u16;
            if reset_on_target {
                self.val = 0;
            }
            if irq_on_target && (irq_repeat || !self.irq_fired_once) {
                irq_triggered = true;
                self.irq_fired_once = true;
                if irq_toggle {
                    self.mode = self.mode ^ 0x400u16;
                } else {
                    self.mode = self.mode & !0x400u16;
                }
            }
        }
        if prev == 0xFFFF && self.val == 0 {
            self.mode = self.mode | 0x1000u16;
            if irq_on_overflow && (irq_repeat || !self.irq_fired_once) {
                irq_triggered = true;
                self.irq_fired_once = true;
                if irq_toggle {
                    self.mode = self.mode ^ 0x400u16;
                } else {
                    self.mode = self.mode & !0x400u16;
                }
            }
        }
        proof {
            let m0 = old(self).mode;
            let m1 = m0 | 0x800u16;
            lemma_mode_flags(m0);
            lemma_mode_flags(m1);
            lemma_mode_flags(m1 ^ 0x400u16);
            lemma_mode_flags(m1 & !0x400u16);
        }
        irq_triggered
    }

    /// Advances the timer by `cycles` CPU cycles; returns whether it raised an IRQ.
    pub fn step(&mut self, cycles: u32, timer_idx: usize) -> (r: bool)
        requires
            old(self).divides_by_8(timer_idx) ==> old(self).accum + cycles <= u32::MAX,
        ensures
            (*final(self), r) == old(self).after_cycles(cycles, timer_idx),
    {
        let clock_src = (self.mode >> 8u16) & 0x3;
        let ticks = if timer_idx == 2 && (clock_src == 2 || clock_src == 3) {
            self.accum = self.accum + cycles;
            let t = self.accum / 8;
            self.accum = self.accum % 8;
            t
        } else {
            cycles
        };
        if ticks == 0 {
            return false;
        }
        let ghost start = *self;
        let mut irq_triggered = false;
        let mut k: u32 = 0;
        while k < ticks
            invariant
                0 <= k <= ticks,
                ({
                    let (t2, i2) = self.ticks((ticks - k) as nat);
                    start.ticks(ticks as nat) == (t2, irq_triggered || i2)
                }),
            decreases ticks - k,
        {
            let fired = self.tick_once();
            if fired {
                irq_triggered = true;
            }
            k = k + 1;
        }
        irq_triggered
    }
}

impl Default for Timer {
    fn default() -> (r: Self)
        ensures
            r == (Timer { val: 0, mode: 0x0400, target: 0, accum: 0, irq_fired_once: false }),
    {
        Self::new()
    }
}

} // verus!
