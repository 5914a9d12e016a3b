//! The bus that connects the CPU to memory and I/O.
pub mod map;
pub mod memory_bus;
pub mod mock_bus;

use vstd::prelude::*;

verus! {

/// Byte, halfword and word access to the physical address space, plus the clock and the
/// TTY sink. Each implementation states, over the view of its state, what each access
/// returns and what state it leaves, and which accesses stay inside the backing memories.
pub trait Bus: View + Sized {
    /// Well-formedness that every operation keeps.
    spec fn inv(m: Self::V) -> bool;

    /// Whether a halfword read at `addr` stays inside the memory it lands in.
    spec fn can_read16(m: Self::V, addr: u32) -> bool;

    /// Whether a word read at `addr` stays inside the memory it lands in.
    spec fn can_read32(m: Self::V, addr: u32) -> bool;

    /// Whether a halfword write at `addr` stays inside the memory it lands in.
    spec fn can_write16(m: Self::V, addr: u32) -> bool;

    /// Whether a word write at `addr` stays inside the memory it lands in.
    spec fn can_write32(m: Self::V, addr: u32) -> bool;

    /// Whether advancing the clock by `cycles` is defined on this state.
    spec fn can_step(m: Self::V, cycles: u32) -> bool;

    /// The byte that a read at `addr` returns, and the state it leaves.
    spec fn read8_result(m: Self::V, addr: u32) -> (u8, Self::V);

    /// The halfword that a read at `addr` returns, and the state it leaves.
    spec fn read16_result(m: Self::V, addr: u32) -> (u16, Self::V);

    /// The word that a read at `addr` returns, and the state it leaves.
    spec fn read32_result(m: Self::V, addr: u32) -> (u32, Self::V);

    /// The state after writing byte `val` at `addr`.
    spec fn written8(m: Self::V, addr: u32, val: u8) -> Self::V;

    /// The state after writing halfword `val` at `addr`.
    spec fn written16(m: Self::V, addr: u32, val: u16) -> Self::V;

    /// The state after writing word `val` at `addr`.
    spec fn written32(m: Self::V, addr: u32, val: u32) -> Self::V;

    /// The state after `cycles` clock cycles.
    spec fn stepped(m: Self::V, cycles: u32) -> Self::V;

    /// The state after one character is sent to the TTY.
    spec fn tty_logged(m: Self::V, ch: u8) -> Self::V;

    fn read8(&mut self, addr: u32) -> (r: u8)
        requires
            Self::inv(old(self)@),
        ensures
            Self::inv(final(self)@),
            (r, final(self)@) == Self::read8_result(old(self)@, addr),
    ;

    fn read16(&mut self, addr: u32) -> (r: u16)
        requires
            Self::inv(old(self)@),
            Self::can_read16(old(self)@, addr),
        ensures
            Self::inv(final(self)@),
            (r, final(self)@) == Self::read16_result(old(self)@, addr),
    ;

    fn read32(&mut self, addr: u32) -> (r: u32)
        requires
            Self::inv(old(self)@),
            Self::can_read32(old(self)@, addr),
        ensures
            Self::inv(final(self)@),
            (r, final(self)@) == Self::read32_result(old(self)@, addr),
    ;

    fn write8(&mut self, addr: u32, val: u8)
        requires
            Self::inv(old(self)@),
        ensures
            Self::inv(final(self)@),
            final(self)@ == Self::written8(old(self)@, addr, val),
    ;

    fn write16(&mut self, addr: u32, val: u16)
        requires
            Self::inv(old(self)@),
            Self::can_write16(old(self)@, addr),
        ensures
            Self::inv(final(self)@),
            final(self)@ == Self::written16(old(self)@, addr, val),
    ;

    fn write32(&mut self, addr: u32, val: u32)
        requires
            Self::inv(old(self)@),
            Self::can_write32(old(self)@, addr),
        ensures
            Self::inv(final(self)@),
            final(self)@ == Self::written32(old(self)@, addr, val),
    ;

    /// Advances the subsystems by `cycles` CPU clock cycles.
    fn step(&mut self, cycles: u32)
        requires
            Self::inv(old(self)@),
            Self::can_step(old(self)@, cycles),
        ensures
            Self::inv(final(self)@),
            final(self)@ == Self::stepped(old(self)@, cycles),
    ;

    /// Sends one character to the TTY log.
    fn log_tty_char(&mut self, ch: u8)
        requires
            Self::inv(old(self)@),
        ensures
            Self::inv(final(self)@),
            final(self)@ == Self::tty_logged(old(self)@, ch),
    ;
}

} // verus!
