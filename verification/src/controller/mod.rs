//! Digital pad: the sixteen buttons as an active-low bitfield at 0x1F80_1040.
use vstd::prelude::*;

verus! {

#[derive(Debug, Clone, Copy, PartialEq, Eq)]
pub enum PadButton {
    Select,
    L3,
    R3,
    Start,
    Up,
    Right,
    Down,
    Left,
    L2,
    R2,
    L1,
    R1,
    Triangle,
    Circle,
    Cross,
    Square,
}

/// The bit position of a button in the pad word.
pub open spec fn button_bit(b: PadButton) -> u16 {
    match b {
        PadButton::Select => 0,
        PadButton::L3 => 1,
        PadButton::R3 => 2,
        PadButton::Start => 3,
        PadButton::Up => 4,
        PadButton::Right => 5,
        PadButton::Down => 6,
        PadButton::Left => 7,
        PadButton::L2 => 8,
        PadButton::R2 => 9,
        PadButton::L1 => 10,
        PadButton::R1 => 11,
        PadButton::Triangle => 12,
        PadButton::Circle => 13,
        PadButton::Cross => 14,
        PadButton::Square => 15,
    }
}

impl PadButton {
    /// The button's single bit in the pad word.
    pub fn bit_mask(self) -> (r: u16)
        ensures
            r == 1u16 << button_bit(self),
    {
        match self {
            PadButton::Select => 1u16 << 0u16,
            PadButton::L3 => 1u16 << 1u16,
            PadButton::R3 => 1u16 << 2u16,
            PadButton::Start => 1u16 << 3u16,
            PadButton::Up => 1u16 << 4u16,
            PadButton::Right => 1u16 << 5u16,
            PadButton::Down => 1u16 << 6u16,
            PadButton::Left => 1u16 << 7u16,
            PadButton::L2 => 1u16 << 8u16,
            PadButton::R2 => 1u16 << 9u16,
            PadButton::L1 => 1u16 << 10u16,
            PadButton::R1 => 1u16 << 11u16,
            PadButton::Triangle => 1u16 << 12u16,
            PadButton::Circle => 1u16 << 13u16,
            PadButton::Cross => 1u16 << 14u16,
            PadButton::Square => 1u16 << 15u16,
        }
    }
}

/// SDL key codes of the keys the pad is mapped to.
pub const KEY_BACKSPACE: i32 = 8;
pub const KEY_RETURN: i32 = 13;
pub const KEY_SPACE: i32 = 32;
pub const KEY_RIGHT: i32 = 0x4000_004F;
pub const KEY_LEFT: i32 = 0x4000_0050;
pub const KEY_DOWN: i32 = 0x4000_0051;
pub const KEY_UP: i32 = 0x4000_0052;
pub const KEY_RSHIFT: i32 = 0x4000_00E5;

/// The pad button a keyboard key (by its SDL key code) stands for.
pub open spec fn key_button(key: i32) -> Option<PadButton> {
    if key == KEY_RSHIFT || key == KEY_BACKSPACE {
        Some(PadButton::Select)
    } else if key == KEY_RETURN || key == KEY_SPACE {
        Some(PadButton::Start)
    } else if key == KEY_UP {
        Some(PadButton::Up)
    } else if key == KEY_RIGHT {
        Some(PadButton::Right)
    } else if key == KEY_DOWN {
        Some(PadButton::Down)
    } else if key == KEY_LEFT {
        Some(PadButton::Left)
    } else if key == 0x65 || key == 0x33 {
        Some(PadButton::L2)
    } else if key == 0x72 || key == 0x34 {
        Some(PadButton::R2)
    } else if key == 0x71 || key == 0x31 {
        Some(PadButton::L1)
    } else if key == 0x77 || key == 0x32 {
        Some(PadButton::R1)
    } else if key == 0x73 || key == 0x69 {
        Some(PadButton::Triangle)
    } else if key == 0x78 || key == 0x6B {
        Some(PadButton::Circle)
    } else if key == 0x7A || key == 0x6A {
        Some(PadButton::Cross)
    } else if key == 0x61 || key == 0x75 {
        Some(PadButton::Square)
    } else {
        None
    }
}

/// Maps a keyboard key, given by its SDL key code, to a pad button: arrows to the D-pad,
/// Return/Space to Start, RShift/Backspace to Select, Q/W/E/R (or 1..4) to the shoulder
/// buttons and S/X/Z/A (or I/K/J/U) to the face buttons.
pub fn map_key_to_button(key: i32) -> (r: Option<PadButton>)
    ensures
        r == key_button(key),
{
    if key == KEY_RSHIFT || key == KEY_BACKSPACE {
        Some(PadButton::Select)
    } else if key == KEY_RETURN || key == KEY_SPACE {
        Some(PadButton::Start)
    } else if key == KEY_UP {
        Some(PadButton::Up)
    } else if key == KEY_RIGHT {
        Some(PadButton::Right)
    } else if key == KEY_DOWN {
        Some(PadButton::Down)
    } else if key == KEY_LEFT {
        Some(PadButton::Left)
    } else if key == 0x65 || key == 0x33 {
        Some(PadButton::L2)
    } else if key == 0x72 || key == 0x34 {
        Some(PadButton::R2)
    } else if key == 0x71 || key == 0x31 {
        Some(PadButton::L1)
    } else if key == 0x77 || key == 0x32 {
        Some(PadButton::R1)
    } else if key == 0x73 || key == 0x69 {
        Some(PadButton::Triangle)
    } else if key == 0x78 || key == 0x6B {
        Some(PadButton::Circle)
    } else if key == 0x7A || key == 0x6A {
        Some(PadButton::Cross)
    } else if key == 0x61 || key == 0x75 {
        Some(PadButton::Square)
    } else {
        None
    }
}

#[derive(Debug, Clone, Copy, PartialEq, Eq)]
pub struct Controller {
    pub button_state: u16,
}

impl Controller {
    /// The halfword at a pad register: the button word at 0x1040, JOY_STAT (5) at 0x1044.
    pub open spec fn half_value(self, paddr: u32) -> u16 {
        if paddr == 0x1F80_1040 {
            self.button_state
        } else if paddr == 0x1F80_1044 {
            5
        } else {
            0
        }
    }

    /// The byte at a pad register.
    pub open spec fn byte_value(self, paddr: u32) -> u8 {
        if paddr == 0x1F80_1040 {
            (self.button_state & 0xFF) as u8
        } else if paddr == 0x1F80_1041 {
            ((self.button_state >> 8u16) & 0xFF) as u8
        } else if paddr == 0x1F80_1044 {
            5
        } else {
            0
        }
    }

    /// All buttons released (active low: all bits 1).
    pub fn new() -> (r: Self)
        ensures
            r.button_state == 0xFFFF,
    {
        Controller { button_state: 0xFFFF }
    }

    /// Presses (bit cleared) or releases (bit set) one button; the others are unchanged.
    pub fn set_button(&mut self, button: PadButton, pressed: bool)
        ensures
            final(self).button_state == if pressed {
                old(self).button_state & !(1u16 << button_bit(button))
            } else {
                old(self).button_state | (1u16 << button_bit(button))
            },
    {
        let mask = button.bit_mask();
        if pressed {
            self.button_state = self.button_state & !mask;
        } else {
            self.button_state = self.button_state | mask;
        }
    }

    pub fn read8(&self, paddr: u32) -> (r: u8)
        ensures
            r == self.byte_value(paddr),
    {
        match paddr {
            0x1F80_1040 => (self.button_state & 0xFF) as u8,
            0x1F80_1041 => ((self.button_state >> 8u16) & 0xFF) as u8,
            0x1F80_1044 => 0x05,
            _ => 0,
        }
    }

    pub fn read16(&self, paddr: u32) -> (r: u16)
        ensures
            r == self.half_value(paddr),
    {
        match paddr {
            0x1F80_1040 => self.button_state,
            0x1F80_1044 => 0x0005,
            _ => 0,
        }
    }

    pub fn read32(&self, paddr: u32) -> (r: u32)
        ensures
            r == self.half_value(paddr) as u32,
    {
        self.read16(paddr) as u32
    }

    /// The pad registers ignore writes.
    pub fn write8(&mut self, paddr: u32, val: u8)
        ensures
            *final(self) == *old(self),
    {
    }

    /// The pad registers ignore writes.
    pub fn write16(&mut self, paddr: u32, val: u16)
        ensures
            *final(self) == *old(self),
    {
    }

    /// The pad registers ignore writes.
    pub fn write32(&mut self, paddr: u32, val: u32)
        ensures
            *final(self) == *old(self),
    {
    }
}

/// Pressing a button clears exactly its bit, releasing it sets it again, and the other
/// buttons keep their state either way.
pub proof fn lemma_press_release(state: u16, b: PadButton, other: PadButton)
    requires
        other != b,
    ensures
        (state & !(1u16 << button_bit(b))) & (1u16 << button_bit(b)) == 0,
        (state | (1u16 << button_bit(b))) & (1u16 << button_bit(b)) != 0,
        (state & !(1u16 << button_bit(b))) & (1u16 << button_bit(other)) == state & (1u16
            << button_bit(other)),
        (state | (1u16 << button_bit(b))) & (1u16 << button_bit(other)) == state & (1u16
            << button_bit(other)),
{
    let x = button_bit(b);
    let y = button_bit(other);
    assert(x != y);
    assert((state & !(1u16 << x)) & (1u16 << x) == 0) by (bit_vector)
        requires
            x < 16,
    ;
    assert((state | (1u16 << x)) & (1u16 << x) != 0) by (bit_vector)
        requires
            x < 16,
    ;
    assert((state & !(1u16 << x)) & (1u16 << y) == state & (1u16 << y)) by (bit_vector)
        requires
            x < 16,
            y < 16,
            x != y,
    ;
    assert((state | (1u16 << x)) & (1u16 << y) == state & (1u16 << y)) by (bit_vector)
        requires
            x < 16,
            y < 16,
            x != y,
    ;
}

impl Default for Controller {
    fn default() -> (r: Self)
        ensures
            r.button_state == 0xFFFF,
    {
        Self::new()
    }
}

} // verus!
