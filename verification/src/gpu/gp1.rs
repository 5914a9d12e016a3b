//! GP1 display control commands and the GPUSTAT register.
use vstd::prelude::*;

verus! {

#[derive(Debug, Clone, Copy, PartialEq, Eq)]
pub struct Gp1 {
    pub display_enable: bool,
    pub dma_direction: u32,
    pub irq_requested: bool,
    pub display_vram_x: u32,
    pub display_vram_y: u32,
    pub display_horiz_x1: u32,
    pub display_horiz_x2: u32,
    pub display_vert_y1: u32,
    pub display_vert_y2: u32,
    pub display_mode: u32,
}

/// The reset state: display flag set (display off), no IRQ, everything else zero.
pub open spec fn gp1_reset_state() -> Gp1 {
    Gp1 {
        display_enable: true,
        dma_direction: 0,
        irq_requested: false,
        display_vram_x: 0,
        display_vram_y: 0,
        display_horiz_x1: 0,
        display_horiz_x2: 0,
        display_vert_y1: 0,
        display_vert_y2: 0,
        display_mode: 0,
    }
}

impl Gp1 {
    /// GPUSTAT: ready bits 26..28, display flag in bit 23, IRQ in bit 24, DMA direction in
    /// bits 30..29, and the display mode in bits 22..0.
    pub open spec fn status(self) -> u32 {
        0x1C00_0000u32 | (if self.display_enable { 0x0080_0000u32 } else { 0u32 }) | (if self.irq_requested {
            0x0100_0000u32
        } else {
            0u32
        }) | ((self.dma_direction & 3) << 29u32) | (self.display_mode & 0x007F_FFFFu32)
    }

    /// The state after GP1 command `cmd` (opcode in bits 31..24).
    pub open spec fn commanded(self, cmd: u32) -> Gp1 {
        let op = (cmd >> 24u32) & 0xFF;
        if op == 0x00 {
            gp1_reset_state()
        } else if op == 0x02 {
            Gp1 { irq_requested: false, ..self }
        } else if op == 0x03 {
            Gp1 { display_enable: cmd & 1 != 0, ..self }
        } else if op == 0x04 {
            Gp1 { dma_direction: cmd & 3, ..self }
        } else if op == 0x05 {
            Gp1 { display_vram_x: cmd & 0x3FE, display_vram_y: (cmd >> 10u32) & 0x1FF, ..self }
        } else if op == 0x06 {
            Gp1 { display_horiz_x1: cmd & 0xFFF, display_horiz_x2: (cmd >> 12u32) & 0xFFF, ..self }
        } else if op == 0x07 {
            Gp1 { display_vert_y1: cmd & 0x3FF, display_vert_y2: (cmd >> 10u32) & 0x3FF, ..self }
        } else if op == 0x08 {
            Gp1 { display_mode: cmd & 0x003F_FFFF, ..self }
        } else {
            self
        }
    }

    pub fn new() -> (r: Self)
        ensures
            r == gp1_reset_state(),
    {
        Gp1 {
            display_enable: true,
            dma_direction: 0,
            irq_requested: false,
            display_vram_x: 0,
            display_vram_y: 0,
            display_horiz_x1: 0,
            display_horiz_x2: 0,
            display_vert_y1: 0,
            display_vert_y2: 0,
            display_mode: 0,
        }
    }

    pub fn reset(&mut self)
        ensures
            *final(self) == gp1_reset_state(),
    {
        *self = Self::new();
    }

    pub fn get_gpustat(&self) -> (r: u32)
        ensures
            r == self.status(),
    {
        let mut stat = 0x1C00_0000u32;
        stat = stat | (if self.display_enable {
            0x0080_0000u32
        } else {
            0u32
        });
        stat = stat | (if self.irq_requested {
            0x0100_0000u32
        } else {
            0u32
        });
        stat = stat | ((self.dma_direction & 3) << 29u32);
        stat = stat | (self.display_mode & 0x007F_FFFFu32);
        stat
    }

    pub fn process_command(&mut self, cmd_word: u32)
        ensures
            *final(self) == old(self).commanded(cmd_word),
    {
        let opcode = (cmd_word >> 24u32) & 0xFF;
        match opcode {
            0x00 => self.reset(),
            0x02 => {
                self.irq_requested = false;
            },
            0x03 => {
                self.display_enable = (cmd_word & 1) != 0;
            },
            0x04 => {
                self.dma_direction = cmd_word & 3;
            },
            0x05 => {
                self.display_vram_x = cmd_word & 0x3FE;
                self.display_vram_y = (cmd_word >> 10u32) & 0x1FF;
            },
            0x06 => {
                self.display_horiz_x1 = cmd_word & 0xFFF;
                self.display_horiz_x2 = (cmd_word >> 12u32) & 0xFFF;
            },
            0x07 => {
                self.display_vert_y1 = cmd_word & 0x3FF;
                self.display_vert_y2 = (cmd_word >> 10u32) & 0x3FF;
            },
            0x08 => {
                self.display_mode = cmd_word & 0x003F_FFFF;
            },
            _ => {},
        }
    }
}

/// GPUSTAT always reports the GPU ready for commands, VRAM reads and DMA (bits 26..28).
pub proof fn lemma_status_ready(g: Gp1)
    ensures
        g.status() & 0x1C00_0000u32 == 0x1C00_0000u32,
{
    let a: u32 = if g.display_enable { 0x0080_0000u32 } else { 0u32 };
    let b: u32 = if g.irq_requested { 0x0100_0000u32 } else { 0u32 };
    let d = g.dma_direction;
    let m = g.display_mode;
    assert((0x1C00_0000u32 | a | b | ((d & 3) << 29u32) | (m & 0x007F_FFFFu32)) & 0x1C00_0000u32
        == 0x1C00_0000u32) by (bit_vector);
}

impl Default for Gp1 {
    fn default() -> (r: Self)
        ensures
            r == gp1_reset_state(),
    {
        Self::new()
    }
}

} // verus!
