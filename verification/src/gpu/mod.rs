//! GPU: VRAM, the GP0 drawing and GP1 control command processors, the rasterizer and the
//! scanline counter that raises VBLANK.
pub mod gp0;
pub mod gp1;
pub mod rasterizer;
pub mod vram;

use gp0::{Gp0, Gp0State, Gp0View};
use gp1::Gp1;
use vram::VRam;
use vstd::prelude::*;

verus! {

/// CPU cycles per scanline.
pub const CYCLES_PER_SCANLINE: u32 = 3413;

/// Scanlines per frame.
pub const SCANLINES_PER_FRAME: u32 = 263;

/// First scanline of the vertical blank.
pub const VBLANK_START: u32 = 240;

pub struct Gpu {
    pub vram: VRam,
    pub gp0: Gp0,
    pub gp1: Gp1,
    pub cycles_accum: u32,
    pub scanline: u32,
}

/// The GPU state with VRAM and the GP0 buffer as sequences.
pub ghost struct GpuView {
    pub vram: Seq<u16>,
    pub gp0: Gp0View,
    pub gp1: Gp1,
    pub cycles_accum: u32,
    pub scanline: u32,
}

impl View for Gpu {
    type V = GpuView;

    open spec fn view(&self) -> GpuView {
        GpuView {
            vram: self.vram@,
            gp0: self.gp0@,
            gp1: self.gp1,
            cycles_accum: self.cycles_accum,
            scanline: self.scanline,
        }
    }
}

/// ARGB8888 of a BGR555 pixel: opaque, each channel's five bits at the top of its byte.
pub open spec fn argb_of(px: u16) -> u32 {
    0xFF00_0000u32 | ((((px & 0x001F) as u32) << 3u32) << 16u32) | (((((px >> 5u16) & 0x001F)
        as u32) << 3u32) << 8u32) | ((((px >> 10u16) & 0x001F) as u32) << 3u32)
}

impl GpuView {
    /// VRAM holds the whole frame and GP0 is consistent.
    pub open spec fn wf(self) -> bool {
        self.vram.len() == vram::VRAM_TOTAL_PIXELS && self.gp0.wf()
    }

    /// The GPU after `cycles` CPU cycles, with (GPU IRQ, VBLANK IRQ): the GPU IRQ reports a
    /// pending GP1 IRQ; when the accumulated cycles reach a scanline the scanline advances
    /// (wrapping each frame) and VBLANK is raised on entering line 240.
    pub open spec fn stepped(self, cycles: u32) -> (GpuView, bool, bool) {
        let acc = self.cycles_accum + cycles;
        if acc >= CYCLES_PER_SCANLINE {
            let sl = ((self.scanline + 1) % (SCANLINES_PER_FRAME as int)) as u32;
            (
                GpuView { cycles_accum: (acc - CYCLES_PER_SCANLINE) as u32, scanline: sl, ..self },
                self.gp1.irq_requested,
                self.scanline < VBLANK_START && sl >= VBLANK_START,
            )
        } else {
            (GpuView { cycles_accum: acc as u32, ..self }, self.gp1.irq_requested, false)
        }
    }

    /// The GPU after a GP0 word.
    pub open spec fn gp0_written(self, val: u32) -> GpuView {
        let (g, v) = self.gp0.word_written(self.vram, val);
        GpuView { gp0: g, vram: v, ..self }
    }

    /// The GPU after a GP1 command: reset (0x00) also resets GP0, 0x01 empties the GP0
    /// buffer and ends a transfer; then the GP1 command itself.
    pub open spec fn gp1_written(self, val: u32) -> GpuView {
        let op = (val >> 24u32) & 0xFF;
        let g0 = if op == 0 {
            gp0::gp0_reset_view()
        } else if op == 1 {
            Gp0View { cmd_buf: Seq::empty(), state: Gp0State::Command, ..self.gp0 }
        } else {
            self.gp0
        };
        GpuView { gp0: g0, gp1: self.gp1.commanded(val), ..self }
    }
}

impl Gpu {
    /// Black VRAM, GP0 and GP1 at reset, scanline 0.
    pub fn new() -> (r: Self)
        ensures
            r@.wf(),
            forall|i: int| 0 <= i < vram::VRAM_TOTAL_PIXELS ==> r@.vram[i] == 0,
            r@.gp0 == gp0::gp0_reset_view(),
            r@.gp1 == gp1::gp1_reset_state(),
            r.cycles_accum == 0,
            r.scanline == 0,
    {
        Gpu { vram: VRam::new(), gp0: Gp0::new(), gp1: Gp1::new(), cycles_accum: 0, scanline: 0 }
    }

    /// Resets GP0, GP1 and the scanline counter; VRAM is kept.
    pub fn reset(&mut self)
        ensures
            final(self)@ == (GpuView {
                gp0: gp0::gp0_reset_view(),
                gp1: gp1::gp1_reset_state(),
                cycles_accum: 0,
                scanline: 0,
                ..old(self)@
            }),
    {
        self.gp0.reset();
        self.gp1.reset();
        self.cycles_accum = 0;
        self.scanline = 0;
    }

    /// Advances the GPU by `cycles`; returns (GPU IRQ, VBLANK IRQ).
    pub fn step(&mut self, cycles: u32) -> (r: (bool, bool))
        requires
            old(self).cycles_accum + cycles <= u32::MAX,
        ensures
            (final(self)@, r.0, r.1) == old(self)@.stepped(cycles),
    {
        let mut vblank_irq = false;
        let gpu_irq = self.gp1.irq_requested;
        self.cycles_accum = self.cycles_accum + cycles;
        if self.cycles_accum >= 3413 {
            self.cycles_accum = self.cycles_accum - 3413;
            let prev_scanline = self.scanline;
            self.scanline = ((self.scanline as u64 + 1) % 263) as u32;
            if prev_scanline < 240 && self.scanline >= 240 {
                vblank_irq = true;
            }
        }
        (gpu_irq, vblank_irq)
    }

    /// GPUSTAT.
    pub fn read_gpu_stat(&self) -> (r: u32)
        ensures
            r == self.gp1.status(),
    {
        self.gp1.get_gpustat()
    }

    /// GPUREAD: VRAM-to-CPU transfers are not produced, so it reads 0.
    pub fn read_gpuread(&self) -> (r: u32)
        ensures
            r == 0,
    {
        0
    }

    pub fn write_gp0(&mut self, val: u32)
        requires
            old(self)@.wf(),
        ensures
            final(self)@.wf(),
            final(self)@ == old(self)@.gp0_written(val),
    {
        self.gp0.write_word(val, &mut self.vram);
    }

    pub fn write_gp1(&mut self, val: u32)
        requires
            old(self)@.wf(),
        ensures
            final(self)@.wf(),
            final(self)@ == old(self)@.gp1_written(val),
    {
        let opcode = (val >> 24u32) & 0xFF;
        if opcode == 0x00 {
            self.gp0.reset();
        } else if opcode == 0x01 {
            self.gp0.cmd_buf.clear();
            self.gp0.state = Gp0State::Command;
        }
        self.gp1.process_command(val);
    }

    /// Converts VRAM to ARGB8888, row by row, into as much of `frame_buffer` as it holds.
    pub fn render_vram_to_argb32(&self, frame_buffer: &mut [u32])
        requires
            self@.wf(),
        ensures
            final(frame_buffer)@.len() == old(frame_buffer)@.len(),
            forall|i: int|
                0 <= i < old(frame_buffer)@.len() ==> #[trigger] final(frame_buffer)@[i] == if i
                    < vram::VRAM_TOTAL_PIXELS {
                    argb_of(self@.vram[i])
                } else {
                    old(frame_buffer)@[i]
                },
    {
        let len = if frame_buffer.len() < vram::VRAM_TOTAL_PIXELS {
            frame_buffer.len()
        } else {
            vram::VRAM_TOTAL_PIXELS
        };
        let mut i: usize = 0;
        while i < len
            invariant
                len <= vram::VRAM_TOTAL_PIXELS,
                len <= frame_buffer@.len(),
                len == old(frame_buffer)@.len() || len == vram::VRAM_TOTAL_PIXELS,
                0 <= i <= len,
                self@.wf(),
                frame_buffer@.len() == old(frame_buffer)@.len(),
                forall|j: int|
                    0 <= j < frame_buffer@.len() ==> #[trigger] frame_buffer@[j] == if j < i {
                        argb_of(self@.vram[j])
                    } else {
                        old(frame_buffer)@[j]
                    },
            decreases len - i,
        {
            let px = self.vram.buffer[i];
            let r = ((px & 0x001F) as u32) << 3u32;
            let g = (((px >> 5u16) & 0x001F) as u32) << 3u32;
            let b = (((px >> 10u16) & 0x001F) as u32) << 3u32;
            frame_buffer[i] = 0xFF00_0000u32 | (r << 16u32) | (g << 8u32) | b;
            i = i + 1;
        }
    }
}

impl Default for Gpu {
    fn default() -> (r: Self)
        ensures
            r@.wf(),
            forall|i: int| 0 <= i < vram::VRAM_TOTAL_PIXELS ==> r@.vram[i] == 0,
            r@.gp0 == gp0::gp0_reset_view(),
            r@.gp1 == gp1::gp1_reset_state(),
            r.cycles_accum == 0,
            r.scanline == 0,
    {
        Self::new()
    }
}

/// VBLANK is raised once per frame: a GPU step reports it exactly when the accumulated
/// cycles complete a scanline and that scanline was 239, so the counter enters line 240;
/// a completed scanline moves the counter on by one, wrapping after 263 lines.
pub proof fn lemma_vblank_on_line_240(g: GpuView, cycles: u32)
    ensures
        g.stepped(cycles).2 <==> (g.scanline == 239 && g.cycles_accum + cycles >= 3413),
        g.cycles_accum + cycles >= 3413 ==> g.stepped(cycles).0.scanline == (g.scanline + 1) % 263,
        g.cycles_accum + cycles < 3413 ==> g.stepped(cycles).0.scanline == g.scanline,
{
}

} // verus!
