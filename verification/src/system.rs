//! The whole machine: CPU, system bus and the cycle count, with BIOS and executable loading.
use crate::bios::{blank_rom_byte, oversize_text, Bios, BIOS_BYTES};
use crate::bus::memory_bus::{MemoryBus, MemoryBusView};
use crate::bus::Bus;
use crate::bytes::{le32, put32};
use crate::cpu::semantics::wrap_add;
use crate::cpu::{Cop0, Cpu};
use crate::ram::RAM_BYTES;
use crate::scratchpad::SCRATCHPAD_BYTES;
use vstd::array::spec_array_update;
use crate::bits::lemma_and_le;
use vstd::prelude::*;

verus! {

pub struct PS1System {
    pub cpu: Cpu,
    pub bus: MemoryBus,
    pub total_cycles: u64,
}

/// Physical RAM address where a raw binary is placed (virtual 0x8001_0000).
pub const RAW_LOAD_OFFSET: usize = 0x0001_0000;

/// The eight bytes "PS-X EXE" that open an executable's header.
pub open spec fn exe_magic() -> Seq<u8> {
    seq![0x50u8, 0x53u8, 0x2Du8, 0x58u8, 0x20u8, 0x45u8, 0x58u8, 0x45u8]
}

/// Whether `bytes` is a PS-X executable: a 2KB header that starts with the magic.
pub open spec fn is_exe(bytes: Seq<u8>) -> bool {
    bytes.len() >= 0x800 && bytes.subrange(0, 8) == exe_magic()
}

/// The text segment of an executable: what follows the header, cut to the header's size
/// field (offset 0x1C).
pub open spec fn exe_text(bytes: Seq<u8>) -> Seq<u8> {
    let text = bytes.subrange(0x800, bytes.len() as int);
    let size = le32(bytes, 0x1C);
    if size < text.len() {
        text.subrange(0, size as int)
    } else {
        text
    }
}

/// `mem` with `data` stored from offset `at` on.
pub open spec fn stored(mem: Seq<u8>, at: int, data: Seq<u8>) -> Seq<u8> {
    mem.subrange(0, at) + data + mem.subrange(at + data.len(), mem.len() as int)
}

/// The CPU at an executable's entry: PC at `pc`, exception vectors in RAM (COP0 status
/// bit 22 clear), `$gp` and `$sp` set from the header when they are not 0.
pub open spec fn exe_entry(c: Cpu, pc: u32, gp: u32, sp: u32) -> Cpu {
    let g1 = if gp != 0 {
        spec_array_update(c.gpr, 28, gp)
    } else {
        c.gpr
    };
    let g2 = if sp != 0 {
        spec_array_update(g1, 29, sp)
    } else {
        g1
    };
    Cpu {
        pc,
        next_pc: wrap_add(pc, 4),
        cop0: Cop0 { status: c.cop0.status & !0x0040_0000u32, ..c.cop0 },
        gpr: g2,
        ..c
    }
}

/// Whether one system step is defined: the CPU step is, and so is one bus cycle after it,
/// and the cycle count does not overflow.
pub open spec fn step_ok(c: Cpu, m: MemoryBusView, total: u64) -> bool {
    &&& c.wf()
    &&& m.wf()
    &&& c.step_ok::<MemoryBus>(m)
    &&& MemoryBus::can_step(c.step_result::<MemoryBus>(m).1, 1)
    &&& total < u64::MAX
}

/// One system step: one CPU instruction, then one bus cycle; the count goes up by one.
pub open spec fn stepped(c: Cpu, m: MemoryBusView, total: u64) -> (Cpu, MemoryBusView, u64) {
    let (c2, m2) = c.step_result::<MemoryBus>(m);
    (c2, MemoryBus::stepped(m2, 1), (total + 1) as u64)
}

/// Whether `n` system steps in a row are defined.
pub open spec fn batch_ok(c: Cpu, m: MemoryBusView, total: u64, n: nat) -> bool
    decreases n,
{
    n == 0 || (step_ok(c, m, total) && {
        let (c2, m2, t2) = stepped(c, m, total);
        batch_ok(c2, m2, t2, (n - 1) as nat)
    })
}

/// The state after `n` system steps.
pub open spec fn batch_result(c: Cpu, m: MemoryBusView, total: u64, n: nat) -> (Cpu, MemoryBusView, u64)
    decreases n,
{
    if n == 0 {
        (c, m, total)
    } else {
        let (c2, m2, t2) = stepped(c, m, total);
        batch_result(c2, m2, t2, (n - 1) as nat)
    }
}

/// Running `a` steps and then `b` steps is running `a + b` steps, and is defined exactly
/// when both parts are.
pub proof fn lemma_batch_compose(c: Cpu, m: MemoryBusView, total: u64, a: nat, b: nat)
    ensures
        batch_ok(c, m, total, a + b) == (batch_ok(c, m, total, a) && {
            let (c2, m2, t2) = batch_result(c, m, total, a);
            batch_ok(c2, m2, t2, b)
        }),
        batch_ok(c, m, total, a) ==> batch_result(c, m, total, a + b) == {
            let (c2, m2, t2) = batch_result(c, m, total, a);
            batch_result(c2, m2, t2, b)
        },
    decreases a,
{
    if a > 0 {
        let (c1, m1, t1) = stepped(c, m, total);
        lemma_batch_compose(c1, m1, t1, (a - 1) as nat, b);
        assert((a + b - 1) as nat == (a - 1) as nat + b);
    }
}

/// Every step of a batch adds one to the cycle count.
pub proof fn lemma_batch_counts_cycles(c: Cpu, m: MemoryBusView, total: u64, n: nat)
    requires
        batch_ok(c, m, total, n),
    ensures
        batch_result(c, m, total, n).2 == total + n,
    decreases n,
{
    if n > 0 {
        let (c1, m1, t1) = stepped(c, m, total);
        lemma_batch_counts_cycles(c1, m1, t1, (n - 1) as nat);
    }
}

/// Whether the first eight bytes are the executable magic.
fn has_exe_magic(bytes: &[u8]) -> (r: bool)
    requires
        bytes@.len() >= 8,
    ensures
        r == (bytes@.subrange(0, 8) == exe_magic()),
{
    let r = bytes[0] == 0x50 && bytes[1] == 0x53 && bytes[2] == 0x2D && bytes[3] == 0x58
        && bytes[4] == 0x20 && bytes[5] == 0x45 && bytes[6] == 0x58 && bytes[7] == 0x45;
    assert(r ==> bytes@.subrange(0, 8) =~= exe_magic());
    assert(bytes@.subrange(0, 8) == exe_magic() ==> bytes@.subrange(0, 8)[0] == exe_magic()[0]
        && bytes@.subrange(0, 8)[1] == exe_magic()[1] && bytes@.subrange(0, 8)[2] == exe_magic()[2]
        && bytes@.subrange(0, 8)[3] == exe_magic()[3] && bytes@.subrange(0, 8)[4] == exe_magic()[4]
        && bytes@.subrange(0, 8)[5] == exe_magic()[5] && bytes@.subrange(0, 8)[6] == exe_magic()[6]
        && bytes@.subrange(0, 8)[7] == exe_magic()[7]);
    r
}

/// The little-endian word at `o`.
fn read_le32(bytes: &[u8], o: usize) -> (r: u32)
    requires
        o + 4 <= bytes@.len(),
    ensures
        r == le32(bytes@, o as int),
{
    (bytes[o] as u32) | ((bytes[o + 1] as u32) << 8u32) | ((bytes[o + 2] as u32) << 16u32) | ((
    bytes[o + 3] as u32) << 24u32)
}

/// Copies `src[from..from + n]` into `dst[at..at + n]`.
fn copy_into(dst: &mut Vec<u8>, at: usize, src: &[u8], from: usize, n: usize)
    requires
        at + n <= old(dst)@.len(),
        from + n <= src@.len(),
    ensures
        final(dst)@ == stored(old(dst)@, at as int, src@.subrange(from as int, from + n)),
{
    let ghost d0 = dst@;
    let dlen = dst.len();
    let slen = src.len();
    let mut i: usize = 0;
    while i < n
        invariant
            i <= n,
            at + n <= dlen,
            dlen == d0.len(),
            from + n <= slen,
            slen == src@.len(),
            dst@.len() == d0.len(),
            forall|j: int|
                0 <= j < d0.len() ==> #[trigger] dst@[j] == if at <= j < at + i {
                    src@[from + j - at]
                } else {
                    d0[j]
                },
        decreases n - i,
    {
        dst.set(at + i, src[from + i]);
        i = i + 1;
    }
    assert(dst@ =~= stored(d0, at as int, src@.subrange(from as int, from + n)));
}

impl PS1System {
    /// A CPU at reset on the default bus; no cycles run.
    pub fn new() -> (r: Self)
        ensures
            r.cpu.is_reset(),
            r.cpu.wf(),
            r.bus@.wf(),
            r.bus@.devices_at_reset(),
            forall|i: int| 0 <= i < RAM_BYTES ==> #[trigger] r.bus@.ram[i] == 0,
            forall|i: int| 0 <= i < SCRATCHPAD_BYTES ==> #[trigger] r.bus@.scratchpad[i] == 0,
            forall|i: int| 0 <= i < BIOS_BYTES ==> #[trigger] r.bus@.bios[i] == blank_rom_byte(i),
            r.total_cycles == 0,
    {
        PS1System { cpu: Cpu::new(), bus: MemoryBus::default(), total_cycles: 0 }
    }

    /// Installs a BIOS image (padded as `Bios::from_bytes` pads it); an image over 512KB is
    /// refused and nothing changes.
    pub fn load_bios_bytes(&mut self, bytes: &[u8]) -> (r: Result<(), String>)
        ensures
            r is Err <==> bytes@.len() > BIOS_BYTES,
            r is Err ==> r->Err_0@ == oversize_text(bytes@.len() as usize) && final(self).bus@
                == old(self).bus@ && final(self).cpu == old(self).cpu,
            r is Ok ==> final(self).bus@ == (MemoryBusView {
                bios: Seq::new(
                    BIOS_BYTES as nat,
                    |i: int|
                        if i < bytes@.len() {
                            bytes@[i]
                        } else {
                            blank_rom_byte(i)
                        },
                ),
                ..old(self).bus@
            }) && final(self).cpu == old(self).cpu,
            final(self).total_cycles == old(self).total_cycles,
    {
        match Bios::from_bytes(bytes) {
            Ok(bios) => {
                self.bus.bios = bios;
                assert(self.bus.bios.data@ =~= Seq::new(
                    BIOS_BYTES as nat,
                    |i: int|
                        if i < bytes@.len() {
                            bytes@[i]
                        } else {
                            blank_rom_byte(i)
                        },
                ));
                Ok(())
            },
            Err(e) => Err(e),
        }
    }

    /// Loads a program. A PS-X executable has its text copied to its load address (when it
    /// fits in RAM), the CPU set to its entry point, `$gp`/`$sp` from the header, exception
    /// vectors moved to RAM and the scratchpad's first word set to 0x20. Anything else is a
    /// raw binary: copied to 0x1_0000 (as much as fits) and run from 0x8001_0000.
    pub fn load_executable_bytes(&mut self, bytes: &[u8]) -> (r: Result<(), String>)
        requires
            old(self).bus@.wf(),
        ensures
            r is Ok,
            final(self).bus@.wf(),
            final(self).total_cycles == old(self).total_cycles,
            is_exe(bytes@) ==> {
                let text = exe_text(bytes@);
                let p = (le32(bytes@, 0x18) & 0x1FFF_FFFFu32) as int;
                &&& final(self).cpu == exe_entry(
                    old(self).cpu,
                    le32(bytes@, 0x10),
                    le32(bytes@, 0x14),
                    le32(bytes@, 0x30),
                )
                &&& final(self).bus@ == (MemoryBusView {
                    ram: if p + text.len() <= RAM_BYTES {
                        stored(old(self).bus@.ram, p, text)
                    } else {
                        old(self).bus@.ram
                    },
                    scratchpad: put32(old(self).bus@.scratchpad, 0, 0x20),
                    ..old(self).bus@
                })
            },
            !is_exe(bytes@) ==> {
                let n = if bytes@.len() < RAM_BYTES - RAW_LOAD_OFFSET {
                    bytes@.len() as int
                } else {
                    RAM_BYTES - RAW_LOAD_OFFSET
                };
                &&& final(self).cpu == (Cpu { pc: 0x8001_0000, next_pc: 0x8001_0004, ..old(self).cpu })
                &&& final(self).bus@ == (MemoryBusView {
                    ram: stored(old(self).bus@.ram, RAW_LOAD_OFFSET as int, bytes@.subrange(0, n)),
                    ..old(self).bus@
                })
            },
    {
        if bytes.len() >= 0x800 && has_exe_magic(bytes) {
            let initial_pc = read_le32(bytes, 0x10);
            let initial_gp = read_le32(bytes, 0x14);
            let load_addr = read_le32(bytes, 0x18);
            let text_size = read_le32(bytes, 0x1C);
            let initial_sp = read_le32(bytes, 0x30);
            let text_len = bytes.len() - 0x800;
            let copy_len = if (text_size as usize) < text_len {
                text_size as usize
            } else {
                text_len
            };
            let phys_addr = (load_addr & 0x1FFF_FFFF) as usize;
            proof {
                lemma_and_le(load_addr, 0x1FFF_FFFF);
            }
            if copy_len <= self.bus.ram.data.len() && phys_addr <= self.bus.ram.data.len()
                - copy_len {
                copy_into(&mut self.bus.ram.data, phys_addr, bytes, 0x800, copy_len);
                assert(bytes@.subrange(0x800, 0x800 + copy_len) =~= exe_text(bytes@));
            }
            self.cpu.pc = initial_pc;
            self.cpu.next_pc = initial_pc.wrapping_add(4);
            self.cpu.cop0.status = self.cpu.cop0.status & !0x0040_0000u32;
            if initial_gp != 0 {
                self.cpu.gpr[28] = initial_gp;
            }
            if initial_sp != 0 {
                self.cpu.gpr[29] = initial_sp;
            }
            self.bus.scratchpad.write32(0, 0x20);
        } else {
            let max_capacity = self.bus.ram.data.len().saturating_sub(RAW_LOAD_OFFSET);
            let copy_len = if bytes.len() < max_capacity {
                bytes.len()
            } else {
                max_capacity
            };
            copy_into(&mut self.bus.ram.data, RAW_LOAD_OFFSET, bytes, 0, copy_len);
            self.cpu.pc = 0x8001_0000;
            self.cpu.next_pc = 0x8001_0004;
        }
        Ok(())
    }
}

impl PS1System {
    /// One CPU instruction, then one bus cycle.
    pub fn step(&mut self)
        requires
            step_ok(old(self).cpu, old(self).bus@, old(self).total_cycles),
        ensures
            (final(self).cpu, final(self).bus@, final(self).total_cycles) == stepped(
                old(self).cpu,
                old(self).bus@,
                old(self).total_cycles,
            ),
    {
        self.cpu.step(&mut self.bus);
        self.bus.step(1);
        self.total_cycles = self.total_cycles + 1;
    }

    /// `batch_cycles` steps in a row.
    pub fn step_batch(&mut self, batch_cycles: u32)
        requires
            batch_ok(old(self).cpu, old(self).bus@, old(self).total_cycles, batch_cycles as nat),
        ensures
            (final(self).cpu, final(self).bus@, final(self).total_cycles) == batch_result(
                old(self).cpu,
                old(self).bus@,
                old(self).total_cycles,
                batch_cycles as nat,
            ),
    {
        let ghost target = batch_result(self.cpu, self.bus@, self.total_cycles, batch_cycles as nat);
        let mut i: u32 = 0;
        while i < batch_cycles
            invariant
                i <= batch_cycles,
                batch_ok(self.cpu, self.bus@, self.total_cycles, (batch_cycles - i) as nat),
                batch_result(self.cpu, self.bus@, self.total_cycles, (batch_cycles - i) as nat)
                    == target,
            decreases batch_cycles - i,
        {
            self.step();
            i = i + 1;
        }
    }
}

impl Default for PS1System {
    fn default() -> (r: Self)
        ensures
            r.cpu.is_reset(),
            r.cpu.wf(),
            r.bus@.wf(),
            r.bus@.devices_at_reset(),
            r.total_cycles == 0,
    {
        Self::new()
    }
}

} // verus!
