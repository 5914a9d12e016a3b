//! BIOS B0 putchar interception into the bus TTY log.

use ps_core::bus::memory_bus::MemoryBus;
use ps_core::cpu::Cpu;

#[test]
fn test_bios_tty_interceptor() {
    let mut bus = MemoryBus::default();
    let mut cpu = Cpu::new();

    // Set PC to BIOS B0 vector
    cpu.pc = 0xA000_00B0;
    cpu.next_pc = 0xA000_00B4;
    cpu.gpr[9] = 0x3D; // $t1 = 0x3D (putchar)
    cpu.gpr[4] = b'H' as u32; // $a0 = 'H'

    cpu.step(&mut bus);
    assert_eq!(bus.get_tty_string(), "H");

    cpu.pc = 0x8000_00B0;
    cpu.next_pc = 0x8000_00B4;
    cpu.gpr[2] = 0x3D; // $v0 = 0x3D (putchar)
    cpu.gpr[4] = b'i' as u32; // $a0 = 'i'

    cpu.step(&mut bus);
    assert_eq!(bus.get_tty_string(), "Hi");
}
