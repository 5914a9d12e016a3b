//! BIOS A0 printf interception through the CPU step.

use ps_core::bus::memory_bus::MemoryBus;
use ps_core::cpu::Cpu;

#[test]
fn test_bios_a0_printf_interception() {
    let mut bus = MemoryBus::default_bus();
    let mut cpu = Cpu::new();

    // Put format string "Hello %s %d\0" at RAM address 0x1000
    let fmt_str = b"Hello %s %d\0";
    for (i, &b) in fmt_str.iter().enumerate() {
        bus.ram.write8(0x1000 + i as u32, b);
    }

    // Put string "World\0" at RAM address 0x2000
    let arg_str = b"World\0";
    for (i, &b) in arg_str.iter().enumerate() {
        bus.ram.write8(0x2000 + i as u32, b);
    }

    cpu.pc = 0x8000_00A0;
    cpu.gpr[9] = 0x3F; // A0 printf
    cpu.gpr[4] = 0x8000_1000; // $a0 = fmt
    cpu.gpr[5] = 0x8000_2000; // $a1 = "World"
    cpu.gpr[6] = 42; // $a2 = 42
    cpu.gpr[31] = 0x8001_0000; // $ra = caller

    cpu.step(&mut bus);

    assert_eq!(cpu.pc, 0x8001_0000);
    assert_eq!(bus.get_tty_string(), "Hello World 42");
}
