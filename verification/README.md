# ps_core

A PlayStation 1 emulator core written in Verus: every module of the library carries
`requires`/`ensures` contracts over mathematical models (sequences of bytes and pixels,
register records) and Verus proves the code against them.

## Layout

- `src/cpu/` — MIPS R3000A interpreter: decoder, instruction semantics (`semantics.rs`
  states the effect of every instruction as spec functions), branch delay slot, two-stage
  load delay, COP0 exceptions and the BIOS TTY call interception (`tty.rs`).
- `src/bus/` — the `Bus` trait (each implementation states what reads return and what
  writes and clock steps leave), the system `MemoryBus` with its address map, and the
  `MockBus` used by CPU tests.
- `src/ram`, `src/scratchpad.rs`, `src/bios` — the byte-addressed memories.
- `src/gpu/` — VRAM, GP0 command processing, GP1 control, and the rasterizer.
- `src/dma/` — the seven-channel DMA controller: block, linked-list and ordering-table
  transfers.
- `src/timers/`, `src/intc/`, `src/controller/` — timers, interrupt controller, pad.
- `src/system.rs` — the whole machine and PS-X EXE / raw binary loading.
- `src/headless.rs`, `src/frontend.rs`, `src/cli.rs` — the decisions of the two front ends
  (batch sizes, end of a run, key handling, window size) and the command-line options.
- `app/` — the `aps` program: argument parsing, file I/O, the headless runner and the
  SDL2 window, calling the library for every decision.
- `tests/` — unit, boundary, integration and stress tests.

Laws that relate several operations stand as public proof functions beside the code they
are about, for example `lemma_zero_register_after_step`, `lemma_ram_read_after_write`,
`lemma_otc_clear_links`, `lemma_step_per_channel`, `lemma_uart_write_logs`,
`lemma_dicr_acknowledge` and `lemma_batch_compose`.
