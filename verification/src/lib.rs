pub mod bios;
pub mod bits;
pub mod bus;
pub mod bytes;
pub mod controller;
pub mod cpu;
pub mod dma;
pub mod gpu;
pub mod intc;
pub mod ram;
pub mod scratchpad;
pub mod timers;
pub mod system;
pub mod cli;
pub mod frontend;
pub mod headless;
