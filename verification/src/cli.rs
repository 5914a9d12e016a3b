//! The emulator's command-line options as plain values.
use vstd::prelude::*;

verus! {

/// What the command line asks for: the program to run, the BIOS image, headless or
/// windowed mode, a cycle limit, and where to save a screenshot and the TTY log.
#[derive(Debug, Clone)]
pub struct CliArgs {
    /// Path of the executable or raw binary to run.
    pub rom_path: Option<String>,
    /// Path of the 512KB BIOS image.
    pub bios: String,
    /// Run without a window.
    pub headless: bool,
    /// Stop after this many CPU cycles.
    pub max_cycles: Option<u64>,
    /// Save a PPM screenshot of VRAM here on exit.
    pub screenshot: Option<String>,
    /// Copy the TTY output to this file.
    pub tty_log: Option<String>,
    /// "windowed" or "vram_debug".
    pub display_mode: String,
}

} // verus!
