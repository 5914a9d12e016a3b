//! Decisions of the windowed front end: window size, frame budget and keyboard handling.
use crate::controller::{button_bit, key_button, map_key_to_button, Controller};
use vstd::prelude::*;

verus! {

pub const VRAM_WIDTH: usize = 1024;
pub const VRAM_HEIGHT: usize = 512;
pub const DISPLAY_WIDTH: u32 = 640;
pub const DISPLAY_HEIGHT: u32 = 480;

/// CPU cycles per 60Hz frame (33.8688MHz / 60).
pub const CPU_CYCLES_PER_FRAME: u32 = 564_480;

/// SDL key code of Escape, which closes the window.
pub const KEY_ESCAPE: i32 = 27;

/// The window size for a display mode: all of VRAM for "vram_debug", 640x480 otherwise.
pub fn window_size(display_mode: &str) -> (r: (u32, u32))
    ensures
        r == if display_mode@ == "vram_debug"@ {
            (VRAM_WIDTH as u32, VRAM_HEIGHT as u32)
        } else {
            (DISPLAY_WIDTH, DISPLAY_HEIGHT)
        },
{
    let mode = display_mode.to_owned();
    let debug = "vram_debug".to_owned();
    if mode == debug {
        (VRAM_WIDTH as u32, VRAM_HEIGHT as u32)
    } else {
        (DISPLAY_WIDTH, DISPLAY_HEIGHT)
    }
}

/// A key going down (`pressed`) or up: Escape going down asks to quit; any other key that
/// stands for a pad button presses or releases that button. Returns whether to quit.
pub fn handle_key(controller: &mut Controller, key: i32, pressed: bool) -> (quit: bool)
    ensures
        quit == (pressed && key == KEY_ESCAPE),
        final(controller).button_state == if quit || key_button(key) is None {
            old(controller).button_state
        } else if pressed {
            old(controller).button_state & !(1u16 << button_bit(key_button(key)->Some_0))
        } else {
            old(controller).button_state | (1u16 << button_bit(key_button(key)->Some_0))
        },
{
    if pressed && key == KEY_ESCAPE {
        return true;
    }
    if let Some(btn) = map_key_to_button(key) {
        controller.set_button(btn, pressed);
    }
    false
}

} // verus!
