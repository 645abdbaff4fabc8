use vstd::prelude::*;

verus! {

/// Characters in the text frame that a terminal backend prints.
pub const CLI_BACKEND_BUFFER_SIZE: usize = 2112;

/// Rows of the display grid.
pub const CHIP8_DISPLAY_HEIGHT: usize = 32;

/// Columns of the display grid.
pub const CHIP8_DISPLAY_WIDTH: usize = 64;

/// Registers V0 to VF.
pub const GENERAL_PURPOSE_REGISTERS_COUNT: usize = 16;

/// Bytes of addressable memory.
pub const MEMORY_SIZE: usize = 4096;

/// Address of the built-in font.
pub const FONT_LOCATION: usize = 0x50;

/// Address at which a ROM is loaded and execution starts.
pub const ROM_START_LOCATION: usize = 0x200;

/// Instructions executed per second by the pacing loop.
pub const CPU_INSTRUCTION_PER_SECOND: usize = 700;

} // verus!
