use crate::constant::{FONT_LOCATION, MEMORY_SIZE, ROM_START_LOCATION};
use vstd::prelude::*;

verus! {

/// Why a ROM could not be loaded.
#[derive(Debug, PartialEq, Eq, Structural)]
pub enum RomError {
    /// The ROM, of this many bytes, does not fit between the start address
    /// and the end of memory.
    InvalidRomSize(usize),
}

/// The machine's byte-addressed memory.
pub struct Ram {
    pub memory: [u8; MEMORY_SIZE],
}

/// Whether a ROM of `len` bytes fits from the start address to the end of memory.
pub open spec fn rom_fits(len: nat) -> bool {
    len <= MEMORY_SIZE - ROM_START_LOCATION
}

/// Memory `m` with `rom` written from the start address on.
pub open spec fn with_rom(m: Seq<u8>, rom: Seq<u8>) -> Seq<u8> {
    m.take(ROM_START_LOCATION as int) + rom + m.skip(ROM_START_LOCATION + rom.len())
}

/// Bytes of the built-in font: sixteen glyphs, 0 to F, of five rows each.
pub const FONT_SIZE: usize = 80;

/// The built-in font: the glyphs of the hexadecimal digits 0 to F, five rows
/// of four pixels each, in the high nibble of each byte.
pub open spec fn font() -> Seq<u8> {
    seq![
        0xF0, 0x90, 0x90, 0x90, 0xF0, 0x20, 0x60, 0x20, 0x20, 0x70,
        0xF0, 0x10, 0xF0, 0x80, 0xF0, 0xF0, 0x10, 0xF0, 0x10, 0xF0,
        0x90, 0x90, 0xF0, 0x10, 0x10, 0xF0, 0x80, 0xF0, 0x10, 0xF0,
        0xF0, 0x80, 0xF0, 0x90, 0xF0, 0xF0, 0x10, 0x20, 0x40, 0x40,
        0xF0, 0x90, 0xF0, 0x90, 0xF0, 0xF0, 0x90, 0xF0, 0x10, 0xF0,
        0xF0, 0x90, 0xF0, 0x90, 0x90, 0xE0, 0x90, 0xE0, 0x90, 0xE0,
        0xF0, 0x80, 0x80, 0x80, 0xF0, 0xE0, 0x90, 0x90, 0x90, 0xE0,
        0xF0, 0x80, 0xF0, 0x80, 0xF0, 0xF0, 0x80, 0xF0, 0x80, 0x80,
    ]
}

/// What fresh memory holds at `a`: the font from its address on, zero elsewhere.
pub open spec fn initial_byte(a: int) -> u8 {
    if FONT_LOCATION <= a < FONT_LOCATION + FONT_SIZE {
        font()[a - FONT_LOCATION]
    } else {
        0
    }
}

impl Ram {
    /// Memory holding the built-in font, zero elsewhere.
    pub fn new() -> (r: Ram)
        ensures
            forall|a: int| 0 <= a < MEMORY_SIZE ==> r.memory@[a] == initial_byte(a),
    {
        let glyphs: [u8; FONT_SIZE] = [
        0xF0, 0x90, 0x90, 0x90, 0xF0, 0x20, 0x60, 0x20, 0x20, 0x70,
        0xF0, 0x10, 0xF0, 0x80, 0xF0, 0xF0, 0x10, 0xF0, 0x10, 0xF0,
        0x90, 0x90, 0xF0, 0x10, 0x10, 0xF0, 0x80, 0xF0, 0x10, 0xF0,
        0xF0, 0x80, 0xF0, 0x90, 0xF0, 0xF0, 0x10, 0x20, 0x40, 0x40,
        0xF0, 0x90, 0xF0, 0x90, 0xF0, 0xF0, 0x90, 0xF0, 0x10, 0xF0,
        0xF0, 0x90, 0xF0, 0x90, 0x90, 0xE0, 0x90, 0xE0, 0x90, 0xE0,
        0xF0, 0x80, 0x80, 0x80, 0xF0, 0xE0, 0x90, 0x90, 0x90, 0xE0,
        0xF0, 0x80, 0xF0, 0x80, 0xF0, 0xF0, 0x80, 0xF0, 0x80, 0x80,
        ];
        assert(glyphs@ =~= font());
        let mut memory = [0u8; MEMORY_SIZE];
        let mut k: usize = 0;
        while k < FONT_SIZE
            invariant
                k <= FONT_SIZE,
                glyphs@ == font(),
                memory@.len() == MEMORY_SIZE,
                forall|a: int|
                    0 <= a < MEMORY_SIZE ==> #[trigger] memory@[a] == if FONT_LOCATION <= a
                        < FONT_LOCATION + k {
                        font()[a - FONT_LOCATION]
                    } else {
                        0
                    },
            decreases FONT_SIZE - k,
        {
            memory[FONT_LOCATION + k] = glyphs[k];
            k = k + 1;
        }
        Ram { memory }
    }

    /// Copies `rom_data` verbatim to the program region; fails, leaving memory
    /// untouched, when it does not fit there.
    pub fn load_rom(&mut self, rom_data: &[u8]) -> (r: Result<(), RomError>)
        ensures
            rom_fits(rom_data@.len()) <==> r is Ok,
            r is Ok ==> final(self).memory@ == with_rom(old(self).memory@, rom_data@),
            r is Err ==> r == Err::<(), RomError>(RomError::InvalidRomSize(rom_data@.len() as usize))
                && *final(self) == *old(self),
    {
        let len = rom_data.len();
        if len > MEMORY_SIZE - ROM_START_LOCATION {
            return Err(RomError::InvalidRomSize(len));
        }
        let mut k: usize = 0;
        while k < len
            invariant
                len == rom_data@.len(),
                rom_fits(len as nat),
                k <= len,
                self.memory@.len() == MEMORY_SIZE,
                forall|a: int|
                    0 <= a < MEMORY_SIZE ==> #[trigger] self.memory@[a] == if ROM_START_LOCATION <= a
                        < ROM_START_LOCATION + k {
                        rom_data@[a - ROM_START_LOCATION]
                    } else {
                        old(self).memory@[a]
                    },
            decreases len - k,
        {
            self.memory[ROM_START_LOCATION + k] = rom_data[k];
            k = k + 1;
        }
        assert(self.memory@ =~= with_rom(old(self).memory@, rom_data@));
        Ok(())
    }
}

} // verus!
