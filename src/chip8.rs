use crate::constant::{CPU_INSTRUCTION_PER_SECOND, MEMORY_SIZE, ROM_START_LOCATION};
use crate::cpu::{
    exec_error, next_memory, next_pixels, next_regs, skipped, trace_text, word_at, ExecError, Regs,
    CPU,
};
use crate::display::{blank, grid, Display, DisplayBackend};
use crate::instruction::decode_spec;
use crate::ram::{initial_byte, rom_fits, with_rom, Ram, RomError};
use vstd::prelude::*;

verus! {

/// A whole machine: processor, memory and display.
pub struct CHIP8<B: DisplayBackend> {
    pub cpu: CPU,
    pub ram: Ram,
    pub display: Display<B>,
}

/// Time between the starts of two instructions, in nanoseconds.
pub open spec fn instruction_period_nanos() -> int {
    1_000_000_000int / CPU_INSTRUCTION_PER_SECOND as int
}

/// How long to sleep after an instruction that took `elapsed_nanos`: the rest
/// of the period, or nothing when the instruction overran it.
pub fn pacing_delay(elapsed_nanos: u128) -> (r: u64)
    ensures
        r == if elapsed_nanos < instruction_period_nanos() {
            instruction_period_nanos() - elapsed_nanos
        } else {
            0
        },
{
    let period: u128 = 1_000_000_000 / CPU_INSTRUCTION_PER_SECOND as u128;
    assert(period == instruction_period_nanos());
    if elapsed_nanos < period {
        (period - elapsed_nanos) as u64
    } else {
        0
    }
}

/// Machine `after` and result `r` follow from one fetch, decode and execute
/// on machine `before`.
pub open spec fn stepped<B: DisplayBackend>(
    before: CHIP8<B>,
    after: CHIP8<B>,
    r: Result<(), ExecError>,
) -> bool {
    let w = word_at(before.ram.memory@, before.cpu.pc);
    let ins = decode_spec(w);
    let s = Regs { pc: skipped(before.cpu.pc), ..before.cpu.regs() };
    let mem = before.ram.memory@;
    let pix = grid(before.display.pixels);
    &&& r == match exec_error(s, ins) {
        Some(e) => Err(e),
        None => Ok(()),
    }
    &&& r is Err ==> after.cpu.regs() == s && after.ram.memory@ == mem && after.display.pixels
        == before.display.pixels
    &&& r is Ok ==> exists|input: u8, keys: Seq<u8>|
        after.cpu.regs() == next_regs(s, ins, mem, pix, input, keys, before.cpu.shift_quirk)
    &&& r is Ok ==> after.ram.memory@ == next_memory(s, ins, mem)
    &&& r is Ok ==> grid(after.display.pixels) == next_pixels(s, ins, mem, pix)
    &&& after.cpu.shift_quirk == before.cpu.shift_quirk
}

impl<B: DisplayBackend> CHIP8<B> {
    /// A machine over a backend made by `B::default()`.
    pub fn new() -> (r: Self)
        ensures
            r.cpu.is_initial(),
            forall|a: int| 0 <= a < MEMORY_SIZE ==> r.ram.memory@[a] == initial_byte(a),
            grid(r.display.pixels) == blank(),
    {
        CHIP8 { cpu: CPU::new(), ram: Ram::new(), display: Display::new(B::default()) }
    }

    /// A machine over `display_backend`.
    pub fn new_custom_display_backend(display_backend: B) -> (r: Self)
        ensures
            r.cpu.is_initial(),
            forall|a: int| 0 <= a < MEMORY_SIZE ==> r.ram.memory@[a] == initial_byte(a),
            grid(r.display.pixels) == blank(),
            r.display.backend == display_backend,
    {
        CHIP8 { cpu: CPU::new(), ram: Ram::new(), display: Display::new(display_backend) }
    }

    /// Loads the ROM at the start address and points the program counter
    /// there; fails, changing nothing, when the ROM does not fit.
    pub fn load_rom(&mut self, rom_data: &[u8]) -> (r: Result<(), RomError>)
        ensures
            rom_fits(rom_data@.len()) <==> r is Ok,
            r is Ok ==> final(self).ram.memory@ == with_rom(old(self).ram.memory@, rom_data@),
            r is Ok ==> final(self).cpu == (CPU { pc: ROM_START_LOCATION as u16, ..old(self).cpu }),
            r is Err ==> r == Err::<(), RomError>(RomError::InvalidRomSize(rom_data@.len() as usize))
                && *final(self) == *old(self),
            final(self).display == old(self).display,
    {
        let r = self.ram.load_rom(rom_data);
        if r.is_ok() {
            self.cpu.pc = ROM_START_LOCATION as u16;
        }
        r
    }

    /// Fetches, decodes and executes one instruction.
    pub fn tick(&mut self) -> (r: Result<(), ExecError>)
        ensures
            stepped(*old(self), *final(self), r),
    {
        let word = self.cpu.fetch(self.ram.memory);
        let instruction = CPU::decode(word);
        self.cpu.execute(instruction, &mut self.ram.memory, &mut self.display)
    }

    /// As `tick`, and then, when the instruction ran, hands the backend a
    /// trace: the instruction's text and a dump of the machine state.
    pub fn debug_tick(&mut self) -> (r: Result<(), ExecError>)
        ensures
            stepped(*old(self), *final(self), r),
    {
        let word = self.cpu.fetch(self.ram.memory);
        let instruction = CPU::decode(word);
        let r = self.cpu.execute(instruction, &mut self.ram.memory, &mut self.display);
        if let Ok(()) = r {
            let message = trace_text(instruction, &self.cpu);
            self.display.log(message);
        }
        r
    }
}

} // verus!
