use crate::constant::{FONT_LOCATION, GENERAL_PURPOSE_REGISTERS_COUNT, MEMORY_SIZE};
use crate::display::{
    blank, collides, draw_sprite, drawn, drawn_rows, grid, is_grid, lemma_draw_twice, sprite_hit,
    Display, DisplayBackend,
};
pub use crate::instruction::{AluOp, Instruction};
use crate::instruction::{decode_spec, field_n, field_nn, field_nnn, field_x, field_y, text};
use crate::text::{dec, hex, push_dec, push_hex};
use crate::timer::{countdown, Timer};
use vstd::prelude::*;
use vstd::string::*;

verus! {

/// `fastrand::Rng`, held as an opaque value: the generator behind `Random`.
#[verifier::external_type_specification]
#[verifier::external_body]
pub struct ExRng(fastrand::Rng);

/// Relies on `fastrand::Rng::new`: a generator seeded from the thread-local one.
#[verifier::external_body]
fn fresh_rng() -> fastrand::Rng {
    fastrand::Rng::new()
}

/// Relies on `fastrand::Rng::with_seed`: a generator whose output is fixed by `seed`.
#[verifier::external_body]
fn seeded_rng(seed: u64) -> fastrand::Rng {
    fastrand::Rng::with_seed(seed)
}

/// Relies on `fastrand::Rng::u8` over the full range: any byte, uniformly;
/// nothing is promised of which.
#[verifier::external_body]
fn random_byte(rng: &mut fastrand::Rng) -> u8 {
    rng.u8(..)
}

/// Why executing an instruction stopped the machine.
#[derive(Debug, PartialEq, Eq, Structural, Clone, Copy)]
pub enum ExecError {
    /// The word encodes no instruction.
    UnknownInstruction(u16),
    /// `Return` with an empty call stack.
    StackUnderflow,
    /// The instruction would reach memory past its end from this index register.
    AddressOutOfRange(u16),
}

/// The registers, program counter, index register and call stack.
pub struct Regs {
    pub pc: u16,
    pub i: u16,
    pub v: Seq<u8>,
    pub stack: Seq<u16>,
}

/// The big-endian word at `pc`, addresses wrapping at the end of memory.
pub open spec fn word_at(mem: Seq<u8>, pc: u16) -> u16 {
    (mem[pc as int % MEMORY_SIZE as int] * 256 + mem[(pc as int + 1) % MEMORY_SIZE as int]) as u16
}

/// The flag register.
pub open spec fn vf() -> int {
    0xF
}

/// The program counter moved past one instruction, wrapping at 16 bits.
pub open spec fn skipped(pc: u16) -> u16 {
    ((pc + 2) % 0x10000) as u16
}

/// Register operands name one of the sixteen registers, addresses have twelve
/// bits and sprites at most fifteen rows; every decoded word meets this.
pub open spec fn valid_instruction(ins: Instruction) -> bool {
    match ins {
        Instruction::Jump(nnn) => nnn < 0x1000,
        Instruction::CallSub(nnn) => nnn < 0x1000,
        Instruction::SetIndex(nnn) => nnn < 0x1000,
        Instruction::JumpWithOffset(nnn) => nnn < 0x1000,
        Instruction::SkipEq(x, _) => x < 16,
        Instruction::SkipNEq(x, _) => x < 16,
        Instruction::SetReg(x, _) => x < 16,
        Instruction::Add(x, _) => x < 16,
        Instruction::Random(x, _) => x < 16,
        Instruction::SkipRegEq(x, y) => x < 16 && y < 16,
        Instruction::SkipRegNEq(x, y) => x < 16 && y < 16,
        Instruction::AluOperation { x, y, operation: _ } => x < 16 && y < 16,
        Instruction::Display { x, y, height } => x < 16 && y < 16 && height < 16,
        Instruction::SkipIfPressed(x) => x < 16,
        Instruction::SkipIfNotPressed(x) => x < 16,
        Instruction::GetDelayTimer(x) => x < 16,
        Instruction::WaitForKey(x) => x < 16,
        Instruction::SetDelayTimer(x) => x < 16,
        Instruction::SetSoundTimer(x) => x < 16,
        Instruction::AddToIndex(x) => x < 16,
        Instruction::SetIndexToFontLocation(x) => x < 16,
        Instruction::BCDConversion(x) => x < 16,
        Instruction::Store(x) => x < 16,
        Instruction::Load(x) => x < 16,
        _ => true,
    }
}

/// The registers after an ALU operation on Vx and Vy. The shifts put the
/// shifted-out bit in Vy where `shift_into_y` holds, else in VF.
pub open spec fn alu(v: Seq<u8>, x: int, y: int, op: AluOp, shift_into_y: bool) -> Seq<u8> {
    let a = v[x];
    let b = v[y];
    let flag_reg = if shift_into_y { y } else { vf() };
    match op {
        AluOp::LoadRegReg => v.update(x, b),
        AluOp::Or => v.update(x, a | b),
        AluOp::And => v.update(x, a & b),
        AluOp::Xor => v.update(x, a ^ b),
        AluOp::AddRegReg => v.update(x, ((a + b) % 256) as u8).update(
            vf(),
            if a + b > 255 { 1u8 } else { 0u8 },
        ),
        AluOp::Sub => v.update(x, ((a - b + 256) % 256) as u8).update(
            vf(),
            if a >= b { 1u8 } else { 0u8 },
        ),
        AluOp::SubNeg => v.update(x, ((b - a + 256) % 256) as u8).update(
            vf(),
            if b >= a { 1u8 } else { 0u8 },
        ),
        AluOp::ShiftRight => {
            let w = v.update(flag_reg, a % 2);
            w.update(x, w[x] / 2)
        },
        AluOp::ShiftLeft => {
            let w = v.update(flag_reg, a / 128);
            w.update(x, ((w[x] * 2) % 256) as u8)
        },
    }
}

/// The registers after `Load(x)`: V0 to Vx from memory at `i` on.
pub open spec fn loaded(v: Seq<u8>, mem: Seq<u8>, i: u16, x: u8) -> Seq<u8> {
    Seq::new(v.len(), |k: int| if k <= x { mem[i + k] } else { v[k] })
}

/// Memory after `Store(x)`: V0 to Vx written at `i` on.
pub open spec fn stored(mem: Seq<u8>, v: Seq<u8>, i: u16, x: u8) -> Seq<u8> {
    Seq::new(mem.len(), |a: int| if i <= a <= i + x { v[a - i] } else { mem[a] })
}

/// Memory after `BCDConversion`: the hundreds, tens and ones of `value` at
/// `i`, `i + 1` and `i + 2`.
pub open spec fn bcd_written(mem: Seq<u8>, i: u16, value: u8) -> Seq<u8> {
    mem.update(i as int, value / 100).update(i + 1, (value / 10) % 10).update(i + 2, value % 10)
}

/// The error that executing `ins` in state `s` stops with, if any.
pub open spec fn exec_error(s: Regs, ins: Instruction) -> Option<ExecError> {
    match ins {
        Instruction::Unknown(w) => Some(ExecError::UnknownInstruction(w)),
        Instruction::Return() => if s.stack.len() == 0 {
            Some(ExecError::StackUnderflow)
        } else {
            None
        },
        Instruction::Display { x: _, y, height } => if s.i + drawn_rows(s.v[y as int], height)
            > MEMORY_SIZE {
            Some(ExecError::AddressOutOfRange(s.i))
        } else {
            None
        },
        Instruction::BCDConversion(_) => if s.i + 3 > MEMORY_SIZE {
            Some(ExecError::AddressOutOfRange(s.i))
        } else {
            None
        },
        Instruction::Store(x) => if s.i + x + 1 > MEMORY_SIZE {
            Some(ExecError::AddressOutOfRange(s.i))
        } else {
            None
        },
        Instruction::Load(x) => if s.i + x + 1 > MEMORY_SIZE {
            Some(ExecError::AddressOutOfRange(s.i))
        } else {
            None
        },
        _ => None,
    }
}

/// The state after `ins` runs from `s` without error. `input` is what the
/// outside world supplied: the random byte, the key waited for, or the delay
/// timer's reading; `keys` are the keys the backend reported held.
pub open spec fn next_regs(
    s: Regs,
    ins: Instruction,
    mem: Seq<u8>,
    pixels: Seq<Seq<bool>>,
    input: u8,
    keys: Seq<u8>,
    shift_into_y: bool,
) -> Regs {
    match ins {
        Instruction::Return() => Regs { pc: s.stack.last(), stack: s.stack.drop_last(), ..s },
        Instruction::Jump(nnn) => Regs { pc: nnn, ..s },
        Instruction::CallSub(nnn) => Regs { pc: nnn, stack: s.stack.push(s.pc), ..s },
        Instruction::SkipEq(x, nn) => if s.v[x as int] == nn {
            Regs { pc: skipped(s.pc), ..s }
        } else {
            s
        },
        Instruction::SkipNEq(x, nn) => if s.v[x as int] != nn {
            Regs { pc: skipped(s.pc), ..s }
        } else {
            s
        },
        Instruction::SkipRegEq(x, y) => if s.v[x as int] == s.v[y as int] {
            Regs { pc: skipped(s.pc), ..s }
        } else {
            s
        },
        Instruction::SkipRegNEq(x, y) => if s.v[x as int] != s.v[y as int] {
            Regs { pc: skipped(s.pc), ..s }
        } else {
            s
        },
        Instruction::SetReg(x, nn) => Regs { v: s.v.update(x as int, nn), ..s },
        Instruction::Add(x, nn) => Regs { v: s.v.update(x as int, ((s.v[x as int] + nn) % 256) as u8), ..s },
        Instruction::AluOperation { x, y, operation } => Regs {
            v: alu(s.v, x as int, y as int, operation, shift_into_y),
            ..s
        },
        Instruction::SetIndex(nnn) => Regs { i: nnn, ..s },
        Instruction::JumpWithOffset(nnn) => Regs { pc: (nnn + s.v[0]) as u16, ..s },
        Instruction::Random(x, nn) => Regs { v: s.v.update(x as int, input & nn), ..s },
        Instruction::Display { x, y, height } => Regs {
            v: s.v.update(
                vf(),
                if collides(pixels, mem, s.i, s.v[x as int], s.v[y as int], height) {
                    1u8
                } else {
                    0u8
                },
            ),
            ..s
        },
        Instruction::SkipIfPressed(x) => if keys.contains(s.v[x as int]) {
            Regs { pc: skipped(s.pc), ..s }
        } else {
            s
        },
        Instruction::SkipIfNotPressed(x) => if !keys.contains(s.v[x as int]) {
            Regs { pc: skipped(s.pc), ..s }
        } else {
            s
        },
        Instruction::GetDelayTimer(x) => Regs { v: s.v.update(x as int, input), ..s },
        Instruction::WaitForKey(x) => Regs { v: s.v.update(x as int, input), ..s },
        Instruction::AddToIndex(x) => {
            let i = ((s.i + s.v[x as int]) % 0x10000) as u16;
            Regs {
                i,
                v: if i > 0xFFF && s.i <= 0xFFF {
                    s.v.update(x as int, 1)
                } else {
                    s.v
                },
                ..s
            }
        },
        Instruction::SetIndexToFontLocation(x) => Regs { i: (FONT_LOCATION + s.v[x as int] * 5) as u16, ..s },
        Instruction::Load(x) => Regs { v: loaded(s.v, mem, s.i, x), ..s },
        _ => s,
    }
}

/// Memory after `ins` runs from `s` without error.
pub open spec fn next_memory(s: Regs, ins: Instruction, mem: Seq<u8>) -> Seq<u8> {
    match ins {
        Instruction::BCDConversion(x) => bcd_written(mem, s.i, s.v[x as int]),
        Instruction::Store(x) => stored(mem, s.v, s.i, x),
        _ => mem,
    }
}

/// The grid after `ins` runs from `s` without error.
pub open spec fn next_pixels(
    s: Regs,
    ins: Instruction,
    mem: Seq<u8>,
    pixels: Seq<Seq<bool>>,
) -> Seq<Seq<bool>> {
    match ins {
        Instruction::ClearScreen() => blank(),
        Instruction::Display { x, y, height } => {
            drawn(pixels, mem, s.i, s.v[x as int], s.v[y as int], height)
        },
        _ => pixels,
    }
}

/// Whether `key` is among `keys`.
pub fn key_held(keys: &Vec<u8>, key: u8) -> (r: bool)
    ensures
        r == keys@.contains(key),
{
    let mut k: usize = 0;
    while k < keys.len()
        invariant
            k <= keys@.len(),
            forall|j: int| 0 <= j < k ==> keys@[j] != key,
        decreases keys@.len() - k,
    {
        if keys[k] == key {
            return true;
        }
        k = k + 1;
    }
    false
}

/// The program counter after a key test: moved past the next instruction
/// when whether `key` is among the held `keys` matches `when_held`.
pub fn skip_on_key(pc: u16, keys: &Vec<u8>, key: u8, when_held: bool) -> (r: u16)
    ensures
        r == if keys@.contains(key) == when_held {
            skipped(pc)
        } else {
            pc
        },
{
    if key_held(keys, key) == when_held {
        pc.wrapping_add(2)
    } else {
        pc
    }
}

/// Sprite rows that land on the screen.
fn drawn_rows_exec(vy: u8, height: u8) -> (r: usize)
    ensures
        r == drawn_rows(vy, height),
{
    let y0 = (vy % 32) as usize;
    if y0 + height as usize > 32 {
        32 - y0
    } else {
        height as usize
    }
}

impl Default for CPU {
    /// As `CPU::new`.
    fn default() -> (r: CPU)
        ensures
            r.is_initial(),
    {
        CPU::new()
    }
}

/// The execution state of the machine.
pub struct CPU {
    pub pc: u16,
    pub i: u16,
    pub registers: [u8; GENERAL_PURPOSE_REGISTERS_COUNT],
    pub stack: Vec<u16>,
    pub delay_timer: Timer,
    pub sound_timer: Timer,
    /// Where the shift instructions put the shifted-out bit: in Vy when set
    /// (the legacy behaviour, and the default), in VF when clear.
    pub shift_quirk: bool,
    /// The source of `Random`.
    pub rng: fastrand::Rng,
}

impl CPU {
    /// The registers, program counter, index register and stack.
    pub open spec fn regs(&self) -> Regs {
        Regs { pc: self.pc, i: self.i, v: self.registers@, stack: self.stack@ }
    }

    /// Every register, the program counter and the index register at zero,
    /// an empty stack, both timers at zero and the legacy shift behaviour.
    pub open spec fn is_initial(&self) -> bool {
        &&& self.pc == 0
        &&& self.i == 0
        &&& forall|k: int| 0 <= k < GENERAL_PURPOSE_REGISTERS_COUNT ==> self.registers@[k] == 0
        &&& self.stack@.len() == 0
        &&& self.delay_timer.stored() == 0
        &&& self.sound_timer.stored() == 0
        &&& self.shift_quirk
    }

    /// A machine with every register at zero, an empty stack, timers at zero
    /// and the legacy shift behaviour.
    pub fn new() -> (r: CPU)
        ensures
            r.is_initial(),
    {
        CPU {
            pc: 0,
            i: 0,
            registers: [0u8; GENERAL_PURPOSE_REGISTERS_COUNT],
            stack: Vec::new(),
            delay_timer: Timer::new(),
            sound_timer: Timer::new(),
            shift_quirk: true,
            rng: fresh_rng(),
        }
    }

    /// As `new`, with random numbers drawn from a generator seeded by `seed`,
    /// so that a run can be repeated.
    pub fn with_seed(seed: u64) -> (r: CPU)
        ensures
            r.is_initial(),
    {
        let mut r = CPU::new();
        r.rng = seeded_rng(seed);
        r
    }

    /// Reads the big-endian word at the program counter and moves the counter
    /// past it. Addresses wrap at the end of memory.
    pub fn fetch(&mut self, memory: [u8; MEMORY_SIZE]) -> (r: u16)
        ensures
            r == word_at(memory@, old(self).pc),
            final(self).pc == skipped(old(self).pc),
            final(self).regs() == (Regs { pc: final(self).pc, ..old(self).regs() }),
            final(self).delay_timer == old(self).delay_timer,
            final(self).sound_timer == old(self).sound_timer,
            final(self).shift_quirk == old(self).shift_quirk,
    {
        let at: usize = self.pc as usize % MEMORY_SIZE;
        let next: usize = (at + 1) % MEMORY_SIZE;
        let instruction: u16 = memory[at] as u16 * 256 + memory[next] as u16;
        self.pc = self.pc.wrapping_add(2);
        instruction
    }

    /// Applies one instruction to the machine, to `memory` and to the grid of
    /// `display`. Stops with an error, changing nothing, on a word that
    /// encodes no instruction, a `Return` with an empty stack, or a memory
    /// access past the end.
    pub fn execute<B: DisplayBackend>(
        &mut self,
        instruction: Instruction,
        memory: &mut [u8; MEMORY_SIZE],
        display: &mut Display<B>,
    ) -> (r: Result<(), ExecError>)
        requires
            valid_instruction(instruction),
        ensures
            r == match exec_error(old(self).regs(), instruction) {
                Some(e) => Err(e),
                None => Ok(()),
            },
            r is Err ==> final(self).regs() == old(self).regs() && final(memory)@ == old(memory)@
                && final(display).pixels == old(display).pixels,
            r is Ok ==> exists|input: u8, keys: Seq<u8>|
                final(self).regs() == next_regs(
                    old(self).regs(),
                    instruction,
                    old(memory)@,
                    grid(old(display).pixels),
                    input,
                    keys,
                    old(self).shift_quirk,
                ),
            r is Ok ==> final(memory)@ == next_memory(old(self).regs(), instruction, old(memory)@),
            r is Ok ==> grid(final(display).pixels) == next_pixels(
                old(self).regs(),
                instruction,
                old(memory)@,
                grid(old(display).pixels),
            ),
            final(self).shift_quirk == old(self).shift_quirk,
            final(self).sound_timer.stored() == match instruction {
                Instruction::SetSoundTimer(x) => old(self).registers@[x as int],
                _ => old(self).sound_timer.stored(),
            },
            match instruction {
                Instruction::SetDelayTimer(x) => final(self).delay_timer.stored()
                    == old(self).registers@[x as int],
                Instruction::GetDelayTimer(x) => final(self).registers@[x as int]
                    == final(self).delay_timer.stored() && exists|ticks: int|
                    ticks >= 0 && final(self).delay_timer.stored() == countdown(
                        old(self).delay_timer.stored(),
                        ticks,
                    ),
                _ => final(self).delay_timer.stored() == old(self).delay_timer.stored(),
            },
    {
        let ghost s0 = self.regs();
        let ghost mem0 = memory@;
        let ghost pix0 = grid(display.pixels);
        let ghost mut input: u8 = 0;
        let ghost mut held: Seq<u8> = Seq::empty();
        match instruction {
            Instruction::ClearScreen() => {
                display.pixels = [[false; 64]; 32];
                assert(grid(display.pixels) =~~= blank());
            },
            Instruction::Return() => {
                match self.stack.pop() {
                    Some(address) => self.pc = address,
                    None => return Err(ExecError::StackUnderflow),
                }
            },
            Instruction::Jump(nnn) => self.pc = nnn,
            Instruction::CallSub(nnn) => {
                self.stack.push(self.pc);
                self.pc = nnn;
            },
            Instruction::SkipEq(x, nn) => {
                if self.registers[x as usize] == nn {
                    self.pc = self.pc.wrapping_add(2);
                }
            },
            Instruction::SkipNEq(x, nn) => {
                if self.registers[x as usize] != nn {
                    self.pc = self.pc.wrapping_add(2);
                }
            },
            Instruction::SkipRegEq(x, y) => {
                if self.registers[x as usize] == self.registers[y as usize] {
                    self.pc = self.pc.wrapping_add(2);
                }
            },
            Instruction::SkipRegNEq(x, y) => {
                if self.registers[x as usize] != self.registers[y as usize] {
                    self.pc = self.pc.wrapping_add(2);
                }
            },
            Instruction::SetReg(x, nn) => self.registers[x as usize] = nn,
            Instruction::Add(x, nn) => {
                self.registers[x as usize] = self.registers[x as usize].wrapping_add(nn);
            },
            Instruction::AluOperation { x, y, operation } => {
                self.alu_operation(x, y, operation);
            },
            Instruction::SetIndex(nnn) => self.i = nnn,
            Instruction::JumpWithOffset(nnn) => self.pc = nnn + self.registers[0] as u16,
            Instruction::Random(x, nn) => {
                let byte = random_byte(&mut self.rng);
                proof {
                    input = byte;
                }
                self.registers[x as usize] = byte & nn;
            },
            Instruction::Display { x, y, height } => {
                let vx = self.registers[x as usize];
                let vy = self.registers[y as usize];
                if self.i as usize + drawn_rows_exec(vy, height) > MEMORY_SIZE {
                    return Err(ExecError::AddressOutOfRange(self.i));
                }
                let collided = draw_sprite(&mut display.pixels, memory, self.i, vx, vy, height);
                self.registers[0xF] = if collided {
                    1
                } else {
                    0
                };
                display.render();
            },
            Instruction::SkipIfPressed(x) => {
                let keys = display.read_keys();
                proof {
                    held = keys@;
                }
                self.pc = skip_on_key(self.pc, &keys, self.registers[x as usize], true);
            },
            Instruction::SkipIfNotPressed(x) => {
                let keys = display.read_keys();
                proof {
                    held = keys@;
                }
                self.pc = skip_on_key(self.pc, &keys, self.registers[x as usize], false);
            },
            Instruction::GetDelayTimer(x) => {
                let value = self.delay_timer.get_value();
                proof {
                    input = value;
                }
                self.registers[x as usize] = value;
            },
            Instruction::WaitForKey(x) => {
                let key = display.wait_for_key();
                proof {
                    input = key;
                }
                self.registers[x as usize] = key;
            },
            Instruction::SetDelayTimer(x) => self.delay_timer.set_value(self.registers[x as usize]),
            Instruction::SetSoundTimer(x) => self.sound_timer.set_value(self.registers[x as usize]),
            Instruction::AddToIndex(x) => {
                let old_i = self.i;
                self.i = self.i.wrapping_add(self.registers[x as usize] as u16);
                if self.i > 0xFFF && old_i <= 0xFFF {
                    self.registers[x as usize] = 1;
                }
            },
            Instruction::SetIndexToFontLocation(x) => {
                self.i = self.registers[x as usize] as u16 * 5 + FONT_LOCATION as u16;
            },
            Instruction::BCDConversion(x) => {
                if self.i as usize + 3 > MEMORY_SIZE {
                    return Err(ExecError::AddressOutOfRange(self.i));
                }
                let vx = self.registers[x as usize];
                let i = self.i as usize;
                memory[i] = vx / 100;
                memory[i + 1] = (vx / 10) % 10;
                memory[i + 2] = vx % 10;
                assert(memory@ =~= bcd_written(mem0, self.i, vx));
            },
            Instruction::Store(x) => {
                if self.i as usize + x as usize + 1 > MEMORY_SIZE {
                    return Err(ExecError::AddressOutOfRange(self.i));
                }
                self.store(x, memory);
            },
            Instruction::Load(x) => {
                if self.i as usize + x as usize + 1 > MEMORY_SIZE {
                    return Err(ExecError::AddressOutOfRange(self.i));
                }
                self.load(x, memory);
            },
            Instruction::Unknown(word) => return Err(ExecError::UnknownInstruction(word)),
        }
        assert(self.regs() == next_regs(s0, instruction, mem0, pix0, input, held, self.shift_quirk));
        Ok(())
    }

    /// Applies an ALU operation to Vx and Vy.
    fn alu_operation(&mut self, x: u8, y: u8, operation: AluOp)
        requires
            x < 16,
            y < 16,
        ensures
            final(self).registers@ == alu(
                old(self).registers@,
                x as int,
                y as int,
                operation,
                old(self).shift_quirk,
            ),
            final(self).pc == old(self).pc,
            final(self).i == old(self).i,
            final(self).stack == old(self).stack,
            final(self).delay_timer == old(self).delay_timer,
            final(self).sound_timer == old(self).sound_timer,
            final(self).shift_quirk == old(self).shift_quirk,
    {
        let ghost v = self.registers@;
        let xi = x as usize;
        let yi = y as usize;
        let a = self.registers[xi];
        let b = self.registers[yi];
        match operation {
            AluOp::LoadRegReg => self.registers[xi] = b,
            AluOp::Or => self.registers[xi] = a | b,
            AluOp::And => self.registers[xi] = a & b,
            AluOp::Xor => self.registers[xi] = a ^ b,
            AluOp::AddRegReg => {
                let sum: u16 = a as u16 + b as u16;
                self.registers[xi] = (sum % 256) as u8;
                self.registers[0xF] = if sum > 255 {
                    1
                } else {
                    0
                };
            },
            AluOp::Sub => {
                self.registers[xi] = a.wrapping_sub(b);
                self.registers[0xF] = if a >= b {
                    1
                } else {
                    0
                };
            },
            AluOp::SubNeg => {
                self.registers[xi] = b.wrapping_sub(a);
                self.registers[0xF] = if b >= a {
                    1
                } else {
                    0
                };
            },
            AluOp::ShiftRight => {
                let flag_reg = if self.shift_quirk {
                    yi
                } else {
                    0xF
                };
                self.registers[flag_reg] = a % 2;
                self.registers[xi] = self.registers[xi] / 2;
            },
            AluOp::ShiftLeft => {
                let flag_reg = if self.shift_quirk {
                    yi
                } else {
                    0xF
                };
                self.registers[flag_reg] = a / 128;
                self.registers[xi] = (self.registers[xi] % 128) * 2;
            },
        }
        assert(self.registers@ =~= alu(v, x as int, y as int, operation, self.shift_quirk));
    }

    /// Writes V0 to Vx to memory from the index register on.
    fn store(&self, x: u8, memory: &mut [u8; MEMORY_SIZE])
        requires
            x < 16,
            self.i + x + 1 <= MEMORY_SIZE,
        ensures
            final(memory)@ == stored(old(memory)@, self.registers@, self.i, x),
    {
        let ghost mem0 = memory@;
        let i = self.i as usize;
        let mut k: usize = 0;
        while k <= x as usize
            invariant
                x < 16,
                i == self.i,
                i + x + 1 <= MEMORY_SIZE,
                k <= x + 1,
                memory@.len() == MEMORY_SIZE,
                forall|a: int|
                    0 <= a < MEMORY_SIZE ==> #[trigger] memory@[a] == if i <= a < i + k {
                        self.registers@[a - i]
                    } else {
                        mem0[a]
                    },
            decreases x + 1 - k,
        {
            memory[i + k] = self.registers[k];
            k = k + 1;
        }
        assert(memory@ =~= stored(mem0, self.registers@, self.i, x));
    }

    /// Reads V0 to Vx from memory from the index register on.
    fn load(&mut self, x: u8, memory: &[u8; MEMORY_SIZE])
        requires
            x < 16,
            old(self).i + x + 1 <= MEMORY_SIZE,
        ensures
            final(self).registers@ == loaded(old(self).registers@, memory@, old(self).i, x),
            final(self).pc == old(self).pc,
            final(self).i == old(self).i,
            final(self).stack == old(self).stack,
            final(self).delay_timer == old(self).delay_timer,
            final(self).sound_timer == old(self).sound_timer,
            final(self).shift_quirk == old(self).shift_quirk,
    {
        let ghost v0 = self.registers@;
        let i = self.i as usize;
        let mut k: usize = 0;
        while k <= x as usize
            invariant
                x < 16,
                i == self.i,
                i == old(self).i,
                i + x + 1 <= MEMORY_SIZE,
                k <= x + 1,
                self.pc == old(self).pc,
                self.stack == old(self).stack,
                self.delay_timer == old(self).delay_timer,
                self.sound_timer == old(self).sound_timer,
                self.shift_quirk == old(self).shift_quirk,
                v0 == old(self).registers@,
                self.registers@.len() == GENERAL_PURPOSE_REGISTERS_COUNT,
                forall|a: int|
                    0 <= a < GENERAL_PURPOSE_REGISTERS_COUNT ==> #[trigger] self.registers@[a] == if a < k {
                        memory@[i + a]
                    } else {
                        v0[a]
                    },
            decreases x + 1 - k,
        {
            self.registers[k] = memory[i + k];
            k = k + 1;
        }
        assert(self.registers@ =~= loaded(v0, memory@, self.i, x));
    }
    /// The instruction that `instruction` encodes; every word decodes, those
    /// that encode nothing to `Instruction::Unknown`.
    pub fn decode(instruction: u16) -> (r: Instruction)
        ensures
            r == decode_spec(instruction),
            valid_instruction(r),
            r is Unknown ==> r == Instruction::Unknown(instruction),
    {
        let x: u8 = ((instruction / 0x100) % 0x10) as u8;
        let y: u8 = ((instruction / 0x10) % 0x10) as u8;
        let n: u8 = (instruction % 0x10) as u8;
        let nn: u8 = (instruction % 0x100) as u8;
        let nnn: u16 = instruction % 0x1000;
        assert(x == field_x(instruction) && y == field_y(instruction) && n == field_n(instruction));
        assert(nn == field_nn(instruction) && nnn == field_nnn(instruction));
        match instruction / 0x1000 {
            0x0 => match nn {
                0xE0 => Instruction::ClearScreen(),
                0xEE => Instruction::Return(),
                _ => Instruction::Unknown(instruction),
            },
            0x1 => Instruction::Jump(nnn),
            0x2 => Instruction::CallSub(nnn),
            0x3 => Instruction::SkipEq(x, nn),
            0x4 => Instruction::SkipNEq(x, nn),
            0x5 => Instruction::SkipRegEq(x, y),
            0x6 => Instruction::SetReg(x, nn),
            0x7 => Instruction::Add(x, nn),
            0x8 => {
                let operation = match n {
                    0x0 => AluOp::LoadRegReg,
                    0x1 => AluOp::Or,
                    0x2 => AluOp::And,
                    0x3 => AluOp::Xor,
                    0x4 => AluOp::AddRegReg,
                    0x5 => AluOp::Sub,
                    0x6 => AluOp::ShiftRight,
                    0x7 => AluOp::SubNeg,
                    0xE => AluOp::ShiftLeft,
                    _ => {
                        return Instruction::Unknown(instruction);
                    },
                };
                Instruction::AluOperation { x, y, operation }
            },
            0x9 => Instruction::SkipRegNEq(x, y),
            0xA => Instruction::SetIndex(nnn),
            0xB => Instruction::JumpWithOffset(nnn),
            0xC => Instruction::Random(x, nn),
            0xD => Instruction::Display { x, y, height: n },
            0xE => match nn {
                0x9E => Instruction::SkipIfPressed(x),
                0xA1 => Instruction::SkipIfNotPressed(x),
                _ => Instruction::Unknown(instruction),
            },
            _ => match nn {
                0x07 => Instruction::GetDelayTimer(x),
                0x0A => Instruction::WaitForKey(x),
                0x15 => Instruction::SetDelayTimer(x),
                0x18 => Instruction::SetSoundTimer(x),
                0x1E => Instruction::AddToIndex(x),
                0x29 => Instruction::SetIndexToFontLocation(x),
                0x33 => Instruction::BCDConversion(x),
                0x55 => Instruction::Store(x),
                0x65 => Instruction::Load(x),
                _ => Instruction::Unknown(instruction),
            },
        }
    }
}

/// The word made of bytes `2j` and `2j + 1`, big-endian.
pub open spec fn word_of(bytes: Seq<u8>, j: int) -> u16 {
    (bytes[2 * j] * 256 + bytes[2 * j + 1]) as u16
}

/// The listing of the first `k` words of `bytes`, one line each.
pub open spec fn listing(bytes: Seq<u8>, k: nat) -> Seq<char>
    decreases k,
{
    if k == 0 {
        Seq::empty()
    } else {
        listing(bytes, (k - 1) as nat) + text(decode_spec(word_of(bytes, k - 1))) + "\n"@
    }
}

/// The listing of `bytes`: a line per two-byte word, and for a trailing odd
/// byte a data line that gives it in hexadecimal after "0x".
pub open spec fn disassembly(bytes: Seq<u8>) -> Seq<char> {
    let words = listing(bytes, bytes.len() / 2);
    if bytes.len() % 2 == 1 {
        words + ".db 0x"@ + hex(bytes.last() as nat) + "\n"@
    } else {
        words
    }
}

/// The listing of `rom_data`, two bytes to a line, decoded independently of
/// any machine state.
pub fn disassemble(rom_data: &[u8]) -> (r: String)
    ensures
        r@ == disassembly(rom_data@),
{
    let mut result = String::new();
    let len = rom_data.len();
    let words = len / 2;
    let mut k: usize = 0;
    while k < words
        invariant
            len == rom_data@.len(),
            words == len / 2,
            k <= words,
            result@ == listing(rom_data@, k as nat),
        decreases words - k,
    {
        assert(2 * k + 1 < len) by (nonlinear_arith)
            requires
                k < words,
                words == len / 2,
        ;
        let high = rom_data[2 * k] as u16;
        let low = rom_data[2 * k + 1] as u16;
        let word = high * 256 + low;
        assert(word == word_of(rom_data@, k as int));
        let line = CPU::decode(word).to_string();
        let ghost prefix = result@;
        result.append(line.as_str());
        result.append("\n");
        assert(listing(rom_data@, (k + 1) as nat) == prefix + line@ + "\n"@);
        k = k + 1;
    }
    if rom_data.len() % 2 == 1 {
        result.append(".db 0x");
        push_hex(&mut result, rom_data[rom_data.len() - 1] as u64);
        result.append("\n");
    }
    result
}

/// The call stack as a list: decimal addresses between brackets, separated by
/// ", ".
pub open spec fn stack_text(stack: Seq<u16>) -> Seq<char> {
    "["@ + stack_items(stack) + "]"@
}

/// The addresses of the stack in decimal, separated by ", ".
pub open spec fn stack_items(stack: Seq<u16>) -> Seq<char>
    decreases stack.len(),
{
    if stack.len() == 0 {
        Seq::empty()
    } else if stack.len() == 1 {
        dec(stack[0] as nat)
    } else {
        stack_items(stack.drop_last()) + ", "@ + dec(stack.last() as nat)
    }
}

/// A line "Vn: value" for each of the first `n` registers, in hexadecimal.
pub open spec fn register_lines(v: Seq<u8>, n: nat) -> Seq<char>
    decreases n,
{
    if n == 0 {
        Seq::empty()
    } else {
        register_lines(v, (n - 1) as nat) + "V"@ + hex((n - 1) as nat) + ": "@ + hex(v[n - 1] as nat)
            + "\n"@
    }
}

/// The dump of the machine state: program counter, index register, call
/// stack and registers.
pub open spec fn state_text(s: Regs) -> Seq<char> {
    "PC: 0x"@ + hex(s.pc as nat) + "\nI: 0x"@ + hex(s.i as nat) + "\nStack: "@ + stack_text(s.stack)
        + "\n"@ + register_lines(s.v, GENERAL_PURPOSE_REGISTERS_COUNT as nat)
}

impl CPU {
    /// A dump of the program counter, index register, call stack and
    /// registers, one per line.
    pub fn to_string(&self) -> (r: String)
        ensures
            r@ == state_text(self.regs()),
    {
        let mut out = String::new();
        out.append("PC: 0x");
        push_hex(&mut out, self.pc as u64);
        out.append("\nI: 0x");
        push_hex(&mut out, self.i as u64);
        out.append("\nStack: ");
        out.append("[");
        let ghost before = out@;
        let mut k: usize = 0;
        while k < self.stack.len()
            invariant
                k <= self.stack@.len(),
                out@ == before + stack_items(self.stack@.take(k as int)),
            decreases self.stack@.len() - k,
        {
            if k > 0 {
                out.append(", ");
            }
            push_dec(&mut out, self.stack[k] as u64);
            assert(self.stack@.take(k + 1).drop_last() =~= self.stack@.take(k as int));
            k = k + 1;
        }
        assert(self.stack@.take(k as int) =~= self.stack@);
        out.append("]");
        out.append("\n");
        let ghost head = out@;
        let mut n: usize = 0;
        while n < GENERAL_PURPOSE_REGISTERS_COUNT
            invariant
                n <= GENERAL_PURPOSE_REGISTERS_COUNT,
                out@ == head + register_lines(self.registers@, n as nat),
            decreases GENERAL_PURPOSE_REGISTERS_COUNT - n,
        {
            out.append("V");
            push_hex(&mut out, n as u64);
            out.append(": ");
            push_hex(&mut out, self.registers[n] as u64);
            out.append("\n");
            n = n + 1;
        }
        assert(out@ =~= state_text(self.regs()));
        out
    }
}

/// The trace of one executed instruction: its text, then a dump of the
/// machine state after it.
pub open spec fn trace(ins: Instruction, s: Regs) -> Seq<char> {
    text(ins) + "\n"@ + state_text(s)
}

/// The trace of `instruction` with `cpu` the machine after it.
pub fn trace_text(instruction: Instruction, cpu: &CPU) -> (r: String)
    ensures
        r@ == trace(instruction, cpu.regs()),
{
    let mut message = instruction.to_string();
    message.append("\n");
    message.append(cpu.to_string().as_str());
    message
}

/// The message for an execution error.
pub open spec fn error_text(e: ExecError) -> Seq<char> {
    match e {
        ExecError::UnknownInstruction(w) => "Unknown instruction: "@ + hex(w as nat),
        ExecError::StackUnderflow => "Return while stack is empty."@,
        ExecError::AddressOutOfRange(i) => "Memory access past the end from I = 0x"@ + hex(i as nat),
    }
}

impl ExecError {
    /// A message naming the error: the word in hexadecimal for an unknown
    /// instruction, the index register for an access past the end.
    pub fn to_string(&self) -> (r: String)
        ensures
            r@ == error_text(*self),
    {
        let mut out = String::new();
        match *self {
            ExecError::UnknownInstruction(w) => {
                out.append("Unknown instruction: ");
                push_hex(&mut out, w as u64);
            },
            ExecError::StackUnderflow => out.append("Return while stack is empty."),
            ExecError::AddressOutOfRange(i) => {
                out.append("Memory access past the end from I = 0x");
                push_hex(&mut out, i as u64);
            },
        }
        out
    }
}

/// `8xy4` leaves the sum of Vx and Vy modulo 256 in Vx, and sets VF to 1
/// exactly when the sum exceeds 255. (With Vx being VF itself, the flag
/// overwrites the sum, so `x` is another register.)
pub proof fn lemma_add_carry(
    s: Regs,
    x: u8,
    y: u8,
    mem: Seq<u8>,
    pixels: Seq<Seq<bool>>,
    input: u8,
    keys: Seq<u8>,
    shift_into_y: bool,
)
    requires
        s.v.len() == GENERAL_PURPOSE_REGISTERS_COUNT,
        x < 15,
        y < 16,
    ensures
        ({
            let t = next_regs(
                s,
                Instruction::AluOperation { x, y, operation: AluOp::AddRegReg },
                mem,
                pixels,
                input,
                keys,
                shift_into_y,
            );
            &&& t.v[x as int] == (s.v[x as int] + s.v[y as int]) % 256
            &&& t.v[vf()] == 1 <==> s.v[x as int] + s.v[y as int] > 255
            &&& t.v[vf()] == 0 <==> s.v[x as int] + s.v[y as int] <= 255
        }),
{
}

/// `8xy5` and `8xy7` set VF to 1 exactly when the subtraction does not
/// borrow, that is when the minuend is at least the subtrahend, and to 0
/// otherwise.
pub proof fn lemma_sub_borrow(
    s: Regs,
    x: u8,
    y: u8,
    mem: Seq<u8>,
    pixels: Seq<Seq<bool>>,
    input: u8,
    keys: Seq<u8>,
    shift_into_y: bool,
)
    requires
        s.v.len() == GENERAL_PURPOSE_REGISTERS_COUNT,
        x < 16,
        y < 16,
    ensures
        ({
            let sub = next_regs(
                s,
                Instruction::AluOperation { x, y, operation: AluOp::Sub },
                mem,
                pixels,
                input,
                keys,
                shift_into_y,
            );
            let neg = next_regs(
                s,
                Instruction::AluOperation { x, y, operation: AluOp::SubNeg },
                mem,
                pixels,
                input,
                keys,
                shift_into_y,
            );
            &&& sub.v[vf()] == if s.v[x as int] >= s.v[y as int] { 1u8 } else { 0u8 }
            &&& neg.v[vf()] == if s.v[y as int] >= s.v[x as int] { 1u8 } else { 0u8 }
        }),
{
}

/// `Store(x)` and then `Load(x)` with the same index register, and no other
/// change to memory between them, give back V0 to Vx as they were, and the
/// other registers too.
pub proof fn lemma_store_then_load(
    s: Regs,
    x: u8,
    mem: Seq<u8>,
    pixels: Seq<Seq<bool>>,
    input: u8,
    keys: Seq<u8>,
    shift_into_y: bool,
)
    requires
        s.v.len() == GENERAL_PURPOSE_REGISTERS_COUNT,
        mem.len() == MEMORY_SIZE,
        x < 16,
        exec_error(s, Instruction::Store(x)) is None,
    ensures
        ({
            let m1 = next_memory(s, Instruction::Store(x), mem);
            let s1 = next_regs(s, Instruction::Store(x), mem, pixels, input, keys, shift_into_y);
            let s2 = next_regs(s1, Instruction::Load(x), m1, pixels, input, keys, shift_into_y);
            &&& exec_error(s1, Instruction::Load(x)) is None
            &&& s2 == s
        }),
{
    let m1 = next_memory(s, Instruction::Store(x), mem);
    let s1 = next_regs(s, Instruction::Store(x), mem, pixels, input, keys, shift_into_y);
    let s2 = next_regs(s1, Instruction::Load(x), m1, pixels, input, keys, shift_into_y);
    assert(s2.v =~= s.v);
}

/// Executing the same `Display` twice, with no other instruction between,
/// gives the grid back; the second sets VF to 1 exactly when the first lit a
/// pixel under a set sprite bit, that is when one of those pixels was off
/// before the first, and to 0 otherwise. (VF holds the flag, so neither
/// coordinate register is VF.)
pub proof fn lemma_display_twice(
    s: Regs,
    x: u8,
    y: u8,
    height: u8,
    mem: Seq<u8>,
    pixels: Seq<Seq<bool>>,
    input: u8,
    keys: Seq<u8>,
    shift_into_y: bool,
)
    requires
        s.v.len() == GENERAL_PURPOSE_REGISTERS_COUNT,
        x < 15,
        y < 15,
        is_grid(pixels),
        exec_error(s, Instruction::Display { x, y, height }) is None,
    ensures
        ({
            let ins = Instruction::Display { x, y, height };
            let s1 = next_regs(s, ins, mem, pixels, input, keys, shift_into_y);
            let p1 = next_pixels(s, ins, mem, pixels);
            let s2 = next_regs(s1, ins, mem, p1, input, keys, shift_into_y);
            let p2 = next_pixels(s1, ins, mem, p1);
            &&& exec_error(s1, ins) is None
            &&& p2 == pixels
            &&& s2.v[vf()] == if exists|c: int, r: int|
                0 <= c < 64 && 0 <= r < 32 && #[trigger] sprite_hit(
                    mem,
                    s.i,
                    s.v[x as int],
                    s.v[y as int],
                    height,
                    c,
                    r,
                ) && !pixels[r][c] {
                1u8
            } else {
                0u8
            }
        }),
{
    lemma_draw_twice(pixels, mem, s.i, s.v[x as int], s.v[y as int], height);
}

} // verus!
