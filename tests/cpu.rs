use chip_8::constant::{CHIP8_DISPLAY_HEIGHT, CHIP8_DISPLAY_WIDTH, FONT_LOCATION};
use chip_8::cpu::{
    disassemble, key_held, skip_on_key, trace_text, AluOp, ExecError, Instruction, CPU,
};
use chip_8::display::{Display, DisplayBackend, Pixels};
use chip_8::ram::Ram;

#[derive(Default)]
struct Headless {
    frames: usize,
    keys: Vec<u8>,
    next_key: u8,
    messages: Vec<String>,
}

impl DisplayBackend for Headless {
    fn render(&mut self, _pixels: &Pixels) {
        self.frames += 1;
    }

    fn read_keys(&mut self) -> Vec<u8> {
        self.keys.clone()
    }

    fn wait_for_key(&mut self) -> u8 {
        self.next_key
    }

    fn log(&self, _message: String) {}
}

fn machine() -> (CPU, Ram, Display<Headless>) {
    (CPU::with_seed(7), Ram::new(), Display::new(Headless::default()))
}

#[test]
fn cpu_execution() {
    let mut ram = Ram::new();
    let mut display = Display::new(Headless::default());
    let mut cpu = CPU::new();

    cpu.execute(Instruction::Jump(10), &mut ram.memory, &mut display).unwrap();
    assert_eq!(cpu.pc, 10);
    cpu.execute(Instruction::Jump(0), &mut ram.memory, &mut display).unwrap();
    assert_eq!(cpu.pc, 0);

    cpu.execute(Instruction::CallSub(20), &mut ram.memory, &mut display).unwrap();
    assert_eq!(cpu.pc, 20);

    cpu.execute(Instruction::Return(), &mut ram.memory, &mut display).unwrap();
    assert_eq!(cpu.pc, 0);

    cpu.execute(Instruction::SetReg(0, 2), &mut ram.memory, &mut display).unwrap();
    assert_eq!(cpu.registers[0], 2);

    cpu.execute(Instruction::Add(0, 2), &mut ram.memory, &mut display).unwrap();
    assert_eq!(cpu.registers[0], 4);

    cpu.execute(Instruction::SetReg(1, 4), &mut ram.memory, &mut display).unwrap();
    assert_eq!(cpu.registers[1], 4);

    cpu.execute(Instruction::SetReg(2, 2), &mut ram.memory, &mut display).unwrap();
    assert_eq!(cpu.registers[2], 2);

    cpu.execute(Instruction::SkipEq(0, 4), &mut ram.memory, &mut display).unwrap();
    assert_eq!(cpu.pc, 2);
    cpu.execute(Instruction::SkipEq(0, 0), &mut ram.memory, &mut display).unwrap();
    assert_eq!(cpu.pc, 2);

    cpu.execute(Instruction::SkipNEq(0, 0), &mut ram.memory, &mut display).unwrap();
    assert_eq!(cpu.pc, 4);
    cpu.execute(Instruction::SkipNEq(0, 4), &mut ram.memory, &mut display).unwrap();
    assert_eq!(cpu.pc, 4);

    cpu.execute(Instruction::SkipRegEq(0, 1), &mut ram.memory, &mut display).unwrap();
    assert_eq!(cpu.pc, 6);
    cpu.execute(Instruction::SkipRegEq(0, 2), &mut ram.memory, &mut display).unwrap();
    assert_eq!(cpu.pc, 6);

    // The glyph of the digit held in Vx: here V0 = 4, V1 = 4, V2 = 2, the rest 0.
    let held: [u16; 16] = [4, 4, 2, 0, 0, 0, 0, 0, 0, 0, 0, 0, 0, 0, 0, 0];
    for i in 0..=0xF {
        cpu.execute(Instruction::SetIndexToFontLocation(i as u8), &mut ram.memory, &mut display)
            .unwrap();
        assert_eq!(cpu.i, FONT_LOCATION as u16 + held[i] * 0x5);
    }

    for i in 0..=0xF {
        cpu.execute(Instruction::SetReg(i, i), &mut ram.memory, &mut display).unwrap();
        assert_eq!(cpu.registers[i as usize], i);
    }
    cpu.execute(Instruction::SetIndex(0), &mut ram.memory, &mut display).unwrap();
    assert_eq!(cpu.i, 0);
    cpu.execute(Instruction::Store(0xF), &mut ram.memory, &mut display).unwrap();
    assert_eq!(ram.memory[0..=0xF], (0..=0xF).collect::<Vec<u8>>());

    for i in 0..=0xF {
        cpu.execute(Instruction::SetReg(i, 0), &mut ram.memory, &mut display).unwrap();
        assert_eq!(cpu.registers[i as usize], 0);
    }
    cpu.execute(Instruction::Load(0xF), &mut ram.memory, &mut display).unwrap();
    assert_eq!(cpu.registers[0..=0xF], (0..=0xF).collect::<Vec<u8>>());

    cpu.execute(Instruction::AddToIndex(1), &mut ram.memory, &mut display).unwrap();
    assert_eq!(cpu.i, 1);

    cpu.execute(Instruction::SetReg(0, 12), &mut ram.memory, &mut display).unwrap();
    assert_eq!(cpu.registers[0], 12);
    cpu.execute(Instruction::BCDConversion(0), &mut ram.memory, &mut display).unwrap();
    for i in 1..=3 {
        assert_eq!(ram.memory[i], i as u8 - 1);
    }

    cpu.execute(Instruction::SetReg(0, 1), &mut ram.memory, &mut display).unwrap();
    assert_eq!(cpu.registers[0], 1);
    cpu.execute(Instruction::JumpWithOffset(0x5), &mut ram.memory, &mut display).unwrap();
    assert_eq!(cpu.pc, 0x6);

    for i in 0..=0xF {
        cpu.execute(Instruction::Random(i, 0), &mut ram.memory, &mut display).unwrap();
        assert_eq!(cpu.registers[i as usize], 0);
    }
    for i in 0..=0xF {
        cpu.execute(Instruction::Random(i, 0x0F), &mut ram.memory, &mut display).unwrap();
        assert!(cpu.registers[i as usize] <= 0x0F);
    }

    for i in (0..display.pixels.as_flattened().len()).step_by(3) {
        display.pixels.as_flattened_mut()[i] = true;
    }
    cpu.execute(Instruction::ClearScreen(), &mut ram.memory, &mut display).unwrap();
    assert_eq!(display.pixels, [[false; CHIP8_DISPLAY_WIDTH]; CHIP8_DISPLAY_HEIGHT]);
}

#[test]
fn decode_each_family() {
    assert_eq!(CPU::decode(0x00E0), Instruction::ClearScreen());
    assert_eq!(CPU::decode(0x00EE), Instruction::Return());
    assert_eq!(CPU::decode(0x0123), Instruction::Unknown(0x0123));
    assert_eq!(CPU::decode(0x1ABC), Instruction::Jump(0xABC));
    assert_eq!(CPU::decode(0x2ABC), Instruction::CallSub(0xABC));
    assert_eq!(CPU::decode(0x3A12), Instruction::SkipEq(0xA, 0x12));
    assert_eq!(CPU::decode(0x4A12), Instruction::SkipNEq(0xA, 0x12));
    assert_eq!(CPU::decode(0x5AB0), Instruction::SkipRegEq(0xA, 0xB));
    assert_eq!(CPU::decode(0x6A12), Instruction::SetReg(0xA, 0x12));
    assert_eq!(CPU::decode(0x7A12), Instruction::Add(0xA, 0x12));
    assert_eq!(
        CPU::decode(0x8AB4),
        Instruction::AluOperation { x: 0xA, y: 0xB, operation: AluOp::AddRegReg }
    );
    assert_eq!(
        CPU::decode(0x8ABE),
        Instruction::AluOperation { x: 0xA, y: 0xB, operation: AluOp::ShiftLeft }
    );
    assert_eq!(CPU::decode(0x8AB8), Instruction::Unknown(0x8AB8));
    assert_eq!(CPU::decode(0x9AB0), Instruction::SkipRegNEq(0xA, 0xB));
    assert_eq!(CPU::decode(0xA123), Instruction::SetIndex(0x123));
    assert_eq!(CPU::decode(0xB123), Instruction::JumpWithOffset(0x123));
    assert_eq!(CPU::decode(0xC3FF), Instruction::Random(3, 0xFF));
    assert_eq!(CPU::decode(0xD125), Instruction::Display { x: 1, y: 2, height: 5 });
    assert_eq!(CPU::decode(0xE49E), Instruction::SkipIfPressed(4));
    assert_eq!(CPU::decode(0xE4A1), Instruction::SkipIfNotPressed(4));
    assert_eq!(CPU::decode(0xE400), Instruction::Unknown(0xE400));
    assert_eq!(CPU::decode(0xF507), Instruction::GetDelayTimer(5));
    assert_eq!(CPU::decode(0xF50A), Instruction::WaitForKey(5));
    assert_eq!(CPU::decode(0xF515), Instruction::SetDelayTimer(5));
    assert_eq!(CPU::decode(0xF518), Instruction::SetSoundTimer(5));
    assert_eq!(CPU::decode(0xF51E), Instruction::AddToIndex(5));
    assert_eq!(CPU::decode(0xF529), Instruction::SetIndexToFontLocation(5));
    assert_eq!(CPU::decode(0xF533), Instruction::BCDConversion(5));
    assert_eq!(CPU::decode(0xF555), Instruction::Store(5));
    assert_eq!(CPU::decode(0xF565), Instruction::Load(5));
    assert_eq!(CPU::decode(0xF5FF), Instruction::Unknown(0xF5FF));
}

#[test]
fn decode_every_word() {
    for w in 0..=u16::MAX {
        let ins = CPU::decode(w);
        if let Instruction::Unknown(word) = ins {
            assert_eq!(word, w);
        }
    }
}

#[test]
fn add_sets_carry_flag() {
    let (mut cpu, mut ram, mut display) = machine();
    cpu.registers[1] = 200;
    cpu.registers[2] = 100;
    let add = Instruction::AluOperation { x: 1, y: 2, operation: AluOp::AddRegReg };
    cpu.execute(add, &mut ram.memory, &mut display).unwrap();
    assert_eq!(cpu.registers[1], 44);
    assert_eq!(cpu.registers[0xF], 1);

    cpu.registers[1] = 200;
    cpu.registers[2] = 55;
    cpu.execute(add, &mut ram.memory, &mut display).unwrap();
    assert_eq!(cpu.registers[1], 255);
    assert_eq!(cpu.registers[0xF], 0);
}

#[test]
fn sub_sets_no_borrow_flag() {
    let (mut cpu, mut ram, mut display) = machine();
    let sub = Instruction::AluOperation { x: 1, y: 2, operation: AluOp::Sub };
    let neg = Instruction::AluOperation { x: 1, y: 2, operation: AluOp::SubNeg };

    cpu.registers[1] = 10;
    cpu.registers[2] = 3;
    cpu.execute(sub, &mut ram.memory, &mut display).unwrap();
    assert_eq!((cpu.registers[1], cpu.registers[0xF]), (7, 1));

    cpu.registers[1] = 3;
    cpu.registers[2] = 10;
    cpu.execute(sub, &mut ram.memory, &mut display).unwrap();
    assert_eq!((cpu.registers[1], cpu.registers[0xF]), (249, 0));

    cpu.registers[1] = 5;
    cpu.registers[2] = 5;
    cpu.execute(sub, &mut ram.memory, &mut display).unwrap();
    assert_eq!((cpu.registers[1], cpu.registers[0xF]), (0, 1));

    cpu.registers[1] = 3;
    cpu.registers[2] = 10;
    cpu.execute(neg, &mut ram.memory, &mut display).unwrap();
    assert_eq!((cpu.registers[1], cpu.registers[0xF]), (7, 1));

    cpu.registers[1] = 10;
    cpu.registers[2] = 3;
    cpu.execute(neg, &mut ram.memory, &mut display).unwrap();
    assert_eq!((cpu.registers[1], cpu.registers[0xF]), (249, 0));
}

#[test]
fn bitwise_operations() {
    let (mut cpu, mut ram, mut display) = machine();
    let ops = [
        (AluOp::LoadRegReg, 0b0101_0101),
        (AluOp::Or, 0b1111_0101),
        (AluOp::And, 0b0000_0000),
        (AluOp::Xor, 0b1111_0101),
    ];
    for (operation, expected) in ops {
        cpu.registers[3] = 0b1010_0000;
        cpu.registers[4] = 0b0101_0101;
        cpu.registers[0xF] = 9;
        cpu.execute(Instruction::AluOperation { x: 3, y: 4, operation }, &mut ram.memory, &mut display)
            .unwrap();
        assert_eq!(cpu.registers[3], expected);
        assert_eq!(cpu.registers[0xF], 9);
    }
}

#[test]
fn shifts_put_the_bit_in_vy_by_default() {
    let (mut cpu, mut ram, mut display) = machine();
    assert!(cpu.shift_quirk);
    cpu.registers[1] = 0b1000_0011;
    cpu.registers[0xF] = 7;
    let right = Instruction::AluOperation { x: 1, y: 2, operation: AluOp::ShiftRight };
    cpu.execute(right, &mut ram.memory, &mut display).unwrap();
    assert_eq!((cpu.registers[1], cpu.registers[2], cpu.registers[0xF]), (0b0100_0001, 1, 7));

    cpu.registers[1] = 0b1000_0011;
    let left = Instruction::AluOperation { x: 1, y: 2, operation: AluOp::ShiftLeft };
    cpu.execute(left, &mut ram.memory, &mut display).unwrap();
    assert_eq!((cpu.registers[1], cpu.registers[2], cpu.registers[0xF]), (0b0000_0110, 1, 7));
}

#[test]
fn shifts_put_the_bit_in_vf_without_the_quirk() {
    let (mut cpu, mut ram, mut display) = machine();
    cpu.shift_quirk = false;
    cpu.registers[1] = 0b0000_0010;
    cpu.registers[2] = 9;
    let right = Instruction::AluOperation { x: 1, y: 2, operation: AluOp::ShiftRight };
    cpu.execute(right, &mut ram.memory, &mut display).unwrap();
    assert_eq!((cpu.registers[1], cpu.registers[2], cpu.registers[0xF]), (1, 9, 0));

    cpu.registers[1] = 0b1100_0000;
    let left = Instruction::AluOperation { x: 1, y: 2, operation: AluOp::ShiftLeft };
    cpu.execute(left, &mut ram.memory, &mut display).unwrap();
    assert_eq!((cpu.registers[1], cpu.registers[2], cpu.registers[0xF]), (0b1000_0000, 9, 1));
}

#[test]
fn add_immediate_wraps_without_flag() {
    let (mut cpu, mut ram, mut display) = machine();
    cpu.registers[5] = 250;
    cpu.registers[0xF] = 3;
    cpu.execute(Instruction::Add(5, 10), &mut ram.memory, &mut display).unwrap();
    assert_eq!(cpu.registers[5], 4);
    assert_eq!(cpu.registers[0xF], 3);
}

#[test]
fn store_then_load_restores_registers() {
    let (mut cpu, mut ram, mut display) = machine();
    for k in 0..16 {
        cpu.registers[k] = (k as u8) * 11 + 1;
    }
    let saved = cpu.registers;
    cpu.execute(Instruction::SetIndex(0x300), &mut ram.memory, &mut display).unwrap();
    cpu.execute(Instruction::Store(5), &mut ram.memory, &mut display).unwrap();
    assert_eq!(ram.memory[0x300..=0x305], saved[0..=5]);
    assert_eq!(ram.memory[0x306], 0);
    for k in 0..16 {
        cpu.registers[k] = 0;
    }
    cpu.execute(Instruction::Load(5), &mut ram.memory, &mut display).unwrap();
    assert_eq!(cpu.registers[0..=5], saved[0..=5]);
    assert_eq!(cpu.registers[6], 0);
}

#[test]
fn font_location_of_digit_five() {
    let (mut cpu, mut ram, mut display) = machine();
    cpu.registers[5] = 5;
    cpu.execute(Instruction::SetIndexToFontLocation(5), &mut ram.memory, &mut display).unwrap();
    assert_eq!(cpu.i, FONT_LOCATION as u16 + 25);
}

#[test]
fn bcd_writes_three_digits() {
    let (mut cpu, mut ram, mut display) = machine();
    cpu.registers[3] = 254;
    cpu.i = 0x400;
    cpu.execute(Instruction::BCDConversion(3), &mut ram.memory, &mut display).unwrap();
    assert_eq!(ram.memory[0x400..0x403], [2, 5, 4]);
}

#[test]
fn add_to_index_flags_crossing_the_address_space() {
    let (mut cpu, mut ram, mut display) = machine();
    cpu.i = 0xFF0;
    cpu.registers[2] = 0x20;
    cpu.execute(Instruction::AddToIndex(2), &mut ram.memory, &mut display).unwrap();
    assert_eq!(cpu.i, 0x1010);
    assert_eq!(cpu.registers[2], 1);

    cpu.registers[2] = 0x20;
    cpu.execute(Instruction::AddToIndex(2), &mut ram.memory, &mut display).unwrap();
    assert_eq!(cpu.i, 0x1030);
    assert_eq!(cpu.registers[2], 0x20);
}

#[test]
fn display_draws_and_reports_collision() {
    let (mut cpu, mut ram, mut display) = machine();
    ram.memory[0x300] = 0b1100_0000;
    cpu.i = 0x300;
    cpu.registers[0] = 62;
    cpu.registers[1] = 31;
    let draw = Instruction::Display { x: 0, y: 1, height: 1 };
    cpu.execute(draw, &mut ram.memory, &mut display).unwrap();
    assert!(display.pixels[31][62]);
    assert!(display.pixels[31][63]);
    assert_eq!(cpu.registers[0xF], 0);
    assert_eq!(display.backend.frames, 1);

    cpu.execute(draw, &mut ram.memory, &mut display).unwrap();
    assert!(!display.pixels[31][62]);
    assert!(!display.pixels[31][63]);
    assert_eq!(cpu.registers[0xF], 1);
}

#[test]
fn display_position_wraps_but_sprite_is_clipped() {
    let (mut cpu, mut ram, mut display) = machine();
    ram.memory[0x300] = 0xFF;
    ram.memory[0x301] = 0xFF;
    cpu.i = 0x300;
    cpu.registers[0] = 64 + 60;
    cpu.registers[1] = 32 + 31;
    cpu.execute(Instruction::Display { x: 0, y: 1, height: 2 }, &mut ram.memory, &mut display)
        .unwrap();
    let lit: usize = display.pixels.as_flattened().iter().filter(|p| **p).count();
    assert_eq!(lit, 4);
    for x in 60..64 {
        assert!(display.pixels[31][x]);
    }
    assert!(!display.pixels[0][0]);
}

#[test]
fn skip_on_keys() {
    let (mut cpu, mut ram, mut display) = machine();
    display.backend.keys = vec![3, 7];
    cpu.registers[0] = 7;
    cpu.execute(Instruction::SkipIfPressed(0), &mut ram.memory, &mut display).unwrap();
    assert_eq!(cpu.pc, 2);
    cpu.execute(Instruction::SkipIfNotPressed(0), &mut ram.memory, &mut display).unwrap();
    assert_eq!(cpu.pc, 2);
    cpu.registers[0] = 4;
    cpu.execute(Instruction::SkipIfNotPressed(0), &mut ram.memory, &mut display).unwrap();
    assert_eq!(cpu.pc, 4);
    assert!(key_held(&vec![1, 2, 3], 3));
    assert!(!key_held(&vec![], 0));
}

#[test]
fn wait_for_key_and_timers() {
    let (mut cpu, mut ram, mut display) = machine();
    display.backend.next_key = 0xA;
    cpu.execute(Instruction::WaitForKey(4), &mut ram.memory, &mut display).unwrap();
    assert_eq!(cpu.registers[4], 0xA);

    cpu.registers[1] = 200;
    cpu.execute(Instruction::SetDelayTimer(1), &mut ram.memory, &mut display).unwrap();
    cpu.execute(Instruction::GetDelayTimer(2), &mut ram.memory, &mut display).unwrap();
    assert!(cpu.registers[2] <= 200 && cpu.registers[2] >= 190);
    cpu.execute(Instruction::SetSoundTimer(1), &mut ram.memory, &mut display).unwrap();
    assert!(cpu.sound_timer.get_value() >= 190);
}

#[test]
fn call_and_return_use_the_stack() {
    let (mut cpu, mut ram, mut display) = machine();
    cpu.pc = 0x202;
    cpu.execute(Instruction::CallSub(0x400), &mut ram.memory, &mut display).unwrap();
    assert_eq!(cpu.stack, vec![0x202]);
    assert_eq!(cpu.pc, 0x400);
    cpu.execute(Instruction::Return(), &mut ram.memory, &mut display).unwrap();
    assert_eq!(cpu.pc, 0x202);
    assert!(cpu.stack.is_empty());
}

#[test]
fn execution_errors() {
    let (mut cpu, mut ram, mut display) = machine();
    assert_eq!(
        cpu.execute(Instruction::Return(), &mut ram.memory, &mut display),
        Err(ExecError::StackUnderflow)
    );
    assert_eq!(
        cpu.execute(Instruction::Unknown(0x8AB9), &mut ram.memory, &mut display),
        Err(ExecError::UnknownInstruction(0x8AB9))
    );
    cpu.i = 0xFFE;
    assert_eq!(
        cpu.execute(Instruction::BCDConversion(0), &mut ram.memory, &mut display),
        Err(ExecError::AddressOutOfRange(0xFFE))
    );
    assert_eq!(
        cpu.execute(Instruction::Store(2), &mut ram.memory, &mut display),
        Err(ExecError::AddressOutOfRange(0xFFE))
    );
    assert_eq!(
        cpu.execute(Instruction::Load(2), &mut ram.memory, &mut display),
        Err(ExecError::AddressOutOfRange(0xFFE))
    );
    assert_eq!(
        cpu.execute(Instruction::Display { x: 0, y: 0, height: 3 }, &mut ram.memory, &mut display),
        Err(ExecError::AddressOutOfRange(0xFFE))
    );
    assert_eq!(ram.memory[0xFFE], 0);
    cpu.execute(Instruction::Store(1), &mut ram.memory, &mut display).unwrap();
}

#[test]
fn error_messages() {
    assert_eq!(ExecError::UnknownInstruction(0x8AB9).to_string(), "Unknown instruction: 8AB9");
    assert_eq!(ExecError::StackUnderflow.to_string(), "Return while stack is empty.");
    assert_eq!(
        ExecError::AddressOutOfRange(0xFFE).to_string(),
        "Memory access past the end from I = 0xFFE"
    );
}

#[test]
fn fetch_reads_big_endian_and_wraps() {
    let mut cpu = CPU::new();
    let mut ram = Ram::new();
    ram.memory[0x200] = 0x12;
    ram.memory[0x201] = 0x34;
    ram.memory[0xFFF] = 0xAB;
    ram.memory[0] = 0xCD;
    cpu.pc = 0x200;
    assert_eq!(cpu.fetch(ram.memory), 0x1234);
    assert_eq!(cpu.pc, 0x202);
    cpu.pc = 0xFFF;
    assert_eq!(cpu.fetch(ram.memory), 0xABCD);
    assert_eq!(cpu.pc, 0x1001);
}

#[test]
fn instruction_text() {
    assert_eq!(Instruction::ClearScreen().to_string(), "CLS");
    assert_eq!(Instruction::Jump(0x2A0).to_string(), "JP 0x2A0");
    assert_eq!(Instruction::SkipEq(0xB, 0x0).to_string(), "SE VB, 0x0");
    assert_eq!(
        Instruction::AluOperation { x: 1, y: 0xC, operation: AluOp::ShiftRight }.to_string(),
        "SHR V1 {, VC}"
    );
    assert_eq!(Instruction::Display { x: 1, y: 2, height: 0xF }.to_string(), "DRW V1, V2, F");
    assert_eq!(Instruction::Store(3).to_string(), "LD [I], V3");
    assert_eq!(Instruction::Unknown(0xFFFF).to_string(), ".dw 0xFFFF");
}

#[test]
fn state_dump() {
    let mut cpu = CPU::new();
    cpu.pc = 0x20A;
    cpu.i = 0x3C;
    cpu.stack = vec![0x200, 0x300];
    cpu.registers[0xF] = 0xFE;
    let text = cpu.to_string();
    let mut expected = String::from("PC: 0x20A\nI: 0x3C\nStack: [512, 768]\n");
    for n in 0..15 {
        expected.push_str(&format!("V{:X}: 0\n", n));
    }
    expected.push_str("VF: FE\n");
    assert_eq!(text, expected);
}

#[test]
fn disassemble_listing() {
    assert_eq!(disassemble(&[0x00, 0xE0, 0x12, 0x00]), "CLS\nJP 0x200\n");
    assert_eq!(disassemble(&[0x60, 0x0A, 0x8A]), "LD V0, 0xA\n.db 0x8A\n");
    assert_eq!(disassemble(&[]), "");
    assert_eq!(disassemble(&[0xFF, 0xFF]).lines().count(), 1);
}

#[test]
fn key_skip_decision() {
    let keys = vec![2, 9];
    assert_eq!(skip_on_key(0x300, &keys, 9, true), 0x302);
    assert_eq!(skip_on_key(0x300, &keys, 9, false), 0x300);
    assert_eq!(skip_on_key(0x300, &keys, 4, true), 0x300);
    assert_eq!(skip_on_key(0x300, &keys, 4, false), 0x302);
    assert_eq!(skip_on_key(0xFFFE, &keys, 4, false), 0);
}

#[test]
fn trace_of_an_instruction() {
    let mut cpu = CPU::new();
    cpu.pc = 0x202;
    let text = trace_text(Instruction::SetReg(0, 0x2A), &cpu);
    assert!(text.starts_with("LD V0, 0x2A\nPC: 0x202\nI: 0x0\nStack: []\nV0: 0\n"));
    assert!(text.ends_with("VF: 0\n"));
}

#[test]
fn default_cpu_is_new() {
    let cpu = CPU::default();
    assert_eq!(cpu.pc, 0);
    assert_eq!(cpu.i, 0);
    assert_eq!(cpu.registers, [0; 16]);
    assert!(cpu.stack.is_empty());
    assert!(cpu.shift_quirk);
    let mut timer = chip_8::timer::Timer::default();
    assert_eq!(timer.get_value(), 0);
}

#[test]
fn font_glyph_of_digit_zero() {
    let ram = Ram::new();
    assert_eq!(ram.memory[FONT_LOCATION..FONT_LOCATION + 5], [0xF0, 0x90, 0x90, 0x90, 0xF0]);
    assert_eq!(ram.memory[FONT_LOCATION + 75..FONT_LOCATION + 80], [0xF0, 0x80, 0xF0, 0x80, 0x80]);
    assert_eq!(ram.memory[FONT_LOCATION - 1], 0);
    assert_eq!(ram.memory[FONT_LOCATION + 80], 0);
    assert!(ram.memory[0x200..].iter().all(|b| *b == 0));
}

#[test]
fn odd_trailing_byte_is_hexadecimal() {
    assert_eq!(disassemble(&[0xAB]), ".db 0xAB\n");
}
