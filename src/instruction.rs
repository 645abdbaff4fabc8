use crate::text::{hex, push_hex};
use vstd::prelude::*;
use vstd::string::*;

verus! {

/// A decoded instruction word. `x` and `y` name registers, `nn` is an 8-bit
/// immediate and `nnn` a 12-bit address.
#[derive(Debug, PartialEq, Eq, Structural, Clone, Copy)]
pub enum Instruction {
    ClearScreen(),
    Return(),
    Jump(u16),
    CallSub(u16),
    SkipEq(u8, u8),
    SkipNEq(u8, u8),
    SkipRegEq(u8, u8),
    SetReg(u8, u8),
    Add(u8, u8),
    AluOperation { x: u8, y: u8, operation: AluOp },
    SkipRegNEq(u8, u8),
    SetIndex(u16),
    JumpWithOffset(u16),
    Random(u8, u8),
    Display { x: u8, y: u8, height: u8 },
    SkipIfPressed(u8),
    SkipIfNotPressed(u8),
    GetDelayTimer(u8),
    WaitForKey(u8),
    SetDelayTimer(u8),
    SetSoundTimer(u8),
    AddToIndex(u8),
    SetIndexToFontLocation(u8),
    BCDConversion(u8),
    Store(u8),
    Load(u8),
    Unknown(u16),
}

/// The register-to-register operations of the `8xyN` family.
#[derive(Debug, PartialEq, Eq, Structural, Clone, Copy)]
pub enum AluOp {
    LoadRegReg,
    Or,
    And,
    Xor,
    AddRegReg,
    Sub,
    ShiftRight,
    SubNeg,
    ShiftLeft,
}

/// The opcode family: the high nibble of the word.
pub open spec fn family(w: u16) -> int {
    w as int / 0x1000
}

/// The low nibble of the high byte.
pub open spec fn field_x(w: u16) -> u8 {
    ((w / 0x100) % 0x10) as u8
}

/// The high nibble of the low byte.
pub open spec fn field_y(w: u16) -> u8 {
    ((w / 0x10) % 0x10) as u8
}

/// The low nibble of the low byte.
pub open spec fn field_n(w: u16) -> u8 {
    (w % 0x10) as u8
}

/// The low byte.
pub open spec fn field_nn(w: u16) -> u8 {
    (w % 0x100) as u8
}

/// The low twelve bits.
pub open spec fn field_nnn(w: u16) -> u16 {
    (w % 0x1000) as u16
}

/// The ALU operation selected by the low nibble of an `8xyN` word.
pub open spec fn alu_op_of(n: u8) -> Option<AluOp> {
    if n == 0x0 {
        Some(AluOp::LoadRegReg)
    } else if n == 0x1 {
        Some(AluOp::Or)
    } else if n == 0x2 {
        Some(AluOp::And)
    } else if n == 0x3 {
        Some(AluOp::Xor)
    } else if n == 0x4 {
        Some(AluOp::AddRegReg)
    } else if n == 0x5 {
        Some(AluOp::Sub)
    } else if n == 0x6 {
        Some(AluOp::ShiftRight)
    } else if n == 0x7 {
        Some(AluOp::SubNeg)
    } else if n == 0xE {
        Some(AluOp::ShiftLeft)
    } else {
        None
    }
}

/// The instruction that a 16-bit word encodes.
pub open spec fn decode_spec(w: u16) -> Instruction {
    let f = family(w);
    let x = field_x(w);
    let y = field_y(w);
    let nn = field_nn(w);
    let nnn = field_nnn(w);
    if f == 0x0 {
        if nn == 0xE0 {
            Instruction::ClearScreen()
        } else if nn == 0xEE {
            Instruction::Return()
        } else {
            Instruction::Unknown(w)
        }
    } else if f == 0x1 {
        Instruction::Jump(nnn)
    } else if f == 0x2 {
        Instruction::CallSub(nnn)
    } else if f == 0x3 {
        Instruction::SkipEq(x, nn)
    } else if f == 0x4 {
        Instruction::SkipNEq(x, nn)
    } else if f == 0x5 {
        Instruction::SkipRegEq(x, y)
    } else if f == 0x6 {
        Instruction::SetReg(x, nn)
    } else if f == 0x7 {
        Instruction::Add(x, nn)
    } else if f == 0x8 {
        match alu_op_of(field_n(w)) {
            Some(operation) => Instruction::AluOperation { x, y, operation },
            None => Instruction::Unknown(w),
        }
    } else if f == 0x9 {
        Instruction::SkipRegNEq(x, y)
    } else if f == 0xA {
        Instruction::SetIndex(nnn)
    } else if f == 0xB {
        Instruction::JumpWithOffset(nnn)
    } else if f == 0xC {
        Instruction::Random(x, nn)
    } else if f == 0xD {
        Instruction::Display { x, y, height: field_n(w) }
    } else if f == 0xE {
        if nn == 0x9E {
            Instruction::SkipIfPressed(x)
        } else if nn == 0xA1 {
            Instruction::SkipIfNotPressed(x)
        } else {
            Instruction::Unknown(w)
        }
    } else {
        if nn == 0x07 {
            Instruction::GetDelayTimer(x)
        } else if nn == 0x0A {
            Instruction::WaitForKey(x)
        } else if nn == 0x15 {
            Instruction::SetDelayTimer(x)
        } else if nn == 0x18 {
            Instruction::SetSoundTimer(x)
        } else if nn == 0x1E {
            Instruction::AddToIndex(x)
        } else if nn == 0x29 {
            Instruction::SetIndexToFontLocation(x)
        } else if nn == 0x33 {
            Instruction::BCDConversion(x)
        } else if nn == 0x55 {
            Instruction::Store(x)
        } else if nn == 0x65 {
            Instruction::Load(x)
        } else {
            Instruction::Unknown(w)
        }
    }
}

/// The assembly text of an ALU operation on Vx and Vy.
pub open spec fn alu_text(x: u8, y: u8, op: AluOp) -> Seq<char> {
    match op {
        AluOp::LoadRegReg => "LD V"@ + hex(x as nat) + ", V"@ + hex(y as nat),
        AluOp::Or => "OR V"@ + hex(x as nat) + ", V"@ + hex(y as nat),
        AluOp::And => "AND V"@ + hex(x as nat) + ", V"@ + hex(y as nat),
        AluOp::Xor => "XOR V"@ + hex(x as nat) + ", V"@ + hex(y as nat),
        AluOp::AddRegReg => "ADD V"@ + hex(x as nat) + ", V"@ + hex(y as nat),
        AluOp::Sub => "SUB V"@ + hex(x as nat) + ", V"@ + hex(y as nat),
        AluOp::ShiftRight => "SHR V"@ + hex(x as nat) + " {, V"@ + hex(y as nat) + "}"@,
        AluOp::SubNeg => "SUBN V"@ + hex(x as nat) + ", V"@ + hex(y as nat),
        AluOp::ShiftLeft => "SHL V"@ + hex(x as nat) + " {, V"@ + hex(y as nat) + "}"@,
    }
}

/// The assembly text of an instruction.
pub open spec fn text(ins: Instruction) -> Seq<char> {
    match ins {
        Instruction::ClearScreen() => "CLS"@,
        Instruction::Return() => "RET"@,
        Instruction::Jump(nnn) => "JP 0x"@ + hex(nnn as nat),
        Instruction::CallSub(nnn) => "CALL 0x"@ + hex(nnn as nat),
        Instruction::SkipEq(x, nn) => "SE V"@ + hex(x as nat) + ", 0x"@ + hex(nn as nat),
        Instruction::SkipNEq(x, nn) => "SNE V"@ + hex(x as nat) + ", 0x"@ + hex(nn as nat),
        Instruction::SkipRegEq(x, y) => "SE V"@ + hex(x as nat) + ", V"@ + hex(y as nat),
        Instruction::SetReg(x, nn) => "LD V"@ + hex(x as nat) + ", 0x"@ + hex(nn as nat),
        Instruction::Add(x, nn) => "ADD V"@ + hex(x as nat) + ", 0x"@ + hex(nn as nat),
        Instruction::SkipRegNEq(x, y) => "SNE V"@ + hex(x as nat) + ", V"@ + hex(y as nat),
        Instruction::SetIndex(nnn) => "LD I, 0x"@ + hex(nnn as nat),
        Instruction::JumpWithOffset(nnn) => "JP V0, 0x"@ + hex(nnn as nat),
        Instruction::Random(x, nn) => "RND V"@ + hex(x as nat) + ", 0x"@ + hex(nn as nat),
        Instruction::Display { x, y, height } => {
            "DRW V"@ + hex(x as nat) + ", V"@ + hex(y as nat) + ", "@ + hex(height as nat)
        },
        Instruction::SkipIfPressed(x) => "SKP V"@ + hex(x as nat),
        Instruction::SkipIfNotPressed(x) => "SKNP V"@ + hex(x as nat),
        Instruction::GetDelayTimer(x) => "LD V"@ + hex(x as nat) + ", DT"@,
        Instruction::WaitForKey(x) => "LD V"@ + hex(x as nat) + ", K"@,
        Instruction::SetDelayTimer(x) => "LD DT, V"@ + hex(x as nat),
        Instruction::SetSoundTimer(x) => "LD ST, V"@ + hex(x as nat),
        Instruction::AddToIndex(x) => "ADD I, V"@ + hex(x as nat),
        Instruction::SetIndexToFontLocation(x) => "LD F, V"@ + hex(x as nat),
        Instruction::BCDConversion(x) => "LD B, V"@ + hex(x as nat),
        Instruction::Store(x) => "LD [I], V"@ + hex(x as nat),
        Instruction::Load(x) => "LD V"@ + hex(x as nat) + ", [I]"@,
        Instruction::Unknown(w) => ".dw 0x"@ + hex(w as nat),
        Instruction::AluOperation { x, y, operation } => alu_text(x, y, operation),
    }
}

impl Instruction {
    /// The assembly text of the instruction: its mnemonic and operands, with
    /// registers as `V` and a hexadecimal digit, and numbers in upper-case
    /// hexadecimal.
    pub fn to_string(&self) -> (r: String)
        ensures
            r@ == text(*self),
    {
        let mut out = String::new();
        match *self {
            Instruction::ClearScreen() => {
                out.append("CLS");
            },
            Instruction::Return() => {
                out.append("RET");
            },
            Instruction::Jump(nnn) => {
                out.append("JP 0x");
                push_hex(&mut out, nnn as u64);
            },
            Instruction::CallSub(nnn) => {
                out.append("CALL 0x");
                push_hex(&mut out, nnn as u64);
            },
            Instruction::SkipEq(x, nn) => {
                out.append("SE V");
                push_hex(&mut out, x as u64);
                out.append(", 0x");
                push_hex(&mut out, nn as u64);
            },
            Instruction::SkipNEq(x, nn) => {
                out.append("SNE V");
                push_hex(&mut out, x as u64);
                out.append(", 0x");
                push_hex(&mut out, nn as u64);
            },
            Instruction::SkipRegEq(x, y) => {
                out.append("SE V");
                push_hex(&mut out, x as u64);
                out.append(", V");
                push_hex(&mut out, y as u64);
            },
            Instruction::SetReg(x, nn) => {
                out.append("LD V");
                push_hex(&mut out, x as u64);
                out.append(", 0x");
                push_hex(&mut out, nn as u64);
            },
            Instruction::Add(x, nn) => {
                out.append("ADD V");
                push_hex(&mut out, x as u64);
                out.append(", 0x");
                push_hex(&mut out, nn as u64);
            },
            Instruction::SkipRegNEq(x, y) => {
                out.append("SNE V");
                push_hex(&mut out, x as u64);
                out.append(", V");
                push_hex(&mut out, y as u64);
            },
            Instruction::SetIndex(nnn) => {
                out.append("LD I, 0x");
                push_hex(&mut out, nnn as u64);
            },
            Instruction::JumpWithOffset(nnn) => {
                out.append("JP V0, 0x");
                push_hex(&mut out, nnn as u64);
            },
            Instruction::Random(x, nn) => {
                out.append("RND V");
                push_hex(&mut out, x as u64);
                out.append(", 0x");
                push_hex(&mut out, nn as u64);
            },
            Instruction::Display { x, y, height } => {
                out.append("DRW V");
                push_hex(&mut out, x as u64);
                out.append(", V");
                push_hex(&mut out, y as u64);
                out.append(", ");
                push_hex(&mut out, height as u64);
            },
            Instruction::SkipIfPressed(x) => {
                out.append("SKP V");
                push_hex(&mut out, x as u64);
            },
            Instruction::SkipIfNotPressed(x) => {
                out.append("SKNP V");
                push_hex(&mut out, x as u64);
            },
            Instruction::GetDelayTimer(x) => {
                out.append("LD V");
                push_hex(&mut out, x as u64);
                out.append(", DT");
            },
            Instruction::WaitForKey(x) => {
                out.append("LD V");
                push_hex(&mut out, x as u64);
                out.append(", K");
            },
            Instruction::SetDelayTimer(x) => {
                out.append("LD DT, V");
                push_hex(&mut out, x as u64);
            },
            Instruction::SetSoundTimer(x) => {
                out.append("LD ST, V");
                push_hex(&mut out, x as u64);
            },
            Instruction::AddToIndex(x) => {
                out.append("ADD I, V");
                push_hex(&mut out, x as u64);
            },
            Instruction::SetIndexToFontLocation(x) => {
                out.append("LD F, V");
                push_hex(&mut out, x as u64);
            },
            Instruction::BCDConversion(x) => {
                out.append("LD B, V");
                push_hex(&mut out, x as u64);
            },
            Instruction::Store(x) => {
                out.append("LD [I], V");
                push_hex(&mut out, x as u64);
            },
            Instruction::Load(x) => {
                out.append("LD V");
                push_hex(&mut out, x as u64);
                out.append(", [I]");
            },
            Instruction::Unknown(w) => {
                out.append(".dw 0x");
                push_hex(&mut out, w as u64);
            },
            Instruction::AluOperation { x, y, operation } => {
                match operation {
                    AluOp::LoadRegReg => {
                        out.append("LD V");
                        push_hex(&mut out, x as u64);
                        out.append(", V");
                        push_hex(&mut out, y as u64);
                    },
                    AluOp::Or => {
                        out.append("OR V");
                        push_hex(&mut out, x as u64);
                        out.append(", V");
                        push_hex(&mut out, y as u64);
                    },
                    AluOp::And => {
                        out.append("AND V");
                        push_hex(&mut out, x as u64);
                        out.append(", V");
                        push_hex(&mut out, y as u64);
                    },
                    AluOp::Xor => {
                        out.append("XOR V");
                        push_hex(&mut out, x as u64);
                        out.append(", V");
                        push_hex(&mut out, y as u64);
                    },
                    AluOp::AddRegReg => {
                        out.append("ADD V");
                        push_hex(&mut out, x as u64);
                        out.append(", V");
                        push_hex(&mut out, y as u64);
                    },
                    AluOp::Sub => {
                        out.append("SUB V");
                        push_hex(&mut out, x as u64);
                        out.append(", V");
                        push_hex(&mut out, y as u64);
                    },
                    AluOp::ShiftRight => {
                        out.append("SHR V");
                        push_hex(&mut out, x as u64);
                        out.append(" {, V");
                        push_hex(&mut out, y as u64);
                        out.append("}");
                    },
                    AluOp::SubNeg => {
                        out.append("SUBN V");
                        push_hex(&mut out, x as u64);
                        out.append(", V");
                        push_hex(&mut out, y as u64);
                    },
                    AluOp::ShiftLeft => {
                        out.append("SHL V");
                        push_hex(&mut out, x as u64);
                        out.append(" {, V");
                        push_hex(&mut out, y as u64);
                        out.append("}");
                    },
                }
            },
        }
        out
    }
}

} // verus!
