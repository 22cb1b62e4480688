//! The instruction decoder.
//!
//! An instruction is a 16-bit word, stored big-endian. Its top four bits
//! select a family; the families 0, 8, E and F are told apart further by
//! their low bits. The remaining bits are operands:
//!
//! ```text
//!   15..12   11..8   7..4   3..0
//!   family     x       y      n
//!                    \----kk----/
//!            \--------nnn-------/
//! ```
use vstd::prelude::*;

verus! {

/// The top four bits of an instruction word.
pub open spec fn family(word: u16) -> u16 {
    word / 0x1000
}

/// Bits 11..8: the first register operand.
pub open spec fn field_x(word: u16) -> u8 {
    ((word / 0x100) % 0x10) as u8
}

/// Bits 7..4: the second register operand.
pub open spec fn field_y(word: u16) -> u8 {
    ((word / 0x10) % 0x10) as u8
}

/// Bits 3..0: a four-bit immediate.
pub open spec fn field_n(word: u16) -> u8 {
    (word % 0x10) as u8
}

/// Bits 7..0: a byte immediate.
pub open spec fn field_kk(word: u16) -> u8 {
    (word % 0x100) as u8
}

/// Bits 11..0: an address.
pub open spec fn field_nnn(word: u16) -> u16 {
    word % 0x1000
}

/// A decoded instruction: what to do, and the operands that matter for it.
///
/// `x` and `y` name registers, `kk` is a byte immediate, `addr` a 12-bit
/// address and `n` a four-bit immediate.
#[derive(Clone, Copy, Debug, PartialEq, Eq, Structural)]
pub enum Operation {
    /// `00E0`: clear the screen.
    ClearScreen,
    /// `00EE`: return from a subroutine.
    Return,
    /// `0nnn`: call a machine-code routine; ignored.
    Sys { addr: u16 },
    /// `1nnn`: jump to `addr`.
    Jump { addr: u16 },
    /// `2nnn`: call the subroutine at `addr`.
    Call { addr: u16 },
    /// `3xkk`: skip the next instruction if `Vx == kk`.
    SkipEqualByte { x: u8, kk: u8 },
    /// `4xkk`: skip the next instruction if `Vx != kk`.
    SkipNotEqualByte { x: u8, kk: u8 },
    /// `5xy_`: skip the next instruction if `Vx == Vy`.
    SkipEqual { x: u8, y: u8 },
    /// `6xkk`: `Vx = kk`.
    LoadByte { x: u8, kk: u8 },
    /// `7xkk`: `Vx = Vx + kk`, wrapping, flag untouched.
    AddByte { x: u8, kk: u8 },
    /// `8xy0`: `Vx = Vy`.
    Move { x: u8, y: u8 },
    /// `8xy1`: `Vx = Vx | Vy`.
    Or { x: u8, y: u8 },
    /// `8xy2`: `Vx = Vx & Vy`.
    And { x: u8, y: u8 },
    /// `8xy3`: `Vx = Vx ^ Vy`.
    Xor { x: u8, y: u8 },
    /// `8xy4`: `Vx = Vx + Vy`, flag = carry.
    Add { x: u8, y: u8 },
    /// `8xy5`: `Vx = Vx - Vy`, flag = no borrow.
    Sub { x: u8, y: u8 },
    /// `8x_6`: `Vx = Vx >> 1`, flag = the bit shifted out.
    ShiftRight { x: u8 },
    /// `8xy7`: `Vx = Vy - Vx`, flag = no borrow.
    SubReverse { x: u8, y: u8 },
    /// `8x_E`: `Vx = Vx << 1`, flag = the bit shifted out.
    ShiftLeft { x: u8 },
    /// `9xy_`: skip the next instruction if `Vx != Vy`.
    SkipNotEqual { x: u8, y: u8 },
    /// `Annn`: `I = addr`.
    LoadIndex { addr: u16 },
    /// `Bnnn`: jump to `addr + V0`.
    JumpOffset { addr: u16 },
    /// `Cxkk`: `Vx = random byte & kk`.
    Random { x: u8, kk: u8 },
    /// `Dxyn`: draw the `n`-row sprite at `I` at position `(Vx, Vy)`.
    Draw { x: u8, y: u8, n: u8 },
    /// `Ex9E`: skip the next instruction if the key `Vx` is down.
    SkipKeyDown { x: u8 },
    /// `ExA1`: skip the next instruction if the key `Vx` is not down.
    SkipKeyUp { x: u8 },
    /// `Fx07`: `Vx = delay timer`.
    ReadDelay { x: u8 },
    /// `Fx0A`: wait for a key and store its code in `Vx`.
    WaitKey { x: u8 },
    /// `Fx15`: `delay timer = Vx`.
    SetDelay { x: u8 },
    /// `Fx18`: `sound timer = Vx`.
    SetSound { x: u8 },
    /// `Fx1E`: `I = I + Vx`.
    AddIndex { x: u8 },
    /// `Fx29`: `I = address of the glyph for the digit Vx`.
    LoadGlyph { x: u8 },
    /// `Fx33`: store the three decimal digits of `Vx` at `I`, `I+1`, `I+2`.
    StoreBcd { x: u8 },
    /// `Fx55`: store `V0..=Vx` from address `I` on.
    StoreRegisters { x: u8 },
    /// `Fx65`: load `V0..=Vx` from address `I` on.
    LoadRegisters { x: u8 },
    /// Any word that encodes none of the above.
    Unknown { word: u16 },
}

impl Operation {
    /// Every register operand names one of the sixteen registers, every
    /// address has twelve bits and every nibble four.
    pub open spec fn wf(self) -> bool {
        match self {
            Operation::ClearScreen | Operation::Return | Operation::Unknown { .. } => true,
            Operation::Sys { addr }
            | Operation::Jump { addr }
            | Operation::Call { addr }
            | Operation::LoadIndex { addr }
            | Operation::JumpOffset { addr } => addr < 0x1000,
            Operation::SkipEqualByte { x, .. }
            | Operation::SkipNotEqualByte { x, .. }
            | Operation::LoadByte { x, .. }
            | Operation::AddByte { x, .. }
            | Operation::Random { x, .. }
            | Operation::SkipKeyDown { x }
            | Operation::SkipKeyUp { x }
            | Operation::ReadDelay { x }
            | Operation::WaitKey { x }
            | Operation::SetDelay { x }
            | Operation::SetSound { x }
            | Operation::AddIndex { x }
            | Operation::LoadGlyph { x }
            | Operation::StoreBcd { x }
            | Operation::StoreRegisters { x }
            | Operation::LoadRegisters { x }
            | Operation::ShiftRight { x }
            | Operation::ShiftLeft { x } => x < 16,
            Operation::SkipEqual { x, y }
            | Operation::Move { x, y }
            | Operation::Or { x, y }
            | Operation::And { x, y }
            | Operation::Xor { x, y }
            | Operation::Add { x, y }
            | Operation::Sub { x, y }
            | Operation::SubReverse { x, y }
            | Operation::SkipNotEqual { x, y } => x < 16 && y < 16,
            Operation::Draw { x, y, n } => x < 16 && y < 16 && n < 16,
        }
    }
}

/// The operation that `word` encodes.
pub open spec fn decode_spec(word: u16) -> Operation {
    let x = field_x(word);
    let y = field_y(word);
    let n = field_n(word);
    let kk = field_kk(word);
    let addr = field_nnn(word);
    if family(word) == 0x0 {
        if kk == 0xE0 {
            Operation::ClearScreen
        } else if kk == 0xEE {
            Operation::Return
        } else {
            Operation::Sys { addr }
        }
    } else if family(word) == 0x1 {
        Operation::Jump { addr }
    } else if family(word) == 0x2 {
        Operation::Call { addr }
    } else if family(word) == 0x3 {
        Operation::SkipEqualByte { x, kk }
    } else if family(word) == 0x4 {
        Operation::SkipNotEqualByte { x, kk }
    } else if family(word) == 0x5 {
        Operation::SkipEqual { x, y }
    } else if family(word) == 0x6 {
        Operation::LoadByte { x, kk }
    } else if family(word) == 0x7 {
        Operation::AddByte { x, kk }
    } else if family(word) == 0x8 {
        if n == 0x0 {
            Operation::Move { x, y }
        } else if n == 0x1 {
            Operation::Or { x, y }
        } else if n == 0x2 {
            Operation::And { x, y }
        } else if n == 0x3 {
            Operation::Xor { x, y }
        } else if n == 0x4 {
            Operation::Add { x, y }
        } else if n == 0x5 {
            Operation::Sub { x, y }
        } else if n == 0x6 {
            Operation::ShiftRight { x }
        } else if n == 0x7 {
            Operation::SubReverse { x, y }
        } else if n == 0xE {
            Operation::ShiftLeft { x }
        } else {
            Operation::Unknown { word }
        }
    } else if family(word) == 0x9 {
        Operation::SkipNotEqual { x, y }
    } else if family(word) == 0xA {
        Operation::LoadIndex { addr }
    } else if family(word) == 0xB {
        Operation::JumpOffset { addr }
    } else if family(word) == 0xC {
        Operation::Random { x, kk }
    } else if family(word) == 0xD {
        Operation::Draw { x, y, n }
    } else if family(word) == 0xE {
        if kk == 0x9E {
            Operation::SkipKeyDown { x }
        } else if kk == 0xA1 {
            Operation::SkipKeyUp { x }
        } else {
            Operation::Unknown { word }
        }
    } else {
        if kk == 0x07 {
            Operation::ReadDelay { x }
        } else if kk == 0x0A {
            Operation::WaitKey { x }
        } else if kk == 0x15 {
            Operation::SetDelay { x }
        } else if kk == 0x18 {
            Operation::SetSound { x }
        } else if kk == 0x1E {
            Operation::AddIndex { x }
        } else if kk == 0x29 {
            Operation::LoadGlyph { x }
        } else if kk == 0x33 {
            Operation::StoreBcd { x }
        } else if kk == 0x55 {
            Operation::StoreRegisters { x }
        } else if kk == 0x65 {
            Operation::LoadRegisters { x }
        } else {
            Operation::Unknown { word }
        }
    }
}

/// Masking and shifting pick out the same fields as dividing and taking
/// remainders.
proof fn lemma_fields_by_mask(word: u16)
    by (bit_vector)
    ensures
        word & 0xF000 == (word / 0x1000) * 0x1000,
        (word & 0x0F00) >> 8 == (word / 0x100) % 0x10,
        (word & 0x00F0) >> 4 == (word / 0x10) % 0x10,
        word & 0x000F == word % 0x10,
        word & 0x00FF == word % 0x100,
        word & 0x0FFF == word % 0x1000,
{
}

/// Every word decodes to an operation with operands in range.
pub proof fn lemma_decode_wf(word: u16)
    ensures
        decode_spec(word).wf(),
{
}

/// The words that encode no instruction: in the family 8 those with a low
/// nibble of 8 to D or F, in the families E and F those whose low byte is
/// none of the assigned ones. An `Unknown` always carries the word it came
/// from.
pub proof fn lemma_unknown_words(word: u16)
    ensures
        decode_spec(word) is Unknown <==> {
            ||| family(word) == 0x8 && (0x8 <= field_n(word) <= 0xD || field_n(word) == 0xF)
            ||| family(word) == 0xE && field_kk(word) != 0x9E && field_kk(word) != 0xA1
            ||| family(word) == 0xF && field_kk(word) != 0x07 && field_kk(word) != 0x0A
                && field_kk(word) != 0x15 && field_kk(word) != 0x18 && field_kk(word) != 0x1E
                && field_kk(word) != 0x29 && field_kk(word) != 0x33 && field_kk(word) != 0x55
                && field_kk(word) != 0x65
        },
        decode_spec(word) matches Operation::Unknown { word: carried } ==> carried == word,
{
}

/// Decodes one instruction word.
///
/// Total: a word that encodes no instruction comes back as `Unknown`
/// carrying the word itself.
pub fn decode(word: u16) -> (op: Operation)
    ensures
        op == decode_spec(word),
        op.wf(),
{
    proof {
        lemma_fields_by_mask(word);
    }
    let x = ((word & 0x0F00) >> 8) as u8;
    let y = ((word & 0x00F0) >> 4) as u8;
    let n = (word & 0x000F) as u8;
    let kk = (word & 0x00FF) as u8;
    let addr = word & 0x0FFF;
    match word & 0xF000 {
        0x0000 => match kk {
            0xE0 => Operation::ClearScreen,
            0xEE => Operation::Return,
            _ => Operation::Sys { addr },
        },
        0x1000 => Operation::Jump { addr },
        0x2000 => Operation::Call { addr },
        0x3000 => Operation::SkipEqualByte { x, kk },
        0x4000 => Operation::SkipNotEqualByte { x, kk },
        0x5000 => Operation::SkipEqual { x, y },
        0x6000 => Operation::LoadByte { x, kk },
        0x7000 => Operation::AddByte { x, kk },
        0x8000 => match n {
            0x0 => Operation::Move { x, y },
            0x1 => Operation::Or { x, y },
            0x2 => Operation::And { x, y },
            0x3 => Operation::Xor { x, y },
            0x4 => Operation::Add { x, y },
            0x5 => Operation::Sub { x, y },
            0x6 => Operation::ShiftRight { x },
            0x7 => Operation::SubReverse { x, y },
            0xE => Operation::ShiftLeft { x },
            _ => Operation::Unknown { word },
        },
        0x9000 => Operation::SkipNotEqual { x, y },
        0xA000 => Operation::LoadIndex { addr },
        0xB000 => Operation::JumpOffset { addr },
        0xC000 => Operation::Random { x, kk },
        0xD000 => Operation::Draw { x, y, n },
        0xE000 => match kk {
            0x9E => Operation::SkipKeyDown { x },
            0xA1 => Operation::SkipKeyUp { x },
            _ => Operation::Unknown { word },
        },
        _ => match kk {
            0x07 => Operation::ReadDelay { x },
            0x0A => Operation::WaitKey { x },
            0x15 => Operation::SetDelay { x },
            0x18 => Operation::SetSound { x },
            0x1E => Operation::AddIndex { x },
            0x29 => Operation::LoadGlyph { x },
            0x33 => Operation::StoreBcd { x },
            0x55 => Operation::StoreRegisters { x },
            0x65 => Operation::LoadRegisters { x },
            _ => Operation::Unknown { word },
        },
    }
}

} // verus!
