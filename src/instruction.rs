//! Decoding of 16-bit instruction words into the instruction set shared by
//! the CHIP-8 variants.
use vstd::prelude::*;

verus! {

/// One decoded instruction. `x` and `y` name registers (`0..16`), `n` is a
/// 4-bit immediate, `nn` an 8-bit immediate and `nnn` a 12-bit address.
#[derive(Clone, Copy, Debug, PartialEq, Eq, Structural)]
pub enum Instruction {
    /// `00CN`: scroll the display down by `n` rows.
    ScrollDown { n: u8 },
    /// `00E0`: clear the display.
    Clear,
    /// `00EE`: return from a subroutine.
    Return,
    /// `00FB`: scroll the display right by four columns.
    ScrollRight,
    /// `00FC`: scroll the display left by four columns.
    ScrollLeft,
    /// `00FE`: switch to the low-resolution display.
    LowRes,
    /// `00FF`: switch to the high-resolution display.
    HighRes,
    /// `1NNN`: jump to `nnn`.
    Jump { nnn: u16 },
    /// `2NNN`: call the subroutine at `nnn`.
    Call { nnn: u16 },
    /// `3XNN`: skip the next instruction if `VX == nn`.
    SkipEqImm { x: u8, nn: u8 },
    /// `4XNN`: skip the next instruction if `VX != nn`.
    SkipNeImm { x: u8, nn: u8 },
    /// `5XY0`: skip the next instruction if `VX == VY`.
    SkipEqReg { x: u8, y: u8 },
    /// `6XNN`: `VX = nn`.
    SetImm { x: u8, nn: u8 },
    /// `7XNN`: `VX += nn`, wrapping, flags untouched.
    AddImm { x: u8, nn: u8 },
    /// `8XY0`: `VX = VY`.
    Assign { x: u8, y: u8 },
    /// `8XY1`: `VX |= VY`.
    Or { x: u8, y: u8 },
    /// `8XY2`: `VX &= VY`.
    And { x: u8, y: u8 },
    /// `8XY3`: `VX ^= VY`.
    Xor { x: u8, y: u8 },
    /// `8XY4`: `VX += VY`, `VF` = carry.
    AddReg { x: u8, y: u8 },
    /// `8XY5`: `VX -= VY`, `VF` = no borrow.
    SubReg { x: u8, y: u8 },
    /// `8XY6`: shift right by one, `VF` = the bit shifted out.
    ShiftRight { x: u8, y: u8 },
    /// `8XY7`: `VX = VY - VX`, `VF` = no borrow.
    SubRev { x: u8, y: u8 },
    /// `8XYE`: shift left by one, `VF` = the bit shifted out.
    ShiftLeft { x: u8, y: u8 },
    /// `9XY0`: skip the next instruction if `VX != VY`.
    SkipNeReg { x: u8, y: u8 },
    /// `ANNN`: `I = nnn`.
    SetIndex { nnn: u16 },
    /// `BNNN`: jump to `nnn` plus a register (`V0`, or `VX` on SCHIP).
    JumpOffset { x: u8, nnn: u16 },
    /// `CXNN`: `VX` = a random byte masked with `nn`.
    Random { x: u8, nn: u8 },
    /// `DXYN`: draw a sprite at `(VX, VY)`.
    Draw { x: u8, y: u8, n: u8 },
    /// `EX9E`: skip the next instruction if the key `VX` is down.
    SkipKey { x: u8 },
    /// `EXA1`: skip the next instruction if the key `VX` is up.
    SkipNotKey { x: u8 },
    /// `FX07`: `VX` = delay timer.
    GetDelay { x: u8 },
    /// `FX0A`: wait for a key to be pressed and released, store its value in `VX`.
    WaitKey { x: u8 },
    /// `FX15`: delay timer = `VX`.
    SetDelay { x: u8 },
    /// `FX18`: sound timer = `VX`.
    SetSound { x: u8 },
    /// `FX1E`: `I += VX`, wrapping.
    AddIndex { x: u8 },
    /// `FX29`: `I` = address of the low-resolution glyph of `VX`'s low nibble.
    FontLow { x: u8 },
    /// `FX30`: `I` = address of the high-resolution glyph of `VX`'s low nibble.
    FontHigh { x: u8 },
    /// `FX33`: store the decimal digits of `VX` at `I`, `I + 1`, `I + 2`.
    Bcd { x: u8 },
    /// `FX55`: store `V0..=VX` in memory at `I`.
    Store { x: u8 },
    /// `FX65`: load `V0..=VX` from memory at `I`.
    Load { x: u8 },
    /// `FX75`: store `V0..=VX` in the persistent flag registers.
    SaveFlags { x: u8 },
    /// `FX85`: load `V0..=VX` from the persistent flag registers.
    LoadFlags { x: u8 },
    /// Any other word: executes as a no-op.
    Unknown { op: u16 },
}

/// The instruction word made of the two bytes `hi`, `lo` (big-endian).
pub open spec fn word(hi: u8, lo: u8) -> u16 {
    (hi as int * 256 + lo as int) as u16
}

/// The 12-bit address field of the word `hi lo`.
pub open spec fn address(hi: u8, lo: u8) -> u16 {
    ((hi % 16) as int * 256 + lo as int) as u16
}

/// What the instruction word `hi lo` means. Nibbles, from the left: `hi / 16`,
/// `x = hi % 16`, `y = lo / 16`, `n = lo % 16`.
pub open spec fn decode(hi: u8, lo: u8) -> Instruction {
    let a = hi / 16;
    let x = hi % 16;
    let y = lo / 16;
    let n = lo % 16;
    let nnn = address(hi, lo);
    if a == 0 {
        if x == 0 && y == 0xC {
            Instruction::ScrollDown { n }
        } else if hi == 0x00 && lo == 0xE0 {
            Instruction::Clear
        } else if hi == 0x00 && lo == 0xEE {
            Instruction::Return
        } else if hi == 0x00 && lo == 0xFB {
            Instruction::ScrollRight
        } else if hi == 0x00 && lo == 0xFC {
            Instruction::ScrollLeft
        } else if hi == 0x00 && lo == 0xFE {
            Instruction::LowRes
        } else if hi == 0x00 && lo == 0xFF {
            Instruction::HighRes
        } else {
            Instruction::Unknown { op: word(hi, lo) }
        }
    } else if a == 1 {
        Instruction::Jump { nnn }
    } else if a == 2 {
        Instruction::Call { nnn }
    } else if a == 3 {
        Instruction::SkipEqImm { x, nn: lo }
    } else if a == 4 {
        Instruction::SkipNeImm { x, nn: lo }
    } else if a == 5 && n == 0 {
        Instruction::SkipEqReg { x, y }
    } else if a == 6 {
        Instruction::SetImm { x, nn: lo }
    } else if a == 7 {
        Instruction::AddImm { x, nn: lo }
    } else if a == 8 && n == 0 {
        Instruction::Assign { x, y }
    } else if a == 8 && n == 1 {
        Instruction::Or { x, y }
    } else if a == 8 && n == 2 {
        Instruction::And { x, y }
    } else if a == 8 && n == 3 {
        Instruction::Xor { x, y }
    } else if a == 8 && n == 4 {
        Instruction::AddReg { x, y }
    } else if a == 8 && n == 5 {
        Instruction::SubReg { x, y }
    } else if a == 8 && n == 6 {
        Instruction::ShiftRight { x, y }
    } else if a == 8 && n == 7 {
        Instruction::SubRev { x, y }
    } else if a == 8 && n == 0xE {
        Instruction::ShiftLeft { x, y }
    } else if a == 9 && n == 0 {
        Instruction::SkipNeReg { x, y }
    } else if a == 0xA {
        Instruction::SetIndex { nnn }
    } else if a == 0xB {
        Instruction::JumpOffset { x, nnn }
    } else if a == 0xC {
        Instruction::Random { x, nn: lo }
    } else if a == 0xD {
        Instruction::Draw { x, y, n }
    } else if a == 0xE && lo == 0x9E {
        Instruction::SkipKey { x }
    } else if a == 0xE && lo == 0xA1 {
        Instruction::SkipNotKey { x }
    } else if a == 0xF && lo == 0x07 {
        Instruction::GetDelay { x }
    } else if a == 0xF && lo == 0x0A {
        Instruction::WaitKey { x }
    } else if a == 0xF && lo == 0x15 {
        Instruction::SetDelay { x }
    } else if a == 0xF && lo == 0x18 {
        Instruction::SetSound { x }
    } else if a == 0xF && lo == 0x1E {
        Instruction::AddIndex { x }
    } else if a == 0xF && lo == 0x29 {
        Instruction::FontLow { x }
    } else if a == 0xF && lo == 0x30 {
        Instruction::FontHigh { x }
    } else if a == 0xF && lo == 0x33 {
        Instruction::Bcd { x }
    } else if a == 0xF && lo == 0x55 {
        Instruction::Store { x }
    } else if a == 0xF && lo == 0x65 {
        Instruction::Load { x }
    } else if a == 0xF && lo == 0x75 {
        Instruction::SaveFlags { x }
    } else if a == 0xF && lo == 0x85 {
        Instruction::LoadFlags { x }
    } else {
        Instruction::Unknown { op: word(hi, lo) }
    }
}

/// A register-naming field of a decoded instruction is below 16.
pub open spec fn well_formed(ins: Instruction) -> bool {
    match ins {
        Instruction::ScrollDown { n } => n < 16,
        Instruction::Jump { nnn } | Instruction::Call { nnn } | Instruction::SetIndex { nnn } => nnn < 0x1000,
        Instruction::SkipEqImm { x, .. } | Instruction::SkipNeImm { x, .. } | Instruction::SetImm { x, .. }
        | Instruction::AddImm { x, .. } | Instruction::Random { x, .. } => x < 16,
        Instruction::SkipEqReg { x, y } | Instruction::SkipNeReg { x, y } | Instruction::Assign { x, y }
        | Instruction::Or { x, y } | Instruction::And { x, y } | Instruction::Xor { x, y }
        | Instruction::AddReg { x, y } | Instruction::SubReg { x, y } | Instruction::ShiftRight { x, y }
        | Instruction::SubRev { x, y } | Instruction::ShiftLeft { x, y } => x < 16 && y < 16,
        Instruction::JumpOffset { x, nnn } => x < 16 && nnn < 0x1000,
        Instruction::Draw { x, y, n } => x < 16 && y < 16 && n < 16,
        Instruction::SkipKey { x } | Instruction::SkipNotKey { x } | Instruction::GetDelay { x }
        | Instruction::WaitKey { x } | Instruction::SetDelay { x } | Instruction::SetSound { x }
        | Instruction::AddIndex { x } | Instruction::FontLow { x } | Instruction::FontHigh { x }
        | Instruction::Bcd { x } | Instruction::Store { x } | Instruction::Load { x }
        | Instruction::SaveFlags { x } | Instruction::LoadFlags { x } => x < 16,
        _ => true,
    }
}

/// Every decoded instruction is well formed.
pub proof fn lemma_decode_well_formed(hi: u8, lo: u8)
    ensures
        well_formed(decode(hi, lo)),
{
}

/// Decodes the big-endian instruction word `hi lo`.
pub fn decode_word(hi: u8, lo: u8) -> (r: Instruction)
    ensures
        r == decode(hi, lo),
        well_formed(r),
{
    let a = hi / 16;
    let x = hi % 16;
    let y = lo / 16;
    let n = lo % 16;
    let nnn: u16 = (x as u16) * 256 + lo as u16;
    if a == 0 {
        if x == 0 && y == 0xC {
            Instruction::ScrollDown { n }
        } else if hi == 0x00 && lo == 0xE0 {
            Instruction::Clear
        } else if hi == 0x00 && lo == 0xEE {
            Instruction::Return
        } else if hi == 0x00 && lo == 0xFB {
            Instruction::ScrollRight
        } else if hi == 0x00 && lo == 0xFC {
            Instruction::ScrollLeft
        } else if hi == 0x00 && lo == 0xFE {
            Instruction::LowRes
        } else if hi == 0x00 && lo == 0xFF {
            Instruction::HighRes
        } else {
            Instruction::Unknown { op: (hi as u16) * 256 + lo as u16 }
        }
    } else if a == 1 {
        Instruction::Jump { nnn }
    } else if a == 2 {
        Instruction::Call { nnn }
    } else if a == 3 {
        Instruction::SkipEqImm { x, nn: lo }
    } else if a == 4 {
        Instruction::SkipNeImm { x, nn: lo }
    } else if a == 5 && n == 0 {
        Instruction::SkipEqReg { x, y }
    } else if a == 6 {
        Instruction::SetImm { x, nn: lo }
    } else if a == 7 {
        Instruction::AddImm { x, nn: lo }
    } else if a == 8 && n == 0 {
        Instruction::Assign { x, y }
    } else if a == 8 && n == 1 {
        Instruction::Or { x, y }
    } else if a == 8 && n == 2 {
        Instruction::And { x, y }
    } else if a == 8 && n == 3 {
        Instruction::Xor { x, y }
    } else if a == 8 && n == 4 {
        Instruction::AddReg { x, y }
    } else if a == 8 && n == 5 {
        Instruction::SubReg { x, y }
    } else if a == 8 && n == 6 {
        Instruction::ShiftRight { x, y }
    } else if a == 8 && n == 7 {
        Instruction::SubRev { x, y }
    } else if a == 8 && n == 0xE {
        Instruction::ShiftLeft { x, y }
    } else if a == 9 && n == 0 {
        Instruction::SkipNeReg { x, y }
    } else if a == 0xA {
        Instruction::SetIndex { nnn }
    } else if a == 0xB {
        Instruction::JumpOffset { x, nnn }
    } else if a == 0xC {
        Instruction::Random { x, nn: lo }
    } else if a == 0xD {
        Instruction::Draw { x, y, n }
    } else if a == 0xE && lo == 0x9E {
        Instruction::SkipKey { x }
    } else if a == 0xE && lo == 0xA1 {
        Instruction::SkipNotKey { x }
    } else if a == 0xF && lo == 0x07 {
        Instruction::GetDelay { x }
    } else if a == 0xF && lo == 0x0A {
        Instruction::WaitKey { x }
    } else if a == 0xF && lo == 0x15 {
        Instruction::SetDelay { x }
    } else if a == 0xF && lo == 0x18 {
        Instruction::SetSound { x }
    } else if a == 0xF && lo == 0x1E {
        Instruction::AddIndex { x }
    } else if a == 0xF && lo == 0x29 {
        Instruction::FontLow { x }
    } else if a == 0xF && lo == 0x30 {
        Instruction::FontHigh { x }
    } else if a == 0xF && lo == 0x33 {
        Instruction::Bcd { x }
    } else if a == 0xF && lo == 0x55 {
        Instruction::Store { x }
    } else if a == 0xF && lo == 0x65 {
        Instruction::Load { x }
    } else if a == 0xF && lo == 0x75 {
        Instruction::SaveFlags { x }
    } else if a == 0xF && lo == 0x85 {
        Instruction::LoadFlags { x }
    } else {
        Instruction::Unknown { op: (hi as u16) * 256 + lo as u16 }
    }
}

} // verus!
