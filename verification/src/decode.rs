//! Instruction decode: the 16-bit instruction word, fetched as two bytes, is
//! split into four 4-bit fields and mapped to a tagged instruction variant.
//! A word that matches no pattern decodes to [`Instr::Unknown`], which the
//! cycle reports as a recoverable anomaly.

use vstd::prelude::*;

verus! {

/// One decoded instruction. Register selectors are the 4-bit fields `x` and
/// `y`; `kk` is the 8-bit immediate; addresses are the 12-bit field `nnn`.
pub enum Instr {
    /// 00E0: clear the display.
    ClearScreen,
    /// 00EE: pop the call stack into the program counter.
    Return,
    /// 1nnn: jump to `nnn`.
    Jump(u16),
    /// 2nnn: push the return address and jump to `nnn`.
    Call(u16),
    /// 3xkk: skip the next instruction when `Vx == kk`.
    SkipEqImm(u8, u8),
    /// 4xkk: skip the next instruction when `Vx != kk`.
    SkipNeImm(u8, u8),
    /// 5xy0: skip the next instruction when `Vx == Vy`.
    SkipEqReg(u8, u8),
    /// 9xy0: skip the next instruction when `Vx != Vy`.
    SkipNeReg(u8, u8),
    /// 6xkk: `Vx = kk`.
    SetImm(u8, u8),
    /// 7xkk: `Vx = Vx + kk` with 8-bit wraparound, no flag effect.
    AddImm(u8, u8),
    /// 8xy0: `Vx = Vy`.
    CopyReg(u8, u8),
    /// 8xy1: `Vx |= Vy`.
    OrReg(u8, u8),
    /// 8xy2: `Vx &= Vy`.
    AndReg(u8, u8),
    /// 8xy3: `Vx ^= Vy`.
    XorReg(u8, u8),
    /// 8xy4: `Vx = Vx + Vy`, VF = carry.
    AddReg(u8, u8),
    /// 8xy5: `Vx = Vx - Vy`, VF = 1 when no borrow occurred.
    SubReg(u8, u8),
    /// 8xy6: shift right by one; the operand is Vy or Vx by configuration.
    ShrReg(u8, u8),
    /// 8xy7: `Vx = Vy - Vx`, VF = 1 when no borrow occurred.
    SubFrom(u8, u8),
    /// 8xyE: shift left by one; the operand is Vy or Vx by configuration.
    ShlReg(u8, u8),
    /// Annn: `index_register = nnn`.
    SetIndex(u16),
    /// Bnnn: jump to `nnn + V0`.
    JumpPlus(u16),
    /// Cxkk: `Vx = random byte & kk`.
    RandomMask(u8, u8),
    /// Dxyn: draw an n-row sprite at (Vx, Vy).
    Draw(u8, u8, u8),
    /// Ex9E: skip the next instruction when key `Vx` is pressed.
    SkipKey(u8),
    /// ExA1: skip the next instruction when key `Vx` is not pressed.
    SkipNoKey(u8),
    /// Fx07: `Vx = delay_timer`.
    GetDelay(u8),
    /// Fx0A: pause execution until a key is pressed; store it in `Vx`.
    WaitKey(u8),
    /// Fx15: `delay_timer = Vx`.
    SetDelay(u8),
    /// Fx18: `sound_timer = Vx`.
    SetSound(u8),
    /// Fx1E: `index_register += Vx`.
    AddIndex(u8),
    /// Fx29: point the index register at the font glyph for `Vx & 0xF`.
    FontChar(u8),
    /// Fx33: write the decimal digits of `Vx` to memory at the index register.
    StoreDigits(u8),
    /// Fx55: copy `V0..=Vx` into memory starting at the index register.
    SaveRegs(u8),
    /// Fx65: copy memory starting at the index register into `V0..=Vx`.
    LoadRegs(u8),
    /// Any other word: reported, no state change beyond the usual advance.
    Unknown(u8, u8),
}

/// What `decode` returns for the instruction word `b1 b2`.
pub open spec fn spec_decode(b1: u8, b2: u8) -> Instr {
    let n1 = b1 >> 4;
    let x = b1 & 0xF;
    let y = b2 >> 4;
    let n4 = b2 & 0xF;
    let nnn = (((x as u16) << 8) | (b2 as u16));
    if b1 == 0x00 && b2 == 0xE0 {
        Instr::ClearScreen
    } else if b1 == 0x00 && b2 == 0xEE {
        Instr::Return
    } else if n1 == 0x1 {
        Instr::Jump(nnn)
    } else if n1 == 0x2 {
        Instr::Call(nnn)
    } else if n1 == 0x3 {
        Instr::SkipEqImm(x, b2)
    } else if n1 == 0x4 {
        Instr::SkipNeImm(x, b2)
    } else if n1 == 0x5 && n4 == 0x0 {
        Instr::SkipEqReg(x, y)
    } else if n1 == 0x6 {
        Instr::SetImm(x, b2)
    } else if n1 == 0x7 {
        Instr::AddImm(x, b2)
    } else if n1 == 0x8 && n4 == 0x0 {
        Instr::CopyReg(x, y)
    } else if n1 == 0x8 && n4 == 0x1 {
        Instr::OrReg(x, y)
    } else if n1 == 0x8 && n4 == 0x2 {
        Instr::AndReg(x, y)
    } else if n1 == 0x8 && n4 == 0x3 {
        Instr::XorReg(x, y)
    } else if n1 == 0x8 && n4 == 0x4 {
        Instr::AddReg(x, y)
    } else if n1 == 0x8 && n4 == 0x5 {
        Instr::SubReg(x, y)
    } else if n1 == 0x8 && n4 == 0x6 {
        Instr::ShrReg(x, y)
    } else if n1 == 0x8 && n4 == 0x7 {
        Instr::SubFrom(x, y)
    } else if n1 == 0x8 && n4 == 0xE {
        Instr::ShlReg(x, y)
    } else if n1 == 0x9 && n4 == 0x0 {
        Instr::SkipNeReg(x, y)
    } else if n1 == 0xA {
        Instr::SetIndex(nnn)
    } else if n1 == 0xB {
        Instr::JumpPlus(nnn)
    } else if n1 == 0xC {
        Instr::RandomMask(x, b2)
    } else if n1 == 0xD {
        Instr::Draw(x, y, n4)
    } else if n1 == 0xE && b2 == 0x9E {
        Instr::SkipKey(x)
    } else if n1 == 0xE && b2 == 0xA1 {
        Instr::SkipNoKey(x)
    } else if n1 == 0xF && b2 == 0x07 {
        Instr::GetDelay(x)
    } else if n1 == 0xF && b2 == 0x0A {
        Instr::WaitKey(x)
    } else if n1 == 0xF && b2 == 0x15 {
        Instr::SetDelay(x)
    } else if n1 == 0xF && b2 == 0x18 {
        Instr::SetSound(x)
    } else if n1 == 0xF && b2 == 0x1E {
        Instr::AddIndex(x)
    } else if n1 == 0xF && b2 == 0x29 {
        Instr::FontChar(x)
    } else if n1 == 0xF && b2 == 0x33 {
        Instr::StoreDigits(x)
    } else if n1 == 0xF && b2 == 0x55 {
        Instr::SaveRegs(x)
    } else if n1 == 0xF && b2 == 0x65 {
        Instr::LoadRegs(x)
    } else {
        Instr::Unknown(b1, b2)
    }
}

/// Every field produced by decoding is in range: register selectors and
/// sprite heights are 4-bit values, addresses are 12-bit values.
pub open spec fn instr_fields_bounded(i: Instr) -> bool {
    match i {
        Instr::ClearScreen => true,
        Instr::Return => true,
        Instr::Jump(nnn) => nnn < 4096,
        Instr::Call(nnn) => nnn < 4096,
        Instr::SkipEqImm(x, _) => x < 16,
        Instr::SkipNeImm(x, _) => x < 16,
        Instr::SkipEqReg(x, y) => x < 16 && y < 16,
        Instr::SkipNeReg(x, y) => x < 16 && y < 16,
        Instr::SetImm(x, _) => x < 16,
        Instr::AddImm(x, _) => x < 16,
        Instr::CopyReg(x, y) => x < 16 && y < 16,
        Instr::OrReg(x, y) => x < 16 && y < 16,
        Instr::AndReg(x, y) => x < 16 && y < 16,
        Instr::XorReg(x, y) => x < 16 && y < 16,
        Instr::AddReg(x, y) => x < 16 && y < 16,
        Instr::SubReg(x, y) => x < 16 && y < 16,
        Instr::ShrReg(x, y) => x < 16 && y < 16,
        Instr::SubFrom(x, y) => x < 16 && y < 16,
        Instr::ShlReg(x, y) => x < 16 && y < 16,
        Instr::SetIndex(nnn) => nnn < 4096,
        Instr::JumpPlus(nnn) => nnn < 4096,
        Instr::RandomMask(x, _) => x < 16,
        Instr::Draw(x, y, n) => x < 16 && y < 16 && n < 16,
        Instr::SkipKey(x) => x < 16,
        Instr::SkipNoKey(x) => x < 16,
        Instr::GetDelay(x) => x < 16,
        Instr::WaitKey(x) => x < 16,
        Instr::SetDelay(x) => x < 16,
        Instr::SetSound(x) => x < 16,
        Instr::AddIndex(x) => x < 16,
        Instr::FontChar(x) => x < 16,
        Instr::StoreDigits(x) => x < 16,
        Instr::SaveRegs(x) => x < 16,
        Instr::LoadRegs(x) => x < 16,
        Instr::Unknown(_, _) => true,
    }
}

/// Split the instruction word `b1 b2` into its fields and classify it.
pub fn decode(b1: u8, b2: u8) -> (r: Instr)
    ensures
        r == spec_decode(b1, b2),
        instr_fields_bounded(r),
{
    proof {
        assert(b1 & 0xF < 16) by (bit_vector);
        assert(b2 >> 4 < 16) by (bit_vector);
        assert(b2 & 0xF < 16) by (bit_vector);
        assert((((b1 & 0xF) as u16) << 8) | (b2 as u16) < 4096) by (bit_vector);
    }
    let n1: u8 = b1 >> 4;
    let x: u8 = b1 & 0xF;
    let y: u8 = b2 >> 4;
    let n4: u8 = b2 & 0xF;
    let nnn: u16 = ((x as u16) << 8) | (b2 as u16);
    if b1 == 0x00 && b2 == 0xE0 {
        Instr::ClearScreen
    } else if b1 == 0x00 && b2 == 0xEE {
        Instr::Return
    } else if n1 == 0x1 {
        Instr::Jump(nnn)
    } else if n1 == 0x2 {
        Instr::Call(nnn)
    } else if n1 == 0x3 {
        Instr::SkipEqImm(x, b2)
    } else if n1 == 0x4 {
        Instr::SkipNeImm(x, b2)
    } else if n1 == 0x5 && n4 == 0x0 {
        Instr::SkipEqReg(x, y)
    } else if n1 == 0x6 {
        Instr::SetImm(x, b2)
    } else if n1 == 0x7 {
        Instr::AddImm(x, b2)
    } else if n1 == 0x8 && n4 == 0x0 {
        Instr::CopyReg(x, y)
    } else if n1 == 0x8 && n4 == 0x1 {
        Instr::OrReg(x, y)
    } else if n1 == 0x8 && n4 == 0x2 {
        Instr::AndReg(x, y)
    } else if n1 == 0x8 && n4 == 0x3 {
        Instr::XorReg(x, y)
    } else if n1 == 0x8 && n4 == 0x4 {
        Instr::AddReg(x, y)
    } else if n1 == 0x8 && n4 == 0x5 {
        Instr::SubReg(x, y)
    } else if n1 == 0x8 && n4 == 0x6 {
        Instr::ShrReg(x, y)
    } else if n1 == 0x8 && n4 == 0x7 {
        Instr::SubFrom(x, y)
    } else if n1 == 0x8 && n4 == 0xE {
        Instr::ShlReg(x, y)
    } else if n1 == 0x9 && n4 == 0x0 {
        Instr::SkipNeReg(x, y)
    } else if n1 == 0xA {
        Instr::SetIndex(nnn)
    } else if n1 == 0xB {
        Instr::JumpPlus(nnn)
    } else if n1 == 0xC {
        Instr::RandomMask(x, b2)
    } else if n1 == 0xD {
        Instr::Draw(x, y, n4)
    } else if n1 == 0xE && b2 == 0x9E {
        Instr::SkipKey(x)
    } else if n1 == 0xE && b2 == 0xA1 {
        Instr::SkipNoKey(x)
    } else if n1 == 0xF && b2 == 0x07 {
        Instr::GetDelay(x)
    } else if n1 == 0xF && b2 == 0x0A {
        Instr::WaitKey(x)
    } else if n1 == 0xF && b2 == 0x15 {
        Instr::SetDelay(x)
    } else if n1 == 0xF && b2 == 0x18 {
        Instr::SetSound(x)
    } else if n1 == 0xF && b2 == 0x1E {
        Instr::AddIndex(x)
    } else if n1 == 0xF && b2 == 0x29 {
        Instr::FontChar(x)
    } else if n1 == 0xF && b2 == 0x33 {
        Instr::StoreDigits(x)
    } else if n1 == 0xF && b2 == 0x55 {
        Instr::SaveRegs(x)
    } else if n1 == 0xF && b2 == 0x65 {
        Instr::LoadRegs(x)
    } else {
        Instr::Unknown(b1, b2)
    }
}

} // verus!
