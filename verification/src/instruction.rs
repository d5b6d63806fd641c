//! The CHIP-8 instruction set: the decoded variants and the decoder that maps
//! a raw big-endian 16-bit word onto them.

use vstd::prelude::*;

verus! {

/// One decoded CHIP-8 instruction.
///
/// Register indices (`x`, `y`) are the middle nibbles of the raw word,
/// addresses are its low 12 bits, immediate bytes its low 8 bits, and the
/// sprite height of `Draw` its low 4 bits.
#[derive(Clone, Copy, PartialEq, Eq, Structural, Debug)]
pub enum Instruction {
    /// 00E0: clear the display.
    ClearDisplay,
    /// 00EE: return from a subroutine.
    Return,
    /// 1nnn: jump to `nnn`.
    Jump(u16),
    /// 2nnn: call the subroutine at `nnn`.
    Call(u16),
    /// 3xkk: skip the next instruction if `Vx == kk`.
    SkipIfEqualsByte(u8, u8),
    /// 4xkk: skip the next instruction if `Vx != kk`.
    SkipIfNotEqualsByte(u8, u8),
    /// 5xy0: skip the next instruction if `Vx == Vy`.
    SkipIfEqual(u8, u8),
    /// 6xkk: `Vx = kk`.
    LoadByte(u8, u8),
    /// 7xkk: `Vx = Vx + kk` with 8-bit wrap; VF untouched.
    AddByte(u8, u8),
    /// 8xy0: `Vx = Vy`.
    Move(u8, u8),
    /// 8xy1: `Vx = Vx | Vy`.
    Or(u8, u8),
    /// 8xy2: `Vx = Vx & Vy`.
    And(u8, u8),
    /// 8xy3: `Vx = Vx ^ Vy`.
    Xor(u8, u8),
    /// 8xy4: `Vx = Vx + Vy`; VF = carry.
    Add(u8, u8),
    /// 8xy5: `Vx = Vx - Vy`; VF = 1 if `Vx > Vy` else 0.
    Sub(u8, u8),
    /// 8xy6: VF = low bit of `Vx`; `Vx = Vx >> 1`.
    ShiftRight(u8),
    /// 8xy7: `Vx = Vy - Vx`; VF = 1 if `Vy > Vx` else 0.
    ReverseSub(u8, u8),
    /// 8xyE: VF = high bit of `Vx`; `Vx = Vx << 1`.
    ShiftLeft(u8),
    /// 9xy0: skip the next instruction if `Vx != Vy`.
    SkipIfNotEqual(u8, u8),
    /// Annn: `I = nnn`.
    LoadI(u16),
    /// Bnnn: jump to `nnn + V0`.
    JumpPlusZero(u16),
    /// Cxkk: `Vx = random byte & kk`.
    Random(u8, u8),
    /// Dxyn: XOR-blit the `n`-byte sprite at `memory[I..]` to `(Vx, Vy)`;
    /// VF = collision.
    Draw(u8, u8, u8),
    /// Ex9E: skip the next instruction if key `Vx` is held.
    SkipIfPressed(u8),
    /// ExA1: skip the next instruction if key `Vx` is not held.
    SkipIfNotPressed(u8),
    /// Fx07: `Vx = DT`.
    LoadDelayTimer(u8),
    /// Fx0A: freeze until a key press arrives, then store it into `Vx`.
    WaitForKeyPress(u8),
    /// Fx15: `DT = Vx`.
    SetDelayTimer(u8),
    /// Fx18: `ST = Vx`.
    SetSoundTimer(u8),
    /// Fx1E: `I = I + Vx` (16-bit, no flag).
    AddToI(u8),
    /// Fx29: `I = (Vx & 0xF) * 5`, the font sprite of digit `Vx`.
    LoadSprite(u8),
    /// Fx33: write the BCD digits of `Vx` to `memory[I..I+3]`.
    BCDRepresentation(u8),
    /// Fx55: write `V0..=Vx` to `memory[I..]`.
    StoreRegisters(u8),
    /// Fx65: load `V0..=Vx` from `memory[I..]`.
    LoadRegisters(u8),
}

/// The decoder as a mathematical function: the variant a raw word stands for,
/// or `None` when it matches no encoding of the instruction set.
pub open spec fn spec_decode(w: u16) -> Option<Instruction> {
    let op = w >> 12;
    let nnn = w & 0x0FFF;
    let x = ((w >> 8) & 0xF) as u8;
    let y = ((w >> 4) & 0xF) as u8;
    let kk = (w & 0xFF) as u8;
    let n = (w & 0xF) as u8;
    if w == 0x00E0 {
        Some(Instruction::ClearDisplay)
    } else if w == 0x00EE {
        Some(Instruction::Return)
    } else if op == 0x1 {
        Some(Instruction::Jump(nnn))
    } else if op == 0x2 {
        Some(Instruction::Call(nnn))
    } else if op == 0x3 {
        Some(Instruction::SkipIfEqualsByte(x, kk))
    } else if op == 0x4 {
        Some(Instruction::SkipIfNotEqualsByte(x, kk))
    } else if op == 0x5 && n == 0x0 {
        Some(Instruction::SkipIfEqual(x, y))
    } else if op == 0x6 {
        Some(Instruction::LoadByte(x, kk))
    } else if op == 0x7 {
        Some(Instruction::AddByte(x, kk))
    } else if op == 0x8 && n == 0x0 {
        Some(Instruction::Move(x, y))
    } else if op == 0x8 && n == 0x1 {
        Some(Instruction::Or(x, y))
    } else if op == 0x8 && n == 0x2 {
        Some(Instruction::And(x, y))
    } else if op == 0x8 && n == 0x3 {
        Some(Instruction::Xor(x, y))
    } else if op == 0x8 && n == 0x4 {
        Some(Instruction::Add(x, y))
    } else if op == 0x8 && n == 0x5 {
        Some(Instruction::Sub(x, y))
    } else if op == 0x8 && n == 0x6 {
        Some(Instruction::ShiftRight(x))
    } else if op == 0x8 && n == 0x7 {
        Some(Instruction::ReverseSub(x, y))
    } else if op == 0x8 && n == 0xE {
        Some(Instruction::ShiftLeft(x))
    } else if op == 0x9 && n == 0x0 {
        Some(Instruction::SkipIfNotEqual(x, y))
    } else if op == 0xA {
        Some(Instruction::LoadI(nnn))
    } else if op == 0xB {
        Some(Instruction::JumpPlusZero(nnn))
    } else if op == 0xC {
        Some(Instruction::Random(x, kk))
    } else if op == 0xD {
        Some(Instruction::Draw(x, y, n))
    } else if op == 0xE && kk == 0x9E {
        Some(Instruction::SkipIfPressed(x))
    } else if op == 0xE && kk == 0xA1 {
        Some(Instruction::SkipIfNotPressed(x))
    } else if op == 0xF && kk == 0x07 {
        Some(Instruction::LoadDelayTimer(x))
    } else if op == 0xF && kk == 0x0A {
        Some(Instruction::WaitForKeyPress(x))
    } else if op == 0xF && kk == 0x15 {
        Some(Instruction::SetDelayTimer(x))
    } else if op == 0xF && kk == 0x18 {
        Some(Instruction::SetSoundTimer(x))
    } else if op == 0xF && kk == 0x1E {
        Some(Instruction::AddToI(x))
    } else if op == 0xF && kk == 0x29 {
        Some(Instruction::LoadSprite(x))
    } else if op == 0xF && kk == 0x33 {
        Some(Instruction::BCDRepresentation(x))
    } else if op == 0xF && kk == 0x55 {
        Some(Instruction::StoreRegisters(x))
    } else if op == 0xF && kk == 0x65 {
        Some(Instruction::LoadRegisters(x))
    } else {
        None
    }
}

/// Well-formedness of a decoded instruction: register indices fit in a
/// nibble, addresses in 12 bits, the sprite height in a nibble. Every value
/// the decoder produces satisfies it (`lemma_decode_wf`).
pub open spec fn inst_wf(inst: Instruction) -> bool {
    match inst {
        Instruction::ClearDisplay => true,
        Instruction::Return => true,
        Instruction::Jump(a) => a < 4096,
        Instruction::Call(a) => a < 4096,
        Instruction::SkipIfEqualsByte(x, _) => x < 16,
        Instruction::SkipIfNotEqualsByte(x, _) => x < 16,
        Instruction::SkipIfEqual(x, y) => x < 16 && y < 16,
        Instruction::LoadByte(x, _) => x < 16,
        Instruction::AddByte(x, _) => x < 16,
        Instruction::Move(x, y) => x < 16 && y < 16,
        Instruction::Or(x, y) => x < 16 && y < 16,
        Instruction::And(x, y) => x < 16 && y < 16,
        Instruction::Xor(x, y) => x < 16 && y < 16,
        Instruction::Add(x, y) => x < 16 && y < 16,
        Instruction::Sub(x, y) => x < 16 && y < 16,
        Instruction::ShiftRight(x) => x < 16,
        Instruction::ReverseSub(x, y) => x < 16 && y < 16,
        Instruction::ShiftLeft(x) => x < 16,
        Instruction::SkipIfNotEqual(x, y) => x < 16 && y < 16,
        Instruction::LoadI(a) => a < 4096,
        Instruction::JumpPlusZero(a) => a < 4096,
        Instruction::Random(x, _) => x < 16,
        Instruction::Draw(x, y, n) => x < 16 && y < 16 && n < 16,
        Instruction::SkipIfPressed(x) => x < 16,
        Instruction::SkipIfNotPressed(x) => x < 16,
        Instruction::LoadDelayTimer(x) => x < 16,
        Instruction::WaitForKeyPress(x) => x < 16,
        Instruction::SetDelayTimer(x) => x < 16,
        Instruction::SetSoundTimer(x) => x < 16,
        Instruction::AddToI(x) => x < 16,
        Instruction::LoadSprite(x) => x < 16,
        Instruction::BCDRepresentation(x) => x < 16,
        Instruction::StoreRegisters(x) => x < 16,
        Instruction::LoadRegisters(x) => x < 16,
    }
}

/// Every instruction the decoder produces is well-formed.
pub proof fn lemma_decode_wf(w: u16)
    ensures
        spec_decode(w) matches Some(i) ==> inst_wf(i),
{
    assert(w & 0x0FFF < 4096) by (bit_vector);
    assert((w >> 8) & 0xF < 16) by (bit_vector);
    assert((w >> 4) & 0xF < 16) by (bit_vector);
    assert(w & 0xFF < 256) by (bit_vector);
    assert(w & 0xF < 16) by (bit_vector);
}

/// A raw 16-bit instruction word, as fetched from memory.
pub struct RawInstruction {
    value: u16,
}

impl RawInstruction {
    /// The word this wrapper holds.
    pub closed spec fn spec_value(&self) -> u16 {
        self.value
    }

    pub fn new(value: u16) -> (r: Self)
        ensures
            r.spec_value() == value,
    {
        RawInstruction { value }
    }

    pub fn value(&self) -> (v: u16)
        ensures
            v == self.spec_value(),
    {
        self.value
    }

    /// Decode the word; `None` when it matches no encoding.
    pub fn to_instruction(&self) -> (r: Option<Instruction>)
        ensures
            r == spec_decode(self.spec_value()),
    {
        let w = self.value;
        let op = w >> 12;
        let nnn = w & 0x0FFF;
        let x = ((w >> 8) & 0xF) as u8;
        let y = ((w >> 4) & 0xF) as u8;
        let kk = (w & 0xFF) as u8;
        let n = (w & 0xF) as u8;
        if w == 0x00E0 {
            Some(Instruction::ClearDisplay)
        } else if w == 0x00EE {
            Some(Instruction::Return)
        } else if op == 0x1 {
            Some(Instruction::Jump(nnn))
        } else if op == 0x2 {
            Some(Instruction::Call(nnn))
        } else if op == 0x3 {
            Some(Instruction::SkipIfEqualsByte(x, kk))
        } else if op == 0x4 {
            Some(Instruction::SkipIfNotEqualsByte(x, kk))
        } else if op == 0x5 && n == 0x0 {
            Some(Instruction::SkipIfEqual(x, y))
        } else if op == 0x6 {
            Some(Instruction::LoadByte(x, kk))
        } else if op == 0x7 {
            Some(Instruction::AddByte(x, kk))
        } else if op == 0x8 && n == 0x0 {
            Some(Instruction::Move(x, y))
        } else if op == 0x8 && n == 0x1 {
            Some(Instruction::Or(x, y))
        } else if op == 0x8 && n == 0x2 {
            Some(Instruction::And(x, y))
        } else if op == 0x8 && n == 0x3 {
            Some(Instruction::Xor(x, y))
        } else if op == 0x8 && n == 0x4 {
            Some(Instruction::Add(x, y))
        } else if op == 0x8 && n == 0x5 {
            Some(Instruction::Sub(x, y))
        } else if op == 0x8 && n == 0x6 {
            Some(Instruction::ShiftRight(x))
        } else if op == 0x8 && n == 0x7 {
            Some(Instruction::ReverseSub(x, y))
        } else if op == 0x8 && n == 0xE {
            Some(Instruction::ShiftLeft(x))
        } else if op == 0x9 && n == 0x0 {
            Some(Instruction::SkipIfNotEqual(x, y))
        } else if op == 0xA {
            Some(Instruction::LoadI(nnn))
        } else if op == 0xB {
            Some(Instruction::JumpPlusZero(nnn))
        } else if op == 0xC {
            Some(Instruction::Random(x, kk))
        } else if op == 0xD {
            Some(Instruction::Draw(x, y, n))
        } else if op == 0xE && kk == 0x9E {
            Some(Instruction::SkipIfPressed(x))
        } else if op == 0xE && kk == 0xA1 {
            Some(Instruction::SkipIfNotPressed(x))
        } else if op == 0xF && kk == 0x07 {
            Some(Instruction::LoadDelayTimer(x))
        } else if op == 0xF && kk == 0x0A {
            Some(Instruction::WaitForKeyPress(x))
        } else if op == 0xF && kk == 0x15 {
            Some(Instruction::SetDelayTimer(x))
        } else if op == 0xF && kk == 0x18 {
            Some(Instruction::SetSoundTimer(x))
        } else if op == 0xF && kk == 0x1E {
            Some(Instruction::AddToI(x))
        } else if op == 0xF && kk == 0x29 {
            Some(Instruction::LoadSprite(x))
        } else if op == 0xF && kk == 0x33 {
            Some(Instruction::BCDRepresentation(x))
        } else if op == 0xF && kk == 0x55 {
            Some(Instruction::StoreRegisters(x))
        } else if op == 0xF && kk == 0x65 {
            Some(Instruction::LoadRegisters(x))
        } else {
            None
        }
    }
}

} // verus!
