//! The instruction set: a tagged variant for every opcode shape, and the
//! decoder that maps each 16-bit instruction word to exactly one variant.

use vstd::prelude::*;

verus! {

/// A 4-bit value carried in a `u8`; decoded nibbles are always below 16.
pub type U4 = u8;

/// A 12-bit address carried in a `u16`; decoded addresses are always below 4096.
pub type U12 = u16;

/// One decoded instruction.  Decoding is total: every 16-bit word maps to
/// exactly one variant, with unofficial patterns falling back to `Sys`, the
/// historical machine-code-routine jump.
#[derive(Clone, Copy, Debug, PartialEq, Eq, Structural)]
pub enum Instruction {
    /// 0nnn - jump to a machine code routine at nnn.
    Sys(U12),
    /// 00E0 - clear the display.
    Cls,
    /// 00EE - return from a subroutine.
    Ret,
    /// 1nnn - jump to location nnn.
    Jmp(U12),
    /// 2nnn - call subroutine at nnn.
    Call(U12),
    /// 3xkk - skip next instruction if Vx = kk.
    SkipEq(U4, u8),
    /// 4xkk - skip next instruction if Vx != kk.
    SkipNEq(U4, u8),
    /// 5xy0 - skip next instruction if Vx = Vy.
    SkipEqV(U4, U4),
    /// 6xkk - set Vx = kk.
    SetReg(U4, u8),
    /// 7xkk - set Vx = Vx + kk, wrapping, no flag.
    Add(U4, u8),
    /// 8xy0 - set Vx = Vy.
    Load(U4, U4),
    /// 8xy1 - set Vx = Vx OR Vy.
    Or(U4, U4),
    /// 8xy2 - set Vx = Vx AND Vy.
    And(U4, U4),
    /// 8xy3 - set Vx = Vx XOR Vy.
    Xor(U4, U4),
    /// 8xy4 - set Vx = Vx + Vy, set VF = carry.
    AddCarry(U4, U4),
    /// 8xy5 - set Vx = Vx - Vy, set VF = NOT borrow.
    SubCarry(U4, U4),
    /// 8xy6 - set VF = bit 0 of Vx, then Vx = Vx / 2.
    Shr(U4, U4),
    /// 8xy7 - set Vx = Vy - Vx, set VF = NOT borrow.
    SubN(U4, U4),
    /// 8xyE - set VF = bit 7 of Vx, then Vx = Vx * 2, truncated.
    Shl(U4, U4),
    /// 9xy0 - skip next instruction if Vx != Vy.
    Sne(U4, U4),
    /// Annn - set I = nnn.
    LoadI(U12),
    /// Bnnn - jump to location nnn + V0.
    JmpV0(U12),
    /// Cxkk - set Vx = random byte AND kk.
    Rnd(U4, u8),
    /// Dxyn - draw the n-byte sprite at memory[I..] at (Vx, Vy), set VF = collision.
    Drw(U4, U4, U4),
    /// Ex9E - skip next instruction if the key numbered Vx is pressed.
    SkipPressed(U4),
    /// ExA1 - skip next instruction if the key numbered Vx is not pressed.
    SkipNPressed(U4),
    /// Fx07 - set Vx = delay timer value.
    LoadDT(U4),
    /// Fx0A - wait for a key press, store the key number in Vx.
    LoadKeyPress(U4),
    /// Fx15 - set delay timer = Vx.
    SetDT(U4),
    /// Fx18 - set sound timer = Vx.
    SetST(U4),
    /// Fx1E - set I = I + Vx.
    AddI(U4),
    /// Fx29 - set I = glyph-table address of the sprite for digit Vx.
    LoadSprite(U4),
    /// Fx33 - write the three decimal digits of Vx to memory[I], memory[I+1], memory[I+2].
    LoadBCD(U4),
    /// Fx55 - store registers V0 through Vx into memory starting at I.
    LoadAllI(U4),
    /// Fx65 - read registers V0 through Vx from memory starting at I.
    SetAllI(U4),
}

/// The meaning of a 16-bit instruction word, stated over its four nibbles.
/// Every word is covered: patterns outside the opcode table fall back to
/// `Sys` carrying the low twelve bits.
pub open spec fn spec_decode(w: u16) -> Instruction {
    let a = (w >> 12) as u8;
    let x = ((w >> 8) & 0xf) as u8;
    let y = ((w >> 4) & 0xf) as u8;
    let n = (w & 0xf) as u8;
    let kkv = (w & 0xff) as u8;
    let addr = w & 0xfff;
    if a == 0x0 && x == 0x0 && y == 0xe && n == 0x0 {
        Instruction::Cls
    } else if a == 0x0 && x == 0x0 && y == 0xe && n == 0xe {
        Instruction::Ret
    } else if a == 0x3 {
        Instruction::SkipEq(x, kkv)
    } else if a == 0x4 {
        Instruction::SkipNEq(x, kkv)
    } else if a == 0x5 && n == 0x0 {
        Instruction::SkipEqV(x, y)
    } else if a == 0x6 {
        Instruction::SetReg(x, kkv)
    } else if a == 0x7 {
        Instruction::Add(x, kkv)
    } else if a == 0x8 && n == 0x0 {
        Instruction::Load(x, y)
    } else if a == 0x8 && n == 0x1 {
        Instruction::Or(x, y)
    } else if a == 0x8 && n == 0x2 {
        Instruction::And(x, y)
    } else if a == 0x8 && n == 0x3 {
        Instruction::Xor(x, y)
    } else if a == 0x8 && n == 0x4 {
        Instruction::AddCarry(x, y)
    } else if a == 0x8 && n == 0x5 {
        Instruction::SubCarry(x, y)
    } else if a == 0x8 && n == 0x6 {
        Instruction::Shr(x, y)
    } else if a == 0x8 && n == 0x7 {
        Instruction::SubN(x, y)
    } else if a == 0x8 && n == 0xe {
        Instruction::Shl(x, y)
    } else if a == 0x9 && n == 0x0 {
        Instruction::Sne(x, y)
    } else if a == 0xa {
        Instruction::LoadI(addr)
    } else if a == 0xb {
        Instruction::JmpV0(addr)
    } else if a == 0xc {
        Instruction::Rnd(x, kkv)
    } else if a == 0xd {
        Instruction::Drw(x, y, n)
    } else if a == 0xe && y == 0x9 && n == 0xe {
        Instruction::SkipPressed(x)
    } else if a == 0xe && y == 0xa && n == 0x1 {
        Instruction::SkipNPressed(x)
    } else if a == 0xf && y == 0x0 && n == 0x7 {
        Instruction::LoadDT(x)
    } else if a == 0xf && y == 0x0 && n == 0xa {
        Instruction::LoadKeyPress(x)
    } else if a == 0xf && y == 0x1 && n == 0x5 {
        Instruction::SetDT(x)
    } else if a == 0xf && y == 0x1 && n == 0x8 {
        Instruction::SetST(x)
    } else if a == 0xf && y == 0x1 && n == 0xe {
        Instruction::AddI(x)
    } else if a == 0xf && y == 0x2 && n == 0x9 {
        Instruction::LoadSprite(x)
    } else if a == 0xf && y == 0x3 && n == 0x3 {
        Instruction::LoadBCD(x)
    } else if a == 0xf && y == 0x5 && n == 0x5 {
        Instruction::LoadAllI(x)
    } else if a == 0xf && y == 0x6 && n == 0x5 {
        Instruction::SetAllI(x)
    } else if a == 0x1 {
        Instruction::Jmp(addr)
    } else if a == 0x2 {
        Instruction::Call(addr)
    } else {
        Instruction::Sys(addr)
    }
}

/// Bounds that every decoded instruction obeys: register selectors and the
/// draw height are nibbles (below 16), addresses are 12 bits (below 4096).
pub open spec fn spec_ins_wf(ins: Instruction) -> bool {
    match ins {
        Instruction::Sys(a) => a < 4096,
        Instruction::Cls => true,
        Instruction::Ret => true,
        Instruction::Jmp(a) => a < 4096,
        Instruction::Call(a) => a < 4096,
        Instruction::SkipEq(x, _) => x < 16,
        Instruction::SkipNEq(x, _) => x < 16,
        Instruction::SkipEqV(x, y) => x < 16 && y < 16,
        Instruction::SetReg(x, _) => x < 16,
        Instruction::Add(x, _) => x < 16,
        Instruction::Load(x, y) => x < 16 && y < 16,
        Instruction::Or(x, y) => x < 16 && y < 16,
        Instruction::And(x, y) => x < 16 && y < 16,
        Instruction::Xor(x, y) => x < 16 && y < 16,
        Instruction::AddCarry(x, y) => x < 16 && y < 16,
        Instruction::SubCarry(x, y) => x < 16 && y < 16,
        Instruction::Shr(x, y) => x < 16 && y < 16,
        Instruction::SubN(x, y) => x < 16 && y < 16,
        Instruction::Shl(x, y) => x < 16 && y < 16,
        Instruction::Sne(x, y) => x < 16 && y < 16,
        Instruction::LoadI(a) => a < 4096,
        Instruction::JmpV0(a) => a < 4096,
        Instruction::Rnd(x, _) => x < 16,
        Instruction::Drw(x, y, n) => x < 16 && y < 16 && n < 16,
        Instruction::SkipPressed(x) => x < 16,
        Instruction::SkipNPressed(x) => x < 16,
        Instruction::LoadDT(x) => x < 16,
        Instruction::LoadKeyPress(x) => x < 16,
        Instruction::SetDT(x) => x < 16,
        Instruction::SetST(x) => x < 16,
        Instruction::AddI(x) => x < 16,
        Instruction::LoadSprite(x) => x < 16,
        Instruction::LoadBCD(x) => x < 16,
        Instruction::LoadAllI(x) => x < 16,
        Instruction::SetAllI(x) => x < 16,
    }
}

/// Decoding is total and deterministic: `spec_decode` is a function defined
/// on every one of the 65536 possible words, it always yields a
/// well-formed instruction, and `decode` returns exactly its value.
pub proof fn lemma_decode_total(w: u16)
    ensures
        spec_ins_wf(spec_decode(w)),
{
    assert((w >> 12) < 16 && ((w >> 8) & 0xf) < 16 && ((w >> 4) & 0xf) < 16 && (w & 0xf) < 16 && (w
        & 0xfff) < 4096) by (bit_vector);
}

/// Splits a word into its four nibbles, high to low.  The last clause pins
/// the result down completely: the nibbles recompose to the input.
pub fn u16_to_nibbles(n: u16) -> (r: (U4, U4, U4, U4))
    ensures
        r.0 == (n >> 12) as u8,
        r.1 == ((n >> 8) & 0xf) as u8,
        r.2 == ((n >> 4) & 0xf) as u8,
        r.3 == (n & 0xf) as u8,
        r.0 < 16 && r.1 < 16 && r.2 < 16 && r.3 < 16,
        n == ((r.0 as u16) << 12) | ((r.1 as u16) << 8) | ((r.2 as u16) << 4) | (r.3 as u16),
{
    proof {
        assert((n >> 12) < 16 && ((n >> 8) & 0xf) < 16 && ((n >> 4) & 0xf) < 16 && (n & 0xf) < 16)
            by (bit_vector);
        assert(n == ((((n >> 12) as u8) as u16) << 12) | (((((n >> 8) & 0xf) as u8) as u16) << 8)
            | (((((n >> 4) & 0xf) as u8) as u16) << 4) | (((n & 0xf) as u8) as u16))
            by (bit_vector);
    }
    (
        (n >> 12) as U4,
        (n >> 8 & 0xf) as U4,
        (n >> 4 & 0xf) as U4,
        (n & 0xf) as U4,
    )
}

/// Concatenates three nibbles into a 12-bit address.
pub fn nnn(n1: U4, n2: U4, n3: U4) -> (r: U12)
    ensures
        r == ((n1 as u16) << 8) | ((n2 as u16) << 4) | (n3 as u16),
        n1 < 16 && n2 < 16 && n3 < 16 ==> r == n1 * 256 + n2 * 16 + n3 && r < 4096,
{
    proof {
        assert(n1 < 16 && n2 < 16 && n3 < 16 ==> ((n1 as u16) << 8) | ((n2 as u16) << 4) | (
        n3 as u16) == n1 * 256 + n2 * 16 + n3 && (((n1 as u16) << 8) | ((n2 as u16) << 4) | (
        n3 as u16)) < 4096) by (bit_vector);
    }
    (n1 as u16) << 8 | (n2 as u16) << 4 | n3 as u16
}

/// Concatenates two nibbles into an 8-bit immediate.
pub fn kk(k1: U4, k2: U4) -> (r: u8)
    ensures
        r == (k1 << 4) | k2,
        k1 < 16 && k2 < 16 ==> r == k1 * 16 + k2,
{
    proof {
        assert(k1 < 16 && k2 < 16 ==> (k1 << 4) | k2 == k1 * 16 + k2) by (bit_vector);
    }
    k1 << 4 | k2
}

impl Instruction {
    /// Decodes one instruction word.  Total and deterministic: for every one
    /// of the 65536 possible words the result is exactly `spec_decode(word)`.
    pub fn decode(word: u16) -> (ins: Instruction)
        ensures
            ins == spec_decode(word),
            spec_ins_wf(ins),
    {
        let (a, x, y, n) = u16_to_nibbles(word);
        let imm = kk(y, n);
        let addr = nnn(x, y, n);
        proof {
            assert(((((word >> 4) & 0xf) as u8) << 4) | ((word & 0xf) as u8) == (
            word & 0xff) as u8) by (bit_vector);
            assert(((((word >> 8) & 0xf) as u8 as u16) << 8) | ((((word >> 4) & 0xf) as u8 as u16)
                << 4) | ((word & 0xf) as u8 as u16) == word & 0xfff) by (bit_vector);
        }
        match (a, x, y, n) {
            (0x0, 0x0, 0xe, 0x0) => Instruction::Cls,
            (0x0, 0x0, 0xe, 0xe) => Instruction::Ret,
            (0x3, _, _, _) => Instruction::SkipEq(x, imm),
            (0x4, _, _, _) => Instruction::SkipNEq(x, imm),
            (0x5, _, _, 0x0) => Instruction::SkipEqV(x, y),
            (0x6, _, _, _) => Instruction::SetReg(x, imm),
            (0x7, _, _, _) => Instruction::Add(x, imm),
            (0x8, _, _, 0x0) => Instruction::Load(x, y),
            (0x8, _, _, 0x1) => Instruction::Or(x, y),
            (0x8, _, _, 0x2) => Instruction::And(x, y),
            (0x8, _, _, 0x3) => Instruction::Xor(x, y),
            (0x8, _, _, 0x4) => Instruction::AddCarry(x, y),
            (0x8, _, _, 0x5) => Instruction::SubCarry(x, y),
            (0x8, _, _, 0x6) => Instruction::Shr(x, y),
            (0x8, _, _, 0x7) => Instruction::SubN(x, y),
            (0x8, _, _, 0xe) => Instruction::Shl(x, y),
            (0x9, _, _, 0x0) => Instruction::Sne(x, y),
            (0xa, _, _, _) => Instruction::LoadI(addr),
            (0xb, _, _, _) => Instruction::JmpV0(addr),
            (0xc, _, _, _) => Instruction::Rnd(x, imm),
            (0xd, _, _, _) => Instruction::Drw(x, y, n),
            (0xe, _, 0x9, 0xe) => Instruction::SkipPressed(x),
            (0xe, _, 0xa, 0x1) => Instruction::SkipNPressed(x),
            (0xf, _, 0x0, 0x7) => Instruction::LoadDT(x),
            (0xf, _, 0x0, 0xa) => Instruction::LoadKeyPress(x),
            (0xf, _, 0x1, 0x5) => Instruction::SetDT(x),
            (0xf, _, 0x1, 0x8) => Instruction::SetST(x),
            (0xf, _, 0x1, 0xe) => Instruction::AddI(x),
            (0xf, _, 0x2, 0x9) => Instruction::LoadSprite(x),
            (0xf, _, 0x3, 0x3) => Instruction::LoadBCD(x),
            (0xf, _, 0x5, 0x5) => Instruction::LoadAllI(x),
            (0xf, _, 0x6, 0x5) => Instruction::SetAllI(x),
            (0x1, _, _, _) => Instruction::Jmp(addr),
            (0x2, _, _, _) => Instruction::Call(addr),
            _ => Instruction::Sys(addr),
        }
    }
}

} // verus!
