use chip8::instructions::{kk, nnn, u16_to_nibbles, Instruction};

#[test]
fn test_u16_to_nibbles() {
    let r = u16_to_nibbles(0xfab4);
    assert_eq!(r, (0xf, 0xa, 0xb, 0x4));
}

#[test]
fn test_nnn() {
    let r = nnn(0xf, 0xd, 0xe);
    assert_eq!(r, 0xfde);
}

#[test]
fn test_kk() {
    let r = kk(0xf, 0xd);
    assert_eq!(r, 0xfd);
}

#[test]
fn test_decode_is_total() {
    // every 16-bit word decodes to exactly one variant, without panicking
    for w in 0..=0xffffu16 {
        let _ = Instruction::decode(w);
    }
}

#[test]
fn test_decode_examples() {
    assert_eq!(Instruction::decode(0x00e0), Instruction::Cls);
    assert_eq!(Instruction::decode(0x00ee), Instruction::Ret);
    assert_eq!(Instruction::decode(0x0123), Instruction::Sys(0x123));
    assert_eq!(Instruction::decode(0x1abc), Instruction::Jmp(0xabc));
    assert_eq!(Instruction::decode(0x2abc), Instruction::Call(0xabc));
    assert_eq!(Instruction::decode(0x3a42), Instruction::SkipEq(0xa, 0x42));
    assert_eq!(Instruction::decode(0x4a42), Instruction::SkipNEq(0xa, 0x42));
    assert_eq!(Instruction::decode(0x5ab0), Instruction::SkipEqV(0xa, 0xb));
    assert_eq!(Instruction::decode(0x6a42), Instruction::SetReg(0xa, 0x42));
    assert_eq!(Instruction::decode(0x7a42), Instruction::Add(0xa, 0x42));
    assert_eq!(Instruction::decode(0x8ab0), Instruction::Load(0xa, 0xb));
    assert_eq!(Instruction::decode(0x8ab1), Instruction::Or(0xa, 0xb));
    assert_eq!(Instruction::decode(0x8ab2), Instruction::And(0xa, 0xb));
    assert_eq!(Instruction::decode(0x8ab3), Instruction::Xor(0xa, 0xb));
    assert_eq!(Instruction::decode(0x8ab4), Instruction::AddCarry(0xa, 0xb));
    assert_eq!(Instruction::decode(0x8ab5), Instruction::SubCarry(0xa, 0xb));
    assert_eq!(Instruction::decode(0x8ab6), Instruction::Shr(0xa, 0xb));
    assert_eq!(Instruction::decode(0x8ab7), Instruction::SubN(0xa, 0xb));
    assert_eq!(Instruction::decode(0x8abe), Instruction::Shl(0xa, 0xb));
    assert_eq!(Instruction::decode(0x9ab0), Instruction::Sne(0xa, 0xb));
    assert_eq!(Instruction::decode(0xaabc), Instruction::LoadI(0xabc));
    assert_eq!(Instruction::decode(0xbabc), Instruction::JmpV0(0xabc));
    assert_eq!(Instruction::decode(0xca42), Instruction::Rnd(0xa, 0x42));
    assert_eq!(Instruction::decode(0xdab5), Instruction::Drw(0xa, 0xb, 0x5));
    assert_eq!(Instruction::decode(0xea9e), Instruction::SkipPressed(0xa));
    assert_eq!(Instruction::decode(0xeaa1), Instruction::SkipNPressed(0xa));
    assert_eq!(Instruction::decode(0xfa07), Instruction::LoadDT(0xa));
    assert_eq!(Instruction::decode(0xfa0a), Instruction::LoadKeyPress(0xa));
    assert_eq!(Instruction::decode(0xfa15), Instruction::SetDT(0xa));
    assert_eq!(Instruction::decode(0xfa18), Instruction::SetST(0xa));
    assert_eq!(Instruction::decode(0xfa1e), Instruction::AddI(0xa));
    assert_eq!(Instruction::decode(0xfa29), Instruction::LoadSprite(0xa));
    assert_eq!(Instruction::decode(0xfa33), Instruction::LoadBCD(0xa));
    assert_eq!(Instruction::decode(0xfa55), Instruction::LoadAllI(0xa));
    assert_eq!(Instruction::decode(0xfa65), Instruction::SetAllI(0xa));
}

#[test]
fn test_decode_unofficial_patterns_fall_back_to_sys() {
    // trailing-nibble mismatches outside the opcode table carry the raw
    // address bits in the system-call variant
    assert_eq!(Instruction::decode(0x5121), Instruction::Sys(0x121));
    assert_eq!(Instruction::decode(0x8ab8), Instruction::Sys(0xab8));
    assert_eq!(Instruction::decode(0x9ab3), Instruction::Sys(0xab3));
    assert_eq!(Instruction::decode(0xea00), Instruction::Sys(0xa00));
    assert_eq!(Instruction::decode(0xfa99), Instruction::Sys(0xa99));
    assert_eq!(Instruction::decode(0x0000), Instruction::Sys(0x000));
}

#[test]
fn test_nibbles_recompose() {
    for &w in &[0x0000u16, 0xffff, 0x1234, 0x8a5e, 0x0001] {
        let (a, b, c, d) = u16_to_nibbles(w);
        assert!(a < 16 && b < 16 && c < 16 && d < 16);
        assert_eq!(
            ((a as u16) << 12) | ((b as u16) << 8) | ((c as u16) << 4) | (d as u16),
            w
        );
    }
}
