use chip8::keyboard::Keyboard;
use chip8::machine::{Fault, FaultKind, Machine, PROGRAM_START_AT};
use chip8::screen::Screen;

fn rig() -> (Machine, Keyboard, Screen) {
    (Machine::new(), Keyboard::new(), Screen::new())
}

#[test]
fn test_load_bcd() {
    let mut screen = Screen::new();
    let keyboard = Keyboard::new();
    let mut machine = Machine::new();

    machine.load(&[0xf4, 0x33]);
    machine.set_register(4, 235);

    machine.step(&keyboard, &mut screen).unwrap();

    assert_eq!(machine.ram_at(machine.register_i() as usize), 2);
    assert_eq!(machine.ram_at(machine.register_i() as usize + 1), 3);
    assert_eq!(machine.ram_at(machine.register_i() as usize + 2), 5);
}

#[test]
fn test_set_then_add() {
    // set register 0 to 5, then add 3: register 0 is 8 and the program
    // counter advanced by 4 from the load address
    let (mut m, k, mut s) = rig();
    m.load(&[0x60, 0x05, 0x70, 0x03]);
    m.step(&k, &mut s).unwrap();
    m.step(&k, &mut s).unwrap();
    assert_eq!(m.register(0), 8);
    assert_eq!(m.pc(), PROGRAM_START_AT + 4);
}

#[test]
fn test_add_wraps_without_flag() {
    let (mut m, k, mut s) = rig();
    m.load(&[0x70, 0x0a]);
    m.set_register(0, 250);
    m.step(&k, &mut s).unwrap();
    assert_eq!(m.register(0), 4);
    // the immediate add leaves the flag register alone
    assert_eq!(m.register(15), 0);
}

#[test]
fn test_add_with_carry() {
    let (mut m, k, mut s) = rig();
    m.load(&[0x81, 0x24, 0x83, 0x44]);
    m.set_register(1, 200);
    m.set_register(2, 100);
    m.set_register(3, 10);
    m.set_register(4, 20);
    m.step(&k, &mut s).unwrap();
    assert_eq!(m.register(1), 44); // (200 + 100) mod 256
    assert_eq!(m.register(15), 1); // 300 > 255
    m.step(&k, &mut s).unwrap();
    assert_eq!(m.register(3), 30);
    assert_eq!(m.register(15), 0);
}

#[test]
fn test_sub_with_borrow() {
    let (mut m, k, mut s) = rig();
    m.load(&[0x81, 0x25, 0x83, 0x45, 0x85, 0x65]);
    m.set_register(1, 20);
    m.set_register(2, 10);
    m.set_register(3, 10);
    m.set_register(4, 20);
    m.set_register(5, 9);
    m.set_register(6, 9);
    m.step(&k, &mut s).unwrap();
    assert_eq!(m.register(1), 10);
    assert_eq!(m.register(15), 1); // 20 >= 10: no borrow
    m.step(&k, &mut s).unwrap();
    assert_eq!(m.register(3), 246); // (10 - 20) mod 256
    assert_eq!(m.register(15), 0);
    m.step(&k, &mut s).unwrap();
    assert_eq!(m.register(5), 0);
    assert_eq!(m.register(15), 1); // equal operands: no borrow
}

#[test]
fn test_sub_reversed() {
    let (mut m, k, mut s) = rig();
    m.load(&[0x81, 0x27]);
    m.set_register(1, 10);
    m.set_register(2, 30);
    m.step(&k, &mut s).unwrap();
    assert_eq!(m.register(1), 20); // V2 - V1
    assert_eq!(m.register(15), 1); // 30 >= 10
}

#[test]
fn test_shift_right() {
    let (mut m, k, mut s) = rig();
    m.load(&[0x81, 0x06, 0x82, 0x06]);
    m.set_register(1, 7);
    m.set_register(2, 8);
    m.step(&k, &mut s).unwrap();
    assert_eq!(m.register(1), 3); // 7 / 2
    assert_eq!(m.register(15), 1); // 7 & 1
    m.step(&k, &mut s).unwrap();
    assert_eq!(m.register(2), 4);
    assert_eq!(m.register(15), 0);
}

#[test]
fn test_shift_left() {
    let (mut m, k, mut s) = rig();
    m.load(&[0x81, 0x0e, 0x82, 0x0e]);
    m.set_register(1, 0x81);
    m.set_register(2, 0x41);
    m.step(&k, &mut s).unwrap();
    assert_eq!(m.register(1), 0x02); // (0x81 * 2) mod 256
    assert_eq!(m.register(15), 1); // bit 7 was set
    m.step(&k, &mut s).unwrap();
    assert_eq!(m.register(2), 0x82);
    assert_eq!(m.register(15), 0);
}

#[test]
fn test_logic_ops() {
    let (mut m, k, mut s) = rig();
    m.load(&[0x81, 0x21, 0x83, 0x42, 0x85, 0x63]);
    m.set_register(1, 0b1100);
    m.set_register(2, 0b1010);
    m.set_register(3, 0b1100);
    m.set_register(4, 0b1010);
    m.set_register(5, 0b1100);
    m.set_register(6, 0b1010);
    m.step(&k, &mut s).unwrap();
    assert_eq!(m.register(1), 0b1110);
    m.step(&k, &mut s).unwrap();
    assert_eq!(m.register(3), 0b1000);
    m.step(&k, &mut s).unwrap();
    assert_eq!(m.register(5), 0b0110);
}

#[test]
fn test_skips_and_jumps() {
    let (mut m, k, mut s) = rig();
    // skip-if-equal taken: pc jumps over one instruction
    m.load(&[0x30, 0x00]);
    m.step(&k, &mut s).unwrap();
    assert_eq!(m.pc(), 0x204);

    let (mut m2, k2, mut s2) = rig();
    // skip-if-equal not taken
    m2.load(&[0x30, 0x01]);
    m2.step(&k2, &mut s2).unwrap();
    assert_eq!(m2.pc(), 0x202);

    let (mut m3, k3, mut s3) = rig();
    // jump with register-0 offset
    m3.load(&[0xb2, 0x00]);
    m3.set_register(0, 4);
    m3.step(&k3, &mut s3).unwrap();
    assert_eq!(m3.pc(), 0x204);

    let (mut m4, k4, mut s4) = rig();
    // the system-call variant jumps to its raw address
    m4.load(&[0x01, 0x23]);
    m4.step(&k4, &mut s4).unwrap();
    assert_eq!(m4.pc(), 0x123);
}

#[test]
fn test_call_and_ret() {
    let (mut m, k, mut s) = rig();
    m.load(&[0x22, 0x04, 0x00, 0x00, 0x00, 0xee]);
    m.step(&k, &mut s).unwrap();
    assert_eq!(m.pc(), 0x204);
    m.step(&k, &mut s).unwrap(); // return
    assert_eq!(m.pc(), 0x202);
}

#[test]
fn test_ret_underflow_faults() {
    let (mut m, k, mut s) = rig();
    m.load(&[0x00, 0xee]);
    let e = m.step(&k, &mut s).unwrap_err();
    assert_eq!(
        e,
        Fault { kind: FaultKind::StackUnderflow, pc: 0x200, opcode: 0x00ee }
    );
    // the machine is left unchanged
    assert_eq!(m.pc(), 0x200);
}

#[test]
fn test_call_overflow_faults() {
    let (mut m, k, mut s) = rig();
    let mut rom = Vec::new();
    for idx in 0..16u16 {
        let target = 0x202 + 2 * idx;
        rom.push(0x20 | (target >> 8) as u8);
        rom.push((target & 0xff) as u8);
    }
    m.load(&rom);
    for _ in 0..15 {
        m.step(&k, &mut s).unwrap();
    }
    let e = m.step(&k, &mut s).unwrap_err();
    assert_eq!(e.kind, FaultKind::StackOverflow);
    assert_eq!(e.pc, 0x200 + 2 * 15);
    assert_eq!(e.opcode, 0x2220);
}

#[test]
fn test_glyph_address() {
    let (mut m, k, mut s) = rig();
    m.load(&[0xf0, 0x29]);
    m.set_register(0, 0xa);
    m.step(&k, &mut s).unwrap();
    assert_eq!(m.register_i(), 50); // digit A's sprite is 5 bytes per digit
    assert_eq!(m.ram_at(50), 0xf0); // first row of the A glyph
}

#[test]
fn test_glyph_out_of_range_faults() {
    let (mut m, k, mut s) = rig();
    m.load(&[0xf0, 0x29]);
    m.set_register(0, 16);
    let e = m.step(&k, &mut s).unwrap_err();
    assert_eq!(e.kind, FaultKind::GlyphOutOfRange);
    assert_eq!(e.pc, 0x200);
    assert_eq!(e.opcode, 0xf029);
}

#[test]
fn test_bcd_out_of_bounds_faults() {
    let (mut m, k, mut s) = rig();
    m.load(&[0xaf, 0xfe, 0xf0, 0x33]);
    m.step(&k, &mut s).unwrap(); // I = 0xffe
    let e = m.step(&k, &mut s).unwrap_err();
    assert_eq!(e.kind, FaultKind::MemoryOutOfBounds);
}

#[test]
fn test_fetch_out_of_bounds_faults() {
    let (mut m, k, mut s) = rig();
    m.load(&[0x1f, 0xff]); // jump to 0xfff: the next fetch needs byte 0x1000
    m.step(&k, &mut s).unwrap();
    let e = m.step(&k, &mut s).unwrap_err();
    assert_eq!(e, Fault { kind: FaultKind::FetchOutOfBounds, pc: 0xfff, opcode: 0 });
}

#[test]
fn test_key_query_out_of_range_faults() {
    let (mut m, k, mut s) = rig();
    m.load(&[0xe0, 0x9e]);
    m.set_register(0, 200);
    let e = m.step(&k, &mut s).unwrap_err();
    assert_eq!(e.kind, FaultKind::KeyOutOfRange);
}

#[test]
fn test_key_query_skips() {
    let (mut m, mut k, mut s) = rig();
    // the instruction at 0x202 is skipped over, never executed
    m.load(&[0xe0, 0x9e, 0x6f, 0x00, 0xe0, 0xa1]);
    m.set_register(0, 3);
    k.press(3);
    m.step(&k, &mut s).unwrap();
    assert_eq!(m.pc(), 0x204); // pressed: skip
    m.set_register(0, 4);
    m.step(&k, &mut s).unwrap(); // skip-if-not-pressed on an unpressed key
    assert_eq!(m.pc(), 0x208);
}

#[test]
fn test_key_wait_blocks_until_press() {
    let (mut m, mut k, mut s) = rig();
    m.load(&[0xf3, 0x0a]);
    for _ in 0..5 {
        m.step(&k, &mut s).unwrap();
        // no key pressed: the same instruction is re-armed each step
        assert_eq!(m.pc(), 0x200);
        assert_eq!(m.register(3), 0);
    }
    k.press(7);
    m.step(&k, &mut s).unwrap();
    assert_eq!(m.register(3), 7);
    assert_eq!(m.pc(), 0x202);
}

#[test]
fn test_random_masked_by_immediate() {
    let (mut m, k, mut s) = rig();
    m.load(&[0xc0, 0x00, 0xc1, 0x0f]);
    m.set_register(0, 0xaa);
    m.step(&k, &mut s).unwrap();
    assert_eq!(m.register(0), 0); // any byte AND 0 is 0
    m.step(&k, &mut s).unwrap();
    assert!(m.register(1) <= 0x0f);
}

#[test]
fn test_add_i() {
    let (mut m, k, mut s) = rig();
    m.load(&[0xa1, 0x00, 0xf0, 0x1e]);
    m.set_register(0, 5);
    m.step(&k, &mut s).unwrap();
    m.step(&k, &mut s).unwrap();
    assert_eq!(m.register_i(), 0x105);
}

#[test]
fn test_bulk_store_and_load() {
    let (mut m, k, mut s) = rig();
    m.load(&[0xa3, 0x00, 0xf2, 0x55, 0x60, 0x00, 0x61, 0x00, 0xf2, 0x65]);
    m.set_register(0, 11);
    m.set_register(1, 22);
    m.set_register(2, 33);
    m.step(&k, &mut s).unwrap(); // I = 0x300
    m.step(&k, &mut s).unwrap(); // store V0..=V2
    assert_eq!(m.ram_at(0x300), 11);
    assert_eq!(m.ram_at(0x301), 22);
    assert_eq!(m.ram_at(0x302), 33);
    m.step(&k, &mut s).unwrap(); // V0 = 0
    m.step(&k, &mut s).unwrap(); // V1 = 0
    m.step(&k, &mut s).unwrap(); // read V0..=V2 back
    assert_eq!(m.register(0), 11);
    assert_eq!(m.register(1), 22);
    assert_eq!(m.register(2), 33);
}

#[test]
fn test_timer_set_and_read() {
    let (mut m, k, mut s) = rig();
    m.load(&[0xf0, 0x15, 0xf1, 0x07, 0xf0, 0x18]);
    m.set_register(0, 42);
    m.step(&k, &mut s).unwrap(); // delay timer = 42
    m.step(&k, &mut s).unwrap(); // V1 = delay timer
    // a 60 Hz tick may have intervened between the two steps
    assert!(m.register(1) == 42 || m.register(1) == 41);
    m.step(&k, &mut s).unwrap(); // sound timer = 42
    assert!(m.sound_timer() == 42 || m.sound_timer() == 41);
}

#[test]
fn test_timer_rate_limited() {
    let (mut m, k, mut s) = rig();
    // set the delay timer to 200, then spin on a jump-to-self
    m.load(&[0x60, 200, 0xf0, 0x15, 0x12, 0x04]);
    m.step(&k, &mut s).unwrap();
    m.step(&k, &mut s).unwrap();
    let start = m.delay_timer();
    assert!(start >= 199);
    let t0 = std::time::Instant::now();
    for _ in 0..1000 {
        m.step(&k, &mut s).unwrap();
    }
    let elapsed = t0.elapsed().as_micros();
    let dec = (start - m.delay_timer()) as u128;
    // the timers run at 60 Hz regardless of the step rate: at most one
    // decrement per elapsed tick period, plus one pending at loop entry
    assert!(dec <= elapsed / 16666 + 2);
    if elapsed < 16000 {
        assert!(dec <= 1);
    }
}

#[test]
fn test_draw_wraparound() {
    let (mut m, k, mut s) = rig();
    // an 8x1 all-ones sprite drawn at x=60, y=0 wraps to the left edge
    m.load(&[0xa2, 0x04, 0xd0, 0x11, 0xff]);
    m.set_register(0, 60);
    m.set_register(1, 0);
    m.step(&k, &mut s).unwrap(); // I = 0x204 (the sprite byte)
    m.step(&k, &mut s).unwrap(); // draw
    for x in [60usize, 61, 62, 63, 0, 1, 2, 3] {
        assert_eq!(s.get(x, 0), 1);
    }
    for x in 4..60 {
        assert_eq!(s.get(x, 0), 0);
    }
    for x in 0..64 {
        assert_eq!(s.get(x, 1), 0);
    }
    assert_eq!(m.register(15), 0); // the screen was blank: no collision
}

#[test]
fn test_draw_twice_restores_screen() {
    let (mut m, k, mut s) = rig();
    m.load(&[0xa2, 0x06, 0xd0, 0x12, 0xd0, 0x12, 0xff, 0x81]);
    m.set_register(0, 5);
    m.set_register(1, 10);
    m.step(&k, &mut s).unwrap(); // I = sprite
    m.step(&k, &mut s).unwrap(); // first draw
    assert_eq!(m.register(15), 0);
    assert_eq!(s.get(5, 10), 1);
    assert_eq!(s.get(5, 11), 1);
    assert_eq!(s.get(6, 11), 0);
    m.step(&k, &mut s).unwrap(); // second identical draw
    for y in 0..32 {
        for x in 0..64 {
            assert_eq!(s.get(x, y), 0);
        }
    }
    // erasing its own pixels counts as a collision on the second draw
    assert_eq!(m.register(15), 1);
}

#[test]
fn test_draw_collision_flag() {
    let (mut m, k, mut s) = rig();
    m.load(&[0xa2, 0x04, 0xd0, 0x11, 0x80]);
    m.set_register(0, 9);
    m.set_register(1, 4);
    s.set(9, 4, 1); // the sprite's lit bit lands on a lit pixel
    m.step(&k, &mut s).unwrap();
    m.step(&k, &mut s).unwrap();
    assert_eq!(s.get(9, 4), 0); // XOR turned it off
    assert_eq!(m.register(15), 1);
}

#[test]
fn test_clear_screen_instruction() {
    let (mut m, k, mut s) = rig();
    m.load(&[0x00, 0xe0]);
    s.set(1, 1, 1);
    s.set(40, 20, 3);
    m.step(&k, &mut s).unwrap();
    for y in 0..32 {
        for x in 0..64 {
            assert_eq!(s.get(x, y), 0);
        }
    }
}

#[test]
fn test_load_register_copy() {
    let (mut m, k, mut s) = rig();
    m.load(&[0x81, 0x20]);
    m.set_register(2, 55);
    m.step(&k, &mut s).unwrap();
    assert_eq!(m.register(1), 55);
    assert_eq!(m.register(2), 55);
}

#[test]
fn test_register_compare_skips() {
    let (mut m, k, mut s) = rig();
    m.load(&[0x51, 0x20]); // skip if V1 = V2
    m.set_register(1, 9);
    m.set_register(2, 9);
    m.step(&k, &mut s).unwrap();
    assert_eq!(m.pc(), 0x204);

    let (mut m2, k2, mut s2) = rig();
    m2.load(&[0x91, 0x20]); // skip if V1 != V2
    m2.set_register(1, 9);
    m2.set_register(2, 8);
    m2.step(&k2, &mut s2).unwrap();
    assert_eq!(m2.pc(), 0x204);

    let (mut m3, k3, mut s3) = rig();
    m3.load(&[0x91, 0x20]);
    m3.step(&k3, &mut s3).unwrap(); // equal registers: no skip
    assert_eq!(m3.pc(), 0x202);
}

#[test]
fn test_load_places_program_at_load_address() {
    let mut m = Machine::new();
    m.load(&[0xab, 0xcd]);
    assert_eq!(m.ram_at(0x200), 0xab);
    assert_eq!(m.ram_at(0x201), 0xcd);
    // the glyph table below the load address is untouched
    assert_eq!(m.ram_at(0), 0xf0);
    assert_eq!(m.ram_at(0x202), 0);
}

#[test]
fn test_glyph_table_preloaded() {
    let m = Machine::new();
    // the zero glyph
    assert_eq!(m.ram_at(0), 0xf0);
    assert_eq!(m.ram_at(1), 0x90);
    assert_eq!(m.ram_at(4), 0xf0);
    // the F glyph ends the table
    assert_eq!(m.ram_at(75), 0xf0);
    assert_eq!(m.ram_at(79), 0x80);
    // everything after the table starts zeroed
    assert_eq!(m.ram_at(80), 0);
    assert_eq!(m.ram_at(4095), 0);
}
