//! The execution engine: registers, memory, stack, program counter and
//! timers, advanced one instruction per `step` call.
//!
//! Every arithmetic operation is specified bit-exactly; conditions the
//! architecture treats as fatal (stack overflow or underflow, out-of-range
//! glyph index, out-of-bounds memory access, out-of-range key number) are
//! surfaced as `Fault` values with the machine left unchanged, never as
//! panics.

use vstd::prelude::*;

use crate::instructions::{Instruction, U4, spec_decode};
use crate::keyboard::{Keyboard, spec_first_pressed};
use crate::screen::{Screen, spec_pixel_index, spec_pixel_norm};

verus! {

/// Programs are loaded at this address; execution starts here.
pub const PROGRAM_START_AT: usize = 0x200;

/// Size of the addressable memory in bytes.
pub const MEMORY_SIZE: usize = 4096;

/// Number of return-address slots in the call stack.
pub const STACK_SIZE: usize = 16;

/// Microseconds between timer decrements (60 Hz).
pub const TIMER_TICK_MICROS: u128 = 16666;

/// The condition that made an instruction fatal.
#[derive(Clone, Copy, Debug, PartialEq, Eq, Structural)]
pub enum FaultKind {
    /// The program counter left addressable memory, so no word can be fetched.
    FetchOutOfBounds,
    /// A subroutine call arrived with the call stack already full.
    StackOverflow,
    /// A return arrived with the call stack empty.
    StackUnderflow,
    /// The glyph-address instruction was given a digit above 15.
    GlyphOutOfRange,
    /// A memory-indexed instruction reached past the end of memory.
    MemoryOutOfBounds,
    /// A key-query instruction was given a key number above 15.
    KeyOutOfRange,
}

/// A fatal fault, reported with the program counter of the faulting
/// instruction and the fetched instruction word (0 when the fetch itself
/// was out of bounds, since no word could be read).
#[derive(Clone, Copy, Debug, PartialEq, Eq, Structural)]
pub struct Fault {
    pub kind: FaultKind,
    pub pc: usize,
    pub opcode: u16,
}

/// The mathematical value of a machine: every component of the execution
/// state except the wall-clock timestamp that gates timer decrements.
#[verifier::ext_equal]
pub struct MachineView {
    pub ram: Seq<u8>,
    pub regs: Seq<u8>,
    pub i: u16,
    pub delay: u8,
    pub sound: u8,
    pub pc: usize,
    pub sp: usize,
    pub stack: Seq<u16>,
}

impl MachineView {
    /// Well-formedness: fixed component sizes, the stack pointer inside the
    /// stack, and the program counter within the range any instruction can
    /// produce (a return address is at most 16 bits).
    pub open spec fn wf(self) -> bool {
        &&& self.ram.len() == 4096
        &&& self.regs.len() == 16
        &&& self.stack.len() == 16
        &&& self.sp < 16
        &&& self.pc <= 0x10000
    }
}

/// The execution engine.
pub struct Machine {
    ram: Vec<u8>,
    registers: Vec<u8>,
    register_i: u16,
    register_delay: u8,
    register_sound: u8,
    last_tick: std::time::Instant,
    pc: usize,
    sp: usize,
    stack: Vec<u16>,
}

#[verifier::external_type_specification]
#[verifier::external_body]
pub struct ExInstant(std::time::Instant);

/// Relies on std::time::Instant::now for the timestamp that gates timer
/// decrements.  Nothing can be promised of the wall clock.
#[verifier::external_body]
fn instant_now() -> (t: std::time::Instant) {
    std::time::Instant::now()
}

/// Relies on std::time::Instant::elapsed: the time since the instant was
/// taken.  Nothing can be promised of the wall clock.
#[verifier::external_body]
fn instant_elapsed(t: &std::time::Instant) -> (d: core::time::Duration) {
    t.elapsed()
}

/// Relies on core::time::Duration::as_micros: the duration as a count of
/// whole microseconds.  The duration itself is opaque, so no bound on the
/// count can be stated.
#[verifier::external_body]
fn duration_as_micros(d: &core::time::Duration) -> (r: u128) {
    d.as_micros()
}

/// Relies on rand::random: one byte from the thread-local generator.
/// Nothing can be promised of a random value.
#[verifier::external_body]
fn random_byte() -> (b: u8) {
    rand::random::<u8>()
}

/// Outcome of fetching, decoding and executing one instruction, before the
/// timer tick: either the machine and screen move on, or a fatal fault.
#[verifier::ext_equal]
pub enum StepOutcome {
    Next { machine: MachineView, screen: Seq<u8> },
    Fault { kind: FaultKind },
}

/// 8-bit wrapping addition: the low eight bits of the sum.
pub open spec fn spec_add_wrap(a: u8, b: u8) -> u8 {
    ((a + b) % 256) as u8
}

/// Add with carry: the 8-bit sum, and a flag that is 1 exactly when the
/// true sum exceeds 255.
pub open spec fn spec_add_carry(a: u8, b: u8) -> (u8, u8) {
    (((a + b) % 256) as u8, if a + b > 255 { 1u8 } else { 0u8 })
}

/// Subtract with borrow: the wrapped difference, and a flag that is 1
/// exactly when no borrow is needed (minuend at least subtrahend).
pub open spec fn spec_sub_borrow(a: u8, b: u8) -> (u8, u8) {
    (((a - b) % 256) as u8, if a >= b { 1u8 } else { 0u8 })
}

/// Right shift: the value halved (integer division), and the bit shifted
/// out (bit 0).
pub open spec fn spec_shift_right(v: u8) -> (u8, u8) {
    (v / 2, v & 1)
}

/// Left shift: the value doubled, truncated to eight bits, and the bit
/// shifted out (bit 7).
pub open spec fn spec_shift_left(v: u8) -> (u8, u8) {
    (((v * 2) % 256) as u8, (v >> 7) & 1)
}

/// 16-bit wrapping addition of a register into the address register.
pub open spec fn spec_add_i(i: u16, v: u8) -> u16 {
    ((i + v) % 0x10000) as u16
}

/// The big-endian instruction word at the program counter.
pub open spec fn spec_word_at(m: MachineView) -> u16 {
    ((m.ram[m.pc as int] as u16) << 8) | (m.ram[m.pc as int + 1] as u16)
}

/// Bit `col` (0 = leftmost) of one sprite row byte.
pub open spec fn spec_sprite_bit(byte: u8, col: int) -> u8 {
    (byte >> ((7 - col) as u8)) & 1
}

/// The screen after drawing the first `rows` full sprite rows and the first
/// `cols` pixels of row `rows`, of the `n`-row sprite at memory `base..`
/// positioned at (bx, by).  Each target pixel is the XOR of the sprite bit
/// with the normalized previous pixel; coordinates wrap at 64 and 32, and
/// the up-to-15 sprite rows land on pairwise distinct pixels.
pub open spec fn spec_draw_partial(
    scr: Seq<u8>,
    ram: Seq<u8>,
    base: int,
    bx: u8,
    by: u8,
    rows: int,
    cols: int,
) -> Seq<u8> {
    Seq::new(
        2048,
        |p: int|
            {
                let py = p / 64;
                let px = p % 64;
                let row = (py - by) % 32;
                let col = (px - bx) % 64;
                if col < 8 && (row < rows || (row == rows && col < cols)) {
                    spec_pixel_norm(scr[p]) ^ spec_sprite_bit(ram[base + row], col)
                } else {
                    scr[p]
                }
            },
    )
}

/// The screen after drawing the whole `n`-row sprite.
pub open spec fn spec_draw_screen(
    scr: Seq<u8>,
    ram: Seq<u8>,
    base: int,
    bx: u8,
    by: u8,
    n: u8,
) -> Seq<u8> {
    spec_draw_partial(scr, ram, base, bx, by, n as int, 0)
}

/// Whether drawing the first `rows` rows (plus `cols` pixels of row `rows`)
/// erases some lit pixel: a sprite bit 1 lands on a pixel that reads as 1.
pub open spec fn spec_collision_partial(
    scr: Seq<u8>,
    ram: Seq<u8>,
    base: int,
    bx: u8,
    by: u8,
    rows: int,
    cols: int,
) -> bool {
    exists|i: int, b: int|
        0 <= i && 0 <= b < 8 && (i < rows || (i == rows && b < cols)) && #[trigger] spec_sprite_bit(
            ram[base + i],
            b,
        ) == 1 && spec_pixel_norm(
            scr[spec_pixel_index((bx + b) % 64, (by + i) % 32)],
        ) == 1
}

/// Whether drawing the whole `n`-row sprite erases some lit pixel.
pub open spec fn spec_draw_collision(
    scr: Seq<u8>,
    ram: Seq<u8>,
    base: int,
    bx: u8,
    by: u8,
    n: u8,
) -> bool {
    spec_collision_partial(scr, ram, base, bx, by, n as int, 0)
}

/// The timers after one step: when a 60 Hz tick is due, each nonzero timer
/// goes down by one, saturating at zero; otherwise both are unchanged.
/// A single step never decrements a timer by more than one.
pub open spec fn spec_tick_timers(m: MachineView, due: bool) -> MachineView {
    if due {
        MachineView {
            delay: if m.delay > 0 { (m.delay - 1) as u8 } else { 0 },
            sound: if m.sound > 0 { (m.sound - 1) as u8 } else { 0 },
            ..m
        }
    } else {
        m
    }
}

/// The meaning of one decoded instruction, executed on machine `m` (whose
/// program counter has already advanced past the instruction), reading the
/// key latch `keys` and the screen `scr`; `rnd` is the byte the random
/// instruction draws.  This is the authoritative statement of the
/// architecture's execution semantics.
pub open spec fn spec_exec(
    m: MachineView,
    ins: Instruction,
    keys: Seq<bool>,
    scr: Seq<u8>,
    rnd: u8,
) -> StepOutcome {
    match ins {
        Instruction::Sys(a) => StepOutcome::Next {
            machine: MachineView { pc: a as usize, ..m },
            screen: scr,
        },
        Instruction::Cls => StepOutcome::Next {
            machine: m,
            screen: Seq::new(2048, |p: int| 0u8),
        },
        Instruction::Ret => if m.sp == 0 {
            StepOutcome::Fault { kind: FaultKind::StackUnderflow }
        } else {
            StepOutcome::Next {
                machine: MachineView {
                    pc: m.stack[m.sp as int] as usize,
                    sp: (m.sp - 1) as usize,
                    ..m
                },
                screen: scr,
            }
        },
        Instruction::Jmp(a) => StepOutcome::Next {
            machine: MachineView { pc: a as usize, ..m },
            screen: scr,
        },
        Instruction::Call(a) => if m.sp >= 15 {
            StepOutcome::Fault { kind: FaultKind::StackOverflow }
        } else {
            StepOutcome::Next {
                machine: MachineView {
                    sp: (m.sp + 1) as usize,
                    stack: m.stack.update(m.sp as int + 1, m.pc as u16),
                    pc: a as usize,
                    ..m
                },
                screen: scr,
            }
        },
        Instruction::SkipEq(x, k) => StepOutcome::Next {
            machine: if m.regs[x as int] == k {
                MachineView { pc: (m.pc + 2) as usize, ..m }
            } else {
                m
            },
            screen: scr,
        },
        Instruction::SkipNEq(x, k) => StepOutcome::Next {
            machine: if m.regs[x as int] != k {
                MachineView { pc: (m.pc + 2) as usize, ..m }
            } else {
                m
            },
            screen: scr,
        },
        Instruction::SkipEqV(x, y) => StepOutcome::Next {
            machine: if m.regs[x as int] == m.regs[y as int] {
                MachineView { pc: (m.pc + 2) as usize, ..m }
            } else {
                m
            },
            screen: scr,
        },
        Instruction::SetReg(x, k) => StepOutcome::Next {
            machine: MachineView { regs: m.regs.update(x as int, k), ..m },
            screen: scr,
        },
        Instruction::Add(x, k) => StepOutcome::Next {
            machine: MachineView {
                regs: m.regs.update(x as int, spec_add_wrap(m.regs[x as int], k)),
                ..m
            },
            screen: scr,
        },
        Instruction::Load(x, y) => StepOutcome::Next {
            machine: MachineView { regs: m.regs.update(x as int, m.regs[y as int]), ..m },
            screen: scr,
        },
        Instruction::Or(x, y) => StepOutcome::Next {
            machine: MachineView {
                regs: m.regs.update(x as int, m.regs[x as int] | m.regs[y as int]),
                ..m
            },
            screen: scr,
        },
        Instruction::And(x, y) => StepOutcome::Next {
            machine: MachineView {
                regs: m.regs.update(x as int, m.regs[x as int] & m.regs[y as int]),
                ..m
            },
            screen: scr,
        },
        Instruction::Xor(x, y) => StepOutcome::Next {
            machine: MachineView {
                regs: m.regs.update(x as int, m.regs[x as int] ^ m.regs[y as int]),
                ..m
            },
            screen: scr,
        },
        Instruction::AddCarry(x, y) => {
            let r = spec_add_carry(m.regs[x as int], m.regs[y as int]);
            StepOutcome::Next {
                machine: MachineView {
                    regs: m.regs.update(15, r.1).update(x as int, r.0),
                    ..m
                },
                screen: scr,
            }
        },
        Instruction::SubCarry(x, y) => {
            let flag = spec_sub_borrow(m.regs[x as int], m.regs[y as int]).1;
            let r1 = m.regs.update(15, flag);
            let val = spec_sub_borrow(r1[x as int], r1[y as int]).0;
            StepOutcome::Next {
                machine: MachineView { regs: r1.update(x as int, val), ..m },
                screen: scr,
            }
        },
        Instruction::Shr(x, _y) => {
            let flag = spec_shift_right(m.regs[x as int]).1;
            let r1 = m.regs.update(15, flag);
            StepOutcome::Next {
                machine: MachineView {
                    regs: r1.update(x as int, spec_shift_right(r1[x as int]).0),
                    ..m
                },
                screen: scr,
            }
        },
        Instruction::SubN(x, y) => {
            let flag = spec_sub_borrow(m.regs[y as int], m.regs[x as int]).1;
            let r1 = m.regs.update(15, flag);
            let val = spec_sub_borrow(r1[y as int], r1[x as int]).0;
            StepOutcome::Next {
                machine: MachineView { regs: r1.update(x as int, val), ..m },
                screen: scr,
            }
        },
        Instruction::Shl(x, _y) => {
            let flag = spec_shift_left(m.regs[x as int]).1;
            let r1 = m.regs.update(15, flag);
            StepOutcome::Next {
                machine: MachineView {
                    regs: r1.update(x as int, spec_shift_left(r1[x as int]).0),
                    ..m
                },
                screen: scr,
            }
        },
        Instruction::Sne(x, y) => StepOutcome::Next {
            machine: if m.regs[x as int] != m.regs[y as int] {
                MachineView { pc: (m.pc + 2) as usize, ..m }
            } else {
                m
            },
            screen: scr,
        },
        Instruction::LoadI(a) => StepOutcome::Next {
            machine: MachineView { i: a, ..m },
            screen: scr,
        },
        Instruction::JmpV0(a) => StepOutcome::Next {
            machine: MachineView { pc: (m.regs[0] + a) as usize, ..m },
            screen: scr,
        },
        Instruction::Rnd(x, k) => StepOutcome::Next {
            machine: MachineView { regs: m.regs.update(x as int, rnd & k), ..m },
            screen: scr,
        },
        Instruction::Drw(x, y, n) => if m.i + n > 4096 {
            StepOutcome::Fault { kind: FaultKind::MemoryOutOfBounds }
        } else {
            let bx = m.regs[x as int];
            let by = m.regs[y as int];
            let coll = spec_draw_collision(scr, m.ram, m.i as int, bx, by, n);
            StepOutcome::Next {
                machine: MachineView {
                    regs: m.regs.update(15, if coll { 1u8 } else { 0u8 }),
                    ..m
                },
                screen: spec_draw_screen(scr, m.ram, m.i as int, bx, by, n),
            }
        },
        Instruction::SkipPressed(x) => if m.regs[x as int] >= 16 {
            StepOutcome::Fault { kind: FaultKind::KeyOutOfRange }
        } else {
            StepOutcome::Next {
                machine: if keys[m.regs[x as int] as int] {
                    MachineView { pc: (m.pc + 2) as usize, ..m }
                } else {
                    m
                },
                screen: scr,
            }
        },
        Instruction::SkipNPressed(x) => if m.regs[x as int] >= 16 {
            StepOutcome::Fault { kind: FaultKind::KeyOutOfRange }
        } else {
            StepOutcome::Next {
                machine: if !keys[m.regs[x as int] as int] {
                    MachineView { pc: (m.pc + 2) as usize, ..m }
                } else {
                    m
                },
                screen: scr,
            }
        },
        Instruction::LoadDT(x) => StepOutcome::Next {
            machine: MachineView { regs: m.regs.update(x as int, m.delay), ..m },
            screen: scr,
        },
        Instruction::LoadKeyPress(x) => match spec_first_pressed(keys) {
            Some(k) => StepOutcome::Next {
                machine: MachineView { regs: m.regs.update(x as int, k), ..m },
                screen: scr,
            },
            None => StepOutcome::Next {
                machine: MachineView { pc: (m.pc - 2) as usize, ..m },
                screen: scr,
            },
        },
        Instruction::SetDT(x) => StepOutcome::Next {
            machine: MachineView { delay: m.regs[x as int], ..m },
            screen: scr,
        },
        Instruction::SetST(x) => StepOutcome::Next {
            machine: MachineView { sound: m.regs[x as int], ..m },
            screen: scr,
        },
        Instruction::AddI(x) => StepOutcome::Next {
            machine: MachineView { i: spec_add_i(m.i, m.regs[x as int]), ..m },
            screen: scr,
        },
        Instruction::LoadSprite(x) => if m.regs[x as int] > 15 {
            StepOutcome::Fault { kind: FaultKind::GlyphOutOfRange }
        } else {
            StepOutcome::Next {
                machine: MachineView { i: (m.regs[x as int] * 5) as u16, ..m },
                screen: scr,
            }
        },
        Instruction::LoadBCD(x) => if m.i + 2 >= 4096 {
            StepOutcome::Fault { kind: FaultKind::MemoryOutOfBounds }
        } else {
            let v = m.regs[x as int];
            StepOutcome::Next {
                machine: MachineView {
                    ram: m.ram.update(m.i as int, (v / 100) as u8).update(
                        m.i as int + 1,
                        ((v % 100) / 10) as u8,
                    ).update(m.i as int + 2, (v % 10) as u8),
                    ..m
                },
                screen: scr,
            }
        },
        Instruction::LoadAllI(x) => if m.i + x >= 4096 {
            StepOutcome::Fault { kind: FaultKind::MemoryOutOfBounds }
        } else {
            StepOutcome::Next {
                machine: MachineView {
                    ram: Seq::new(
                        4096,
                        |j: int|
                            if m.i <= j <= m.i + x {
                                m.regs[j - m.i]
                            } else {
                                m.ram[j]
                            },
                    ),
                    ..m
                },
                screen: scr,
            }
        },
        Instruction::SetAllI(x) => if m.i + x >= 4096 {
            StepOutcome::Fault { kind: FaultKind::MemoryOutOfBounds }
        } else {
            StepOutcome::Next {
                machine: MachineView {
                    regs: Seq::new(
                        16,
                        |j: int|
                            if j <= x {
                                m.ram[m.i + j]
                            } else {
                                m.regs[j]
                            },
                    ),
                    ..m
                },
                screen: scr,
            }
        },
    }
}

/// One whole step of the engine before the timer tick: fetch the word at
/// the program counter (a fault when it cannot be read), advance the
/// program counter past it, decode, and execute.
pub open spec fn spec_step(
    pre: MachineView,
    keys: Seq<bool>,
    scr: Seq<u8>,
    rnd: u8,
) -> StepOutcome {
    if pre.pc + 1 >= 4096 {
        StepOutcome::Fault { kind: FaultKind::FetchOutOfBounds }
    } else {
        let w = spec_word_at(pre);
        let m = MachineView { pc: (pre.pc + 2) as usize, ..pre };
        spec_exec(m, spec_decode(w), keys, scr, rnd)
    }
}

/// The whole contract of a successful `step` call: for the random byte
/// `rnd` and the timer-tick decision `due`, executing one instruction takes
/// machine `pre` and screen `scr` to machine `post` and screen `post_scr`.
pub open spec fn spec_step_to(
    pre: MachineView,
    keys: Seq<bool>,
    scr: Seq<u8>,
    rnd: u8,
    due: bool,
    post: MachineView,
    post_scr: Seq<u8>,
) -> bool {
    match spec_step(pre, keys, scr, rnd) {
        StepOutcome::Next { machine, screen } => post == spec_tick_timers(machine, due)
            && post_scr == screen,
        StepOutcome::Fault { .. } => false,
    }
}






/// A whole run of the engine: the machine and screen after stepping once
/// per entry of `rnds` (the byte each step's random instruction would
/// draw) and `dues` (whether each step's 60 Hz tick came due), or `None`
/// when some step faults.
pub open spec fn spec_run(
    pre: MachineView,
    keys: Seq<bool>,
    scr: Seq<u8>,
    rnds: Seq<u8>,
    dues: Seq<bool>,
) -> Option<(MachineView, Seq<u8>)>
    decreases rnds.len(),
{
    if rnds.len() == 0 {
        Some((pre, scr))
    } else {
        match spec_step(pre, keys, scr, rnds[0]) {
            StepOutcome::Next { machine, screen } => spec_run(
                spec_tick_timers(machine, dues[0]),
                keys,
                screen,
                rnds.subrange(1, rnds.len() as int),
                dues.subrange(1, dues.len() as int),
            ),
            StepOutcome::Fault { .. } => None,
        }
    }
}

/// Carry law: add-with-carry on registers x and y (x not the flag
/// register, which the instruction overwrites) stores the 8-bit sum in x
/// and sets the flag to 1 exactly when the true sum exceeds 255.
pub proof fn lemma_add_with_carry_law(
    m: MachineView,
    keys: Seq<bool>,
    scr: Seq<u8>,
    rnd: u8,
    x: U4,
    y: U4,
)
    requires
        m.wf(),
        x < 16,
        y < 16,
        x != 15,
    ensures
        ({
            let a = m.regs[x as int];
            let b = m.regs[y as int];
            spec_exec(m, Instruction::AddCarry(x, y), keys, scr, rnd) matches StepOutcome::Next {
                machine,
                screen,
            } && machine.regs[x as int] == (a + b) % 256 && (machine.regs[15] == 1 <==> a + b > 255)
                && (machine.regs[15] == 0 <==> a + b <= 255) && machine.pc == m.pc && screen == scr
        }),
{
}

/// Borrow law: subtract-with-borrow on registers x and y (both distinct
/// from the flag register, which the instruction overwrites) stores the
/// wrapped difference x - y in x and sets the flag to 1 exactly when no
/// borrow is needed.
pub proof fn lemma_sub_with_borrow_law(
    m: MachineView,
    keys: Seq<bool>,
    scr: Seq<u8>,
    rnd: u8,
    x: U4,
    y: U4,
)
    requires
        m.wf(),
        x < 16,
        y < 16,
        x != 15,
        y != 15,
    ensures
        ({
            let a = m.regs[x as int];
            let b = m.regs[y as int];
            spec_exec(m, Instruction::SubCarry(x, y), keys, scr, rnd) matches StepOutcome::Next {
                machine,
                screen,
            } && machine.regs[x as int] == (a - b) % 256 && (machine.regs[15] == 1 <==> a >= b) && (
            machine.regs[15] == 0 <==> a < b) && machine.pc == m.pc && screen == scr
        }),
{
}

/// Borrow law for the reversed variant: stores the wrapped difference
/// y - x in x and sets the flag to 1 exactly when y is at least x.
pub proof fn lemma_sub_reversed_law(
    m: MachineView,
    keys: Seq<bool>,
    scr: Seq<u8>,
    rnd: u8,
    x: U4,
    y: U4,
)
    requires
        m.wf(),
        x < 16,
        y < 16,
        x != 15,
        y != 15,
    ensures
        ({
            let a = m.regs[x as int];
            let b = m.regs[y as int];
            spec_exec(m, Instruction::SubN(x, y), keys, scr, rnd) matches StepOutcome::Next {
                machine,
                screen,
            } && machine.regs[x as int] == (b - a) % 256 && (machine.regs[15] == 1 <==> b >= a) && (
            machine.regs[15] == 0 <==> b < a) && machine.pc == m.pc && screen == scr
        }),
{
}

/// Shift laws: the right shift stores v / 2 and puts bit 0 of v in the
/// flag; the left shift stores (v * 2) mod 256 and puts bit 7 of v in the
/// flag (x not the flag register, which the instructions overwrite).
pub proof fn lemma_shift_laws(
    m: MachineView,
    keys: Seq<bool>,
    scr: Seq<u8>,
    rnd: u8,
    x: U4,
    y: U4,
)
    requires
        m.wf(),
        x < 16,
        y < 16,
        x != 15,
    ensures
        ({
            let v = m.regs[x as int];
            spec_exec(m, Instruction::Shr(x, y), keys, scr, rnd) matches StepOutcome::Next {
                machine,
                screen,
            } && machine.regs[x as int] == v / 2 && machine.regs[15] == v & 1 && (machine.regs[15]
                == 1 <==> v % 2 == 1) && machine.pc == m.pc && screen == scr
        }),
        ({
            let v = m.regs[x as int];
            spec_exec(m, Instruction::Shl(x, y), keys, scr, rnd) matches StepOutcome::Next {
                machine,
                screen,
            } && machine.regs[x as int] == (v * 2) % 256 && machine.regs[15] == (v >> 7) & 1 && (
            machine.regs[15] == 1 <==> v >= 128) && machine.pc == m.pc && screen == scr
        }),
{
    let v = m.regs[x as int];
    assert((v & 1) == 1 <==> v % 2 == 1) by (bit_vector);
    assert((v & 1) == 0 || (v & 1) == 1) by (bit_vector);
    assert(((v >> 7) & 1) == 1 <==> v >= 128) by (bit_vector);
    assert(((v >> 7) & 1) == 0 || ((v >> 7) & 1) == 1) by (bit_vector);
}

/// Binary-coded-decimal law: the hundreds, tens and ones digits of
/// register x land in memory at I, I+1 and I+2, and recompose to the
/// register's value.
pub proof fn lemma_bcd_law(m: MachineView, keys: Seq<bool>, scr: Seq<u8>, rnd: u8, x: U4)
    requires
        m.wf(),
        x < 16,
        m.i + 2 < 4096,
    ensures
        ({
            let v = m.regs[x as int];
            spec_exec(m, Instruction::LoadBCD(x), keys, scr, rnd) matches StepOutcome::Next {
                machine,
                screen,
            } && machine.ram[m.i as int] == v / 100 && machine.ram[m.i as int + 1] == (v / 10) % 10
                && machine.ram[m.i as int + 2] == v % 10 && v == 100 * machine.ram[m.i as int] + 10
                * machine.ram[m.i as int + 1] + machine.ram[m.i as int + 2] && screen == scr
        }),
{
    let v = m.regs[x as int];
    assert((v % 100) / 10 == (v / 10) % 10 && v == 100 * (v / 100) + 10 * ((v / 10) % 10) + v % 10)
        by (bit_vector);
}

/// Timer rate law at the step level: one step decrements each timer by at
/// most one, saturating at zero, and only when a tick came due; the 60 Hz
/// wall-clock gate itself lives outside the machine's mathematical state
/// and is exercised by tests.
pub proof fn lemma_tick_bounded(m: MachineView, due: bool)
    ensures
        m.delay - 1 <= spec_tick_timers(m, due).delay <= m.delay,
        m.sound - 1 <= spec_tick_timers(m, due).sound <= m.sound,
        spec_tick_timers(m, due).delay >= 0 && spec_tick_timers(m, due).sound >= 0,
        !due ==> spec_tick_timers(m, due) == m,
        spec_tick_timers(m, due).pc == m.pc && spec_tick_timers(m, due).regs == m.regs
            && spec_tick_timers(m, due).ram == m.ram,
{
}

/// Key-wait blocking law: when the word at the program counter decodes to
/// the key-wait instruction and no key is pressed, a step re-arms the same
/// instruction: the program counter, registers, memory, stack and address
/// register are all unchanged (only the timers may move), so every further
/// step without a key fetches the same instruction again.
pub proof fn lemma_key_wait_blocks(m: MachineView, keys: Seq<bool>, scr: Seq<u8>, rnd: u8, x: U4)
    requires
        m.wf(),
        m.pc + 1 < 4096,
        spec_decode(spec_word_at(m)) == Instruction::LoadKeyPress(x),
        keys.len() == 16,
        forall|k: int| 0 <= k < 16 ==> !keys[k],
    ensures
        spec_step(m, keys, scr, rnd) matches StepOutcome::Next { machine, screen }
            && machine.pc == m.pc && machine.regs == m.regs && machine.ram == m.ram
            && machine.stack == m.stack && machine.sp == m.sp && machine.i == m.i && screen == scr,
{
    crate::keyboard::lemma_first_pressed_none(keys, 0);
}

/// Key-wait blocking law, iterated: with no key pressed, any number of
/// steps of the key-wait instruction leaves the program counter, the
/// registers, the memory, the stack and the address register unchanged —
/// the engine never faults and never moves on, it re-fetches the same
/// instruction every step until a key is pressed.
pub proof fn lemma_key_wait_blocks_n(
    m: MachineView,
    keys: Seq<bool>,
    scr: Seq<u8>,
    rnds: Seq<u8>,
    dues: Seq<bool>,
    x: U4,
)
    requires
        m.wf(),
        m.pc + 1 < 4096,
        spec_decode(spec_word_at(m)) == Instruction::LoadKeyPress(x),
        keys.len() == 16,
        forall|k: int| 0 <= k < 16 ==> !keys[k],
        rnds.len() == dues.len(),
    ensures
        spec_run(m, keys, scr, rnds, dues) matches Some((m2, s2)) && m2.pc == m.pc && m2.regs
            == m.regs && m2.ram == m.ram && m2.stack == m.stack && m2.sp == m.sp && m2.i == m.i
            && s2 == scr,
    decreases rnds.len(),
{
    if rnds.len() > 0 {
        lemma_key_wait_blocks(m, keys, scr, rnds[0], x);
        let stepped = choose|machine: MachineView, screen: Seq<u8>|
            spec_step(m, keys, scr, rnds[0]) == (StepOutcome::Next { machine, screen });
        let m1 = spec_tick_timers(stepped.0, dues[0]);
        lemma_key_wait_blocks_n(
            m1,
            keys,
            scr,
            rnds.subrange(1, rnds.len() as int),
            dues.subrange(1, dues.len() as int),
            x,
        );
    }
}

/// Key-wait release law: when the word at the program counter decodes to
/// the key-wait instruction and `k` is the lowest pressed key, a step
/// stores `k` in the destination register and advances the program counter
/// normally.
pub proof fn lemma_key_wait_advances(
    m: MachineView,
    keys: Seq<bool>,
    scr: Seq<u8>,
    rnd: u8,
    x: U4,
    k: int,
)
    requires
        m.wf(),
        m.pc + 1 < 4096,
        spec_decode(spec_word_at(m)) == Instruction::LoadKeyPress(x),
        x < 16,
        keys.len() == 16,
        0 <= k < 16,
        keys[k],
        forall|j: int| 0 <= j < k ==> !keys[j],
    ensures
        spec_step(m, keys, scr, rnd) matches StepOutcome::Next { machine, screen }
            && machine.pc == m.pc + 2 && machine.regs == m.regs.update(x as int, k as u8)
            && screen == scr,
{
    crate::keyboard::lemma_first_pressed_at(keys, 0, k);
}

/// A shifted-and-masked bit is 0 or 1.
proof fn lemma_bit_is_binary(b: u8, s: u8)
    by (bit_vector)
    ensures
        ((b >> s) & 1) == 0 || ((b >> s) & 1) == 1,
{
}

/// Wrapped coordinates are uniquely invertible: for a position `q` on an
/// axis of length `m`, the wrapped offset of `q` from base `b` is `r`
/// exactly when `q` is `b + r` wrapped.
proof fn lemma_wrap_index(b: u8, r: int, m: int, q: int)
    requires
        0 < m,
        0 <= r < m,
        0 <= q < m,
    ensures
        ((q - b) % m == r) <==> (q == (b + r) % m),
{
    vstd::arithmetic::div_mod::lemma_fundamental_div_mod(b + r, m);
    vstd::arithmetic::div_mod::lemma_fundamental_div_mod(q - b, m);
    let k = (b + r) / m;
    let j = (q - b) / m;
    if q == (b + r) % m {
        vstd::arithmetic::mul::lemma_mul_unary_negation(m, k);
        assert(q - b == m * (-k) + r);
        vstd::arithmetic::div_mod::lemma_mod_multiples_vanish(-k, r, m);
        vstd::arithmetic::div_mod::lemma_small_mod(r as nat, m as nat);
    }
    if (q - b) % m == r {
        vstd::arithmetic::mul::lemma_mul_unary_negation(m, j);
        assert(b + r == m * (-j) + q);
        vstd::arithmetic::div_mod::lemma_mod_multiples_vanish(-j, q, m);
        vstd::arithmetic::div_mod::lemma_small_mod(q as nat, m as nat);
    }
}

/// Drawing zero rows and zero columns changes nothing and collides with
/// nothing.
proof fn lemma_draw_init(scr0: Seq<u8>, ram0: Seq<u8>, ib: int, bx: u8, by: u8)
    requires
        scr0.len() == 2048,
    ensures
        spec_draw_partial(scr0, ram0, ib, bx, by, 0, 0) == scr0,
        !spec_collision_partial(scr0, ram0, ib, bx, by, 0, 0),
{
    assert forall|p: int| 0 <= p < 2048 implies spec_draw_partial(scr0, ram0, ib, bx, by, 0, 0)[p]
        == scr0[p] by {
        vstd::arithmetic::div_mod::lemma_mod_division_less_than_divisor(p / 64 - by, 32);
        vstd::arithmetic::div_mod::lemma_mod_division_less_than_divisor(p % 64 - bx, 64);
    }
    assert(spec_draw_partial(scr0, ram0, ib, bx, by, 0, 0) =~= scr0);
}

/// The pixel about to be drawn at sprite row `rowi`, column `biti` is still
/// untouched by the partial draw that covers the earlier rows and columns.
proof fn lemma_draw_target_untouched(
    scr0: Seq<u8>,
    ram0: Seq<u8>,
    ib: int,
    bx: u8,
    by: u8,
    rowi: int,
    biti: int,
    px: int,
    py: int,
)
    requires
        scr0.len() == 2048,
        0 <= rowi < 32,
        0 <= biti < 8,
        py == (by + rowi) % 32,
        px == (bx + biti) % 64,
    ensures
        0 <= px < 64,
        0 <= py < 32,
        spec_draw_partial(scr0, ram0, ib, bx, by, rowi, biti)[spec_pixel_index(px, py)]
            == scr0[spec_pixel_index(px, py)],
{
    vstd::arithmetic::div_mod::lemma_mod_division_less_than_divisor(by + rowi, 32);
    vstd::arithmetic::div_mod::lemma_mod_division_less_than_divisor(bx + biti, 64);
    let p = spec_pixel_index(px, py);
    vstd::arithmetic::div_mod::lemma_fundamental_div_mod_converse_div(p, 64, py, px);
    vstd::arithmetic::div_mod::lemma_fundamental_div_mod_converse_mod(p, 64, py, px);
    lemma_wrap_index(by, rowi, 32, py);
    lemma_wrap_index(bx, biti, 64, px);
}

/// Writing one drawn pixel extends the partial draw by one column: the
/// wrapped target position is hit by no other sprite row or column.
proof fn lemma_draw_write_pixel(
    scr0: Seq<u8>,
    ram0: Seq<u8>,
    ib: int,
    bx: u8,
    by: u8,
    rowi: int,
    biti: int,
    px: int,
    py: int,
)
    requires
        scr0.len() == 2048,
        0 <= rowi < 32,
        0 <= biti < 8,
        py == (by + rowi) % 32,
        px == (bx + biti) % 64,
    ensures
        spec_draw_partial(scr0, ram0, ib, bx, by, rowi, biti).update(
            spec_pixel_index(px, py),
            spec_pixel_norm(scr0[spec_pixel_index(px, py)]) ^ spec_sprite_bit(
                ram0[ib + rowi],
                biti,
            ),
        ) == spec_draw_partial(scr0, ram0, ib, bx, by, rowi, biti + 1),
{
    vstd::arithmetic::div_mod::lemma_mod_division_less_than_divisor(by + rowi, 32);
    vstd::arithmetic::div_mod::lemma_mod_division_less_than_divisor(bx + biti, 64);
    let p = spec_pixel_index(px, py);
    vstd::arithmetic::div_mod::lemma_fundamental_div_mod_converse_div(p, 64, py, px);
    vstd::arithmetic::div_mod::lemma_fundamental_div_mod_converse_mod(p, 64, py, px);
    lemma_wrap_index(by, rowi, 32, py);
    lemma_wrap_index(bx, biti, 64, px);
    let upd = spec_draw_partial(scr0, ram0, ib, bx, by, rowi, biti).update(
        p,
        spec_pixel_norm(scr0[p]) ^ spec_sprite_bit(ram0[ib + rowi], biti),
    );
    assert forall|q: int| 0 <= q < 2048 implies upd[q] == spec_draw_partial(
        scr0,
        ram0,
        ib,
        bx,
        by,
        rowi,
        biti + 1,
    )[q] by {
        let qy = q / 64;
        let qx = q % 64;
        vstd::arithmetic::div_mod::lemma_fundamental_div_mod(q, 64);
        vstd::arithmetic::div_mod::lemma_mod_division_less_than_divisor(q, 64);
        assert(0 <= qy < 32);
        lemma_wrap_index(by, rowi, 32, qy);
        lemma_wrap_index(bx, biti, 64, qx);
        if q != p && (qy - by) % 32 == rowi && (qx - bx) % 64 == biti {
            assert(qy == py && qx == px);
            assert(false);
        }
    }
    assert(upd =~= spec_draw_partial(scr0, ram0, ib, bx, by, rowi, biti + 1));
}

/// Advancing the draw by one column adds exactly the current position's
/// collision test.
proof fn lemma_collision_step(scr0: Seq<u8>, ram0: Seq<u8>, ib: int, bx: u8, by: u8, rowi: int, biti: int)
    requires
        0 <= rowi,
        0 <= biti < 8,
    ensures
        spec_collision_partial(scr0, ram0, ib, bx, by, rowi, biti + 1) == (spec_collision_partial(
            scr0,
            ram0,
            ib,
            bx,
            by,
            rowi,
            biti,
        ) || (spec_sprite_bit(ram0[ib + rowi], biti) == 1 && spec_pixel_norm(
            scr0[spec_pixel_index((bx + biti) % 64, (by + rowi) % 32)],
        ) == 1)),
{
    if spec_collision_partial(scr0, ram0, ib, bx, by, rowi, biti + 1) {
        let (ii, bb) = choose|ii: int, bb: int|
            0 <= ii && 0 <= bb < 8 && (ii < rowi || (ii == rowi && bb < biti + 1))
                && #[trigger] spec_sprite_bit(ram0[ib + ii], bb) == 1 && spec_pixel_norm(
                scr0[spec_pixel_index((bx + bb) % 64, (by + ii) % 32)],
            ) == 1;
        if !(ii == rowi && bb == biti) {
            assert(spec_collision_partial(scr0, ram0, ib, bx, by, rowi, biti));
        }
    }
    if spec_collision_partial(scr0, ram0, ib, bx, by, rowi, biti) {
        let (ii, bb) = choose|ii: int, bb: int|
            0 <= ii && 0 <= bb < 8 && (ii < rowi || (ii == rowi && bb < biti))
                && #[trigger] spec_sprite_bit(ram0[ib + ii], bb) == 1 && spec_pixel_norm(
                scr0[spec_pixel_index((bx + bb) % 64, (by + ii) % 32)],
            ) == 1;
        assert(spec_collision_partial(scr0, ram0, ib, bx, by, rowi, biti + 1));
    }
    if spec_sprite_bit(ram0[ib + rowi], biti) == 1 && spec_pixel_norm(
        scr0[spec_pixel_index((bx + biti) % 64, (by + rowi) % 32)],
    ) == 1 {
        assert(spec_collision_partial(scr0, ram0, ib, bx, by, rowi, biti + 1));
    }
}

/// Finishing a sprite row is the same as standing at the start of the next:
/// the drawn region and the collision test agree.
proof fn lemma_draw_row_rollover(scr0: Seq<u8>, ram0: Seq<u8>, ib: int, bx: u8, by: u8, rowi: int)
    requires
        scr0.len() == 2048,
        0 <= rowi,
    ensures
        spec_draw_partial(scr0, ram0, ib, bx, by, rowi, 8) == spec_draw_partial(
            scr0,
            ram0,
            ib,
            bx,
            by,
            rowi + 1,
            0,
        ),
        spec_collision_partial(scr0, ram0, ib, bx, by, rowi, 8) == spec_collision_partial(
            scr0,
            ram0,
            ib,
            bx,
            by,
            rowi + 1,
            0,
        ),
{
    assert(spec_draw_partial(scr0, ram0, ib, bx, by, rowi, 8) =~= spec_draw_partial(
        scr0,
        ram0,
        ib,
        bx,
        by,
        rowi + 1,
        0,
    ));
    if spec_collision_partial(scr0, ram0, ib, bx, by, rowi, 8) {
        let (ii, bb) = choose|ii: int, bb: int|
            0 <= ii && 0 <= bb < 8 && (ii < rowi || (ii == rowi && bb < 8))
                && #[trigger] spec_sprite_bit(ram0[ib + ii], bb) == 1 && spec_pixel_norm(
                scr0[spec_pixel_index((bx + bb) % 64, (by + ii) % 32)],
            ) == 1;
        assert(spec_collision_partial(scr0, ram0, ib, bx, by, rowi + 1, 0));
    }
    if spec_collision_partial(scr0, ram0, ib, bx, by, rowi + 1, 0) {
        let (ii, bb) = choose|ii: int, bb: int|
            0 <= ii && 0 <= bb < 8 && (ii < rowi + 1) && #[trigger] spec_sprite_bit(
                ram0[ib + ii],
                bb,
            ) == 1 && spec_pixel_norm(
                scr0[spec_pixel_index((bx + bb) % 64, (by + ii) % 32)],
            ) == 1;
        assert(spec_collision_partial(scr0, ram0, ib, bx, by, rowi, 8));
    }
}

/// XOR on pixel bits: two bits XOR to a bit, and XORing the same bit
/// twice restores the original value.
proof fn lemma_xor_bits(a: u8, b: u8)
    by (bit_vector)
    ensures
        (a ^ b) ^ b == a,
        a <= 1 && b <= 1 ==> (a ^ b) <= 1,
{
}

/// Draw idempotence under double-XOR: drawing the same sprite at the same
/// position twice in succession restores a binary screen to its pre-draw
/// state.
pub proof fn lemma_draw_twice_restores(
    scr: Seq<u8>,
    ram: Seq<u8>,
    base: int,
    bx: u8,
    by: u8,
    n: u8,
)
    requires
        scr.len() == 2048,
        forall|p: int| 0 <= p < 2048 ==> scr[p] == 0 || scr[p] == 1,
    ensures
        spec_draw_screen(spec_draw_screen(scr, ram, base, bx, by, n), ram, base, bx, by, n) == scr,
{
    let s1 = spec_draw_screen(scr, ram, base, bx, by, n);
    let s2 = spec_draw_screen(s1, ram, base, bx, by, n);
    assert forall|p: int| 0 <= p < 2048 implies s2[p] == scr[p] by {
        let py = p / 64;
        let px = p % 64;
        let row = (py - by) % 32;
        let col = (px - bx) % 64;
        if col < 8 && row < n {
            lemma_bit_is_binary(ram[base + row], (7 - col) as u8);
            lemma_xor_bits(scr[p], spec_sprite_bit(ram[base + row], col));
        }
    }
    assert(s2 =~= scr);
}

/// The collision-flag half of the double-draw law, which holds only for a
/// blank sprite: a sprite without set bits collides with nothing, on the
/// first draw and on the second alike.  (A sprite with any set bit turns
/// its own pixels back off on the second draw, which is itself a
/// collision, so no more than this can hold.)
pub proof fn lemma_draw_twice_flag_blank(
    scr: Seq<u8>,
    ram: Seq<u8>,
    base: int,
    bx: u8,
    by: u8,
    n: u8,
)
    requires
        scr.len() == 2048,
        forall|j: int| 0 <= j < n ==> #[trigger] ram[base + j] == 0,
        !spec_draw_collision(scr, ram, base, bx, by, n),
    ensures
        !spec_draw_collision(spec_draw_screen(scr, ram, base, bx, by, n), ram, base, bx, by, n),
{
    let s1 = spec_draw_screen(scr, ram, base, bx, by, n);
    if spec_draw_collision(s1, ram, base, bx, by, n) {
        let (ii, bb) = choose|ii: int, bb: int|
            0 <= ii && 0 <= bb < 8 && ii < n && #[trigger] spec_sprite_bit(ram[base + ii], bb) == 1
                && spec_pixel_norm(s1[spec_pixel_index((bx + bb) % 64, (by + ii) % 32)]) == 1;
        assert(spec_sprite_bit(ram[base + ii], bb) == 0) by {
            assert(ram[base + ii] == 0);
            let sh: u8 = (7 - bb) as u8;
            assert((0u8 >> sh) & 1 == 0) by (bit_vector);
        }
    }
}

impl View for Machine {
    type V = MachineView;

    closed spec fn view(&self) -> MachineView {
        MachineView {
            ram: self.ram@,
            regs: self.registers@,
            i: self.register_i,
            delay: self.register_delay,
            sound: self.register_sound,
            pc: self.pc,
            sp: self.sp,
            stack: self.stack@,
        }
    }
}

/// The five rows of the built-in 4x5 glyph sprite for hexadecimal digit `d`.
pub open spec fn spec_glyph_rows(d: int) -> (u8, u8, u8, u8, u8) {
    if d == 0 {
        (0xF0, 0x90, 0x90, 0x90, 0xF0)
    } else if d == 1 {
        (0x20, 0x60, 0x20, 0x20, 0x70)
    } else if d == 2 {
        (0xF0, 0x10, 0xF0, 0x80, 0xF0)
    } else if d == 3 {
        (0xF0, 0x10, 0xF0, 0x10, 0xF0)
    } else if d == 4 {
        (0x90, 0x90, 0xF0, 0x10, 0x10)
    } else if d == 5 {
        (0xF0, 0x80, 0xF0, 0x10, 0xF0)
    } else if d == 6 {
        (0xF0, 0x80, 0xF0, 0x90, 0xF0)
    } else if d == 7 {
        (0xF0, 0x10, 0x20, 0x40, 0x40)
    } else if d == 8 {
        (0xF0, 0x90, 0xF0, 0x90, 0xF0)
    } else if d == 9 {
        (0xF0, 0x90, 0xF0, 0x10, 0xF0)
    } else if d == 10 {
        (0xF0, 0x90, 0xF0, 0x90, 0x90)
    } else if d == 11 {
        (0xE0, 0x90, 0xE0, 0x90, 0xE0)
    } else if d == 12 {
        (0xF0, 0x80, 0x80, 0x80, 0xF0)
    } else if d == 13 {
        (0xE0, 0x90, 0x90, 0x90, 0xE0)
    } else if d == 14 {
        (0xF0, 0x80, 0xF0, 0x80, 0xF0)
    } else {
        (0xF0, 0x80, 0xF0, 0x80, 0x80)
    }
}

/// Byte `j` of the glyph table that occupies memory 0..80: glyph sprites
/// are 5 bytes each, digit `j / 5`, row `j % 5`.
pub open spec fn spec_glyph_byte(j: int) -> u8 {
    let r = spec_glyph_rows(j / 5);
    let k = j % 5;
    if k == 0 {
        r.0
    } else if k == 1 {
        r.1
    } else if k == 2 {
        r.2
    } else if k == 3 {
        r.3
    } else {
        r.4
    }
}

fn glyph_rows(d: u8) -> (r: (u8, u8, u8, u8, u8))
    requires
        d < 16,
    ensures
        r == spec_glyph_rows(d as int),
{
    match d {
        0 => (0xF0, 0x90, 0x90, 0x90, 0xF0),
        1 => (0x20, 0x60, 0x20, 0x20, 0x70),
        2 => (0xF0, 0x10, 0xF0, 0x80, 0xF0),
        3 => (0xF0, 0x10, 0xF0, 0x10, 0xF0),
        4 => (0x90, 0x90, 0xF0, 0x10, 0x10),
        5 => (0xF0, 0x80, 0xF0, 0x10, 0xF0),
        6 => (0xF0, 0x80, 0xF0, 0x90, 0xF0),
        7 => (0xF0, 0x10, 0x20, 0x40, 0x40),
        8 => (0xF0, 0x90, 0xF0, 0x90, 0xF0),
        9 => (0xF0, 0x90, 0xF0, 0x10, 0xF0),
        10 => (0xF0, 0x90, 0xF0, 0x90, 0x90),
        11 => (0xE0, 0x90, 0xE0, 0x90, 0xE0),
        12 => (0xF0, 0x80, 0x80, 0x80, 0xF0),
        13 => (0xE0, 0x90, 0x90, 0x90, 0xE0),
        14 => (0xF0, 0x80, 0xF0, 0x80, 0xF0),
        _ => (0xF0, 0x80, 0xF0, 0x80, 0x80),
    }
}

impl Machine {
    /// Well-formedness of the machine: see `MachineView::wf`.
    pub open spec fn wf(&self) -> bool {
        self@.wf()
    }

    /// A fresh machine: registers, timers and stack zeroed, memory zeroed
    /// except for the glyph table in its low 80 bytes, and the program
    /// counter at the load address.
    pub fn new() -> (m: Machine)
        ensures
            m.wf(),
            m@.pc == 0x200,
            m@.sp == 0,
            m@.i == 0,
            m@.delay == 0,
            m@.sound == 0,
            forall|j: int| 0 <= j < 16 ==> m@.regs[j] == 0,
            forall|j: int| 0 <= j < 16 ==> m@.stack[j] == 0,
            forall|j: int| 0 <= j < 80 ==> m@.ram[j] == spec_glyph_byte(j),
            forall|j: int| 80 <= j < 4096 ==> m@.ram[j] == 0,
    {
        let mut ram: Vec<u8> = Vec::new();
        let mut d: u8 = 0;
        while d < 16
            invariant
                d <= 16,
                ram@.len() == 5 * d,
                forall|j: int| 0 <= j < ram@.len() ==> ram@[j] == spec_glyph_byte(j),
            decreases 16 - d,
        {
            let r = glyph_rows(d);
            ram.push(r.0);
            ram.push(r.1);
            ram.push(r.2);
            ram.push(r.3);
            ram.push(r.4);
            proof {
                assert forall|j: int| 5 * d <= j < 5 * d + 5 implies ram@[j] == spec_glyph_byte(
                    j,
                ) by {
                    assert(j / 5 == d && j % 5 == j - 5 * d);
                }
            }
            d = d + 1;
        }
        let mut j: usize = 80;
        while j < MEMORY_SIZE
            invariant
                80 <= j <= 4096,
                ram@.len() == j,
                forall|p: int| 0 <= p < 80 ==> ram@[p] == spec_glyph_byte(p),
                forall|p: int| 80 <= p < j ==> ram@[p] == 0,
            decreases 4096 - j,
        {
            ram.push(0);
            j = j + 1;
        }
        let mut registers: Vec<u8> = Vec::new();
        let mut stack: Vec<u16> = Vec::new();
        let mut k: usize = 0;
        while k < STACK_SIZE
            invariant
                k <= 16,
                registers@.len() == k,
                stack@.len() == k,
                forall|p: int| 0 <= p < k ==> registers@[p] == 0,
                forall|p: int| 0 <= p < k ==> stack@[p] == 0,
            decreases 16 - k,
        {
            registers.push(0);
            stack.push(0);
            k = k + 1;
        }
        Machine {
            ram,
            registers,
            register_i: 0,
            register_delay: 0,
            register_sound: 0,
            last_tick: instant_now(),
            pc: PROGRAM_START_AT,
            sp: 0,
            stack,
        }
    }

    /// Copies a program image into memory at the current program counter
    /// (the load address on a fresh machine).  Only the bytes the image
    /// covers change.
    pub fn load(&mut self, rom: &[u8])
        requires
            old(self).wf(),
            old(self)@.pc + rom@.len() <= 4096,
        ensures
            final(self).wf(),
            final(self)@.ram.len() == 4096,
            forall|j: int|
                old(self)@.pc <= j < old(self)@.pc + rom@.len() ==> final(self)@.ram[j] == rom@[j
                    - old(self)@.pc],
            forall|j: int|
                0 <= j < 4096 && !(old(self)@.pc <= j < old(self)@.pc + rom@.len())
                    ==> final(self)@.ram[j] == old(self)@.ram[j],
            final(self)@.regs == old(self)@.regs,
            final(self)@.i == old(self)@.i,
            final(self)@.delay == old(self)@.delay,
            final(self)@.sound == old(self)@.sound,
            final(self)@.pc == old(self)@.pc,
            final(self)@.sp == old(self)@.sp,
            final(self)@.stack == old(self)@.stack,
    {
        let start = self.pc;
        let mut j: usize = 0;
        while j < rom.len()
            invariant
                self@.ram.len() == 4096,
                start + rom@.len() <= 4096,
                j <= rom@.len(),
                start == old(self)@.pc,
                forall|p: int| start <= p < start + j ==> self@.ram[p] == rom@[p - start],
                forall|p: int|
                    0 <= p < 4096 && !(start <= p < start + j) ==> self@.ram[p] == old(
                        self,
                    )@.ram[p],
                self@.regs == old(self)@.regs,
                self@.i == old(self)@.i,
                self@.delay == old(self)@.delay,
                self@.sound == old(self)@.sound,
                self@.pc == old(self)@.pc,
                self@.sp == old(self)@.sp,
                self@.stack == old(self)@.stack,
            decreases rom@.len() - j,
        {
            self.ram[start + j] = rom[j];
            j = j + 1;
        }
    }

    /// The bulk store: copies registers 0 through `x` inclusive into memory
    /// starting at the address register, a fault when that reaches past the
    /// end of memory.
    fn exec_store_regs(&mut self, x: U4) -> (r: Result<(), FaultKind>)
        requires
            old(self).wf(),
            x < 16,
        ensures
            final(self).wf(),
            match r {
                Ok(_) => old(self)@.i + x < 4096 && final(self)@ == (MachineView {
                    ram: Seq::new(
                        4096,
                        |j: int|
                            if old(self)@.i <= j <= old(self)@.i + x {
                                old(self)@.regs[j - old(self)@.i]
                            } else {
                                old(self)@.ram[j]
                            },
                    ),
                    ..old(self)@
                }),
                Err(k) => k == FaultKind::MemoryOutOfBounds && old(self)@.i + x >= 4096 && *final(self)
                    == *old(self),
            },
    {
        let base = self.register_i as usize;
        if base + x as usize >= MEMORY_SIZE {
            return Err(FaultKind::MemoryOutOfBounds);
        }
        let last = x as usize;
        let mut idx: usize = 0;
        #[verifier::loop_isolation(false)]
        while idx <= last
            invariant
                idx <= last + 1,
                self@.ram.len() == 4096,
                forall|j: int| base <= j < base + idx ==> self@.ram[j] == self@.regs[j - base],
                forall|j: int|
                    0 <= j < 4096 && !(base <= j < base + idx) ==> self@.ram[j] == old(
                        self,
                    )@.ram[j],
                self@.regs == old(self)@.regs,
                self@.i == old(self)@.i,
                self@.delay == old(self)@.delay,
                self@.sound == old(self)@.sound,
                self@.pc == old(self)@.pc,
                self@.sp == old(self)@.sp,
                self@.stack == old(self)@.stack,
            decreases last + 1 - idx,
        {
            self.ram[base + idx] = self.registers[idx];
            idx = idx + 1;
        }
        proof {
            assert(self@.ram =~= Seq::new(
                4096,
                |j: int|
                    if old(self)@.i <= j <= old(self)@.i + x {
                        old(self)@.regs[j - old(self)@.i]
                    } else {
                        old(self)@.ram[j]
                    },
            ));
            assert(self@ =~= (MachineView { ram: self@.ram, ..old(self)@ }));
        }
        Ok(())
    }

    /// The bulk load: copies memory starting at the address register into
    /// registers 0 through `x` inclusive, a fault when that reaches past
    /// the end of memory.
    fn exec_read_regs(&mut self, x: U4) -> (r: Result<(), FaultKind>)
        requires
            old(self).wf(),
            x < 16,
        ensures
            final(self).wf(),
            match r {
                Ok(_) => old(self)@.i + x < 4096 && final(self)@ == (MachineView {
                    regs: Seq::new(
                        16,
                        |j: int|
                            if j <= x {
                                old(self)@.ram[old(self)@.i + j]
                            } else {
                                old(self)@.regs[j]
                            },
                    ),
                    ..old(self)@
                }),
                Err(k) => k == FaultKind::MemoryOutOfBounds && old(self)@.i + x >= 4096 && *final(self)
                    == *old(self),
            },
    {
        let base = self.register_i as usize;
        if base + x as usize >= MEMORY_SIZE {
            return Err(FaultKind::MemoryOutOfBounds);
        }
        let last = x as usize;
        let mut idx: usize = 0;
        #[verifier::loop_isolation(false)]
        while idx <= last
            invariant
                idx <= last + 1,
                self@.regs.len() == 16,
                forall|j: int| 0 <= j < idx ==> self@.regs[j] == old(self)@.ram[base + j],
                forall|j: int| idx <= j < 16 ==> self@.regs[j] == old(self)@.regs[j],
                self@.ram == old(self)@.ram,
                self@.i == old(self)@.i,
                self@.delay == old(self)@.delay,
                self@.sound == old(self)@.sound,
                self@.pc == old(self)@.pc,
                self@.sp == old(self)@.sp,
                self@.stack == old(self)@.stack,
            decreases last + 1 - idx,
        {
            self.registers[idx] = self.ram[base + idx];
            idx = idx + 1;
        }
        proof {
            assert(self@.regs =~= Seq::new(
                16,
                |j: int|
                    if j <= x {
                        old(self)@.ram[old(self)@.i + j]
                    } else {
                        old(self)@.regs[j]
                    },
            ));
            assert(self@ =~= (MachineView { regs: self@.regs, ..old(self)@ }));
        }
        Ok(())
    }


    /// The draw instruction: XORs the `n`-row sprite at memory I.. onto the
    /// screen at (Vx, Vy) with wraparound, and reports in the flag register
    /// whether any lit pixel was erased; a fault when the sprite bytes
    /// reach past the end of memory.
    fn exec_drw(&mut self, screen: &mut Screen, x: U4, y: U4, n: U4) -> (r: Result<(), FaultKind>)
        requires
            old(self).wf(),
            old(screen).wf(),
            x < 16,
            y < 16,
            n < 16,
        ensures
            final(self).wf(),
            final(screen).wf(),
            match r {
                Ok(_) => ({
                    let base = old(self)@.i as int;
                    let bx = old(self)@.regs[x as int];
                    let by = old(self)@.regs[y as int];
                    &&& old(self)@.i + n <= 4096
                    &&& final(self)@ == (MachineView {
                        regs: old(self)@.regs.update(
                            15,
                            if spec_draw_collision(old(screen)@, old(self)@.ram, base, bx, by, n) {
                                1u8
                            } else {
                                0u8
                            },
                        ),
                        ..old(self)@
                    })
                    &&& final(screen)@ == spec_draw_screen(
                        old(screen)@,
                        old(self)@.ram,
                        base,
                        bx,
                        by,
                        n,
                    )
                }),
                Err(k) => k == FaultKind::MemoryOutOfBounds && old(self)@.i + n > 4096 && *final(self)
                    == *old(self) && *final(screen) == *old(screen),
            },
    {
        let base = self.register_i as usize;
        let nn = n as usize;
        if base + nn > MEMORY_SIZE {
            return Err(FaultKind::MemoryOutOfBounds);
        }
        let bx = self.registers[x as usize];
        let by = self.registers[y as usize];
        let ghost scr0 = screen@;
        let ghost ram0 = self@.ram;
        let ghost ib = base as int;
        proof {
            lemma_draw_init(scr0, ram0, ib, bx, by);
        }
        let mut flag: u8 = 0;
        let mut row: usize = 0;
        #[verifier::loop_isolation(false)]
        while row < nn
            invariant
                row <= nn,
                screen@ == spec_draw_partial(scr0, ram0, ib, bx, by, row as int, 0),
                flag == (if spec_collision_partial(scr0, ram0, ib, bx, by, row as int, 0) {
                    1u8
                } else {
                    0u8
                }),
            decreases nn - row,
        {
            let sprite_byte = self.ram[base + row];
            let py = (by as usize + row) % 32;
            let mut bit: usize = 0;
            #[verifier::loop_isolation(false)]
            while bit < 8
                invariant
                    bit <= 8,
                    row < nn,
                    py == ((by + row as int) % 32),
                    sprite_byte == ram0[ib + row],
                    screen@ == spec_draw_partial(scr0, ram0, ib, bx, by, row as int, bit as int),
                    flag == (if spec_collision_partial(
                        scr0,
                        ram0,
                        ib,
                        bx,
                        by,
                        row as int,
                        bit as int,
                    ) {
                        1u8
                    } else {
                        0u8
                    }),
                decreases 8 - bit,
            {
                let px = (bx as usize + bit) % 64;
                let sh = (7 - bit) as u8;
                let pixel = (sprite_byte >> sh) & 1;
                let ghost pidx = spec_pixel_index(px as int, py as int);
                proof {
                    lemma_bit_is_binary(sprite_byte, sh);
                    lemma_draw_target_untouched(
                        scr0,
                        ram0,
                        ib,
                        bx,
                        by,
                        row as int,
                        bit as int,
                        px as int,
                        py as int,
                    );
                }
                let old_pixel = screen.get(px, py);
                proof {
                    assert(old_pixel == spec_pixel_norm(scr0[pidx]));
                    assert(pixel == spec_sprite_bit(ram0[ib + row], bit as int));
                }
                if pixel == 1 && old_pixel == 1 {
                    flag = 1;
                }
                screen.set(px, py, old_pixel ^ pixel);
                proof {
                    lemma_draw_write_pixel(
                        scr0,
                        ram0,
                        ib,
                        bx,
                        by,
                        row as int,
                        bit as int,
                        px as int,
                        py as int,
                    );
                    lemma_collision_step(scr0, ram0, ib, bx, by, row as int, bit as int);
                }
                bit = bit + 1;
            }
            proof {
                lemma_draw_row_rollover(scr0, ram0, ib, bx, by, row as int);
            }
            row = row + 1;
        }
        self.registers[15] = flag;
        proof {
            assert(screen@ == spec_draw_screen(scr0, ram0, ib, bx, by, n));
            assert(self@ =~= (MachineView {
                regs: old(self)@.regs.update(
                    15,
                    if spec_draw_collision(scr0, ram0, ib, bx, by, n) {
                        1u8
                    } else {
                        0u8
                    },
                ),
                ..old(self)@
            }));
        }
        Ok(())
    }

    /// One step of the engine: fetch the big-endian word at the program
    /// counter, advance the program counter past it, decode, execute, and
    /// finally decrement the timers when a 60 Hz tick has come due since the
    /// last decrement (so a step decrements each timer by at most one,
    /// however fast steps are issued; the wall-clock gate itself is outside
    /// the machine's mathematical state).
    ///
    /// On success the machine and screen move exactly as `spec_step_to`
    /// says, for the drawn random byte and the tick decision.  On a fault
    /// the machine and screen are unchanged and the fault reports the
    /// program counter and instruction word that faulted.
    pub fn step(&mut self, keyboard: &Keyboard, screen: &mut Screen) -> (r: Result<(), Fault>)
        requires
            old(self).wf(),
            keyboard.wf(),
            old(screen).wf(),
        ensures
            final(self).wf(),
            final(screen).wf(),
            match r {
                Ok(_) => exists|rnd: u8, due: bool|
                    #[trigger] spec_step_to(
                        old(self)@,
                        keyboard@,
                        old(screen)@,
                        rnd,
                        due,
                        final(self)@,
                        final(screen)@,
                    ),
                Err(f) => {
                    &&& forall|rnd: u8|
                        spec_step(old(self)@, keyboard@, old(screen)@, rnd) == (StepOutcome::Fault {
                            kind: f.kind,
                        })
                    &&& *final(self) == *old(self)
                    &&& *final(screen) == *old(screen)
                    &&& f.pc == old(self)@.pc
                    &&& (f.kind == FaultKind::FetchOutOfBounds ==> f.opcode == 0)
                    &&& (f.kind != FaultKind::FetchOutOfBounds ==> f.opcode == spec_word_at(
                        old(self)@,
                    ))
                },
            },
    {
        let ghost pre = self@;
        let ghost scr0 = screen@;
        let pc0 = self.pc;
        if pc0 + 1 >= MEMORY_SIZE {
            return Err(Fault { kind: FaultKind::FetchOutOfBounds, pc: pc0, opcode: 0 });
        }
        let hi = self.ram[pc0];
        let lo = self.ram[pc0 + 1];
        let w: u16 = ((hi as u16) << 8) | (lo as u16);
        self.pc = pc0 + 2;
        let ins = Instruction::decode(w);
        let ghost m1 = self@;
        let ghost mut rnd_used: u8 = 0;
        let exec_r: Result<(), FaultKind> = match ins {
            Instruction::Sys(a) => {
                self.pc = a as usize;
                Ok(())
            },
            Instruction::Cls => {
                screen.clear();
                proof {
                    assert(screen@ =~= Seq::new(2048, |p: int| 0u8));
                }
                Ok(())
            },
            Instruction::Ret => {
                if self.sp == 0 {
                    Err(FaultKind::StackUnderflow)
                } else {
                    self.pc = self.stack[self.sp] as usize;
                    self.sp = self.sp - 1;
                    Ok(())
                }
            },
            Instruction::Jmp(a) => {
                self.pc = a as usize;
                Ok(())
            },
            Instruction::Call(a) => {
                if self.sp >= 15 {
                    Err(FaultKind::StackOverflow)
                } else {
                    self.sp = self.sp + 1;
                    self.stack[self.sp] = self.pc as u16;
                    self.pc = a as usize;
                    Ok(())
                }
            },
            Instruction::SkipEq(x, k) => {
                if self.registers[x as usize] == k {
                    self.pc = self.pc + 2;
                }
                Ok(())
            },
            Instruction::SkipNEq(x, k) => {
                if self.registers[x as usize] != k {
                    self.pc = self.pc + 2;
                }
                Ok(())
            },
            Instruction::SkipEqV(x, y) => {
                if self.registers[x as usize] == self.registers[y as usize] {
                    self.pc = self.pc + 2;
                }
                Ok(())
            },
            Instruction::SetReg(x, k) => {
                self.registers[x as usize] = k;
                Ok(())
            },
            Instruction::Add(x, k) => {
                let a = self.registers[x as usize];
                let sum = a as u16 + k as u16;
                self.registers[x as usize] = (sum % 256) as u8;
                Ok(())
            },
            Instruction::Load(x, y) => {
                self.registers[x as usize] = self.registers[y as usize];
                Ok(())
            },
            Instruction::Or(x, y) => {
                let v = self.registers[x as usize] | self.registers[y as usize];
                self.registers[x as usize] = v;
                Ok(())
            },
            Instruction::And(x, y) => {
                let v = self.registers[x as usize] & self.registers[y as usize];
                self.registers[x as usize] = v;
                Ok(())
            },
            Instruction::Xor(x, y) => {
                let v = self.registers[x as usize] ^ self.registers[y as usize];
                self.registers[x as usize] = v;
                Ok(())
            },
            Instruction::AddCarry(x, y) => {
                let a = self.registers[x as usize];
                let b = self.registers[y as usize];
                let sum = a as u16 + b as u16;
                self.registers[15] = if sum > 255 {
                    1
                } else {
                    0
                };
                self.registers[x as usize] = (sum % 256) as u8;
                Ok(())
            },
            Instruction::SubCarry(x, y) => {
                let a = self.registers[x as usize];
                let b = self.registers[y as usize];
                self.registers[15] = if a >= b {
                    1
                } else {
                    0
                };
                let a2 = self.registers[x as usize];
                let b2 = self.registers[y as usize];
                let diff = (a2 as u16 + 256 - b2 as u16) % 256;
                proof {
                    vstd::arithmetic::div_mod::lemma_mod_add_multiples_vanish(a2 - b2, 256);
                }
                self.registers[x as usize] = diff as u8;
                Ok(())
            },
            Instruction::Shr(x, _y) => {
                let v0 = self.registers[x as usize];
                self.registers[15] = v0 & 1;
                let v1 = self.registers[x as usize];
                self.registers[x as usize] = v1 / 2;
                Ok(())
            },
            Instruction::SubN(x, y) => {
                let a = self.registers[x as usize];
                let b = self.registers[y as usize];
                self.registers[15] = if b >= a {
                    1
                } else {
                    0
                };
                let a2 = self.registers[x as usize];
                let b2 = self.registers[y as usize];
                let diff = (b2 as u16 + 256 - a2 as u16) % 256;
                proof {
                    vstd::arithmetic::div_mod::lemma_mod_add_multiples_vanish(b2 - a2, 256);
                }
                self.registers[x as usize] = diff as u8;
                Ok(())
            },
            Instruction::Shl(x, _y) => {
                let v0 = self.registers[x as usize];
                self.registers[15] = (v0 >> 7) & 1;
                let v1 = self.registers[x as usize];
                let prod = (v1 as u16 * 2) % 256;
                self.registers[x as usize] = prod as u8;
                Ok(())
            },
            Instruction::Sne(x, y) => {
                if self.registers[x as usize] != self.registers[y as usize] {
                    self.pc = self.pc + 2;
                }
                Ok(())
            },
            Instruction::LoadI(a) => {
                self.register_i = a;
                Ok(())
            },
            Instruction::JmpV0(a) => {
                self.pc = self.registers[0] as usize + a as usize;
                Ok(())
            },
            Instruction::Rnd(x, k) => {
                let rb = random_byte();
                proof {
                    rnd_used = rb;
                }
                self.registers[x as usize] = rb & k;
                Ok(())
            },
            Instruction::Drw(x, y, n) => self.exec_drw(screen, x, y, n),
            Instruction::SkipPressed(x) => {
                let kv = self.registers[x as usize];
                if kv >= 16 {
                    Err(FaultKind::KeyOutOfRange)
                } else {
                    if keyboard.is_pressed(kv as usize) {
                        self.pc = self.pc + 2;
                    }
                    Ok(())
                }
            },
            Instruction::SkipNPressed(x) => {
                let kv = self.registers[x as usize];
                if kv >= 16 {
                    Err(FaultKind::KeyOutOfRange)
                } else {
                    if !keyboard.is_pressed(kv as usize) {
                        self.pc = self.pc + 2;
                    }
                    Ok(())
                }
            },
            Instruction::LoadDT(x) => {
                self.registers[x as usize] = self.register_delay;
                Ok(())
            },
            Instruction::LoadKeyPress(x) => {
                match keyboard.get_pressed() {
                    Some(i) => {
                        self.registers[x as usize] = i;
                    },
                    None => {
                        self.pc = self.pc - 2;
                    },
                }
                Ok(())
            },
            Instruction::SetDT(x) => {
                self.register_delay = self.registers[x as usize];
                Ok(())
            },
            Instruction::SetST(x) => {
                self.register_sound = self.registers[x as usize];
                Ok(())
            },
            Instruction::AddI(x) => {
                let s = self.register_i as u32 + self.registers[x as usize] as u32;
                self.register_i = (s % 0x10000) as u16;
                Ok(())
            },
            Instruction::LoadSprite(x) => {
                let v = self.registers[x as usize];
                if v > 15 {
                    Err(FaultKind::GlyphOutOfRange)
                } else {
                    self.register_i = (v as u16) * 5;
                    Ok(())
                }
            },
            Instruction::LoadBCD(x) => {
                let base = self.register_i as usize;
                if base + 2 >= MEMORY_SIZE {
                    Err(FaultKind::MemoryOutOfBounds)
                } else {
                    let v = self.registers[x as usize];
                    self.ram[base] = v / 100;
                    self.ram[base + 1] = (v % 100) / 10;
                    self.ram[base + 2] = v % 10;
                    Ok(())
                }
            },
            Instruction::LoadAllI(x) => self.exec_store_regs(x),
            Instruction::SetAllI(x) => self.exec_read_regs(x),
        };
        match exec_r {
            Err(kind) => {
                self.pc = pc0;
                proof {
                    assert(*self == *old(self));
                    assert forall|rnd: u8|
                        spec_step(pre, keyboard@, scr0, rnd) == (StepOutcome::Fault {
                            kind,
                        }) by {
                        assert(spec_exec(m1, ins, keyboard@, scr0, rnd) == (StepOutcome::Fault {
                            kind,
                        }));
                    }
                }
                Err(Fault { kind, pc: pc0, opcode: w })
            },
            Ok(_) => {
                let ghost s1 = self@;
                proof {
                    assert(spec_exec(m1, ins, keyboard@, scr0, rnd_used) =~= (StepOutcome::Next {
                        machine: s1,
                        screen: screen@,
                    }));
                }
                let e = duration_as_micros(&instant_elapsed(&self.last_tick));
                let due = e >= TIMER_TICK_MICROS;
                if due {
                    self.last_tick = instant_now();
                    if self.register_delay > 0 {
                        self.register_delay = self.register_delay - 1;
                    }
                    if self.register_sound > 0 {
                        self.register_sound = self.register_sound - 1;
                    }
                }
                proof {
                    assert(self@ =~= spec_tick_timers(s1, due));
                    assert(spec_step_to(pre, keyboard@, scr0, rnd_used, due, self@, screen@));
                }
                Ok(())
            },
        }
    }

    /// The current program counter.
    pub fn pc(&self) -> (r: usize)
        ensures
            r == self@.pc,
    {
        self.pc
    }

    /// The current value of general-purpose register `x`.
    pub fn register(&self, x: usize) -> (r: u8)
        requires
            self.wf(),
            x < 16,
        ensures
            r == self@.regs[x as int],
    {
        self.registers[x]
    }

    /// Stores `v` in general-purpose register `x`.
    pub fn set_register(&mut self, x: usize, v: u8)
        requires
            old(self).wf(),
            x < 16,
        ensures
            final(self).wf(),
            final(self)@ == (MachineView { regs: old(self)@.regs.update(x as int, v), ..old(self)@ }),
    {
        self.registers[x] = v;
    }

    /// The current address register I.
    pub fn register_i(&self) -> (r: u16)
        ensures
            r == self@.i,
    {
        self.register_i
    }

    /// The memory byte at `addr`.
    pub fn ram_at(&self, addr: usize) -> (r: u8)
        requires
            self.wf(),
            addr < 4096,
        ensures
            r == self@.ram[addr as int],
    {
        self.ram[addr]
    }

    /// The current delay timer value.
    pub fn delay_timer(&self) -> (r: u8)
        ensures
            r == self@.delay,
    {
        self.register_delay
    }

    /// The current sound timer value.
    pub fn sound_timer(&self) -> (r: u8)
        ensures
            r == self@.sound,
    {
        self.register_sound
    }
}

} // verus!
