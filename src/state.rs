use vstd::prelude::*;

use crate::error::Chip8Error;
use crate::instruction::{op_of, Op};
use crate::memory::{in_bounds, splice, MEMORY_SIZE};

verus! {

/// Where programs are loaded and where execution starts.
pub const START_SECTION: u16 = 0x200;

/// Where the font glyphs are stored.
pub const FONT_SECTION: u16 = 0x50;

/// Bytes per font glyph.
pub const GLYPH_SIZE: u16 = 5;

/// Screen width in pixels.
pub const WIDTH: usize = 64;

/// Screen height in pixels.
pub const HEIGHT: usize = 32;

/// Number of pixels on the screen.
pub const VRAM_SIZE: usize = 2048;

/// Number of general-purpose registers; the last one is the flag register.
pub const REGISTER_COUNT: usize = 16;

/// Index of the flag register VF.
pub const VF: usize = 15;

/// Number of keys on the keypad.
pub const KEY_COUNT: usize = 16;

/// Deepest nesting of subroutine calls.
pub const STACK_DEPTH: usize = 16;

/// The glyphs of the hexadecimal digits 0 to F, five rows each.
pub open spec fn font_glyphs() -> Seq<u8> {
    seq![
        0xF0u8, 0x90, 0x90, 0x90, 0xF0, // 0
        0x20, 0x60, 0x20, 0x20, 0x70, // 1
        0xF0, 0x10, 0xF0, 0x80, 0xF0, // 2
        0xF0, 0x10, 0xF0, 0x10, 0xF0, // 3
        0x90, 0x90, 0xF0, 0x10, 0x10, // 4
        0xF0, 0x80, 0xF0, 0x10, 0xF0, // 5
        0xF0, 0x80, 0xF0, 0x90, 0xF0, // 6
        0xF0, 0x10, 0x20, 0x40, 0x40, // 7
        0xF0, 0x90, 0xF0, 0x90, 0xF0, // 8
        0xF0, 0x90, 0xF0, 0x10, 0xF0, // 9
        0xF0, 0x90, 0xF0, 0x90, 0x90, // A
        0xE0, 0x90, 0xE0, 0x90, 0xE0, // B
        0xF0, 0x80, 0x80, 0x80, 0xF0, // C
        0xE0, 0x90, 0x90, 0x90, 0xE0, // D
        0xF0, 0x80, 0xF0, 0x80, 0xF0, // E
        0xF0, 0x80, 0xF0, 0x80, 0x80, // F
    ]
}

/// The whole state of a machine, as the executor's semantics sees it.
pub struct MachineState {
    /// Memory, `MEMORY_SIZE` bytes.
    pub memory: Seq<u8>,
    /// Registers V0 to VF.
    pub regs: Seq<u8>,
    /// Return addresses, the most recent last.
    pub stack: Seq<u16>,
    /// Pixels, row by row: the pixel `(x, y)` is at `y * WIDTH + x`.
    pub vram: Seq<bool>,
    /// Which keys are down.
    pub keys: Seq<bool>,
    /// Program counter.
    pub pc: u16,
    /// Index register.
    pub i: u16,
    /// Delay timer.
    pub dt: u8,
    /// Sound timer.
    pub st: u8,
    /// The screen changed since the host last drew it.
    pub redraw: bool,
    /// The register that a pending `Fx0A` fills once a cycle finds a key down.
    pub waiting: Option<u8>,
}

impl MachineState {
    /// Every part has its fixed size.
    pub open spec fn wf(self) -> bool {
        &&& self.memory.len() == MEMORY_SIZE
        &&& self.regs.len() == REGISTER_COUNT
        &&& self.keys.len() == KEY_COUNT
        &&& self.vram.len() == VRAM_SIZE
        &&& self.stack.len() <= STACK_DEPTH
        &&& (self.waiting matches Some(x) ==> x < REGISTER_COUNT)
    }
}

/// The state of a machine just built: the font in memory, the program
/// counter at `START_SECTION`, everything else zero.
pub open spec fn initial_state() -> MachineState {
    MachineState {
        memory: splice(
            Seq::new(MEMORY_SIZE as nat, |k: int| 0u8),
            FONT_SECTION as int,
            font_glyphs(),
        ),
        regs: Seq::new(REGISTER_COUNT as nat, |k: int| 0u8),
        stack: Seq::empty(),
        vram: Seq::new(VRAM_SIZE as nat, |k: int| false),
        keys: Seq::new(KEY_COUNT as nat, |k: int| false),
        pc: START_SECTION,
        i: 0,
        dt: 0,
        st: 0,
        redraw: false,
        waiting: None,
    }
}

/// A step that succeeded and left the machine in `t`.
pub open spec fn ok(t: MachineState) -> (MachineState, Result<(), Chip8Error>) {
    (t, Ok(()))
}

/// A step that failed with `e` and left the machine `s` as it was.
pub open spec fn fail(s: MachineState, e: Chip8Error) -> (MachineState, Result<(), Chip8Error>) {
    (s, Err(e))
}

/// `s` with the register `x` set to `v`.
pub open spec fn set_reg(s: MachineState, x: int, v: u8) -> MachineState {
    MachineState { regs: s.regs.update(x, v), ..s }
}

/// `s` with the next instruction skipped where `cond` holds.
pub open spec fn skip_if(s: MachineState, cond: bool) -> MachineState {
    if cond {
        MachineState { pc: ((s.pc + 2) % 0x10000) as u16, ..s }
    } else {
        s
    }
}

/// The value of the register `x`.
pub open spec fn reg(s: MachineState, x: u8) -> u8 {
    s.regs[x as int]
}

/// 1 where `b` holds, else 0.
pub open spec fn flag(b: bool) -> u8 {
    if b {
        1
    } else {
        0
    }
}

/// Whether the key named by the value `v` is down; a value above 15 names
/// no key.
pub open spec fn key_down(s: MachineState, v: u8) -> bool {
    v < KEY_COUNT && s.keys[v as int]
}

/// The three decimal digits of `v`, most significant first.
pub open spec fn bcd(v: u8) -> Seq<u8> {
    seq![(v / 100) as u8, ((v / 10) % 10) as u8, (v % 10) as u8]
}

/// Whether the bit `b` of `byte`, counted from the most significant one,
/// is set.
pub open spec fn sprite_bit(byte: u8, b: int) -> bool {
    (byte >> ((7 - b) as u8)) & 1u8 == 1u8
}

/// Whether the sprite of `n` rows read from `memory` at `i`, drawn with
/// its top-left corner at `(x0, y0)`, sets the pixel `(px, py)`. Pixels of
/// the sprite that fall past the right or bottom edge are clipped: no
/// on-screen pixel stands for them.
pub open spec fn sprite_covers(
    memory: Seq<u8>,
    i: int,
    n: int,
    x0: int,
    y0: int,
    px: int,
    py: int,
) -> bool {
    &&& x0 <= px < x0 + 8
    &&& y0 <= py < y0 + n
    &&& sprite_bit(memory[i + (py - y0)], px - x0)
}

/// Whether the sprite of `Dxyn`, drawn on `s`, sets the pixel at the
/// screen position `k`.
pub open spec fn draw_covers(s: MachineState, x: u8, y: u8, n: u8, k: int) -> bool {
    sprite_covers(
        s.memory,
        s.i as int,
        n as int,
        reg(s, x) as int % WIDTH as int,
        reg(s, y) as int % HEIGHT as int,
        k % WIDTH as int,
        k / WIDTH as int,
    )
}

/// Whether drawing the sprite of `Dxyn` on `s` turns some pixel off.
pub open spec fn draw_collides(s: MachineState, x: u8, y: u8, n: u8) -> bool {
    exists|k: int| 0 <= k < VRAM_SIZE && #[trigger] draw_covers(s, x, y, n, k) && s.vram[k]
}

/// `Dxyn`: XOR the sprite onto the screen; VF tells whether a set pixel
/// was turned off.
pub open spec fn draw_spec(s: MachineState, x: u8, y: u8, n: u8) -> (
    MachineState,
    Result<(), Chip8Error>,
) {
    if !in_bounds(s.i as int, n as int) {
        fail(s, Chip8Error::OutOfBoundsMemoryAccess)
    } else {
        ok(
            MachineState {
                vram: Seq::new(VRAM_SIZE as nat, |k: int| s.vram[k] != draw_covers(s, x, y, n, k)),
                regs: s.regs.update(VF as int, flag(draw_collides(s, x, y, n))),
                redraw: true,
                ..s
            },
        )
    }
}

/// What executing `op` does to `s`, given the byte `rnd` as the random
/// draw of `Cxkk`. A failed instruction leaves the machine unchanged.
pub open spec fn exec_op(s: MachineState, op: Op, rnd: u8) -> (
    MachineState,
    Result<(), Chip8Error>,
) {
    match op {
        Op::Cls => ok(
            MachineState {
                vram: Seq::new(VRAM_SIZE as nat, |k: int| false),
                redraw: true,
                ..s
            },
        ),
        Op::Ret => if s.stack.len() == 0 {
            fail(s, Chip8Error::StackUnderflow)
        } else {
            ok(MachineState { pc: s.stack.last(), stack: s.stack.drop_last(), ..s })
        },
        Op::Sys { .. } => fail(s, Chip8Error::UnsupportedLegacyOp),
        Op::Jp { nnn } => ok(MachineState { pc: nnn, ..s }),
        Op::Call { nnn } => if s.stack.len() >= STACK_DEPTH {
            fail(s, Chip8Error::StackOverflow)
        } else {
            ok(MachineState { pc: nnn, stack: s.stack.push(s.pc), ..s })
        },
        Op::SeByte { x, kk } => ok(skip_if(s, reg(s, x) == kk)),
        Op::SneByte { x, kk } => ok(skip_if(s, reg(s, x) != kk)),
        Op::SeReg { x, y } => ok(skip_if(s, reg(s, x) == reg(s, y))),
        Op::LdByte { x, kk } => ok(set_reg(s, x as int, kk)),
        Op::AddByte { x, kk } => ok(set_reg(s, x as int, ((reg(s, x) + kk) % 256) as u8)),
        Op::LdReg { x, y } => ok(set_reg(s, x as int, reg(s, y))),
        Op::Or { x, y } => ok(set_reg(s, x as int, reg(s, x) | reg(s, y))),
        Op::And { x, y } => ok(set_reg(s, x as int, reg(s, x) & reg(s, y))),
        Op::Xor { x, y } => ok(set_reg(s, x as int, reg(s, x) ^ reg(s, y))),
        Op::AddReg { x, y } => {
            let sum = reg(s, x) + reg(s, y);
            ok(set_reg(set_reg(s, x as int, (sum % 256) as u8), VF as int, flag(sum > 255)))
        },
        Op::Sub { x, y } => ok(
            set_reg(
                set_reg(s, VF as int, flag(reg(s, x) > reg(s, y))),
                x as int,
                ((reg(s, x) - reg(s, y)) % 256) as u8,
            ),
        ),
        Op::Shr { x } => ok(
            set_reg(set_reg(s, VF as int, reg(s, x) % 2), x as int, reg(s, x) / 2),
        ),
        Op::Subn { x, y } => ok(
            set_reg(
                set_reg(s, VF as int, flag(reg(s, y) > reg(s, x))),
                x as int,
                ((reg(s, y) - reg(s, x)) % 256) as u8,
            ),
        ),
        Op::Shl { x } => ok(
            set_reg(
                set_reg(s, VF as int, reg(s, x) / 128),
                x as int,
                ((reg(s, x) * 2) % 256) as u8,
            ),
        ),
        Op::SneReg { x, y } => ok(skip_if(s, reg(s, x) != reg(s, y))),
        Op::LdI { nnn } => ok(MachineState { i: nnn, ..s }),
        Op::JpV0 { nnn } => ok(MachineState { pc: (nnn + reg(s, 0)) as u16, ..s }),
        Op::Rnd { x, kk } => ok(set_reg(s, x as int, rnd & kk)),
        Op::Drw { x, y, n } => draw_spec(s, x, y, n),
        Op::Skp { x } => ok(skip_if(s, key_down(s, reg(s, x)))),
        Op::Sknp { x } => ok(skip_if(s, !key_down(s, reg(s, x)))),
        Op::LdVxDt { x } => ok(set_reg(s, x as int, s.dt)),
        Op::LdVxK { x } => ok(MachineState { waiting: Some(x), ..s }),
        Op::LdDtVx { x } => ok(MachineState { dt: reg(s, x), ..s }),
        Op::LdStVx { x } => ok(MachineState { st: reg(s, x), ..s }),
        Op::AddI { x } => ok(MachineState { i: ((s.i + reg(s, x)) % 0x10000) as u16, ..s }),
        Op::LdF { x } => ok(
            MachineState { i: (FONT_SECTION + GLYPH_SIZE * (reg(s, x) % 16)) as u16, ..s },
        ),
        Op::LdB { x } => if !in_bounds(s.i as int, 3) {
            fail(s, Chip8Error::OutOfBoundsMemoryAccess)
        } else {
            ok(MachineState { memory: splice(s.memory, s.i as int, bcd(reg(s, x))), ..s })
        },
        Op::LdIVx { x } => if !in_bounds(s.i as int, x + 1) {
            fail(s, Chip8Error::OutOfBoundsMemoryAccess)
        } else {
            ok(
                MachineState {
                    memory: splice(s.memory, s.i as int, s.regs.subrange(0, x + 1)),
                    ..s
                },
            )
        },
        Op::LdVxI { x } => if !in_bounds(s.i as int, x + 1) {
            fail(s, Chip8Error::OutOfBoundsMemoryAccess)
        } else {
            ok(
                MachineState {
                    regs: splice(s.regs, 0, s.memory.subrange(s.i as int, s.i + x + 1)),
                    ..s
                },
            )
        },
        Op::Invalid => fail(s, Chip8Error::InvalidOpcode),
    }
}

/// What executing the instruction word `w` does to `s`.
pub open spec fn execute_spec(s: MachineState, w: u16, rnd: u8) -> (
    MachineState,
    Result<(), Chip8Error>,
) {
    exec_op(s, op_of(w), rnd)
}

/// The instruction word stored at `pc`, high byte first.
pub open spec fn word_at(memory: Seq<u8>, pc: int) -> u16 {
    (memory[pc] * 256 + memory[pc + 1]) as u16
}

/// The lowest-numbered key at `from` or above that is down, if any.
pub open spec fn first_key_down(keys: Seq<bool>, from: int) -> Option<u8>
    decreases KEY_COUNT - from,
{
    if from < 0 || from >= KEY_COUNT {
        None
    } else if keys[from] {
        Some(from as u8)
    } else {
        first_key_down(keys, from + 1)
    }
}

/// One cycle. While an `Fx0A` waits for a key: where a key is down, the
/// lowest-numbered such key goes to the waiting register and the wait
/// ends; with no key down, nothing changes. Otherwise the word at the
/// program counter is fetched, the counter advanced past it, and the word
/// executed. A fetch past the end of memory fails and changes nothing.
pub open spec fn step_spec(s: MachineState, rnd: u8) -> (MachineState, Result<(), Chip8Error>) {
    if let Some(x) = s.waiting {
        match first_key_down(s.keys, 0) {
            Some(k) => ok(MachineState { regs: s.regs.update(x as int, k), waiting: None, ..s }),
            None => ok(s),
        }
    } else if !in_bounds(s.pc as int, 2) {
        fail(s, Chip8Error::OutOfBoundsMemoryAccess)
    } else {
        execute_spec(
            MachineState { pc: (s.pc + 2) as u16, ..s },
            word_at(s.memory, s.pc as int),
            rnd,
        )
    }
}

/// A timer tick: each timer that is not zero goes down by one.
pub open spec fn tick_spec(s: MachineState) -> MachineState {
    MachineState {
        dt: if s.dt > 0 {
            (s.dt - 1) as u8
        } else {
            0
        },
        st: if s.st > 0 {
            (s.st - 1) as u8
        } else {
            0
        },
        ..s
    }
}

/// The host reports the key `key` down.
pub open spec fn press_spec(s: MachineState, key: u8) -> MachineState {
    MachineState { keys: s.keys.update(key as int, true), ..s }
}

/// The host reports the key `key` up.
pub open spec fn release_spec(s: MachineState, key: u8) -> MachineState {
    MachineState { keys: s.keys.update(key as int, false), ..s }
}

} // verus!
