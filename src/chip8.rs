use vstd::prelude::*;

use vstd::slice::slice_to_vec;

use crate::error::Chip8Error;
use crate::instruction::Op;
use crate::memory::{in_bounds, splice, Memory, MEMORY_SIZE};
use crate::state::{
    bcd, draw_covers, draw_spec, exec_op, execute_spec, first_key_down, font_glyphs, initial_state,
    press_spec, reg, release_spec, skip_if, step_spec, tick_spec, word_at, MachineState,
    FONT_SECTION, GLYPH_SIZE, HEIGHT, KEY_COUNT, REGISTER_COUNT, STACK_DEPTH, START_SECTION, VF, VRAM_SIZE, WIDTH,
};

verus! {

/// A CHIP-8 machine: memory, registers, call stack, timers, keypad and
/// screen.
#[derive(Debug)]
pub struct Chip8 {
    memory: Memory,
    stack: Vec<u16>,
    vram: Vec<bool>,
    regs: Vec<u8>,
    keys: Vec<bool>,
    pc: u16,
    i: u16,
    dt: u8,
    st: u8,
    redraw: bool,
    waiting: Option<u8>,
}

impl View for Chip8 {
    type V = MachineState;

    closed spec fn view(&self) -> MachineState {
        MachineState {
            memory: self.memory@,
            regs: self.regs@,
            stack: self.stack@,
            vram: self.vram@,
            keys: self.keys@,
            pc: self.pc,
            i: self.i,
            dt: self.dt,
            st: self.st,
            redraw: self.redraw,
            waiting: self.waiting,
        }
    }
}

/// Whether the sprite of `Dxyn` sets the screen position `k` from one of
/// its first `r` rows, or from the first `b` bits of its row `r`.
spec fn drawn_before(s: MachineState, x: u8, y: u8, n: u8, k: int, r: int, b: int) -> bool {
    let row = k / WIDTH as int - reg(s, y) as int % HEIGHT as int;
    let col = k % WIDTH as int - reg(s, x) as int % WIDTH as int;
    draw_covers(s, x, y, n, k) && (row < r || (row == r && col < b))
}

/// Relies on rand::random, which draws from the thread-local generator:
/// any byte may come back.
#[verifier::external_body]
fn random_byte() -> (r: u8) {
    rand::random::<u8>()
}

/// Instructions that move the program counter or the call stack, or
/// clear the screen.
spec fn is_flow_op(op: Op) -> bool {
    matches!(
        op,
        Op::Cls
            | Op::Ret
            | Op::Sys { .. }
            | Op::Jp { .. }
            | Op::Call { .. }
            | Op::SeByte { .. }
            | Op::SneByte { .. }
            | Op::SeReg { .. }
            | Op::SneReg { .. }
            | Op::JpV0 { .. }
            | Op::Skp { .. }
            | Op::Sknp { .. }
    )
}

/// Instructions that compute into a register without touching the flag
/// register (unless it is their target).
spec fn is_alu_op(op: Op) -> bool {
    matches!(
        op,
        Op::LdByte { .. }
            | Op::AddByte { .. }
            | Op::LdReg { .. }
            | Op::Or { .. }
            | Op::And { .. }
            | Op::Xor { .. }
            | Op::Rnd { .. }
    )
}

/// Additions and shifts, which compute into a register and set the flag
/// register.
spec fn is_flag_op(op: Op) -> bool {
    matches!(op, Op::AddReg { .. } | Op::Shr { .. } | Op::Shl { .. })
}

impl Chip8 {
    /// The machine's parts have their fixed sizes.
    pub open spec fn wf(&self) -> bool {
        self@.wf()
    }

    /// A machine with the font loaded and everything else cleared, ready to
    /// run from `START_SECTION`.
    pub fn new() -> (c: Chip8)
        ensures
            c.wf(),
            c@ == initial_state(),
    {
        let mut memory = Memory::new();
        let font: Vec<u8> = vec![
            0xF0, 0x90, 0x90, 0x90, 0xF0, // 0
            0x20, 0x60, 0x20, 0x20, 0x70, // 1
            0xF0, 0x10, 0xF0, 0x80, 0xF0, // 2
            0xF0, 0x10, 0xF0, 0x10, 0xF0, // 3
            0x90, 0x90, 0xF0, 0x10, 0x10, // 4
            0xF0, 0x80, 0xF0, 0x10, 0xF0, // 5
            0xF0, 0x80, 0xF0, 0x90, 0xF0, // 6
            0xF0, 0x10, 0x20, 0x40, 0x40, // 7
            0xF0, 0x90, 0xF0, 0x90, 0xF0, // 8
            0xF0, 0x90, 0xF0, 0x10, 0xF0, // 9
            0xF0, 0x90, 0xF0, 0x90, 0x90, // A
            0xE0, 0x90, 0xE0, 0x90, 0xE0, // B
            0xF0, 0x80, 0x80, 0x80, 0xF0, // C
            0xE0, 0x90, 0x90, 0x90, 0xE0, // D
            0xF0, 0x80, 0xF0, 0x80, 0xF0, // E
            0xF0, 0x80, 0xF0, 0x80, 0x80, // F
        ];
        assert(font@ =~= font_glyphs());
        let _ = memory.load_at_offset(FONT_SECTION as usize, font);
        let c = Chip8 {
            memory,
            stack: Vec::new(),
            vram: vec![false; VRAM_SIZE],
            regs: vec![0u8; REGISTER_COUNT],
            keys: vec![false; KEY_COUNT],
            pc: START_SECTION,
            i: 0,
            dt: 0,
            st: 0,
            redraw: false,
            waiting: None,
        };
        assert(c@.regs =~= initial_state().regs);
        assert(c@.vram =~= initial_state().vram);
        assert(c@.keys =~= initial_state().keys);
        assert(c@.stack =~= initial_state().stack);
        c
    }

    /// Advances the program counter past the next instruction.
    fn skip(&mut self)
        ensures
            *final(self) == (Chip8 { pc: final(self).pc, ..*old(self) }),
            final(self)@ == skip_if(old(self)@, true),
    {
        self.pc = self.pc.wrapping_add(2);
    }

    /// `Dxyn`: XORs the `n`-row sprite read from memory at `I` onto the
    /// screen at `(Vx mod 64, Vy mod 32)`, clipping what falls past the
    /// right or bottom edge, and sets VF to 1 where a set pixel was turned
    /// off, else to 0.
    fn draw(&mut self, x: u8, y: u8, n: u8) -> (r: Result<(), Chip8Error>)
        requires
            old(self).wf(),
            x < 16,
            y < 16,
            n < 16,
        ensures
            final(self).wf(),
            (final(self)@, r) == draw_spec(old(self)@, x, y, n),
    {
        let base = self.i as usize;
        if base + n as usize > MEMORY_SIZE {
            return Err(Chip8Error::OutOfBoundsMemoryAccess);
        }
        let x0 = (self.regs[x as usize] % 64) as usize;
        let y0 = (self.regs[y as usize] % 32) as usize;
        let ghost s = self@;
        let mut hit = false;
        let mut r: usize = 0;
        while r < n as usize
            invariant
                s.wf(),
                self.wf(),
                self@ == (MachineState { vram: self@.vram, ..s }),
                base == s.i,
                base + n <= MEMORY_SIZE,
                x0 == reg(s, x) as int % 64,
                y0 == reg(s, y) as int % 32,
                x < 16,
                y < 16,
                r <= n,
                forall|k: int|
                    0 <= k < VRAM_SIZE ==> #[trigger] self@.vram[k] == (s.vram[k] != drawn_before(
                        s,
                        x,
                        y,
                        n,
                        k,
                        r as int,
                        0,
                    )),
                hit == exists|k: int|
                    0 <= k < VRAM_SIZE && #[trigger] drawn_before(s, x, y, n, k, r as int, 0)
                        && s.vram[k],
            decreases n - r,
        {
            let byte = match self.memory.read(base + r) {
                Ok(v) => v,
                Err(e) => return Err(e),
            };
            let mut b: usize = 0;
            while b < 8
                invariant
                    s.wf(),
                    self.wf(),
                    self@ == (MachineState { vram: self@.vram, ..s }),
                    base == s.i,
                    base + n <= MEMORY_SIZE,
                    x0 == reg(s, x) as int % 64,
                    y0 == reg(s, y) as int % 32,
                    x < 16,
                    y < 16,
                    r < n,
                    b <= 8,
                    byte == s.memory[base + r],
                    forall|k: int|
                        0 <= k < VRAM_SIZE ==> #[trigger] self@.vram[k] == (s.vram[k]
                            != drawn_before(s, x, y, n, k, r as int, b as int)),
                    hit == exists|k: int|
                        0 <= k < VRAM_SIZE && #[trigger] drawn_before(
                            s,
                            x,
                            y,
                            n,
                            k,
                            r as int,
                            b as int,
                        ) && s.vram[k],
                decreases 8 - b,
            {
                let px = x0 + b;
                let py = y0 + r;
                let ghost old_vram = self@.vram;
                let ghost old_hit = hit;
                if px < WIDTH && py < HEIGHT && (byte >> (7 - b as u8)) & 1 == 1 {
                    let idx = py * WIDTH + px;
                    assert(idx / 64 == py && idx % 64 == px);
                    let cur = self.vram[idx];
                    if cur {
                        hit = true;
                    }
                    self.vram.set(idx, !cur);
                    assert forall|k: int| 0 <= k < VRAM_SIZE implies #[trigger] drawn_before(
                        s,
                        x,
                        y,
                        n,
                        k,
                        r as int,
                        b + 1,
                    ) == (drawn_before(s, x, y, n, k, r as int, b as int) || k == idx) by {
                        assert(k == 64 * (k / 64) + k % 64);
                    }
                    assert(drawn_before(s, x, y, n, idx as int, r as int, b + 1));
                    assert(!drawn_before(s, x, y, n, idx as int, r as int, b as int));
                    assert(cur == s.vram[idx as int]);
                    proof {
                        if old_hit {
                            let k = choose|k: int|
                                0 <= k < VRAM_SIZE && #[trigger] drawn_before(
                                    s,
                                    x,
                                    y,
                                    n,
                                    k,
                                    r as int,
                                    b as int,
                                ) && s.vram[k];
                            assert(drawn_before(s, x, y, n, k, r as int, b + 1));
                        }
                    }
                    proof {
                        if !hit {
                            assert forall|k: int|
                                0 <= k < VRAM_SIZE && #[trigger] drawn_before(
                                    s,
                                    x,
                                    y,
                                    n,
                                    k,
                                    r as int,
                                    b + 1,
                                ) implies !s.vram[k] by {
                                if k != idx {
                                    assert(drawn_before(s, x, y, n, k, r as int, b as int));
                                }
                            }
                        }
                    }
                } else {
                    assert forall|k: int| 0 <= k < VRAM_SIZE implies #[trigger] drawn_before(
                        s,
                        x,
                        y,
                        n,
                        k,
                        r as int,
                        b + 1,
                    ) == drawn_before(s, x, y, n, k, r as int, b as int) by {
                        assert(k == 64 * (k / 64) + k % 64);
                    }
                    proof {
                        if old_hit {
                            let k = choose|k: int|
                                0 <= k < VRAM_SIZE && #[trigger] drawn_before(
                                    s,
                                    x,
                                    y,
                                    n,
                                    k,
                                    r as int,
                                    b as int,
                                ) && s.vram[k];
                            assert(drawn_before(s, x, y, n, k, r as int, b + 1));
                        } else {
                            assert forall|k: int|
                                0 <= k < VRAM_SIZE && #[trigger] drawn_before(
                                    s,
                                    x,
                                    y,
                                    n,
                                    k,
                                    r as int,
                                    b + 1,
                                ) implies !s.vram[k] by {
                                assert(drawn_before(s, x, y, n, k, r as int, b as int));
                            }
                        }
                    }
                }
                b = b + 1;
            }
            assert forall|k: int| 0 <= k < VRAM_SIZE implies #[trigger] drawn_before(
                s,
                x,
                y,
                n,
                k,
                r as int,
                8,
            ) == drawn_before(s, x, y, n, k, r + 1, 0) by {}
            proof {
                if hit {
                    let k = choose|k: int|
                        0 <= k < VRAM_SIZE && #[trigger] drawn_before(s, x, y, n, k, r as int, 8)
                            && s.vram[k];
                    assert(drawn_before(s, x, y, n, k, r + 1, 0));
                } else {
                    assert forall|k: int|
                        0 <= k < VRAM_SIZE && #[trigger] drawn_before(
                            s,
                            x,
                            y,
                            n,
                            k,
                            r + 1,
                            0,
                        ) implies !s.vram[k] by {
                        assert(drawn_before(s, x, y, n, k, r as int, 8));
                    }
                }
            }
            r = r + 1;
        }
        assert forall|k: int| 0 <= k < VRAM_SIZE implies #[trigger] drawn_before(
            s,
            x,
            y,
            n,
            k,
            n as int,
            0,
        ) == draw_covers(s, x, y, n, k) by {}
        proof {
            if hit {
                let k = choose|k: int|
                    0 <= k < VRAM_SIZE && #[trigger] drawn_before(s, x, y, n, k, n as int, 0)
                        && s.vram[k];
                assert(draw_covers(s, x, y, n, k));
            } else {
                assert forall|k: int|
                    0 <= k < VRAM_SIZE && #[trigger] draw_covers(s, x, y, n, k) implies !s.vram[k] by {
                    assert(drawn_before(s, x, y, n, k, n as int, 0));
                }
            }
        }
        self.regs.set(
            VF,
            if hit {
                1
            } else {
                0
            },
        );
        self.redraw = true;
        assert(self@.vram =~= draw_spec(s, x, y, n).0.vram);
        Ok(())
    }

    /// `Fx33`: writes the hundreds, tens and ones digits of `Vx` at `I`,
    /// `I+1` and `I+2`.
    fn store_bcd(&mut self, x: u8) -> (r: Result<(), Chip8Error>)
        requires
            old(self).wf(),
            x < 16,
        ensures
            final(self).wf(),
            (final(self)@, r) == exec_op(old(self)@, Op::LdB { x }, 0),
    {
        let v = self.regs[x as usize];
        let digits: Vec<u8> = vec![v / 100, (v / 10) % 10, v % 10];
        assert(digits@ =~= bcd(v));
        self.memory.write_vec(self.i as usize, digits)
    }

    /// `Fx55`: copies `V0..=Vx` into memory from `I` on.
    fn store_regs(&mut self, x: u8) -> (r: Result<(), Chip8Error>)
        requires
            old(self).wf(),
            x < 16,
        ensures
            final(self).wf(),
            (final(self)@, r) == exec_op(old(self)@, Op::LdIVx { x }, 0),
    {
        let mut data: Vec<u8> = Vec::new();
        let mut k: usize = 0;
        while k <= x as usize
            invariant
                self.wf(),
                x < 16,
                k <= x + 1,
                data@ == self.regs@.subrange(0, k as int),
            decreases x + 1 - k,
        {
            data.push(self.regs[k]);
            k = k + 1;
            assert(data@ =~= self.regs@.subrange(0, k as int));
        }
        self.memory.load_at_offset(self.i as usize, data)
    }

    /// `Fx65`: fills `V0..=Vx` from memory from `I` on.
    fn load_regs(&mut self, x: u8) -> (r: Result<(), Chip8Error>)
        requires
            old(self).wf(),
            x < 16,
        ensures
            final(self).wf(),
            (final(self)@, r) == exec_op(old(self)@, Op::LdVxI { x }, 0),
    {
        let base = self.i as usize;
        if base + x as usize + 1 > MEMORY_SIZE {
            return Err(Chip8Error::OutOfBoundsMemoryAccess);
        }
        let ghost s = self@;
        let mut k: usize = 0;
        while k <= x as usize
            invariant
                s.wf(),
                self.wf(),
                self@ == (MachineState { regs: self@.regs, ..s }),
                base == s.i,
                base + x + 1 <= MEMORY_SIZE,
                x < 16,
                k <= x + 1,
                forall|j: int|
                    0 <= j < REGISTER_COUNT ==> #[trigger] self@.regs[j] == if j < k {
                        s.memory[base + j]
                    } else {
                        s.regs[j]
                    },
            decreases x + 1 - k,
        {
            let v = match self.memory.read(base + k) {
                Ok(v) => v,
                Err(e) => return Err(e),
            };
            self.regs.set(k, v);
            k = k + 1;
        }
        assert(self@.regs =~= splice(s.regs, 0, s.memory.subrange(base as int, base + x + 1)));
        Ok(())
    }

    /// Executes an instruction that moves the program counter or the call
    /// stack, or clears the screen.
    fn execute_flow(&mut self, op: Op, rnd: u8) -> (r: Result<(), Chip8Error>)
        requires
            old(self).wf(),
            op.wf(),
            is_flow_op(op),
        ensures
            final(self).wf(),
            (final(self)@, r) == exec_op(old(self)@, op, rnd),
    {
        match op {
            Op::Cls => {
                self.vram = vec![false; VRAM_SIZE];
                self.redraw = true;
                assert(self@.vram =~= Seq::new(VRAM_SIZE as nat, |k: int| false));
                Ok(())
            },
            Op::Ret => match self.stack.pop() {
                Some(a) => {
                    self.pc = a;
                    Ok(())
                },
                None => Err(Chip8Error::StackUnderflow),
            },
            Op::Sys { .. } => Err(Chip8Error::UnsupportedLegacyOp),
            Op::Jp { nnn } => {
                self.pc = nnn;
                Ok(())
            },
            Op::Call { nnn } => {
                if self.stack.len() >= STACK_DEPTH {
                    return Err(Chip8Error::StackOverflow);
                }
                self.stack.push(self.pc);
                self.pc = nnn;
                Ok(())
            },
            Op::SeByte { x, kk } => {
                if self.regs[x as usize] == kk {
                    self.skip();
                }
                Ok(())
            },
            Op::SneByte { x, kk } => {
                if self.regs[x as usize] != kk {
                    self.skip();
                }
                Ok(())
            },
            Op::SeReg { x, y } => {
                if self.regs[x as usize] == self.regs[y as usize] {
                    self.skip();
                }
                Ok(())
            },
            Op::SneReg { x, y } => {
                if self.regs[x as usize] != self.regs[y as usize] {
                    self.skip();
                }
                Ok(())
            },
            Op::JpV0 { nnn } => {
                self.pc = nnn + self.regs[0] as u16;
                Ok(())
            },
            Op::Skp { x } => {
                let v = self.regs[x as usize];
                if v < 16 && self.keys[v as usize] {
                    self.skip();
                }
                Ok(())
            },
            Op::Sknp { x } => {
                let v = self.regs[x as usize];
                if !(v < 16 && self.keys[v as usize]) {
                    self.skip();
                }
                Ok(())
            },
            _ => Err(Chip8Error::InvalidOpcode),
        }
    }

    /// Executes an instruction that computes into a register.
    fn execute_alu(&mut self, op: Op, rnd: u8) -> (r: Result<(), Chip8Error>)
        requires
            old(self).wf(),
            op.wf(),
            is_alu_op(op),
        ensures
            final(self).wf(),
            (final(self)@, r) == exec_op(old(self)@, op, rnd),
    {
        match op {
            Op::LdByte { x, kk } => {
                self.regs.set(x as usize, kk);
                Ok(())
            },
            Op::AddByte { x, kk } => {
                let v = ((self.regs[x as usize] as u16 + kk as u16) % 256) as u8;
                self.regs.set(x as usize, v);
                Ok(())
            },
            Op::LdReg { x, y } => {
                let v = self.regs[y as usize];
                self.regs.set(x as usize, v);
                Ok(())
            },
            Op::Or { x, y } => {
                let v = self.regs[x as usize] | self.regs[y as usize];
                self.regs.set(x as usize, v);
                Ok(())
            },
            Op::And { x, y } => {
                let v = self.regs[x as usize] & self.regs[y as usize];
                self.regs.set(x as usize, v);
                Ok(())
            },
            Op::Xor { x, y } => {
                let v = self.regs[x as usize] ^ self.regs[y as usize];
                self.regs.set(x as usize, v);
                Ok(())
            },
            Op::Rnd { x, kk } => {
                self.regs.set(x as usize, rnd & kk);
                Ok(())
            },
            _ => Err(Chip8Error::InvalidOpcode),
        }
    }

    /// Executes a subtraction, `8xy5` or `8xy7`, which sets VF to "no
    /// borrow" before writing the difference.
    fn execute_sub(&mut self, op: Op) -> (r: Result<(), Chip8Error>)
        requires
            old(self).wf(),
            op.wf(),
            op is Sub || op is Subn,
        ensures
            final(self).wf(),
            (final(self)@, r) == exec_op(old(self)@, op, 0),
    {
        match op {
            Op::Sub { x, y } => {
                let vx = self.regs[x as usize];
                let vy = self.regs[y as usize];
                self.regs.set(
                    VF,
                    if vx > vy {
                        1
                    } else {
                        0
                    },
                );
                let d = vx.wrapping_sub(vy);
                assert(d == ((vx - vy) % 256) as u8);
                self.regs.set(x as usize, d);
                Ok(())
            },
            Op::Subn { x, y } => {
                let vx = self.regs[x as usize];
                let vy = self.regs[y as usize];
                self.regs.set(
                    VF,
                    if vy > vx {
                        1
                    } else {
                        0
                    },
                );
                let d = vy.wrapping_sub(vx);
                assert(d == ((vy - vx) % 256) as u8);
                self.regs.set(x as usize, d);
                Ok(())
            },
            _ => Err(Chip8Error::InvalidOpcode),
        }
    }

    /// Executes an instruction that computes into a register and sets the
    /// flag register VF.
    fn execute_flagged(&mut self, op: Op) -> (r: Result<(), Chip8Error>)
        requires
            old(self).wf(),
            op.wf(),
            is_flag_op(op),
        ensures
            final(self).wf(),
            (final(self)@, r) == exec_op(old(self)@, op, 0),
    {
        match op {
            Op::AddReg { x, y } => {
                let sum: u16 = self.regs[x as usize] as u16 + self.regs[y as usize] as u16;
                self.regs.set(x as usize, (sum % 256) as u8);
                self.regs.set(
                    VF,
                    if sum > 255 {
                        1
                    } else {
                        0
                    },
                );
                Ok(())
            },
            Op::Shr { x } => {
                let vx = self.regs[x as usize];
                self.regs.set(VF, vx % 2);
                self.regs.set(x as usize, vx / 2);
                Ok(())
            },
            Op::Shl { x } => {
                let vx = self.regs[x as usize];
                self.regs.set(VF, vx / 128);
                self.regs.set(x as usize, ((vx as u16 * 2) % 256) as u8);
                Ok(())
            },
            _ => Err(Chip8Error::InvalidOpcode),
        }
    }

    /// Executes one decoded instruction; `rnd` is the random byte that
    /// `Cxkk` uses. A failed instruction changes nothing.
    fn execute_op(&mut self, op: Op, rnd: u8) -> (r: Result<(), Chip8Error>)
        requires
            old(self).wf(),
            op.wf(),
        ensures
            final(self).wf(),
            (final(self)@, r) == exec_op(old(self)@, op, rnd),
    {
        match op {
            Op::Cls
            | Op::Ret
            | Op::Sys { .. }
            | Op::Jp { .. }
            | Op::Call { .. }
            | Op::SeByte { .. }
            | Op::SneByte { .. }
            | Op::SeReg { .. }
            | Op::SneReg { .. }
            | Op::JpV0 { .. }
            | Op::Skp { .. }
            | Op::Sknp { .. } => self.execute_flow(op, rnd),
            Op::LdByte { .. }
            | Op::AddByte { .. }
            | Op::LdReg { .. }
            | Op::Or { .. }
            | Op::And { .. }
            | Op::Xor { .. }
            | Op::Rnd { .. } => self.execute_alu(op, rnd),
            Op::AddReg { .. } | Op::Shr { .. } | Op::Shl { .. } => self.execute_flagged(op),
            Op::Sub { .. } | Op::Subn { .. } => self.execute_sub(op),
            Op::LdI { nnn } => {
                self.i = nnn;
                Ok(())
            },
            Op::Drw { x, y, n } => self.draw(x, y, n),
            Op::LdVxDt { x } => {
                let v = self.dt;
                self.regs.set(x as usize, v);
                Ok(())
            },
            Op::LdVxK { x } => {
                self.waiting = Some(x);
                Ok(())
            },
            Op::LdDtVx { x } => {
                self.dt = self.regs[x as usize];
                Ok(())
            },
            Op::LdStVx { x } => {
                self.st = self.regs[x as usize];
                Ok(())
            },
            Op::AddI { x } => {
                self.i = self.i.wrapping_add(self.regs[x as usize] as u16);
                Ok(())
            },
            Op::LdF { x } => {
                let digit = (self.regs[x as usize] % 16) as u16;
                assert(digit < 16);
                self.i = FONT_SECTION + GLYPH_SIZE * digit;
                Ok(())
            },
            Op::LdB { x } => self.store_bcd(x),
            Op::LdIVx { x } => self.store_regs(x),
            Op::LdVxI { x } => self.load_regs(x),
            Op::Invalid => Err(Chip8Error::InvalidOpcode),
        }
    }

    /// Reads the instruction word at the program counter, high byte first,
    /// and advances the counter past it.
    fn fetch(&mut self) -> (r: Result<u16, Chip8Error>)
        requires
            old(self).wf(),
        ensures
            final(self).wf(),
            in_bounds(old(self)@.pc as int, 2) ==> r == Ok::<u16, Chip8Error>(
                word_at(old(self)@.memory, old(self)@.pc as int),
            ) && final(self)@ == (MachineState { pc: (old(self)@.pc + 2) as u16, ..old(self)@ }),
            !in_bounds(old(self)@.pc as int, 2) ==> r == Err::<u16, Chip8Error>(
                Chip8Error::OutOfBoundsMemoryAccess,
            ) && final(self)@ == old(self)@,
    {
        if self.pc as usize + 2 > MEMORY_SIZE {
            return Err(Chip8Error::OutOfBoundsMemoryAccess);
        }
        let high = match self.memory.read(self.pc as usize) {
            Ok(v) => v,
            Err(e) => return Err(e),
        };
        let low = match self.memory.read(self.pc as usize + 1) {
            Ok(v) => v,
            Err(e) => return Err(e),
        };
        self.pc = self.pc + 2;
        Ok(high as u16 * 256 + low as u16)
    }

    /// Decodes the instruction word `opcode` and executes it; `rnd` is the
    /// random byte that `Cxkk` uses. A failed instruction changes nothing.
    pub fn decode_and_execute(&mut self, opcode: u16, rnd: u8) -> (r: Result<(), Chip8Error>)
        requires
            old(self).wf(),
        ensures
            final(self).wf(),
            (final(self)@, r) == execute_spec(old(self)@, opcode, rnd),
    {
        let op = Op::decode(opcode);
        self.execute_op(op, rnd)
    }

    /// The lowest-numbered key that is down, if any.
    fn first_key_down(&self) -> (r: Option<u8>)
        requires
            self.wf(),
        ensures
            r == first_key_down(self@.keys, 0),
    {
        let mut k: usize = 0;
        while k < KEY_COUNT
            invariant
                self.wf(),
                k <= KEY_COUNT,
                first_key_down(self@.keys, 0) == first_key_down(self@.keys, k as int),
            decreases KEY_COUNT - k,
        {
            if self.keys[k] {
                return Some(k as u8);
            }
            k = k + 1;
        }
        None
    }

    /// One cycle with `rnd` as the random byte for `Cxkk`. While an `Fx0A`
    /// waits for a key, the cycle ends the wait where a key is down, giving
    /// the lowest-numbered such key to the waiting register, and otherwise
    /// does nothing. Else the instruction at the program counter is
    /// fetched, the counter advanced past it, and the instruction executed.
    pub fn step(&mut self, rnd: u8) -> (r: Result<(), Chip8Error>)
        requires
            old(self).wf(),
        ensures
            final(self).wf(),
            (final(self)@, r) == step_spec(old(self)@, rnd),
    {
        if let Some(x) = self.waiting {
            if let Some(k) = self.first_key_down() {
                self.regs.set(x as usize, k);
                self.waiting = None;
            }
            return Ok(());
        }
        let opcode = match self.fetch() {
            Ok(w) => w,
            Err(e) => return Err(e),
        };
        self.decode_and_execute(opcode, rnd)
    }

    /// One cycle, with a byte from the thread-local random generator for
    /// `Cxkk`.
    pub fn run(&mut self) -> (r: Result<(), Chip8Error>)
        requires
            old(self).wf(),
        ensures
            final(self).wf(),
            exists|rnd: u8| (final(self)@, r) == step_spec(old(self)@, rnd),
    {
        let rnd = random_byte();
        self.step(rnd)
    }

    /// Copies a program image into memory at `START_SECTION`; an image that
    /// does not fit is refused and nothing changes.
    pub fn load_rom(&mut self, rom: &[u8]) -> (r: Result<(), Chip8Error>)
        requires
            old(self).wf(),
        ensures
            final(self).wf(),
            rom@.len() <= MEMORY_SIZE - START_SECTION ==> r == Ok::<(), Chip8Error>(())
                && final(self)@ == (MachineState {
                memory: splice(old(self)@.memory, START_SECTION as int, rom@),
                ..old(self)@
            }),
            rom@.len() > MEMORY_SIZE - START_SECTION ==> r == Err::<(), Chip8Error>(
                Chip8Error::OutOfBoundsMemoryAccess,
            ) && final(self)@ == old(self)@,
    {
        let image = slice_to_vec(rom);
        self.memory.load_at_offset(START_SECTION as usize, image)
    }

    /// Marks the key `key` down.
    pub fn key_press(&mut self, key: u8)
        requires
            old(self).wf(),
            key < KEY_COUNT,
        ensures
            final(self).wf(),
            final(self)@ == press_spec(old(self)@, key),
    {
        self.keys.set(key as usize, true);
    }

    /// Marks the key `key` up.
    pub fn key_release(&mut self, key: u8)
        requires
            old(self).wf(),
            key < KEY_COUNT,
        ensures
            final(self).wf(),
            final(self)@ == release_spec(old(self)@, key),
    {
        self.keys.set(key as usize, false);
    }

    /// Counts each timer that is not zero down by one; the host calls this
    /// sixty times a second.
    pub fn timer_tick(&mut self)
        requires
            old(self).wf(),
        ensures
            final(self).wf(),
            final(self)@ == tick_spec(old(self)@),
    {
        if self.dt > 0 {
            self.dt = self.dt - 1;
        }
        if self.st > 0 {
            self.st = self.st - 1;
        }
    }

    /// Whether the pixel at column `x`, row `y` is lit.
    pub fn pixel(&self, x: usize, y: usize) -> (r: bool)
        requires
            self.wf(),
            x < WIDTH,
            y < HEIGHT,
        ensures
            r == self@.vram[y * WIDTH + x],
    {
        self.vram[y * WIDTH + x]
    }

    /// Whether the sound should play: the sound timer is not zero.
    pub fn is_beeping(&self) -> (r: bool)
        ensures
            r == (self@.st != 0),
    {
        self.st != 0
    }

    /// Whether the screen changed since the host last drew it.
    pub fn needs_redraw(&self) -> (r: bool)
        ensures
            r == self@.redraw,
    {
        self.redraw
    }

    /// The host reports that it has drawn the screen.
    pub fn frame_drawn(&mut self)
        ensures
            final(self)@ == (MachineState { redraw: false, ..old(self)@ }),
    {
        self.redraw = false;
    }

    /// Whether an `Fx0A` waits for a key.
    pub fn is_waiting_for_key(&self) -> (r: bool)
        ensures
            r == self@.waiting is Some,
    {
        self.waiting.is_some()
    }

    /// The value of the register `x`.
    pub fn register(&self, x: usize) -> (r: u8)
        requires
            self.wf(),
            x < REGISTER_COUNT,
        ensures
            r == self@.regs[x as int],
    {
        self.regs[x]
    }

    /// The index register.
    pub fn index(&self) -> (r: u16)
        ensures
            r == self@.i,
    {
        self.i
    }

    /// The program counter.
    pub fn program_counter(&self) -> (r: u16)
        ensures
            r == self@.pc,
    {
        self.pc
    }

    /// The number of return addresses on the call stack.
    pub fn stack_depth(&self) -> (r: usize)
        ensures
            r == self@.stack.len(),
    {
        self.stack.len()
    }

    /// The delay timer.
    pub fn delay_timer(&self) -> (r: u8)
        ensures
            r == self@.dt,
    {
        self.dt
    }

    /// The sound timer.
    pub fn sound_timer(&self) -> (r: u8)
        ensures
            r == self@.st,
    {
        self.st
    }

    /// The byte of memory at `addr`.
    pub fn memory_byte(&self, addr: usize) -> (r: Result<u8, Chip8Error>)
        requires
            self.wf(),
        ensures
            addr < MEMORY_SIZE ==> r == Ok::<u8, Chip8Error>(self@.memory[addr as int]),
            addr >= MEMORY_SIZE ==> r == Err::<u8, Chip8Error>(
                Chip8Error::OutOfBoundsMemoryAccess,
            ),
    {
        self.memory.read(addr)
    }
}

} // verus!
