use vstd::prelude::*;

use crate::error::Chip8Error;
use crate::instruction::{kind_of, kk_of, n_of, nnn_of, op_of, x_of, y_of, Op};
use crate::memory::in_bounds;
use crate::state::{
    draw_covers, draw_spec, execute_spec, flag, reg, step_spec, word_at, MachineState, STACK_DEPTH, VF,
    VRAM_SIZE,
};

verus! {

/// The instruction word with the nibbles `t`, `x`, `y`, `n`.
pub open spec fn instr(t: u16, x: u16, y: u16, n: u16) -> u16 {
    (t * 0x1000 + x * 0x100 + y * 0x10 + n) as u16
}

/// The instruction word with the nibbles `t`, `x` and the low byte `kk`.
pub open spec fn instr_kk(t: u16, x: u16, kk: u8) -> u16 {
    (t * 0x1000 + x * 0x100 + kk) as u16
}

/// The instruction word with the nibble `t` and the address `nnn`.
pub open spec fn instr_nnn(t: u16, nnn: u16) -> u16 {
    (t * 0x1000 + nnn) as u16
}

proof fn lemma_nibbles(w: u16, t: u16, x: u16, y: u16, n: u16)
    by (bit_vector)
    requires
        t < 16,
        x < 16,
        y < 16,
        n < 16,
        w == t * 0x1000 + x * 0x100 + y * 0x10 + n,
    ensures
        w / 0x1000 == t,
        (w / 0x100) % 0x10 == x,
        (w / 0x10) % 0x10 == y,
        w % 0x10 == n,
        w % 0x100 == y * 0x10 + n,
        w % 0x1000 == x * 0x100 + y * 0x10 + n,
{
}

/// Decoding the word built from four nibbles gives back the nibbles.
proof fn lemma_instr_fields(t: u16, x: u16, y: u16, n: u16)
    requires
        t < 16,
        x < 16,
        y < 16,
        n < 16,
    ensures
        kind_of(instr(t, x, y, n)) == t,
        x_of(instr(t, x, y, n)) == x,
        y_of(instr(t, x, y, n)) == y,
        n_of(instr(t, x, y, n)) == n,
{
    let w = instr(t, x, y, n);
    lemma_nibbles(w, t, x, y, n);
}

/// Decoding the word built from two nibbles and a byte gives them back.
proof fn lemma_instr_kk_fields(t: u16, x: u16, kk: u8)
    requires
        t < 16,
        x < 16,
    ensures
        kind_of(instr_kk(t, x, kk)) == t,
        x_of(instr_kk(t, x, kk)) == x,
        kk_of(instr_kk(t, x, kk)) == kk,
{
    let w = instr_kk(t, x, kk);
    let y = (kk / 16) as u16;
    let n = (kk % 16) as u16;
    lemma_nibbles(w, t, x, y, n);
}

/// Decoding the word built from a nibble and an address gives them back.
proof fn lemma_instr_nnn_fields(t: u16, nnn: u16)
    requires
        t < 16,
        nnn < 0x1000,
    ensures
        kind_of(instr_nnn(t, nnn)) == t,
        nnn_of(instr_nnn(t, nnn)) == nnn,
{
    let w = instr_nnn(t, nnn);
    let x = nnn / 0x100;
    let y = (nnn / 0x10) % 0x10;
    let n = nnn % 0x10;
    lemma_nibbles(w, t, x, y, n);
}

/// `8xy4` sets VF to 1 exactly when the sum of the original `Vx` and `Vy`
/// exceeds 255, and to 0 otherwise; `Vx` becomes that sum modulo 256
/// (where `x` is not VF itself, whose flag is written last).
pub proof fn lemma_add_sets_carry(s: MachineState, x: u8, y: u8, rnd: u8)
    requires
        s.wf(),
        x < 16,
        y < 16,
    ensures
        ({
            let (t, r) = execute_spec(s, instr(8, x as u16, y as u16, 4), rnd);
            &&& r is Ok
            &&& t.regs[VF as int] == flag(reg(s, x) + reg(s, y) > 255)
            &&& x != VF ==> t.regs[x as int] == (reg(s, x) + reg(s, y)) % 256
        }),
{
    lemma_instr_fields(8, x as u16, y as u16, 4);
}

/// `7xkk` sets no flag: VF keeps its value unless VF is itself the target
/// register, in which case it only receives the wrapped sum.
pub proof fn lemma_add_byte_keeps_flag(s: MachineState, x: u8, kk: u8, rnd: u8)
    requires
        s.wf(),
        x < 16,
    ensures
        ({
            let (t, r) = execute_spec(s, instr_kk(7, x as u16, kk), rnd);
            &&& r is Ok
            &&& x != VF ==> t.regs[VF as int] == s.regs[VF as int]
            &&& x == VF ==> t.regs[VF as int] == (s.regs[VF as int] + kk) % 256
        }),
{
    lemma_instr_kk_fields(7, x as u16, kk);
}

/// Whether the word `w` is one of the skip instructions `3xkk`, `4xkk`,
/// `5xy0` or `9xy0`.
pub open spec fn is_skip_word(w: u16) -> bool {
    ||| kind_of(w) == 3
    ||| kind_of(w) == 4
    ||| (kind_of(w) == 5 && n_of(w) == 0)
    ||| (kind_of(w) == 9 && n_of(w) == 0)
}

/// The condition under which the skip instruction `w` skips, on `s`.
pub open spec fn skip_condition(s: MachineState, w: u16) -> bool {
    if kind_of(w) == 3 {
        reg(s, x_of(w)) == kk_of(w)
    } else if kind_of(w) == 4 {
        reg(s, x_of(w)) != kk_of(w)
    } else if kind_of(w) == 5 {
        reg(s, x_of(w)) == reg(s, y_of(w))
    } else {
        reg(s, x_of(w)) != reg(s, y_of(w))
    }
}

/// A cycle that runs a skip instruction moves the program counter on by 4
/// when its condition holds and by 2 otherwise, and changes nothing else.
pub proof fn lemma_skip_advances(s: MachineState, rnd: u8)
    requires
        s.wf(),
        s.waiting is None,
        in_bounds(s.pc as int, 2),
        is_skip_word(word_at(s.memory, s.pc as int)),
    ensures
        ({
            let (t, r) = step_spec(s, rnd);
            &&& r is Ok
            &&& t == (MachineState { pc: t.pc, ..s })
            &&& t.pc == if skip_condition(s, word_at(s.memory, s.pc as int)) {
                s.pc + 4
            } else {
                s.pc + 2
            }
        }),
{
}

/// A call followed, once the callee has brought the stack back to what
/// the call left, by a return, resumes at the instruction after the call
/// with the stack as it was before the call. This holds at any depth of
/// nesting below the stack's capacity.
pub proof fn lemma_call_then_return(s: MachineState, nnn: u16, u: MachineState, rnd: u8, rnd2: u8)
    requires
        s.wf(),
        s.waiting is None,
        in_bounds(s.pc as int, 2),
        nnn < 0x1000,
        word_at(s.memory, s.pc as int) == instr_nnn(2, nnn),
        s.stack.len() < STACK_DEPTH,
        u.wf(),
        u.waiting is None,
        in_bounds(u.pc as int, 2),
        word_at(u.memory, u.pc as int) == 0x00EE,
        u.stack == step_spec(s, rnd).0.stack,
    ensures
        step_spec(s, rnd).1 is Ok,
        step_spec(s, rnd).0.pc == nnn,
        step_spec(u, rnd2) == (
        MachineState { pc: (s.pc + 2) as u16, stack: s.stack, ..u },
        Ok::<(), Chip8Error>(()),
        ),
{
    lemma_instr_nnn_fields(2, nnn);
    assert(s.stack.push((s.pc + 2) as u16).drop_last() =~= s.stack);
}

/// After a clear, drawing a sprite reports no collision; drawing the same
/// sprite again at the same place reports a collision exactly when the
/// first drawing lit a pixel, and leaves the screen clear again.
pub proof fn lemma_clear_then_draw_twice(s: MachineState, x: u8, y: u8, n: u8, rnd: u8)
    requires
        s.wf(),
        x < 16,
        y < 16,
        n < 16,
        x != VF,
        y != VF,
        in_bounds(s.i as int, n as int),
    ensures
        ({
            let w = instr(0xD, x as u16, y as u16, n as u16);
            let (t, r0) = execute_spec(s, 0x00E0, rnd);
            let (u, r1) = execute_spec(t, w, rnd);
            let (v, r2) = execute_spec(u, w, rnd);
            &&& r0 is Ok && r1 is Ok && r2 is Ok
            &&& u.regs[VF as int] == 0
            &&& v.regs[VF as int] == flag(
                exists|k: int| 0 <= k < VRAM_SIZE && #[trigger] draw_covers(s, x, y, n, k),
            )
            &&& v.vram == t.vram
        }),
{
    let w = instr(0xD, x as u16, y as u16, n as u16);
    lemma_instr_fields(0xD, x as u16, y as u16, n as u16);
    assert(op_of(0x00E0) == Op::Cls);
    let (t, r0) = execute_spec(s, 0x00E0, rnd);
    let (u, r1) = execute_spec(t, w, rnd);
    let (v, r2) = execute_spec(u, w, rnd);
    assert(op_of(w) == Op::Drw { x, y, n });
    assert forall|k: int| 0 <= k < VRAM_SIZE implies #[trigger] draw_covers(t, x, y, n, k)
        == draw_covers(s, x, y, n, k) && draw_covers(u, x, y, n, k) == draw_covers(s, x, y, n, k) by {}
    if exists|k: int| 0 <= k < VRAM_SIZE && #[trigger] draw_covers(s, x, y, n, k) {
        let k = choose|k: int| 0 <= k < VRAM_SIZE && #[trigger] draw_covers(s, x, y, n, k);
        assert(draw_covers(u, x, y, n, k) && u.vram[k]);
    }
    assert(v.vram =~= t.vram);
}

/// `Fx55` followed by `Fx65` with the same `x` and `I` leaves every
/// register as it was before the store; both succeed exactly when
/// `I + x + 1` bytes fit in memory.
pub proof fn lemma_store_then_load(s: MachineState, x: u8, rnd: u8)
    requires
        s.wf(),
        x < 16,
    ensures
        ({
            let (t, r0) = execute_spec(s, instr_kk(0xF, x as u16, 0x55), rnd);
            let (u, r1) = execute_spec(t, instr_kk(0xF, x as u16, 0x65), rnd);
            &&& (r0 is Ok && r1 is Ok) == in_bounds(s.i as int, x + 1)
            &&& u.regs == s.regs
        }),
{
    lemma_instr_kk_fields(0xF, x as u16, 0x55);
    lemma_instr_kk_fields(0xF, x as u16, 0x65);
    let (t, r0) = execute_spec(s, instr_kk(0xF, x as u16, 0x55), rnd);
    let (u, r1) = execute_spec(t, instr_kk(0xF, x as u16, 0x65), rnd);
    if in_bounds(s.i as int, x + 1) {
        assert(u.regs =~= s.regs);
    }
}

/// The same over three cycles: a cycle that runs `00E0`, then one that
/// runs `Dxyn`, then one that runs the same `Dxyn`. The first drawing
/// reports no collision; the second reports one exactly when the first
/// lit a pixel, and leaves the screen as the clear left it.
pub proof fn lemma_clear_then_draw_twice_in_cycles(
    s: MachineState,
    x: u8,
    y: u8,
    n: u8,
    rnd: u8,
)
    requires
        s.wf(),
        s.waiting is None,
        x < 16,
        y < 16,
        n < 16,
        x != VF,
        y != VF,
        in_bounds(s.i as int, n as int),
        in_bounds(s.pc as int, 6),
        word_at(s.memory, s.pc as int) == 0x00E0,
        word_at(s.memory, s.pc + 2) == instr(0xD, x as u16, y as u16, n as u16),
        word_at(s.memory, s.pc + 4) == instr(0xD, x as u16, y as u16, n as u16),
    ensures
        ({
            let (t, r0) = step_spec(s, rnd);
            let (u, r1) = step_spec(t, rnd);
            let (v, r2) = step_spec(u, rnd);
            &&& r0 is Ok && r1 is Ok && r2 is Ok
            &&& u.regs[VF as int] == 0
            &&& v.regs[VF as int] == flag(
                exists|k: int| 0 <= k < VRAM_SIZE && #[trigger] draw_covers(s, x, y, n, k),
            )
            &&& v.vram == t.vram
            &&& v.pc == s.pc + 6
        }),
{
    let w = instr(0xD, x as u16, y as u16, n as u16);
    lemma_instr_fields(0xD, x as u16, y as u16, n as u16);
    assert(op_of(0x00E0) == Op::Cls);
    assert(op_of(w) == Op::Drw { x, y, n });
    let t = MachineState {
        vram: Seq::new(VRAM_SIZE as nat, |k: int| false),
        redraw: true,
        pc: (s.pc + 2) as u16,
        ..s
    };
    assert(step_spec(s, rnd) == (t, Ok::<(), Chip8Error>(())));
    let t2 = MachineState { pc: (t.pc + 2) as u16, ..t };
    assert(step_spec(t, rnd) == draw_spec(t2, x, y, n));
    let u = step_spec(t, rnd).0;
    assert(u.pc == s.pc + 4 && u.memory == s.memory && u.waiting is None);
    let u2 = MachineState { pc: (u.pc + 2) as u16, ..u };
    assert(step_spec(u, rnd) == draw_spec(u2, x, y, n));
    let v = step_spec(u, rnd).0;
    assert forall|k: int| 0 <= k < VRAM_SIZE implies #[trigger] draw_covers(t2, x, y, n, k)
        == draw_covers(s, x, y, n, k) && draw_covers(u2, x, y, n, k) == draw_covers(s, x, y, n, k) by {}
    if exists|k: int| 0 <= k < VRAM_SIZE && #[trigger] draw_covers(s, x, y, n, k) {
        let k = choose|k: int| 0 <= k < VRAM_SIZE && #[trigger] draw_covers(s, x, y, n, k);
        assert(draw_covers(u2, x, y, n, k) && u2.vram[k]);
    }
    assert(v.vram =~= t.vram);
}

/// The same over two cycles: a cycle that runs `Fx55` followed by one that
/// runs `Fx65` with the same `x` leaves every register as it was.
pub proof fn lemma_store_then_load_in_cycles(s: MachineState, x: u8, rnd: u8)
    requires
        s.wf(),
        s.waiting is None,
        x < 16,
        in_bounds(s.pc as int, 2),
        word_at(s.memory, s.pc as int) == instr_kk(0xF, x as u16, 0x55),
        in_bounds(s.pc + 2, 2),
        word_at(step_spec(s, rnd).0.memory, s.pc + 2) == instr_kk(0xF, x as u16, 0x65),
    ensures
        ({
            let (t, r0) = step_spec(s, rnd);
            let (u, r1) = step_spec(t, rnd);
            &&& (r0 is Ok && r1 is Ok) == in_bounds(s.i as int, x + 1)
            &&& u.regs == s.regs
        }),
{
    let s1 = MachineState { pc: (s.pc + 2) as u16, ..s };
    lemma_store_then_load(s1, x, rnd);
    let (t, r0) = step_spec(s, rnd);
    if in_bounds(s.i as int, x + 1) {
        assert(t.pc == s.pc + 2);
    }
}

} // verus!
