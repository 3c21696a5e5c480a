use vstd::prelude::*;

verus! {

/// The top nibble of an instruction word (`w >> 12`): its opcode family.
pub open spec fn kind_of(w: u16) -> u16 {
    w / 0x1000
}

/// The low twelve bits (`w & 0x0FFF`): an address or immediate.
pub open spec fn nnn_of(w: u16) -> u16 {
    w % 0x1000
}

/// The low nibble (`w & 0x000F`): a sprite height or an ALU sub-selector.
pub open spec fn n_of(w: u16) -> u8 {
    (w % 0x10) as u8
}

/// The second nibble (`(w >> 8) & 0x000F`): the first register operand.
pub open spec fn x_of(w: u16) -> u8 {
    ((w / 0x100) % 0x10) as u8
}

/// The third nibble (`(w >> 4) & 0x000F`): the second register operand.
pub open spec fn y_of(w: u16) -> u8 {
    ((w / 0x10) % 0x10) as u8
}

/// The low byte (`w & 0x00FF`): an 8-bit immediate.
pub open spec fn kk_of(w: u16) -> u8 {
    (w % 0x100) as u8
}

/// Splits an instruction word into its operand fields
/// `(nnn, n, x, y, kk)`.
pub fn extract_instruction_data(w: u16) -> (r: (u16, u8, u8, u8, u8))
    ensures
        r == (nnn_of(w), n_of(w), x_of(w), y_of(w), kk_of(w)),
        r.0 < 0x1000,
        r.1 < 16,
        r.2 < 16,
        r.3 < 16,
{
    let nnn = w & 0x0FFF;
    let n = (w & 0x000F) as u8;
    let x = ((w >> 8) & 0x000F) as u8;
    let y = ((w >> 4) & 0x000F) as u8;
    let kk = (w & 0x00FF) as u8;
    assert(w & 0x0FFF == w % 0x1000 && w & 0x000F == w % 0x10 && (w >> 8) & 0x000F == (w / 0x100)
        % 0x10 && (w >> 4) & 0x000F == (w / 0x10) % 0x10 && w & 0x00FF == w % 0x100)
        by (bit_vector);
    (nnn, n, x, y, kk)
}

/// One decoded instruction, named by its mnemonic, with its operands.
#[derive(Debug, Clone, Copy, PartialEq, Eq, Structural)]
pub enum Op {
    /// `00E0`: clear the screen.
    Cls,
    /// `00EE`: return from a subroutine.
    Ret,
    /// `0nnn`: machine-code call.
    Sys { nnn: u16 },
    /// `1nnn`: jump.
    Jp { nnn: u16 },
    /// `2nnn`: call a subroutine.
    Call { nnn: u16 },
    /// `3xkk`: skip if `Vx == kk`.
    SeByte { x: u8, kk: u8 },
    /// `4xkk`: skip if `Vx != kk`.
    SneByte { x: u8, kk: u8 },
    /// `5xy0`: skip if `Vx == Vy`.
    SeReg { x: u8, y: u8 },
    /// `6xkk`: `Vx = kk`.
    LdByte { x: u8, kk: u8 },
    /// `7xkk`: `Vx += kk`, without a carry flag.
    AddByte { x: u8, kk: u8 },
    /// `8xy0`: `Vx = Vy`.
    LdReg { x: u8, y: u8 },
    /// `8xy1`: `Vx |= Vy`.
    Or { x: u8, y: u8 },
    /// `8xy2`: `Vx &= Vy`.
    And { x: u8, y: u8 },
    /// `8xy3`: `Vx ^= Vy`.
    Xor { x: u8, y: u8 },
    /// `8xy4`: `Vx += Vy`, VF = carry.
    AddReg { x: u8, y: u8 },
    /// `8xy5`: `Vx -= Vy`, VF = not borrow.
    Sub { x: u8, y: u8 },
    /// `8xy6`: `Vx >>= 1`, VF = bit shifted out.
    Shr { x: u8 },
    /// `8xy7`: `Vx = Vy - Vx`, VF = not borrow.
    Subn { x: u8, y: u8 },
    /// `8xyE`: `Vx <<= 1`, VF = bit shifted out.
    Shl { x: u8 },
    /// `9xy0`: skip if `Vx != Vy`.
    SneReg { x: u8, y: u8 },
    /// `Annn`: `I = nnn`.
    LdI { nnn: u16 },
    /// `Bnnn`: jump to `nnn + V0`.
    JpV0 { nnn: u16 },
    /// `Cxkk`: `Vx = random byte & kk`.
    Rnd { x: u8, kk: u8 },
    /// `Dxyn`: draw an `n`-row sprite from memory at `I` at `(Vx, Vy)`.
    Drw { x: u8, y: u8, n: u8 },
    /// `Ex9E`: skip if the key `Vx` is down.
    Skp { x: u8 },
    /// `ExA1`: skip if the key `Vx` is up.
    Sknp { x: u8 },
    /// `Fx07`: `Vx = delay timer`.
    LdVxDt { x: u8 },
    /// `Fx0A`: wait for a key press and store the key in `Vx`.
    LdVxK { x: u8 },
    /// `Fx15`: `delay timer = Vx`.
    LdDtVx { x: u8 },
    /// `Fx18`: `sound timer = Vx`.
    LdStVx { x: u8 },
    /// `Fx1E`: `I += Vx`.
    AddI { x: u8 },
    /// `Fx29`: `I` = address of the font glyph for the digit `Vx`.
    LdF { x: u8 },
    /// `Fx33`: store the decimal digits of `Vx` at `I`, `I+1`, `I+2`.
    LdB { x: u8 },
    /// `Fx55`: store `V0..=Vx` in memory from `I` on.
    LdIVx { x: u8 },
    /// `Fx65`: load `V0..=Vx` from memory from `I` on.
    LdVxI { x: u8 },
    /// A word that matches no instruction.
    Invalid,
}

/// The instruction that the word `w` encodes.
pub open spec fn op_of(w: u16) -> Op {
    let t = kind_of(w);
    let nnn = nnn_of(w);
    let n = n_of(w);
    let x = x_of(w);
    let y = y_of(w);
    let kk = kk_of(w);
    if t == 0x0 {
        if w == 0x00E0 {
            Op::Cls
        } else if w == 0x00EE {
            Op::Ret
        } else {
            Op::Sys { nnn }
        }
    } else if t == 0x1 {
        Op::Jp { nnn }
    } else if t == 0x2 {
        Op::Call { nnn }
    } else if t == 0x3 {
        Op::SeByte { x, kk }
    } else if t == 0x4 {
        Op::SneByte { x, kk }
    } else if t == 0x5 {
        if n == 0 {
            Op::SeReg { x, y }
        } else {
            Op::Invalid
        }
    } else if t == 0x6 {
        Op::LdByte { x, kk }
    } else if t == 0x7 {
        Op::AddByte { x, kk }
    } else if t == 0x8 {
        if n == 0x0 {
            Op::LdReg { x, y }
        } else if n == 0x1 {
            Op::Or { x, y }
        } else if n == 0x2 {
            Op::And { x, y }
        } else if n == 0x3 {
            Op::Xor { x, y }
        } else if n == 0x4 {
            Op::AddReg { x, y }
        } else if n == 0x5 {
            Op::Sub { x, y }
        } else if n == 0x6 {
            Op::Shr { x }
        } else if n == 0x7 {
            Op::Subn { x, y }
        } else if n == 0xE {
            Op::Shl { x }
        } else {
            Op::Invalid
        }
    } else if t == 0x9 {
        if n == 0 {
            Op::SneReg { x, y }
        } else {
            Op::Invalid
        }
    } else if t == 0xA {
        Op::LdI { nnn }
    } else if t == 0xB {
        Op::JpV0 { nnn }
    } else if t == 0xC {
        Op::Rnd { x, kk }
    } else if t == 0xD {
        Op::Drw { x, y, n }
    } else if t == 0xE {
        if kk == 0x9E {
            Op::Skp { x }
        } else if kk == 0xA1 {
            Op::Sknp { x }
        } else {
            Op::Invalid
        }
    } else {
        if kk == 0x07 {
            Op::LdVxDt { x }
        } else if kk == 0x0A {
            Op::LdVxK { x }
        } else if kk == 0x15 {
            Op::LdDtVx { x }
        } else if kk == 0x18 {
            Op::LdStVx { x }
        } else if kk == 0x1E {
            Op::AddI { x }
        } else if kk == 0x29 {
            Op::LdF { x }
        } else if kk == 0x33 {
            Op::LdB { x }
        } else if kk == 0x55 {
            Op::LdIVx { x }
        } else if kk == 0x65 {
            Op::LdVxI { x }
        } else {
            Op::Invalid
        }
    }
}

impl Op {
    /// Register operands name one of the sixteen registers, a sprite has at
    /// most fifteen rows, and an address has twelve bits.
    pub open spec fn wf(self) -> bool {
        match self {
            Op::SeByte { x, .. } | Op::SneByte { x, .. } | Op::LdByte { x, .. } | Op::AddByte {
                x,
                ..
            } | Op::Rnd { x, .. } | Op::Shr { x } | Op::Shl { x } | Op::Skp { x } | Op::Sknp {
                x,
            } | Op::LdVxDt { x } | Op::LdVxK { x } | Op::LdDtVx { x } | Op::LdStVx { x }
            | Op::AddI { x } | Op::LdF { x } | Op::LdB { x } | Op::LdIVx { x } | Op::LdVxI {
                x,
            } => x < 16,
            Op::SeReg { x, y } | Op::SneReg { x, y } | Op::LdReg { x, y } | Op::Or { x, y }
            | Op::And { x, y } | Op::Xor { x, y } | Op::AddReg { x, y } | Op::Sub { x, y }
            | Op::Subn { x, y } => x < 16 && y < 16,
            Op::Drw { x, y, n } => x < 16 && y < 16 && n < 16,
            Op::Sys { nnn } | Op::Jp { nnn } | Op::Call { nnn } | Op::LdI { nnn } | Op::JpV0 {
                nnn,
            } => nnn < 0x1000,
            _ => true,
        }
    }

    /// Decodes the instruction word `w`.
    pub fn decode(w: u16) -> (r: Op)
        ensures
            r == op_of(w),
            r.wf(),
    {
        let (nnn, n, x, y, kk) = extract_instruction_data(w);
        let t = w >> 12;
        assert(w >> 12 == w / 0x1000) by (bit_vector);
        if t == 0x0 {
            if w == 0x00E0 {
                Op::Cls
            } else if w == 0x00EE {
                Op::Ret
            } else {
                Op::Sys { nnn }
            }
        } else if t == 0x1 {
            Op::Jp { nnn }
        } else if t == 0x2 {
            Op::Call { nnn }
        } else if t == 0x3 {
            Op::SeByte { x, kk }
        } else if t == 0x4 {
            Op::SneByte { x, kk }
        } else if t == 0x5 {
            if n == 0 {
                Op::SeReg { x, y }
            } else {
                Op::Invalid
            }
        } else if t == 0x6 {
            Op::LdByte { x, kk }
        } else if t == 0x7 {
            Op::AddByte { x, kk }
        } else if t == 0x8 {
            if n == 0x0 {
                Op::LdReg { x, y }
            } else if n == 0x1 {
                Op::Or { x, y }
            } else if n == 0x2 {
                Op::And { x, y }
            } else if n == 0x3 {
                Op::Xor { x, y }
            } else if n == 0x4 {
                Op::AddReg { x, y }
            } else if n == 0x5 {
                Op::Sub { x, y }
            } else if n == 0x6 {
                Op::Shr { x }
            } else if n == 0x7 {
                Op::Subn { x, y }
            } else if n == 0xE {
                Op::Shl { x }
            } else {
                Op::Invalid
            }
        } else if t == 0x9 {
            if n == 0 {
                Op::SneReg { x, y }
            } else {
                Op::Invalid
            }
        } else if t == 0xA {
            Op::LdI { nnn }
        } else if t == 0xB {
            Op::JpV0 { nnn }
        } else if t == 0xC {
            Op::Rnd { x, kk }
        } else if t == 0xD {
            Op::Drw { x, y, n }
        } else if t == 0xE {
            if kk == 0x9E {
                Op::Skp { x }
            } else if kk == 0xA1 {
                Op::Sknp { x }
            } else {
                Op::Invalid
            }
        } else {
            if kk == 0x07 {
                Op::LdVxDt { x }
            } else if kk == 0x0A {
                Op::LdVxK { x }
            } else if kk == 0x15 {
                Op::LdDtVx { x }
            } else if kk == 0x18 {
                Op::LdStVx { x }
            } else if kk == 0x1E {
                Op::AddI { x }
            } else if kk == 0x29 {
                Op::LdF { x }
            } else if kk == 0x33 {
                Op::LdB { x }
            } else if kk == 0x55 {
                Op::LdIVx { x }
            } else if kk == 0x65 {
                Op::LdVxI { x }
            } else {
                Op::Invalid
            }
        }
    }
}

} // verus!
