use vstd::prelude::*;

verus! {

/// A decoded CHIP-8 instruction. `x` and `y` name registers, `kk` is an
/// immediate byte, `n` a nibble and `addr` a 12-bit address.
#[derive(Clone, Copy, Debug, PartialEq, Eq, Structural)]
pub enum Instruction {
    /// `0000`: stop this tick without doing anything else.
    Halt,
    /// `0nnn`: machine-code routine, ignored.
    Sys(u16),
    /// `00E0`: clear the screen.
    Cls,
    /// `00EE`: return from a subroutine.
    Ret,
    /// `1nnn`: jump.
    Jp(u16),
    /// `2nnn`: call a subroutine.
    Call(u16),
    /// `3xkk`: skip if `Vx == kk`.
    Se(u8, u8),
    /// `4xkk`: skip if `Vx != kk`.
    Sne(u8, u8),
    /// `5xy0`: skip if `Vx == Vy`.
    SeXy(u8, u8),
    /// `6xkk`: `Vx = kk`.
    Ld(u8, u8),
    /// `7xkk`: `Vx += kk`, wrapping, no flag.
    Add(u8, u8),
    /// `8xy0`: `Vx = Vy`.
    LdXy(u8, u8),
    /// `8xy1`: `Vx |= Vy`.
    OrXy(u8, u8),
    /// `8xy2`: `Vx &= Vy`.
    AndXy(u8, u8),
    /// `8xy3`: `Vx ^= Vy`.
    XorXy(u8, u8),
    /// `8xy4`: `Vx += Vy`, flag = carry.
    AddXy(u8, u8),
    /// `8xy5`: `Vx -= Vy`, flag = no borrow.
    SubXy(u8, u8),
    /// `8xy6`: `Vx >>= 1`, flag = bit shifted out.
    ShrXy(u8),
    /// `8xy7`: `Vx = Vy - Vx`, flag = no borrow.
    SubnXy(u8, u8),
    /// `8xyE`: `Vx <<= 1`, flag = bit shifted out.
    ShlXy(u8),
    /// `9xy0`: skip if `Vx != Vy`.
    SneXy(u8, u8),
    /// `Annn`: `I = nnn`.
    LdI(u16),
    /// `Bnnn`: jump to `nnn + V0`.
    JpV0(u16),
    /// `Cxkk`: `Vx = random byte & kk`.
    Rnd(u8, u8),
    /// `Dxyn`: draw the `n`-byte sprite at `I` at `(Vx, Vy)`, flag = collision.
    Drw(u8, u8, u8),
    /// `Ex9E`: skip if key `Vx` is pressed.
    Skp(u8),
    /// `ExA1`: skip if key `Vx` is not pressed.
    Sknp(u8),
    /// `Fx07`: `Vx = delay timer`.
    LdVxDt(u8),
    /// `Fx0A`: wait for a key press and store it in `Vx`.
    LdK(u8),
    /// `Fx15`: `delay timer = Vx`.
    LdDt(u8),
    /// `Fx18`: `sound timer = Vx`.
    LdSt(u8),
    /// `Fx1E`: `I += Vx`, wrapping at 16 bits.
    AddI(u8),
    /// `Fx29`: `I` = address of the digit sprite of the low nibble of `Vx`.
    LdF(u8),
    /// `Fx33`: store the decimal digits of `Vx` at `I`, `I+1`, `I+2`.
    LdB(u8),
    /// `Fx55`: store `V0..=Vx` at `I`.
    LdIVx(u8),
    /// `Fx65`: load `V0..=Vx` from `I`.
    LdVxI(u8),
}

/// Register field of an instruction word (bits 8 to 11).
pub open spec fn field_x(op: u16) -> u8 {
    ((op & 0x0F00u16) >> 8u16) as u8
}

/// Second register field of an instruction word (bits 4 to 7).
pub open spec fn field_y(op: u16) -> u8 {
    ((op & 0x00F0u16) >> 4u16) as u8
}

/// Low nibble of an instruction word.
pub open spec fn field_n(op: u16) -> u8 {
    (op & 0x000Fu16) as u8
}

/// Low byte of an instruction word.
pub open spec fn field_kk(op: u16) -> u8 {
    (op & 0x00FFu16) as u8
}

/// Address field of an instruction word (bits 0 to 11).
pub open spec fn field_addr(op: u16) -> u16 {
    op & 0x0FFFu16
}

/// The instruction that a 16-bit word encodes, or `None` for a word that
/// encodes none.
pub open spec fn decode_spec(op: u16) -> Option<Instruction> {
    let x = field_x(op);
    let y = field_y(op);
    let n = field_n(op);
    let kk = field_kk(op);
    let addr = field_addr(op);
    let high = op >> 12u16;
    if op == 0x0000 {
        Some(Instruction::Halt)
    } else if op == 0x00E0 {
        Some(Instruction::Cls)
    } else if op == 0x00EE {
        Some(Instruction::Ret)
    } else if high == 0x0 {
        Some(Instruction::Sys(addr))
    } else if high == 0x1 {
        Some(Instruction::Jp(addr))
    } else if high == 0x2 {
        Some(Instruction::Call(addr))
    } else if high == 0x3 {
        Some(Instruction::Se(x, kk))
    } else if high == 0x4 {
        Some(Instruction::Sne(x, kk))
    } else if high == 0x5 && n == 0 {
        Some(Instruction::SeXy(x, y))
    } else if high == 0x6 {
        Some(Instruction::Ld(x, kk))
    } else if high == 0x7 {
        Some(Instruction::Add(x, kk))
    } else if high == 0x8 && n == 0x0 {
        Some(Instruction::LdXy(x, y))
    } else if high == 0x8 && n == 0x1 {
        Some(Instruction::OrXy(x, y))
    } else if high == 0x8 && n == 0x2 {
        Some(Instruction::AndXy(x, y))
    } else if high == 0x8 && n == 0x3 {
        Some(Instruction::XorXy(x, y))
    } else if high == 0x8 && n == 0x4 {
        Some(Instruction::AddXy(x, y))
    } else if high == 0x8 && n == 0x5 {
        Some(Instruction::SubXy(x, y))
    } else if high == 0x8 && n == 0x6 {
        Some(Instruction::ShrXy(x))
    } else if high == 0x8 && n == 0x7 {
        Some(Instruction::SubnXy(x, y))
    } else if high == 0x8 && n == 0xE {
        Some(Instruction::ShlXy(x))
    } else if high == 0x9 && n == 0 {
        Some(Instruction::SneXy(x, y))
    } else if high == 0xA {
        Some(Instruction::LdI(addr))
    } else if high == 0xB {
        Some(Instruction::JpV0(addr))
    } else if high == 0xC {
        Some(Instruction::Rnd(x, kk))
    } else if high == 0xD {
        Some(Instruction::Drw(x, y, n))
    } else if high == 0xE && kk == 0x9E {
        Some(Instruction::Skp(x))
    } else if high == 0xE && kk == 0xA1 {
        Some(Instruction::Sknp(x))
    } else if high == 0xF && kk == 0x07 {
        Some(Instruction::LdVxDt(x))
    } else if high == 0xF && kk == 0x0A {
        Some(Instruction::LdK(x))
    } else if high == 0xF && kk == 0x15 {
        Some(Instruction::LdDt(x))
    } else if high == 0xF && kk == 0x18 {
        Some(Instruction::LdSt(x))
    } else if high == 0xF && kk == 0x1E {
        Some(Instruction::AddI(x))
    } else if high == 0xF && kk == 0x29 {
        Some(Instruction::LdF(x))
    } else if high == 0xF && kk == 0x33 {
        Some(Instruction::LdB(x))
    } else if high == 0xF && kk == 0x55 {
        Some(Instruction::LdIVx(x))
    } else if high == 0xF && kk == 0x65 {
        Some(Instruction::LdVxI(x))
    } else {
        None
    }
}

impl Instruction {
    /// Register operands name one of the sixteen registers, nibbles fit in
    /// four bits and addresses in twelve.
    pub open spec fn wf(&self) -> bool {
        match *self {
            Instruction::Halt | Instruction::Cls | Instruction::Ret => true,
            Instruction::Sys(a) | Instruction::Jp(a) | Instruction::Call(a) | Instruction::LdI(a)
            | Instruction::JpV0(a) => a < 0x1000,
            Instruction::Se(x, _) | Instruction::Sne(x, _) | Instruction::Ld(x, _)
            | Instruction::Add(x, _) | Instruction::Rnd(x, _) => x < 16,
            Instruction::SeXy(x, y) | Instruction::LdXy(x, y) | Instruction::OrXy(x, y)
            | Instruction::AndXy(x, y) | Instruction::XorXy(x, y) | Instruction::AddXy(x, y)
            | Instruction::SubXy(x, y) | Instruction::SubnXy(x, y) | Instruction::SneXy(x, y) => x
                < 16 && y < 16,
            Instruction::Drw(x, y, n) => x < 16 && y < 16 && n < 16,
            Instruction::ShrXy(x) | Instruction::ShlXy(x) | Instruction::Skp(x)
            | Instruction::Sknp(x) | Instruction::LdVxDt(x) | Instruction::LdK(x)
            | Instruction::LdDt(x) | Instruction::LdSt(x) | Instruction::AddI(x)
            | Instruction::LdF(x) | Instruction::LdB(x) | Instruction::LdIVx(x)
            | Instruction::LdVxI(x) => x < 16,
        }
    }

    /// Decodes a 16-bit instruction word: exact words first, then the
    /// families selected by the high nibble, the low nibble (`8xy_`, `5xy0`,
    /// `9xy0`) or the low byte (`Ex__`, `Fx__`).
    pub fn decode(op: u16) -> (r: Option<Instruction>)
        ensures
            r == decode_spec(op),
            r matches Some(i) ==> i.wf(),
    {
        assert(((op & 0x0F00) >> 8) < 16 && ((op & 0x00F0) >> 4) < 16 && (op & 0x000F) < 16
            && (op & 0x00FF) < 256 && (op & 0x0FFF) < 0x1000 && (op >> 12) < 16) by (bit_vector);
        let x = ((op & 0x0F00) >> 8) as u8;
        let y = ((op & 0x00F0) >> 4) as u8;
        let n = (op & 0x000F) as u8;
        let kk = (op & 0x00FF) as u8;
        let addr = op & 0x0FFF;
        let high = op >> 12;
        if op == 0x0000 {
            Some(Instruction::Halt)
        } else if op == 0x00E0 {
            Some(Instruction::Cls)
        } else if op == 0x00EE {
            Some(Instruction::Ret)
        } else {
            match high {
                0x0 => Some(Instruction::Sys(addr)),
                0x1 => Some(Instruction::Jp(addr)),
                0x2 => Some(Instruction::Call(addr)),
                0x3 => Some(Instruction::Se(x, kk)),
                0x4 => Some(Instruction::Sne(x, kk)),
                0x5 => if n == 0 {
                    Some(Instruction::SeXy(x, y))
                } else {
                    None
                },
                0x6 => Some(Instruction::Ld(x, kk)),
                0x7 => Some(Instruction::Add(x, kk)),
                0x8 => match n {
                    0x0 => Some(Instruction::LdXy(x, y)),
                    0x1 => Some(Instruction::OrXy(x, y)),
                    0x2 => Some(Instruction::AndXy(x, y)),
                    0x3 => Some(Instruction::XorXy(x, y)),
                    0x4 => Some(Instruction::AddXy(x, y)),
                    0x5 => Some(Instruction::SubXy(x, y)),
                    0x6 => Some(Instruction::ShrXy(x)),
                    0x7 => Some(Instruction::SubnXy(x, y)),
                    0xE => Some(Instruction::ShlXy(x)),
                    _ => None,
                },
                0x9 => if n == 0 {
                    Some(Instruction::SneXy(x, y))
                } else {
                    None
                },
                0xA => Some(Instruction::LdI(addr)),
                0xB => Some(Instruction::JpV0(addr)),
                0xC => Some(Instruction::Rnd(x, kk)),
                0xD => Some(Instruction::Drw(x, y, n)),
                0xE => match kk {
                    0x9E => Some(Instruction::Skp(x)),
                    0xA1 => Some(Instruction::Sknp(x)),
                    _ => None,
                },
                _ => match kk {
                    0x07 => Some(Instruction::LdVxDt(x)),
                    0x0A => Some(Instruction::LdK(x)),
                    0x15 => Some(Instruction::LdDt(x)),
                    0x18 => Some(Instruction::LdSt(x)),
                    0x1E => Some(Instruction::AddI(x)),
                    0x29 => Some(Instruction::LdF(x)),
                    0x33 => Some(Instruction::LdB(x)),
                    0x55 => Some(Instruction::LdIVx(x)),
                    0x65 => Some(Instruction::LdVxI(x)),
                    _ => None,
                },
            }
        }
    }
}

} // verus!
