//! Instruction words, their fields and their decoding.

use vstd::prelude::*;

verus! {

/// The leading hexadecimal digit of an instruction word: its family.
pub open spec fn family_of(op: u16) -> int {
    op as int / 0x1000
}

/// The second hexadecimal digit of an instruction word: a register index.
pub open spec fn x_of(op: u16) -> int {
    (op as int / 0x100) % 0x10
}

/// The third hexadecimal digit of an instruction word: a register index.
pub open spec fn y_of(op: u16) -> int {
    (op as int / 0x10) % 0x10
}

/// The last hexadecimal digit of an instruction word.
pub open spec fn n_of(op: u16) -> int {
    op as int % 0x10
}

/// The low byte of an instruction word.
pub open spec fn kk_of(op: u16) -> int {
    op as int % 0x100
}

/// The low twelve bits of an instruction word: an address.
pub open spec fn nnn_of(op: u16) -> int {
    op as int % 0x1000
}

/// Register index `x` of an instruction word.
pub fn get_x(op: u16) -> (x: usize)
    ensures
        x == x_of(op),
        x < 16,
{
    assert((op & 0x0F00u16) >> 8 == (op / 0x100) % 0x10) by (bit_vector);
    ((op & 0x0F00u16) >> 8) as usize
}

/// Register index `y` of an instruction word.
pub fn get_y(op: u16) -> (y: usize)
    ensures
        y == y_of(op),
        y < 16,
{
    assert((op & 0x00F0u16) >> 4 == (op / 0x10) % 0x10) by (bit_vector);
    ((op & 0x00F0u16) >> 4) as usize
}

/// The last digit `n` of an instruction word.
pub fn get_n(op: u16) -> (n: u8)
    ensures
        n == n_of(op),
        n < 16,
{
    assert(op & 0x000Fu16 == op % 0x10) by (bit_vector);
    (op & 0x000Fu16) as u8
}

/// The low byte `kk` of an instruction word.
pub fn get_kk(op: u16) -> (kk: u8)
    ensures
        kk == kk_of(op),
{
    assert(op & 0x00FFu16 == op % 0x100) by (bit_vector);
    (op & 0x00FFu16) as u8
}

/// The address `nnn` of an instruction word.
pub fn get_nnn(op: u16) -> (nnn: u16)
    ensures
        nnn == nnn_of(op),
        nnn < 4096,
{
    assert(op & 0x0FFFu16 == op % 0x1000) by (bit_vector);
    op & 0x0FFFu16
}

/// One decoded instruction. `x` and `y` name registers, `kk` is a byte,
/// `addr` an address and `n` a sprite height.
#[derive(Clone, Copy, Debug, PartialEq, Eq)]
pub enum Instruction {
    /// `00E0`: clear the framebuffer.
    Cls,
    /// `00EE`: return from a subroutine.
    Ret,
    /// `1nnn`: jump to `addr`.
    Jp { addr: u16 },
    /// `2nnn`: call the subroutine at `addr`.
    Call { addr: u16 },
    /// `3xkk`: skip the next instruction if `Vx == kk`.
    SeByte { x: usize, kk: u8 },
    /// `4xkk`: skip the next instruction if `Vx != kk`.
    SneByte { x: usize, kk: u8 },
    /// `5xy0`: skip the next instruction if `Vx == Vy`.
    SeReg { x: usize, y: usize },
    /// `6xkk`: `Vx = kk`.
    LdByte { x: usize, kk: u8 },
    /// `7xkk`: `Vx = Vx + kk`, wrapping, flag untouched.
    AddByte { x: usize, kk: u8 },
    /// `8xy0`: `Vx = Vy`.
    LdReg { x: usize, y: usize },
    /// `8xy1`: `Vx = Vx | Vy`.
    Or { x: usize, y: usize },
    /// `8xy2`: performed exactly like `8xy1`, `Vx = Vx | Vy`: the union of
    /// the bits, not their intersection.
    And { x: usize, y: usize },
    /// `8xy3`: `Vx = Vx ^ Vy`.
    Xor { x: usize, y: usize },
    /// `8xy4`: `Vx = Vx + Vy`, `VF` = carry.
    AddReg { x: usize, y: usize },
    /// `8xy5`: `VF` = `Vx > Vy`, then `Vx = Vx - Vy`.
    Sub { x: usize, y: usize },
    /// `8xy6`: `VF` = low bit of `Vx`, then `Vx` shifted right by one.
    Shr { x: usize },
    /// `8xy7`: `VF` = `Vy > Vx`, then `Vx = Vy - Vx`.
    Subn { x: usize, y: usize },
    /// `8xyE`: `VF` = high bit of `Vx`, then `Vx` shifted left by one.
    Shl { x: usize },
    /// `9xy0`: skip the next instruction if `Vx != Vy`.
    SneReg { x: usize, y: usize },
    /// `Annn`: `I = addr`.
    LdI { addr: u16 },
    /// `Bnnn`: jump to `addr + V0`.
    JpV0 { addr: u16 },
    /// `Cxkk`: `Vx` = a random byte masked with `kk`.
    Rnd { x: usize, kk: u8 },
    /// `Dxyn`: draw the `n`-row sprite at `I` at position `(Vx, Vy)`.
    Drw { x: usize, y: usize, n: u8 },
    /// `Ex9E`: skip the next instruction if key `Vx` is down.
    Skp { x: usize },
    /// `ExA1`: skip the next instruction if key `Vx` is up.
    Sknp { x: usize },
    /// `Fx07`: `Vx` = delay timer.
    LdVxDt { x: usize },
    /// `Fx0A`: `Vx` = a key, waiting for one if none is down.
    LdVxKey { x: usize },
    /// `Fx15`: delay timer = `Vx`.
    LdDtVx { x: usize },
    /// `Fx18`: sound timer = `Vx`.
    LdStVx { x: usize },
    /// `Fx1E`: `I = I + Vx`.
    AddI { x: usize },
    /// `Fx29`: `I` = offset of the sprite of digit `Vx`.
    LdFont { x: usize },
    /// `Fx33`: store the three decimal digits of `Vx` at `I`, `I+1`, `I+2`.
    LdBcd { x: usize },
    /// `Fx55`: store `V0..=Vx` at `I..`.
    StoreRegs { x: usize },
    /// `Fx65`: load `V0..=Vx` from `I..`.
    LoadRegs { x: usize },
}

impl Instruction {
    /// A jump, a call, a return or a skip: what may set the program counter.
    pub open spec fn is_flow(self) -> bool {
        match self {
            Instruction::Ret
            | Instruction::Jp { .. }
            | Instruction::Call { .. }
            | Instruction::SeByte { .. }
            | Instruction::SneByte { .. }
            | Instruction::SeReg { .. }
            | Instruction::SneReg { .. }
            | Instruction::JpV0 { .. }
            | Instruction::Skp { .. }
            | Instruction::Sknp { .. } => true,
            _ => false,
        }
    }

    /// Computes a register from registers and bytes.
    pub open spec fn is_arithmetic(self) -> bool {
        match self {
            Instruction::LdByte { .. }
            | Instruction::AddByte { .. }
            | Instruction::LdReg { .. }
            | Instruction::Or { .. }
            | Instruction::And { .. }
            | Instruction::Xor { .. }
            | Instruction::AddReg { .. }
            | Instruction::Sub { .. }
            | Instruction::Shr { .. }
            | Instruction::Subn { .. }
            | Instruction::Shl { .. }
            | Instruction::Rnd { .. } => true,
            _ => false,
        }
    }

    /// Writes the framebuffer.
    pub open spec fn is_display(self) -> bool {
        match self {
            Instruction::Cls
            | Instruction::Drw { .. } => true,
            _ => false,
        }
    }

    /// Moves data between registers, timers, keys and memory.
    pub open spec fn is_transfer(self) -> bool {
        match self {
            Instruction::LdI { .. }
            | Instruction::LdVxDt { .. }
            | Instruction::LdVxKey { .. }
            | Instruction::LdDtVx { .. }
            | Instruction::LdStVx { .. }
            | Instruction::AddI { .. }
            | Instruction::LdFont { .. }
            | Instruction::LdBcd { .. }
            | Instruction::StoreRegs { .. }
            | Instruction::LoadRegs { .. } => true,
            _ => false,
        }
    }

    /// Register indices are below 16, addresses below 4096 and sprite
    /// heights below 16: what four, twelve and four bits can hold.
    pub open spec fn wf(self) -> bool {
        match self {
            Instruction::Cls | Instruction::Ret => true,
            Instruction::Jp { addr }
            | Instruction::Call { addr }
            | Instruction::LdI { addr }
            | Instruction::JpV0 { addr } => addr < 4096,
            Instruction::SeByte { x, kk }
            | Instruction::SneByte { x, kk }
            | Instruction::LdByte { x, kk }
            | Instruction::AddByte { x, kk }
            | Instruction::Rnd { x, kk } => x < 16,
            Instruction::SeReg { x, y }
            | Instruction::LdReg { x, y }
            | Instruction::Or { x, y }
            | Instruction::And { x, y }
            | Instruction::Xor { x, y }
            | Instruction::AddReg { x, y }
            | Instruction::Sub { x, y }
            | Instruction::Subn { x, y }
            | Instruction::SneReg { x, y } => x < 16 && y < 16,
            Instruction::Drw { x, y, n } => x < 16 && y < 16 && n < 16,
            Instruction::Shr { x }
            | Instruction::Shl { x }
            | Instruction::Skp { x }
            | Instruction::Sknp { x }
            | Instruction::LdVxDt { x }
            | Instruction::LdVxKey { x }
            | Instruction::LdDtVx { x }
            | Instruction::LdStVx { x }
            | Instruction::AddI { x }
            | Instruction::LdFont { x }
            | Instruction::LdBcd { x }
            | Instruction::StoreRegs { x }
            | Instruction::LoadRegs { x } => x < 16,
        }
    }
}

/// The instruction that a word encodes, or `None` if it encodes none.
///
/// The leading digit selects the family. A digit or byte that a pattern
/// fixes must match: `00E0` and `00EE` are the only words of family 0, and
/// `5xy0` and `9xy0` need a last digit of 0.
pub open spec fn decode_spec(op: u16) -> Option<Instruction> {
    let f = family_of(op);
    let x = x_of(op) as usize;
    let y = y_of(op) as usize;
    let n = n_of(op);
    let kk = kk_of(op);
    let addr = nnn_of(op) as u16;
    if f == 0x0 {
        if op == 0x00E0 {
            Some(Instruction::Cls)
        } else if op == 0x00EE {
            Some(Instruction::Ret)
        } else {
            None
        }
    } else if f == 0x1 {
        Some(Instruction::Jp { addr })
    } else if f == 0x2 {
        Some(Instruction::Call { addr })
    } else if f == 0x3 {
        Some(Instruction::SeByte { x, kk: kk as u8 })
    } else if f == 0x4 {
        Some(Instruction::SneByte { x, kk: kk as u8 })
    } else if f == 0x5 {
        if n == 0 {
            Some(Instruction::SeReg { x, y })
        } else {
            None
        }
    } else if f == 0x6 {
        Some(Instruction::LdByte { x, kk: kk as u8 })
    } else if f == 0x7 {
        Some(Instruction::AddByte { x, kk: kk as u8 })
    } else if f == 0x8 {
        if n == 0x0 {
            Some(Instruction::LdReg { x, y })
        } else if n == 0x1 {
            Some(Instruction::Or { x, y })
        } else if n == 0x2 {
            Some(Instruction::And { x, y })
        } else if n == 0x3 {
            Some(Instruction::Xor { x, y })
        } else if n == 0x4 {
            Some(Instruction::AddReg { x, y })
        } else if n == 0x5 {
            Some(Instruction::Sub { x, y })
        } else if n == 0x6 {
            Some(Instruction::Shr { x })
        } else if n == 0x7 {
            Some(Instruction::Subn { x, y })
        } else if n == 0xE {
            Some(Instruction::Shl { x })
        } else {
            None
        }
    } else if f == 0x9 {
        if n == 0 {
            Some(Instruction::SneReg { x, y })
        } else {
            None
        }
    } else if f == 0xA {
        Some(Instruction::LdI { addr })
    } else if f == 0xB {
        Some(Instruction::JpV0 { addr })
    } else if f == 0xC {
        Some(Instruction::Rnd { x, kk: kk as u8 })
    } else if f == 0xD {
        Some(Instruction::Drw { x, y, n: n as u8 })
    } else if f == 0xE {
        if kk == 0x9E {
            Some(Instruction::Skp { x })
        } else if kk == 0xA1 {
            Some(Instruction::Sknp { x })
        } else {
            None
        }
    } else {
        if kk == 0x07 {
            Some(Instruction::LdVxDt { x })
        } else if kk == 0x0A {
            Some(Instruction::LdVxKey { x })
        } else if kk == 0x15 {
            Some(Instruction::LdDtVx { x })
        } else if kk == 0x18 {
            Some(Instruction::LdStVx { x })
        } else if kk == 0x1E {
            Some(Instruction::AddI { x })
        } else if kk == 0x29 {
            Some(Instruction::LdFont { x })
        } else if kk == 0x33 {
            Some(Instruction::LdBcd { x })
        } else if kk == 0x55 {
            Some(Instruction::StoreRegs { x })
        } else if kk == 0x65 {
            Some(Instruction::LoadRegs { x })
        } else {
            None
        }
    }
}

/// Every decoded instruction is well formed.
pub proof fn lemma_decode_wf(op: u16)
    ensures
        decode_spec(op) matches Some(ins) ==> ins.wf(),
{
}

/// Decodes an instruction word.
pub fn decode(op: u16) -> (r: Option<Instruction>)
    ensures
        r == decode_spec(op),
        r matches Some(ins) ==> ins.wf(),
{
    assert(op & 0xF000u16 == (op / 0x1000) * 0x1000) by (bit_vector);
    let x = get_x(op);
    let y = get_y(op);
    let n = get_n(op);
    let kk = get_kk(op);
    let addr = get_nnn(op);
    match op & 0xF000u16 {
        0x0000u16 => {
            if op == 0x00E0u16 {
                Some(Instruction::Cls)
            } else if op == 0x00EEu16 {
                Some(Instruction::Ret)
            } else {
                None
            }
        },
        0x1000u16 => Some(Instruction::Jp { addr }),
        0x2000u16 => Some(Instruction::Call { addr }),
        0x3000u16 => Some(Instruction::SeByte { x, kk }),
        0x4000u16 => Some(Instruction::SneByte { x, kk }),
        0x5000u16 => match n {
            0x0u8 => Some(Instruction::SeReg { x, y }),
            _ => None,
        },
        0x6000u16 => Some(Instruction::LdByte { x, kk }),
        0x7000u16 => Some(Instruction::AddByte { x, kk }),
        0x8000u16 => match n {
            0x0u8 => Some(Instruction::LdReg { x, y }),
            0x1u8 => Some(Instruction::Or { x, y }),
            0x2u8 => Some(Instruction::And { x, y }),
            0x3u8 => Some(Instruction::Xor { x, y }),
            0x4u8 => Some(Instruction::AddReg { x, y }),
            0x5u8 => Some(Instruction::Sub { x, y }),
            0x6u8 => Some(Instruction::Shr { x }),
            0x7u8 => Some(Instruction::Subn { x, y }),
            0xEu8 => Some(Instruction::Shl { x }),
            _ => None,
        },
        0x9000u16 => match n {
            0x0u8 => Some(Instruction::SneReg { x, y }),
            _ => None,
        },
        0xA000u16 => Some(Instruction::LdI { addr }),
        0xB000u16 => Some(Instruction::JpV0 { addr }),
        0xC000u16 => Some(Instruction::Rnd { x, kk }),
        0xD000u16 => Some(Instruction::Drw { x, y, n }),
        0xE000u16 => match kk {
            0x9Eu8 => Some(Instruction::Skp { x }),
            0xA1u8 => Some(Instruction::Sknp { x }),
            _ => None,
        },
        0xF000u16 => match kk {
            0x07u8 => Some(Instruction::LdVxDt { x }),
            0x0Au8 => Some(Instruction::LdVxKey { x }),
            0x15u8 => Some(Instruction::LdDtVx { x }),
            0x18u8 => Some(Instruction::LdStVx { x }),
            0x1Eu8 => Some(Instruction::AddI { x }),
            0x29u8 => Some(Instruction::LdFont { x }),
            0x33u8 => Some(Instruction::LdBcd { x }),
            0x55u8 => Some(Instruction::StoreRegs { x }),
            0x65u8 => Some(Instruction::LoadRegs { x }),
            _ => None,
        },
        _ => None,
    }
}

} // verus!
