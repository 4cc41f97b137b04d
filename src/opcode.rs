use vstd::prelude::*;

use crate::util::{concat_12, concat_8};

verus! {

/// One decoded instruction. Register operands are indices into the sixteen
/// general registers, `u8` operands are immediates, `u16` operands addresses.
#[derive(Debug, Clone, Copy, PartialEq, Eq, Structural)]
#[allow(non_camel_case_types)]
pub enum Opcode {
    SYS(u16),
    CLS,
    RET,
    JP(u16),
    CALL(u16),
    SE(usize, u8),
    SNE(usize, u8),
    SE_V(usize, usize),
    LD(usize, u8),
    ADD(usize, u8),
    LD_V(usize, usize),
    OR(usize, usize),
    AND(usize, usize),
    XOR(usize, usize),
    ADD_V(usize, usize),
    SUB(usize, usize),
    SHR(usize, usize),
    SUBN(usize, usize),
    SHL(usize, usize),
    SNE_V(usize, usize),
    LD_I(u16),
    JP_V(u16),
    RND(usize, u8),
    DRW(usize, usize, u8),
    SKP(usize),
    SKNP(usize),
    LD_V_DT(usize),
    LD_K(usize),
    LD_DT_V(usize),
    LD_ST(usize),
    ADD_I(usize),
    LD_F(usize),
    LD_B(usize),
    LD_I_V(usize),
    LD_V_I(usize),
    UNDEFINED,
}

/// Nibble `k` of `w`, counting from the least significant (`k == 0`).
pub open spec fn nibble(w: u16, k: int) -> int {
    if k == 0 {
        w as int % 16
    } else if k == 1 {
        (w as int / 16) % 16
    } else if k == 2 {
        (w as int / 256) % 16
    } else {
        w as int / 4096
    }
}

/// The operation that the instruction word `w` encodes. The high nibble picks
/// the family; families 0x0, 0x5, 0x8, 0x9, 0xE and 0xF also need an exact
/// match on their low nibble(s), and anything else is `UNDEFINED`.
pub open spec fn decode(w: u16) -> Opcode {
    let a = nibble(w, 3);
    let x = nibble(w, 2) as usize;
    let y = nibble(w, 1) as usize;
    let n = nibble(w, 0);
    let low = w as int % 256;
    let nnn = (w as int % 4096) as u16;
    let kk = low as u8;
    if a == 0x0 {
        if w == 0x00E0 {
            Opcode::CLS
        } else if w == 0x00EE {
            Opcode::RET
        } else {
            Opcode::SYS(nnn)
        }
    } else if a == 0x1 {
        Opcode::JP(nnn)
    } else if a == 0x2 {
        Opcode::CALL(nnn)
    } else if a == 0x3 {
        Opcode::SE(x, kk)
    } else if a == 0x4 {
        Opcode::SNE(x, kk)
    } else if a == 0x5 {
        if n == 0 { Opcode::SE_V(x, y) } else { Opcode::UNDEFINED }
    } else if a == 0x6 {
        Opcode::LD(x, kk)
    } else if a == 0x7 {
        Opcode::ADD(x, kk)
    } else if a == 0x8 {
        if n == 0x0 {
            Opcode::LD_V(x, y)
        } else if n == 0x1 {
            Opcode::OR(x, y)
        } else if n == 0x2 {
            Opcode::AND(x, y)
        } else if n == 0x3 {
            Opcode::XOR(x, y)
        } else if n == 0x4 {
            Opcode::ADD_V(x, y)
        } else if n == 0x5 {
            Opcode::SUB(x, y)
        } else if n == 0x6 {
            Opcode::SHR(x, y)
        } else if n == 0x7 {
            Opcode::SUBN(x, y)
        } else if n == 0xE {
            Opcode::SHL(x, y)
        } else {
            Opcode::UNDEFINED
        }
    } else if a == 0x9 {
        if n == 0 { Opcode::SNE_V(x, y) } else { Opcode::UNDEFINED }
    } else if a == 0xA {
        Opcode::LD_I(nnn)
    } else if a == 0xB {
        Opcode::JP_V(nnn)
    } else if a == 0xC {
        Opcode::RND(x, kk)
    } else if a == 0xD {
        Opcode::DRW(x, y, n as u8)
    } else if a == 0xE {
        if low == 0x9E {
            Opcode::SKP(x)
        } else if low == 0xA1 {
            Opcode::SKNP(x)
        } else {
            Opcode::UNDEFINED
        }
    } else {
        if low == 0x07 {
            Opcode::LD_V_DT(x)
        } else if low == 0x0A {
            Opcode::LD_K(x)
        } else if low == 0x15 {
            Opcode::LD_DT_V(x)
        } else if low == 0x18 {
            Opcode::LD_ST(x)
        } else if low == 0x1E {
            Opcode::ADD_I(x)
        } else if low == 0x29 {
            Opcode::LD_F(x)
        } else if low == 0x33 {
            Opcode::LD_B(x)
        } else if low == 0x55 {
            Opcode::LD_I_V(x)
        } else if low == 0x65 {
            Opcode::LD_V_I(x)
        } else {
            Opcode::UNDEFINED
        }
    }
}

impl Opcode {
    /// Every register operand names one of the sixteen registers and a
    /// sprite is at most fifteen rows tall.
    pub open spec fn operands_valid(self) -> bool {
        match self {
            Opcode::SE(x, _) | Opcode::SNE(x, _) | Opcode::LD(x, _) | Opcode::ADD(x, _)
            | Opcode::RND(x, _) => x < 16,
            Opcode::SE_V(x, y) | Opcode::LD_V(x, y) | Opcode::OR(x, y) | Opcode::AND(x, y)
            | Opcode::XOR(x, y) | Opcode::ADD_V(x, y) | Opcode::SUB(x, y) | Opcode::SHR(x, y)
            | Opcode::SUBN(x, y) | Opcode::SHL(x, y) | Opcode::SNE_V(x, y) => x < 16 && y < 16,
            Opcode::DRW(x, y, n) => x < 16 && y < 16 && n < 16,
            Opcode::SKP(x) | Opcode::SKNP(x) | Opcode::LD_V_DT(x) | Opcode::LD_K(x)
            | Opcode::LD_DT_V(x) | Opcode::LD_ST(x) | Opcode::ADD_I(x) | Opcode::LD_F(x)
            | Opcode::LD_B(x) | Opcode::LD_I_V(x) | Opcode::LD_V_I(x) => x < 16,
            _ => true,
        }
    }

    /// Decodes an instruction word. Total: every word gives exactly one
    /// operation, and what it gives has valid operands.
    pub fn from_bytes(bytes: u16) -> (op: Opcode)
        ensures
            op == decode(bytes),
            op.operands_valid(),
    {
        let a = ((bytes & 0xF000u16) >> 12u16) as u8;
        let b = ((bytes & 0x0F00u16) >> 8u16) as u8;
        let c = ((bytes & 0x00F0u16) >> 4u16) as u8;
        let d = (bytes & 0x000Fu16) as u8;
        proof {
            assert((bytes & 0xF000u16) >> 12u16 == bytes / 4096) by (bit_vector);
            assert((bytes & 0x0F00u16) >> 8u16 == (bytes / 256) % 16) by (bit_vector);
            assert((bytes & 0x00F0u16) >> 4u16 == (bytes / 16) % 16) by (bit_vector);
            assert(bytes & 0x000Fu16 == bytes % 16) by (bit_vector);
            assert(bytes % 4096 == ((bytes / 256) % 16) * 256 + ((bytes / 16) % 16) * 16 + bytes % 16)
                by (bit_vector);
            assert(bytes % 256 == ((bytes / 16) % 16) * 16 + bytes % 16) by (bit_vector);
            assert(bytes / 4096 < 16) by (bit_vector);
            assert(bytes == (bytes / 4096) * 4096 + bytes % 4096) by (bit_vector);
        }
        match (a, b, c, d) {
            (0x0, 0x0, 0xE, 0x0) => Opcode::CLS,
            (0x0, 0x0, 0xE, 0xE) => Opcode::RET,
            (0x0, x, y, z) => Opcode::SYS(concat_12(x, y, z)),
            (0x1, x, y, z) => Opcode::JP(concat_12(x, y, z)),
            (0x2, x, y, z) => Opcode::CALL(concat_12(x, y, z)),
            (0x3, x, y, z) => Opcode::SE(x as usize, concat_8(y, z)),
            (0x4, x, y, z) => Opcode::SNE(x as usize, concat_8(y, z)),
            (0x5, x, y, 0x0) => Opcode::SE_V(x as usize, y as usize),
            (0x6, x, y, z) => Opcode::LD(x as usize, concat_8(y, z)),
            (0x7, x, y, z) => Opcode::ADD(x as usize, concat_8(y, z)),
            (0x8, x, y, 0x0) => Opcode::LD_V(x as usize, y as usize),
            (0x8, x, y, 0x1) => Opcode::OR(x as usize, y as usize),
            (0x8, x, y, 0x2) => Opcode::AND(x as usize, y as usize),
            (0x8, x, y, 0x3) => Opcode::XOR(x as usize, y as usize),
            (0x8, x, y, 0x4) => Opcode::ADD_V(x as usize, y as usize),
            (0x8, x, y, 0x5) => Opcode::SUB(x as usize, y as usize),
            (0x8, x, y, 0x6) => Opcode::SHR(x as usize, y as usize),
            (0x8, x, y, 0x7) => Opcode::SUBN(x as usize, y as usize),
            (0x8, x, y, 0xE) => Opcode::SHL(x as usize, y as usize),
            (0x9, x, y, 0x0) => Opcode::SNE_V(x as usize, y as usize),
            (0xA, x, y, z) => Opcode::LD_I(concat_12(x, y, z)),
            (0xB, x, y, z) => Opcode::JP_V(concat_12(x, y, z)),
            (0xC, x, y, z) => Opcode::RND(x as usize, concat_8(y, z)),
            (0xD, x, y, z) => Opcode::DRW(x as usize, y as usize, z),
            (0xE, x, 0x9, 0xE) => Opcode::SKP(x as usize),
            (0xE, x, 0xA, 0x1) => Opcode::SKNP(x as usize),
            (0xF, x, 0x0, 0x7) => Opcode::LD_V_DT(x as usize),
            (0xF, x, 0x0, 0xA) => Opcode::LD_K(x as usize),
            (0xF, x, 0x1, 0x5) => Opcode::LD_DT_V(x as usize),
            (0xF, x, 0x1, 0x8) => Opcode::LD_ST(x as usize),
            (0xF, x, 0x1, 0xE) => Opcode::ADD_I(x as usize),
            (0xF, x, 0x2, 0x9) => Opcode::LD_F(x as usize),
            (0xF, x, 0x3, 0x3) => Opcode::LD_B(x as usize),
            (0xF, x, 0x5, 0x5) => Opcode::LD_I_V(x as usize),
            (0xF, x, 0x6, 0x5) => Opcode::LD_V_I(x as usize),
            _ => Opcode::UNDEFINED,
        }
    }
}

} // verus!
