use vstd::prelude::*;

verus! {

/// One decoded instruction word. Register operands are indices into the
/// general-purpose register file, addresses are 12-bit, sprite heights 4-bit.
#[derive(Clone, Copy, Debug, PartialEq, Eq, Structural)]
pub enum Instruction {
    Sys(u16),
    Cls,
    Ret,
    Jp(u16),
    Call(u16),
    SeVxByte(u8, u8),
    SneVxByte(u8, u8),
    SeVxVy(u8, u8),
    LdVxByte(u8, u8),
    AddVxByte(u8, u8),
    LdVxVy(u8, u8),
    OrVxVy(u8, u8),
    AndVxVy(u8, u8),
    XorVxVy(u8, u8),
    AddVxVy(u8, u8),
    SubVxVy(u8, u8),
    ShrVx(u8),
    SubnVxVy(u8, u8),
    ShlVx(u8),
    SneVxVy(u8, u8),
    LdIAddr(u16),
    JpV0Addr(u16),
    RndVxByte(u8, u8),
    DrwVxVyNibble(u8, u8, u8),
    SkpVx(u8),
    SknpVx(u8),
    LdVxDt(u8),
    LdVxK(u8),
    LdDtVx(u8),
    LdStVx(u8),
    AddIVx(u8),
    LdFVx(u8),
    LdBVx(u8),
    LdIVx(u8),
    LdVxI(u8),
}

impl Instruction {
    /// Every operand lies in the range its field can encode: registers and
    /// sprite heights below 16, addresses below 4096.
    pub open spec fn wf(self) -> bool {
        match self {
            Instruction::Sys(a) | Instruction::Jp(a) | Instruction::Call(a)
            | Instruction::LdIAddr(a) | Instruction::JpV0Addr(a) => a < 4096,
            Instruction::Cls | Instruction::Ret => true,
            Instruction::SeVxByte(x, _) | Instruction::SneVxByte(x, _)
            | Instruction::LdVxByte(x, _) | Instruction::AddVxByte(x, _)
            | Instruction::RndVxByte(x, _) => x < 16,
            Instruction::SeVxVy(x, y) | Instruction::LdVxVy(x, y) | Instruction::OrVxVy(x, y)
            | Instruction::AndVxVy(x, y) | Instruction::XorVxVy(x, y)
            | Instruction::AddVxVy(x, y) | Instruction::SubVxVy(x, y)
            | Instruction::SubnVxVy(x, y) | Instruction::SneVxVy(x, y) => x < 16 && y < 16,
            Instruction::DrwVxVyNibble(x, y, n) => x < 16 && y < 16 && n < 16,
            Instruction::ShrVx(x) | Instruction::ShlVx(x) | Instruction::SkpVx(x)
            | Instruction::SknpVx(x) | Instruction::LdVxDt(x) | Instruction::LdVxK(x)
            | Instruction::LdDtVx(x) | Instruction::LdStVx(x) | Instruction::AddIVx(x)
            | Instruction::LdFVx(x) | Instruction::LdBVx(x) | Instruction::LdIVx(x)
            | Instruction::LdVxI(x) => x < 16,
        }
    }
}

/// The instruction encoded by the word `hi lo`, read as four nibbles
/// `a b c d` (`a` the high nibble of `hi`), with `nnn` the low 12 bits
/// and `kk` the low byte; `None` where no opcode pattern matches.
pub open spec fn decode_spec(hi: u8, lo: u8) -> Option<Instruction> {
    let a = hi / 16;
    let x = hi % 16;
    let y = lo / 16;
    let d = lo % 16;
    let nnn = (x as u16 * 256 + lo as u16) as u16;
    let kk = lo;
    if a == 0 {
        if x == 0 && lo == 0xE0 {
            Some(Instruction::Cls)
        } else if x == 0 && lo == 0xEE {
            Some(Instruction::Ret)
        } else {
            Some(Instruction::Sys(nnn))
        }
    } else if a == 1 {
        Some(Instruction::Jp(nnn))
    } else if a == 2 {
        Some(Instruction::Call(nnn))
    } else if a == 3 {
        Some(Instruction::SeVxByte(x, kk))
    } else if a == 4 {
        Some(Instruction::SneVxByte(x, kk))
    } else if a == 5 {
        if d == 0 { Some(Instruction::SeVxVy(x, y)) } else { None }
    } else if a == 6 {
        Some(Instruction::LdVxByte(x, kk))
    } else if a == 7 {
        Some(Instruction::AddVxByte(x, kk))
    } else if a == 8 {
        if d == 0x0 {
            Some(Instruction::LdVxVy(x, y))
        } else if d == 0x1 {
            Some(Instruction::OrVxVy(x, y))
        } else if d == 0x2 {
            Some(Instruction::AndVxVy(x, y))
        } else if d == 0x3 {
            Some(Instruction::XorVxVy(x, y))
        } else if d == 0x4 {
            Some(Instruction::AddVxVy(x, y))
        } else if d == 0x5 {
            Some(Instruction::SubVxVy(x, y))
        } else if d == 0x6 {
            Some(Instruction::ShrVx(x))
        } else if d == 0x7 {
            Some(Instruction::SubnVxVy(x, y))
        } else if d == 0xE {
            Some(Instruction::ShlVx(x))
        } else {
            None
        }
    } else if a == 9 {
        if d == 0 { Some(Instruction::SneVxVy(x, y)) } else { None }
    } else if a == 0xA {
        Some(Instruction::LdIAddr(nnn))
    } else if a == 0xB {
        Some(Instruction::JpV0Addr(nnn))
    } else if a == 0xC {
        Some(Instruction::RndVxByte(x, kk))
    } else if a == 0xD {
        Some(Instruction::DrwVxVyNibble(x, y, d))
    } else if a == 0xE {
        if kk == 0x9E {
            Some(Instruction::SkpVx(x))
        } else if kk == 0xA1 {
            Some(Instruction::SknpVx(x))
        } else {
            None
        }
    } else {
        if kk == 0x07 {
            Some(Instruction::LdVxDt(x))
        } else if kk == 0x0A {
            Some(Instruction::LdVxK(x))
        } else if kk == 0x15 {
            Some(Instruction::LdDtVx(x))
        } else if kk == 0x18 {
            Some(Instruction::LdStVx(x))
        } else if kk == 0x1E {
            Some(Instruction::AddIVx(x))
        } else if kk == 0x29 {
            Some(Instruction::LdFVx(x))
        } else if kk == 0x33 {
            Some(Instruction::LdBVx(x))
        } else if kk == 0x55 {
            Some(Instruction::LdIVx(x))
        } else if kk == 0x65 {
            Some(Instruction::LdVxI(x))
        } else {
            None
        }
    }
}

/// Decodes the instruction word `hi lo`, splitting it into nibbles and
/// dispatching on the opcode family.
pub fn decode(hi: u8, lo: u8) -> (r: Option<Instruction>)
    ensures
        r == decode_spec(hi, lo),
        r matches Some(ins) ==> ins.wf(),
{
    let nibbles: (u8, u8, u8, u8) = ((hi >> 4) & 0xF, hi & 0xF, (lo >> 4) & 0xF, lo & 0xF);
    proof {
        assert((hi >> 4) & 0xF == hi / 16 && hi & 0xF == hi % 16) by (bit_vector);
        assert((lo >> 4) & 0xF == lo / 16 && lo & 0xF == lo % 16) by (bit_vector);
        assert(((hi as u16 & 0x0F) << 8) | lo as u16 == (hi % 16) as u16 * 256 + lo as u16)
            by (bit_vector);
    }
    let nnn: u16 = ((hi as u16 & 0x0F) << 8) | lo as u16;
    let kk = lo;
    match nibbles {
        (0x0, 0x0, 0xE, 0x0) => Some(Instruction::Cls),
        (0x0, 0x0, 0xE, 0xE) => Some(Instruction::Ret),
        (0x0, _, _, _) => Some(Instruction::Sys(nnn)),
        (0x1, _, _, _) => Some(Instruction::Jp(nnn)),
        (0x2, _, _, _) => Some(Instruction::Call(nnn)),
        (0x3, x, _, _) => Some(Instruction::SeVxByte(x, kk)),
        (0x4, x, _, _) => Some(Instruction::SneVxByte(x, kk)),
        (0x5, x, y, 0x0) => Some(Instruction::SeVxVy(x, y)),
        (0x6, x, _, _) => Some(Instruction::LdVxByte(x, kk)),
        (0x7, x, _, _) => Some(Instruction::AddVxByte(x, kk)),
        (0x8, x, y, 0x0) => Some(Instruction::LdVxVy(x, y)),
        (0x8, x, y, 0x1) => Some(Instruction::OrVxVy(x, y)),
        (0x8, x, y, 0x2) => Some(Instruction::AndVxVy(x, y)),
        (0x8, x, y, 0x3) => Some(Instruction::XorVxVy(x, y)),
        (0x8, x, y, 0x4) => Some(Instruction::AddVxVy(x, y)),
        (0x8, x, y, 0x5) => Some(Instruction::SubVxVy(x, y)),
        (0x8, x, _, 0x6) => Some(Instruction::ShrVx(x)),
        (0x8, x, y, 0x7) => Some(Instruction::SubnVxVy(x, y)),
        (0x8, x, _, 0xE) => Some(Instruction::ShlVx(x)),
        (0x9, x, y, 0x0) => Some(Instruction::SneVxVy(x, y)),
        (0xA, _, _, _) => Some(Instruction::LdIAddr(nnn)),
        (0xB, _, _, _) => Some(Instruction::JpV0Addr(nnn)),
        (0xC, x, _, _) => Some(Instruction::RndVxByte(x, kk)),
        (0xD, x, y, n) => Some(Instruction::DrwVxVyNibble(x, y, n)),
        (0xE, x, 0x9, 0xE) => Some(Instruction::SkpVx(x)),
        (0xE, x, 0xA, 0x1) => Some(Instruction::SknpVx(x)),
        (0xF, x, 0x0, 0x7) => Some(Instruction::LdVxDt(x)),
        (0xF, x, 0x0, 0xA) => Some(Instruction::LdVxK(x)),
        (0xF, x, 0x1, 0x5) => Some(Instruction::LdDtVx(x)),
        (0xF, x, 0x1, 0x8) => Some(Instruction::LdStVx(x)),
        (0xF, x, 0x1, 0xE) => Some(Instruction::AddIVx(x)),
        (0xF, x, 0x2, 0x9) => Some(Instruction::LdFVx(x)),
        (0xF, x, 0x3, 0x3) => Some(Instruction::LdBVx(x)),
        (0xF, x, 0x5, 0x5) => Some(Instruction::LdIVx(x)),
        (0xF, x, 0x6, 0x5) => Some(Instruction::LdVxI(x)),
        _ => None,
    }
}

} // verus!
