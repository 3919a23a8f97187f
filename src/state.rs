use vstd::prelude::*;

use crate::error::ChipError;
use crate::instruction::{decode_spec, Instruction};
use crate::rng::{lcg_next, random_byte};

verus! {

/// Bytes of addressable memory.
pub const MEMORY_SIZE: usize = 4096;

/// Number of general-purpose registers.
pub const NUM_REGISTERS: usize = 16;

/// Number of return-address slots.
pub const STACK_SIZE: usize = 16;

/// Address at which a program is loaded and execution starts.
pub const PROGRAM_OFFSET: u16 = 0x200;

/// Largest program that fits between the load address and the end of memory.
pub const MAX_PROGRAM_LEN: usize = 3584;

/// Display width in pixels.
pub const DISPLAY_WIDTH: usize = 64;

/// Display height in pixels.
pub const DISPLAY_HEIGHT: usize = 32;

/// Number of pixels of the display.
pub const DISPLAY_PIXELS: usize = 2048;

/// Index of the register that doubles as carry, borrow, shift and collision flag.
pub const FLAG_REGISTER: u8 = 15;

/// How a successfully executed instruction left the machine.
#[derive(Clone, Copy, Debug, PartialEq, Eq, Structural)]
pub enum Status {
    /// The instruction completed.
    Ran,
    /// The instruction waits for a key press: the program counter was set back
    /// onto it, so that the next step runs it again.
    AwaitingKey,
}

/// What one step did: the address the instruction was fetched from, the
/// instruction, and how it left the machine.
#[derive(Clone, Copy, Debug, PartialEq, Eq, Structural)]
pub struct StepRecord {
    pub address: u16,
    pub instruction: Instruction,
    pub status: Status,
}

/// The abstract state of a machine.
pub struct ChipState {
    pub memory: Seq<u8>,
    pub v: Seq<u8>,
    pub i: u16,
    pub pc: u16,
    pub sp: u8,
    pub dt: u8,
    pub st: u8,
    pub stack: Seq<u16>,
    /// Pixel `(x, y)` is at position `y * 64 + x`.
    pub display: Seq<bool>,
    pub rng: u32,
}

/// The built-in glyphs of the hexadecimal digits, five rows of each.
pub open spec fn font_spec() -> Seq<u8> {
    seq![
        0xF0u8, 0x90, 0x90, 0x90, 0xF0, 0x20, 0x60, 0x20, 0x20, 0x70,
        0xF0, 0x10, 0xF0, 0x80, 0xF0, 0xF0, 0x10, 0xF0, 0x10, 0xF0,
        0x90, 0x90, 0xF0, 0x10, 0x10, 0xF0, 0x80, 0xF0, 0x10, 0xF0,
        0xF0, 0x80, 0xF0, 0x90, 0xF0, 0xF0, 0x10, 0x20, 0x40, 0x40,
        0xF0, 0x90, 0xF0, 0x90, 0xF0, 0xF0, 0x90, 0xF0, 0x10, 0xF0,
        0xF0, 0x90, 0xF0, 0x90, 0x90, 0xE0, 0x90, 0xE0, 0x90, 0xE0,
        0xF0, 0x80, 0x80, 0x80, 0xF0, 0xE0, 0x90, 0x90, 0x90, 0xE0,
        0xF0, 0x80, 0xF0, 0x80, 0xF0, 0xF0, 0x80, 0xF0, 0x80, 0x80
    ]
}

/// Memory right after loading `program`: the glyphs at `0..80`, the program
/// at `512..512 + len`, zero elsewhere.
pub open spec fn initial_memory(program: Seq<u8>) -> Seq<u8> {
    Seq::new(
        4096,
        |a: int|
            if a < 80 {
                font_spec()[a]
            } else if 512 <= a < 512 + program.len() {
                program[a - 512]
            } else {
                0u8
            },
    )
}

/// The state of a machine built from `program` and `seed`.
pub open spec fn initial_state(program: Seq<u8>, seed: u32) -> ChipState {
    ChipState {
        memory: initial_memory(program),
        v: Seq::new(16, |r: int| 0u8),
        i: 0,
        pc: 512,
        sp: 0,
        dt: 0,
        st: 0,
        stack: Seq::new(16, |r: int| 0u16),
        display: Seq::new(2048, |k: int| false),
        rng: seed,
    }
}

/// Whether key `k` is down in `keys`, bit `k` of which is set while key `k`
/// of the sixteen-key keypad is held.
pub open spec fn key_down(keys: u16, k: int) -> bool {
    0 <= k < 16 && (keys >> (k as u16)) & 1u16 == 1u16
}

/// The lowest key at or above `from` that is down in `keys`; 16 if none is.
pub open spec fn lowest_key_down(keys: u16, from: int) -> int
    decreases 16 - from,
{
    if from < 0 || from >= 16 {
        16
    } else if key_down(keys, from) {
        from
    } else {
        lowest_key_down(keys, from + 1)
    }
}

/// Whether column `dx` (0 the leftmost) of a sprite row is set; the row is
/// read most significant bit first.
pub open spec fn sprite_bit(row: u8, dx: u8) -> bool {
    (row >> ((7 - dx) as u8)) & 1u8 == 1u8
}

/// Column offset, within a sprite drawn at column `vx`, of display position `k`.
pub open spec fn sprite_dx(vx: u8, k: int) -> int {
    (k % 64 - vx) % 64
}

/// Row offset, within a sprite drawn at row `vy`, of display position `k`.
pub open spec fn sprite_dy(vy: u8, k: int) -> int {
    (k / 64 - vy) % 32
}

/// Whether the sprite `rows`, drawn with its top-left corner at `(vx, vy)`
/// and wrapping around the edges, has a set bit over display position `k`.
pub open spec fn sprite_covers(rows: Seq<u8>, vx: u8, vy: u8, k: int) -> bool {
    let dx = sprite_dx(vx, k);
    let dy = sprite_dy(vy, k);
    dx < 8 && dy < rows.len() && sprite_bit(rows[dy], dx as u8)
}

/// The display after XOR-drawing `rows` at `(vx, vy)` onto `display`.
pub open spec fn drawn(display: Seq<bool>, rows: Seq<u8>, vx: u8, vy: u8) -> Seq<bool> {
    Seq::new(
        display.len(),
        |k: int|
            if sprite_covers(rows, vx, vy, k) {
                !display[k]
            } else {
                display[k]
            },
    )
}

/// Whether drawing `rows` at `(vx, vy)` turns some lit pixel of `display` off.
pub open spec fn collides(display: Seq<bool>, rows: Seq<u8>, vx: u8, vy: u8) -> bool {
    exists|k: int| 0 <= k < display.len() && #[trigger] sprite_covers(rows, vx, vy, k) && display[k]
}

impl ChipState {
    /// Every buffer has its fixed size and the stack pointer names a slot.
    pub open spec fn wf(self) -> bool {
        &&& self.memory.len() == 4096
        &&& self.v.len() == 16
        &&& self.stack.len() == 16
        &&& self.display.len() == 2048
        &&& self.sp < 16
    }

    /// Register `x` set to `val`.
    pub open spec fn with_reg(self, x: int, val: u8) -> ChipState {
        ChipState { v: self.v.update(x, val), ..self }
    }

    /// The flag register set to `flag`, then register `x` to `val`: where `x`
    /// is the flag register, `val` is what remains.
    pub open spec fn with_result(self, x: int, val: u8, flag: bool) -> ChipState {
        self.with_reg(15, if flag { 1u8 } else { 0u8 }).with_reg(x, val)
    }

    /// The program counter moved past the next instruction when `cond` holds.
    pub open spec fn skip_if(self, cond: bool) -> Result<ChipState, ChipError> {
        if !cond {
            Ok(self)
        } else if self.pc + 2 > 0xFFFF {
            Err(ChipError::OutOfBoundsAccess)
        } else {
            Ok(ChipState { pc: (self.pc + 2) as u16, ..self })
        }
    }

    /// The sprite rows that a draw of height `n` reads, starting at the index register.
    pub open spec fn sprite_rows(self, n: u8) -> Seq<u8> {
        self.memory.subrange(self.i as int, self.i + n)
    }

    /// The state after a successful draw of height `n` at `(vx, vy)`.
    pub open spec fn after_draw(self, vx: u8, vy: u8, n: u8) -> ChipState {
        let rows = self.sprite_rows(n);
        ChipState {
            display: drawn(self.display, rows, vx, vy),
            ..self
        }.with_reg(15, if collides(self.display, rows, vx, vy) { 1u8 } else { 0u8 })
    }

    /// Registers `0..=x` copied to memory starting at the index register.
    pub open spec fn after_store(self, x: u8) -> ChipState {
        ChipState {
            memory: Seq::new(
                self.memory.len(),
                |a: int| if self.i <= a <= self.i + x { self.v[a - self.i] } else { self.memory[a] },
            ),
            ..self
        }
    }

    /// Registers `0..=x` loaded from memory starting at the index register.
    pub open spec fn after_load(self, x: u8) -> ChipState {
        ChipState {
            v: Seq::new(
                self.v.len(),
                |r: int| if r <= x { self.memory[self.i + r] } else { self.v[r] },
            ),
            ..self
        }
    }

    /// The decimal digits of register `x` stored at `I`, `I + 1` and `I + 2`.
    pub open spec fn after_bcd(self, x: u8) -> ChipState {
        let val = self.v[x as int];
        ChipState {
            memory: self.memory.update(self.i as int, val / 100).update(
                self.i + 1,
                (val % 100) / 10,
            ).update(self.i + 2, val % 10),
            ..self
        }
    }
}

/// What executing `ins` in state `s`, with the keys in `keys` held, does: the
/// next state and status, or the error that stops the machine (which then
/// keeps state `s`).
pub open spec fn execute_spec(s: ChipState, ins: Instruction, keys: u16) -> Result<
    (ChipState, Status),
    ChipError,
> {
    let ran = |t: ChipState| Ok((t, Status::Ran));
    let ran_or = |r: Result<ChipState, ChipError>|
        match r {
            Ok(t) => Ok((t, Status::Ran)),
            Err(e) => Err(e),
        };
    match ins {
        Instruction::Sys(_) => ran(s),
        Instruction::Cls => ran(ChipState { display: Seq::new(2048, |k: int| false), ..s }),
        Instruction::Ret => if s.sp == 0 {
            Err(ChipError::StackUnderflow)
        } else {
            ran(ChipState { pc: s.stack[s.sp as int], sp: (s.sp - 1) as u8, ..s })
        },
        Instruction::Jp(a) => ran(ChipState { pc: a, ..s }),
        Instruction::Call(a) => if s.sp + 1 >= 16 {
            Err(ChipError::StackOverflow)
        } else {
            ran(
                ChipState {
                    sp: (s.sp + 1) as u8,
                    stack: s.stack.update(s.sp + 1, s.pc),
                    pc: a,
                    ..s
                },
            )
        },
        Instruction::SeVxByte(x, kk) => ran_or(s.skip_if(s.v[x as int] == kk)),
        Instruction::SneVxByte(x, kk) => ran_or(s.skip_if(s.v[x as int] != kk)),
        Instruction::SeVxVy(x, y) => ran_or(s.skip_if(s.v[x as int] == s.v[y as int])),
        Instruction::SneVxVy(x, y) => ran_or(s.skip_if(s.v[x as int] != s.v[y as int])),
        Instruction::LdVxByte(x, kk) => ran(s.with_reg(x as int, kk)),
        Instruction::AddVxByte(x, kk) => ran(
            s.with_reg(x as int, ((s.v[x as int] + kk) % 256) as u8),
        ),
        Instruction::LdVxVy(x, y) => ran(s.with_reg(x as int, s.v[y as int])),
        Instruction::OrVxVy(x, y) => ran(s.with_reg(x as int, s.v[x as int] | s.v[y as int])),
        Instruction::AndVxVy(x, y) => ran(s.with_reg(x as int, s.v[x as int] & s.v[y as int])),
        Instruction::XorVxVy(x, y) => ran(s.with_reg(x as int, s.v[x as int] ^ s.v[y as int])),
        Instruction::AddVxVy(x, y) => {
            let (a, b) = (s.v[x as int], s.v[y as int]);
            ran(s.with_result(x as int, ((a + b) % 256) as u8, a + b >= 256))
        },
        Instruction::SubVxVy(x, y) => {
            let (a, b) = (s.v[x as int], s.v[y as int]);
            ran(s.with_result(x as int, ((a - b) % 256) as u8, a >= b))
        },
        Instruction::SubnVxVy(x, y) => {
            let (a, b) = (s.v[x as int], s.v[y as int]);
            ran(s.with_result(x as int, ((b - a) % 256) as u8, b >= a))
        },
        Instruction::ShrVx(x) => {
            let a = s.v[x as int];
            ran(s.with_result(x as int, a / 2, a % 2 == 1))
        },
        Instruction::ShlVx(x) => {
            let a = s.v[x as int];
            ran(s.with_result(x as int, ((a * 2) % 256) as u8, a >= 128))
        },
        Instruction::LdIAddr(a) => ran(ChipState { i: a, ..s }),
        Instruction::JpV0Addr(a) => ran(ChipState { pc: (s.v[0] + a) as u16, ..s }),
        Instruction::RndVxByte(x, mask) => {
            let next = lcg_next(s.rng);
            ran(ChipState { rng: next, ..s }.with_reg(x as int, random_byte(next) & mask))
        },
        Instruction::DrwVxVyNibble(x, y, n) => if s.i + n > 4096 {
            Err(ChipError::OutOfBoundsAccess)
        } else {
            ran(s.after_draw(s.v[x as int], s.v[y as int], n))
        },
        Instruction::SkpVx(x) => ran_or(s.skip_if(key_down(keys, s.v[x as int] as int))),
        Instruction::SknpVx(x) => ran_or(s.skip_if(!key_down(keys, s.v[x as int] as int))),
        Instruction::LdVxDt(x) => ran(s.with_reg(x as int, s.dt)),
        Instruction::LdVxK(x) => {
            let k = lowest_key_down(keys, 0);
            if k == 16 {
                if s.pc < 2 {
                    Err(ChipError::OutOfBoundsAccess)
                } else {
                    Ok((ChipState { pc: (s.pc - 2) as u16, ..s }, Status::AwaitingKey))
                }
            } else {
                ran(s.with_reg(x as int, k as u8))
            }
        },
        Instruction::LdDtVx(x) => ran(ChipState { dt: s.v[x as int], ..s }),
        Instruction::LdStVx(x) => ran(ChipState { st: s.v[x as int], ..s }),
        Instruction::AddIVx(x) => if s.i + s.v[x as int] > 0xFFFF {
            Err(ChipError::OutOfBoundsAccess)
        } else {
            ran(ChipState { i: (s.i + s.v[x as int]) as u16, ..s })
        },
        Instruction::LdFVx(x) => if s.v[x as int] > 15 {
            Err(ChipError::InvalidDigit)
        } else {
            ran(ChipState { i: (s.v[x as int] * 5) as u16, ..s })
        },
        Instruction::LdBVx(x) => if s.i + 2 >= 4096 {
            Err(ChipError::OutOfBoundsAccess)
        } else {
            ran(s.after_bcd(x))
        },
        Instruction::LdIVx(x) => if s.i + x >= 4096 {
            Err(ChipError::OutOfBoundsAccess)
        } else {
            ran(s.after_store(x))
        },
        Instruction::LdVxI(x) => if s.i + x >= 4096 {
            Err(ChipError::OutOfBoundsAccess)
        } else {
            ran(s.after_load(x))
        },
    }
}

/// The instruction at the program counter of `s`, or why none can be read.
pub open spec fn fetch_spec(s: ChipState) -> Result<Instruction, ChipError> {
    if s.pc + 1 >= 4096 {
        Err(ChipError::OutOfBoundsAccess)
    } else {
        match decode_spec(s.memory[s.pc as int], s.memory[s.pc + 1]) {
            Some(ins) => Ok(ins),
            None => Err(ChipError::InvalidOpcode),
        }
    }
}

/// What one step from state `s` does, with the keys in `keys` held: fetch the
/// instruction at the program counter, move the counter past it, and execute
/// it from there. The result is the state afterwards and what the step did or
/// the error that stopped it. A failed fetch leaves `s` as it was; a failed
/// execution leaves the counter moved past the instruction.
pub open spec fn step_spec(s: ChipState, keys: u16) -> (ChipState, Result<StepRecord, ChipError>) {
    match fetch_spec(s) {
        Err(e) => (s, Err(e)),
        Ok(ins) => {
            let fetched = ChipState { pc: (s.pc + 2) as u16, ..s };
            match execute_spec(fetched, ins, keys) {
                Err(e) => (fetched, Err(e)),
                Ok((t, status)) => (
                    t,
                    Ok(StepRecord { address: s.pc, instruction: ins, status }),
                ),
            }
        },
    }
}

} // verus!
