use vstd::prelude::*;

use crate::error::ChipError;
use crate::instruction::{decode, Instruction};
use crate::rng::{byte_of_state, lcg_next, next_state, random_byte};
use crate::state::{
    collides, drawn,
    execute_spec, fetch_spec, font_spec, initial_state, key_down, lowest_key_down, sprite_bit,
    sprite_covers, sprite_dx, sprite_dy, ChipState, Status, StepRecord, step_spec, DISPLAY_HEIGHT, DISPLAY_PIXELS,
    DISPLAY_WIDTH, FLAG_REGISTER, MAX_PROGRAM_LEN, MEMORY_SIZE, NUM_REGISTERS, PROGRAM_OFFSET,
    STACK_SIZE,
};

verus! {

/// A virtual machine: memory, registers, call stack, display and random source.
#[derive(Debug)]
pub struct ChipEight {
    memory: Vec<u8>,
    v: Vec<u8>,
    i: u16,
    pc: u16,
    sp: u8,
    dt: u8,
    st: u8,
    stack: Vec<u16>,
    display_buffer: Vec<bool>,
    rng_state: u32,
}

impl View for ChipEight {
    type V = ChipState;

    closed spec fn view(&self) -> ChipState {
        ChipState {
            memory: self.memory@,
            v: self.v@,
            i: self.i,
            pc: self.pc,
            sp: self.sp,
            dt: self.dt,
            st: self.st,
            stack: self.stack@,
            display: self.display_buffer@,
            rng: self.rng_state,
        }
    }
}

/// The built-in glyphs of the hexadecimal digits.
fn builtin_sprites() -> (r: Vec<u8>)
    ensures
        r@ == font_spec(),
{
    let r: Vec<u8> = vec![
        0xF0, 0x90, 0x90, 0x90, 0xF0, 0x20, 0x60, 0x20, 0x20, 0x70,
        0xF0, 0x10, 0xF0, 0x80, 0xF0, 0xF0, 0x10, 0xF0, 0x10, 0xF0,
        0x90, 0x90, 0xF0, 0x10, 0x10, 0xF0, 0x80, 0xF0, 0x10, 0xF0,
        0xF0, 0x80, 0xF0, 0x90, 0xF0, 0xF0, 0x10, 0x20, 0x40, 0x40,
        0xF0, 0x90, 0xF0, 0x90, 0xF0, 0xF0, 0x90, 0xF0, 0x10, 0xF0,
        0xF0, 0x90, 0xF0, 0x90, 0x90, 0xE0, 0x90, 0xE0, 0x90, 0xE0,
        0xF0, 0x80, 0x80, 0x80, 0xF0, 0xE0, 0x90, 0x90, 0x90, 0xE0,
        0xF0, 0x80, 0xF0, 0x80, 0xF0, 0xF0, 0x80, 0xF0, 0x80, 0x80,
    ];
    assert(r@ =~= font_spec());
    r
}

/// The result of an instruction that either completes, leaving state `t`, or fails.
pub open spec fn ran_as(r: Result<(), ChipError>, t: ChipState) -> Result<(ChipState, Status), ChipError> {
    match r {
        Ok(()) => Ok((t, Status::Ran)),
        Err(e) => Err(e),
    }
}

/// The status of an instruction that completes unless it fails.
fn completed(r: Result<(), ChipError>) -> (o: Result<Status, ChipError>)
    ensures
        o == match r {
            Ok(()) => Ok(Status::Ran),
            Err(e) => Err::<Status, ChipError>(e),
        },
{
    match r {
        Ok(()) => Ok(Status::Ran),
        Err(e) => Err(e),
    }
}

impl ChipEight {
    /// A machine with `program` loaded at address 512, the glyphs at address 0,
    /// every other byte, register, timer and pixel zero, and the random source
    /// seeded with `seed`.
    pub fn new(program: &[u8], seed: u32) -> (r: Self)
        requires
            program@.len() <= MAX_PROGRAM_LEN,
        ensures
            r@ == initial_state(program@, seed),
            r@.wf(),
    {
        let sprites = builtin_sprites();
        let mut memory: Vec<u8> = Vec::new();
        let mut a: usize = 0;
        while a < MEMORY_SIZE
            invariant
                a <= MEMORY_SIZE,
                program@.len() <= MAX_PROGRAM_LEN,
                sprites@ == font_spec(),
                memory@.len() == a,
                forall|b: int| 0 <= b < a ==> memory@[b] == #[trigger] initial_state(program@, seed).memory[b],
            decreases MEMORY_SIZE - a,
        {
            let byte: u8 = if a < 80 {
                sprites[a]
            } else if PROGRAM_OFFSET as usize <= a && a < PROGRAM_OFFSET as usize + program.len() {
                program[a - PROGRAM_OFFSET as usize]
            } else {
                0
            };
            memory.push(byte);
            a += 1;
        }
        let mut v: Vec<u8> = Vec::new();
        let mut stack: Vec<u16> = Vec::new();
        let mut r: usize = 0;
        while r < NUM_REGISTERS
            invariant
                r <= NUM_REGISTERS,
                v@ =~= Seq::new(r as nat, |j: int| 0u8),
                stack@ =~= Seq::new(r as nat, |j: int| 0u16),
            decreases NUM_REGISTERS - r,
        {
            v.push(0);
            stack.push(0);
            r += 1;
        }
        let mut display_buffer: Vec<bool> = Vec::new();
        let mut k: usize = 0;
        while k < DISPLAY_PIXELS
            invariant
                k <= DISPLAY_PIXELS,
                display_buffer@ =~= Seq::new(k as nat, |j: int| false),
            decreases DISPLAY_PIXELS - k,
        {
            display_buffer.push(false);
            k += 1;
        }
        let r = ChipEight {
            memory,
            v,
            i: 0,
            pc: PROGRAM_OFFSET,
            sp: 0,
            dt: 0,
            st: 0,
            stack,
            display_buffer,
            rng_state: seed,
        };
        assert(r@.memory =~= initial_state(program@, seed).memory);
        r
    }

    /// Reads the instruction word at the program counter, decodes it, and
    /// moves the counter past it. On failure nothing changes.
    pub fn fetch_decode(&mut self) -> (r: Result<Instruction, ChipError>)
        requires
            old(self)@.wf(),
        ensures
            r == fetch_spec(old(self)@),
            r matches Ok(ins) ==> ins.wf() && final(self)@ == (ChipState {
                pc: (old(self)@.pc + 2) as u16,
                ..old(self)@
            }),
            r is Err ==> final(self)@ == old(self)@,
    {
        let at = self.pc as usize;
        if at + 1 >= MEMORY_SIZE {
            return Err(ChipError::OutOfBoundsAccess);
        }
        let byte_high = self.memory[at];
        let byte_low = self.memory[at + 1];
        match decode(byte_high, byte_low) {
            Some(instruction) => {
                self.pc = self.pc + 2;
                Ok(instruction)
            },
            None => Err(ChipError::InvalidOpcode),
        }
    }

    /// Executes `instruction` with the keys in `keys` held (bit `k` set while
    /// key `k` is down). On failure nothing changes.
    pub fn execute(&mut self, instruction: Instruction, keys: u16) -> (r: Result<Status, ChipError>)
        requires
            old(self)@.wf(),
            instruction.wf(),
        ensures
            final(self)@.wf(),
            match execute_spec(old(self)@, instruction, keys) {
                Ok((t, status)) => r == Ok::<Status, ChipError>(status) && final(self)@ == t,
                Err(e) => r == Err::<Status, ChipError>(e) && final(self)@ == old(self)@,
            },
    {
        match instruction {
            Instruction::Sys(_) => Ok(Status::Ran),
            Instruction::Cls => {
                self.cls();
                Ok(Status::Ran)
            },
            Instruction::Ret => completed(self.ret()),
            Instruction::Jp(addr) => {
                self.jp(addr);
                Ok(Status::Ran)
            },
            Instruction::Call(addr) => completed(self.call(addr)),
            Instruction::SeVxByte(x, byte) => completed(self.se_vx_byte(x, byte)),
            Instruction::SneVxByte(x, byte) => completed(self.sne_vx_byte(x, byte)),
            Instruction::SeVxVy(x, y) => completed(self.se_vx_vy(x, y)),
            Instruction::LdVxByte(x, byte) => {
                self.ld_vx_byte(x, byte);
                Ok(Status::Ran)
            },
            Instruction::AddVxByte(x, byte) => {
                self.add_vx_byte(x, byte);
                Ok(Status::Ran)
            },
            Instruction::LdVxVy(x, y) => {
                self.ld_vx_vy(x, y);
                Ok(Status::Ran)
            },
            Instruction::OrVxVy(x, y) => {
                self.or_vx_vy(x, y);
                Ok(Status::Ran)
            },
            Instruction::AndVxVy(x, y) => {
                self.and_vx_vy(x, y);
                Ok(Status::Ran)
            },
            Instruction::XorVxVy(x, y) => {
                self.xor_vx_vy(x, y);
                Ok(Status::Ran)
            },
            Instruction::AddVxVy(x, y) => {
                self.add_vx_vy(x, y);
                Ok(Status::Ran)
            },
            Instruction::SubVxVy(x, y) => {
                self.sub_vx_vy(x, y);
                Ok(Status::Ran)
            },
            Instruction::ShrVx(x) => {
                self.shr_vx(x);
                Ok(Status::Ran)
            },
            Instruction::SubnVxVy(x, y) => {
                self.subn_vx_vy(x, y);
                Ok(Status::Ran)
            },
            Instruction::ShlVx(x) => {
                self.shl_vx(x);
                Ok(Status::Ran)
            },
            Instruction::SneVxVy(x, y) => completed(self.sne_vx_vy(x, y)),
            Instruction::LdIAddr(addr) => {
                self.ld_i_addr(addr);
                Ok(Status::Ran)
            },
            Instruction::JpV0Addr(addr) => {
                self.jp_v0_addr(addr);
                Ok(Status::Ran)
            },
            Instruction::RndVxByte(x, byte) => {
                self.rnd_vx_byte(x, byte);
                Ok(Status::Ran)
            },
            Instruction::DrwVxVyNibble(x, y, nibble) => completed(
                self.drw_vx_vy_nibble(x, y, nibble),
            ),
            Instruction::SkpVx(x) => completed(self.skp_vx(x, keys)),
            Instruction::SknpVx(x) => completed(self.sknp_vx(x, keys)),
            Instruction::LdVxDt(x) => {
                self.ld_vx_dt(x);
                Ok(Status::Ran)
            },
            Instruction::LdVxK(x) => self.ld_vx_k(x, keys),
            Instruction::LdDtVx(x) => {
                self.ld_dt_vx(x);
                Ok(Status::Ran)
            },
            Instruction::LdStVx(x) => {
                self.ld_st_vx(x);
                Ok(Status::Ran)
            },
            Instruction::AddIVx(x) => completed(self.add_i_vx(x)),
            Instruction::LdFVx(x) => completed(self.ld_f_vx(x)),
            Instruction::LdBVx(x) => completed(self.ld_b_vx(x)),
            Instruction::LdIVx(x) => completed(self.ld_i_vx(x)),
            Instruction::LdVxI(x) => completed(self.ld_vx_i(x)),
        }
    }

    /// Fetches and decodes one instruction, then executes it with the keys in
    /// `keys` held, exactly as `fetch_decode` followed by `execute`, and
    /// reports where it stood and what it was. A failed fetch changes
    /// nothing; a failed execution leaves the counter past the instruction.
    pub fn step(&mut self, keys: u16) -> (r: Result<StepRecord, ChipError>)
        requires
            old(self)@.wf(),
        ensures
            final(self)@.wf(),
            (final(self)@, r) == step_spec(old(self)@, keys),
    {
        let address = self.pc;
        let instruction = match self.fetch_decode() {
            Ok(instruction) => instruction,
            Err(e) => return Err(e),
        };
        match self.execute(instruction, keys) {
            Ok(status) => Ok(StepRecord { address, instruction, status }),
            Err(e) => Err(e),
        }
    }

    /// Address of the next instruction to be fetched.
    pub fn pc(&self) -> (r: u16)
        ensures
            r == self@.pc,
    {
        self.pc
    }

    /// Value of general-purpose register `reg`.
    pub fn get_reg(&self, reg: u8) -> (r: u8)
        requires
            self@.wf(),
            reg < 16,
        ensures
            r == self@.v[reg as int],
    {
        self.v[reg as usize]
    }

    fn set_reg(&mut self, reg: u8, val: u8)
        requires
            old(self)@.wf(),
            reg < 16,
        ensures
            final(self)@ == old(self)@.with_reg(reg as int, val),
    {
        self.v.set(reg as usize, val);
    }

    fn set_vf(&mut self, val: bool)
        requires
            old(self)@.wf(),
        ensures
            final(self)@ == old(self)@.with_reg(15, if val { 1u8 } else { 0u8 }),
    {
        self.set_reg(FLAG_REGISTER, if val { 1 } else { 0 })
    }

    /// Value of the index register.
    pub fn index(&self) -> (r: u16)
        ensures
            r == self@.i,
    {
        self.i
    }

    /// Value of the delay timer.
    pub fn delay_timer(&self) -> (r: u8)
        ensures
            r == self@.dt,
    {
        self.dt
    }

    /// Value of the sound timer.
    pub fn sound_timer(&self) -> (r: u8)
        ensures
            r == self@.st,
    {
        self.st
    }

    /// Number of calls awaiting their return.
    pub fn stack_depth(&self) -> (r: u8)
        ensures
            r == self@.sp,
    {
        self.sp
    }

    /// The byte at memory address `addr`.
    pub fn memory_at(&self, addr: usize) -> (r: u8)
        requires
            self@.wf(),
            addr < MEMORY_SIZE,
        ensures
            r == self@.memory[addr as int],
    {
        self.memory[addr]
    }

    /// Decrements the delay and sound timers by one each, stopping at zero.
    pub fn tick_timers(&mut self)
        ensures
            final(self)@ == (ChipState {
                dt: if old(self)@.dt == 0 { 0u8 } else { (old(self)@.dt - 1) as u8 },
                st: if old(self)@.st == 0 { 0u8 } else { (old(self)@.st - 1) as u8 },
                ..old(self)@
            }),
    {
        if self.dt > 0 {
            self.dt = self.dt - 1;
        }
        if self.st > 0 {
            self.st = self.st - 1;
        }
    }

    /// Display width in pixels.
    pub fn buffer_width() -> (r: usize)
        ensures
            r == 64,
    {
        DISPLAY_WIDTH
    }

    /// Display height in pixels.
    pub fn buffer_height() -> (r: usize)
        ensures
            r == 32,
    {
        DISPLAY_HEIGHT
    }

    /// Whether pixel `(x, y)` is lit.
    pub fn get_buffer(&self, x: usize, y: usize) -> (r: bool)
        requires
            self@.wf(),
            x < DISPLAY_WIDTH,
            y < DISPLAY_HEIGHT,
        ensures
            r == self@.display[y * 64 + x],
    {
        self.display_buffer[y * DISPLAY_WIDTH + x]
    }

    fn set_buffer(&mut self, x: usize, y: usize, val: bool)
        requires
            old(self)@.wf(),
            x < DISPLAY_WIDTH,
            y < DISPLAY_HEIGHT,
        ensures
            final(self)@ == (ChipState {
                display: old(self)@.display.update(y * 64 + x, val),
                ..old(self)@
            }),
    {
        self.display_buffer.set(y * DISPLAY_WIDTH + x, val);
    }

    fn cls(&mut self)
        requires
            old(self)@.wf(),
        ensures
            final(self)@ == (ChipState { display: Seq::new(2048, |k: int| false), ..old(self)@ }),
    {
        let mut y: usize = 0;
        while y < DISPLAY_HEIGHT
            invariant
                self@.wf(),
                y <= DISPLAY_HEIGHT,
                self@ == (ChipState { display: self@.display, ..old(self)@ }),
                forall|k: int| 0 <= k < y * 64 ==> !#[trigger] self@.display[k],
            decreases DISPLAY_HEIGHT - y,
        {
            let mut x: usize = 0;
            while x < DISPLAY_WIDTH
                invariant
                    self@.wf(),
                    y < DISPLAY_HEIGHT,
                    x <= DISPLAY_WIDTH,
                    self@ == (ChipState { display: self@.display, ..old(self)@ }),
                    forall|k: int| 0 <= k < y * 64 + x ==> !#[trigger] self@.display[k],
                decreases DISPLAY_WIDTH - x,
            {
                self.set_buffer(x, y, false);
                x += 1;
            }
            y += 1;
        }
        assert(self@.display =~= Seq::new(2048, |k: int| false));
    }

    fn ret(&mut self) -> (r: Result<(), ChipError>)
        requires
            old(self)@.wf(),
        ensures
            execute_spec(old(self)@, Instruction::Ret, 0) == ran_as(r, final(self)@),
            r is Err ==> final(self)@ == old(self)@,
    {
        if self.sp == 0 {
            return Err(ChipError::StackUnderflow);
        }
        self.pc = self.stack[self.sp as usize];
        self.sp = self.sp - 1;
        Ok(())
    }

    fn jp(&mut self, addr: u16)
        ensures
            final(self)@ == (ChipState { pc: addr, ..old(self)@ }),
    {
        self.pc = addr;
    }

    fn call(&mut self, addr: u16) -> (r: Result<(), ChipError>)
        requires
            old(self)@.wf(),
        ensures
            execute_spec(old(self)@, Instruction::Call(addr), 0) == ran_as(r, final(self)@),
            r is Err ==> final(self)@ == old(self)@,
    {
        if self.sp as usize + 1 >= STACK_SIZE {
            return Err(ChipError::StackOverflow);
        }
        self.sp = self.sp + 1;
        self.stack.set(self.sp as usize, self.pc);
        self.pc = addr;
        Ok(())
    }

    /// Moves the program counter past the next instruction when `cond` holds.
    fn skip_if(&mut self, cond: bool) -> (r: Result<(), ChipError>)
        ensures
            old(self)@.skip_if(cond) == match r {
                Ok(()) => Ok(final(self)@),
                Err(e) => Err(e),
            },
            r is Err ==> final(self)@ == old(self)@,
    {
        if cond {
            if self.pc > 0xFFFF - 2 {
                return Err(ChipError::OutOfBoundsAccess);
            }
            self.pc = self.pc + 2;
        }
        Ok(())
    }

    fn se_vx_byte(&mut self, x: u8, byte: u8) -> (r: Result<(), ChipError>)
        requires
            old(self)@.wf(),
            x < 16,
        ensures
            execute_spec(old(self)@, Instruction::SeVxByte(x, byte), 0) == ran_as(r, final(self)@),
            r is Err ==> final(self)@ == old(self)@,
    {
        let cond = self.get_reg(x) == byte;
        self.skip_if(cond)
    }

    fn sne_vx_byte(&mut self, x: u8, byte: u8) -> (r: Result<(), ChipError>)
        requires
            old(self)@.wf(),
            x < 16,
        ensures
            execute_spec(old(self)@, Instruction::SneVxByte(x, byte), 0) == ran_as(r, final(self)@),
            r is Err ==> final(self)@ == old(self)@,
    {
        let cond = self.get_reg(x) != byte;
        self.skip_if(cond)
    }

    fn se_vx_vy(&mut self, x: u8, y: u8) -> (r: Result<(), ChipError>)
        requires
            old(self)@.wf(),
            x < 16,
            y < 16,
        ensures
            execute_spec(old(self)@, Instruction::SeVxVy(x, y), 0) == ran_as(r, final(self)@),
            r is Err ==> final(self)@ == old(self)@,
    {
        let cond = self.get_reg(x) == self.get_reg(y);
        self.skip_if(cond)
    }

    fn sne_vx_vy(&mut self, x: u8, y: u8) -> (r: Result<(), ChipError>)
        requires
            old(self)@.wf(),
            x < 16,
            y < 16,
        ensures
            execute_spec(old(self)@, Instruction::SneVxVy(x, y), 0) == ran_as(r, final(self)@),
            r is Err ==> final(self)@ == old(self)@,
    {
        let cond = self.get_reg(x) != self.get_reg(y);
        self.skip_if(cond)
    }

    fn ld_vx_byte(&mut self, x: u8, byte: u8)
        requires
            old(self)@.wf(),
            x < 16,
        ensures
            final(self)@ == old(self)@.with_reg(x as int, byte),
    {
        self.set_reg(x, byte)
    }

    fn add_vx_byte(&mut self, x: u8, byte: u8)
        requires
            old(self)@.wf(),
            x < 16,
        ensures
            final(self)@ == old(self)@.with_reg(x as int, ((old(self)@.v[x as int] + byte) % 256) as u8),
    {
        let new_val = self.get_reg(x).wrapping_add(byte);
        self.set_reg(x, new_val);
    }

    fn ld_vx_vy(&mut self, x: u8, y: u8)
        requires
            old(self)@.wf(),
            x < 16,
            y < 16,
        ensures
            final(self)@ == old(self)@.with_reg(x as int, old(self)@.v[y as int]),
    {
        let new_val = self.get_reg(y);
        self.set_reg(x, new_val);
    }

    fn or_vx_vy(&mut self, x: u8, y: u8)
        requires
            old(self)@.wf(),
            x < 16,
            y < 16,
        ensures
            final(self)@ == old(self)@.with_reg(
                x as int,
                old(self)@.v[x as int] | old(self)@.v[y as int],
            ),
    {
        let new_val = self.get_reg(x) | self.get_reg(y);
        self.set_reg(x, new_val);
    }

    fn and_vx_vy(&mut self, x: u8, y: u8)
        requires
            old(self)@.wf(),
            x < 16,
            y < 16,
        ensures
            final(self)@ == old(self)@.with_reg(
                x as int,
                old(self)@.v[x as int] & old(self)@.v[y as int],
            ),
    {
        let new_val = self.get_reg(x) & self.get_reg(y);
        self.set_reg(x, new_val);
    }

    fn xor_vx_vy(&mut self, x: u8, y: u8)
        requires
            old(self)@.wf(),
            x < 16,
            y < 16,
        ensures
            final(self)@ == old(self)@.with_reg(
                x as int,
                old(self)@.v[x as int] ^ old(self)@.v[y as int],
            ),
    {
        let new_val = self.get_reg(x) ^ self.get_reg(y);
        self.set_reg(x, new_val);
    }

    fn add_vx_vy(&mut self, x: u8, y: u8)
        requires
            old(self)@.wf(),
            x < 16,
            y < 16,
        ensures
            ({
                let (a, b) = (old(self)@.v[x as int], old(self)@.v[y as int]);
                final(self)@ == old(self)@.with_result(x as int, ((a + b) % 256) as u8, a + b >= 256)
            }),
    {
        let a = self.get_reg(x);
        let b = self.get_reg(y);
        let new_val = a.wrapping_add(b);
        let carry = a as u16 + b as u16 >= 256;
        self.set_vf(carry);
        self.set_reg(x, new_val);
    }

    fn sub_vx_vy(&mut self, x: u8, y: u8)
        requires
            old(self)@.wf(),
            x < 16,
            y < 16,
        ensures
            ({
                let (a, b) = (old(self)@.v[x as int], old(self)@.v[y as int]);
                final(self)@ == old(self)@.with_result(x as int, ((a - b) % 256) as u8, a >= b)
            }),
    {
        let a = self.get_reg(x);
        let b = self.get_reg(y);
        let new_val = a.wrapping_sub(b);
        self.set_vf(a >= b);
        self.set_reg(x, new_val);
    }

    fn subn_vx_vy(&mut self, x: u8, y: u8)
        requires
            old(self)@.wf(),
            x < 16,
            y < 16,
        ensures
            ({
                let (a, b) = (old(self)@.v[x as int], old(self)@.v[y as int]);
                final(self)@ == old(self)@.with_result(x as int, ((b - a) % 256) as u8, b >= a)
            }),
    {
        let a = self.get_reg(x);
        let b = self.get_reg(y);
        let new_val = b.wrapping_sub(a);
        self.set_vf(b >= a);
        self.set_reg(x, new_val);
    }

    fn shr_vx(&mut self, x: u8)
        requires
            old(self)@.wf(),
            x < 16,
        ensures
            ({
                let a = old(self)@.v[x as int];
                final(self)@ == old(self)@.with_result(x as int, a / 2, a % 2 == 1)
            }),
    {
        let old_val = self.get_reg(x);
        let new_val = old_val >> 1u8;
        let low_bit = (old_val & 0x01) != 0;
        proof {
            assert(old_val >> 1u8 == old_val / 2 && ((old_val & 0x01) != 0) == (old_val % 2 == 1))
                by (bit_vector);
        }
        self.set_vf(low_bit);
        self.set_reg(x, new_val);
    }

    fn shl_vx(&mut self, x: u8)
        requires
            old(self)@.wf(),
            x < 16,
        ensures
            ({
                let a = old(self)@.v[x as int];
                final(self)@ == old(self)@.with_result(x as int, ((a * 2) % 256) as u8, a >= 128)
            }),
    {
        let old_val = self.get_reg(x);
        let new_val = old_val << 1u8;
        let high_bit = (old_val & 0x80) != 0;
        proof {
            assert(old_val << 1u8 == ((old_val * 2) % 256) as u8 && ((old_val & 0x80) != 0) == (
            old_val >= 128)) by (bit_vector);
        }
        self.set_vf(high_bit);
        self.set_reg(x, new_val);
    }

    fn ld_i_addr(&mut self, addr: u16)
        ensures
            final(self)@ == (ChipState { i: addr, ..old(self)@ }),
    {
        self.i = addr;
    }

    fn jp_v0_addr(&mut self, addr: u16)
        requires
            old(self)@.wf(),
            addr < 4096,
        ensures
            final(self)@ == (ChipState { pc: (old(self)@.v[0] + addr) as u16, ..old(self)@ }),
    {
        self.pc = self.get_reg(0) as u16 + addr;
    }

    /// Draws a random byte from the generator, masks it with `byte`, and
    /// stores it in register `x`.
    fn rnd_vx_byte(&mut self, x: u8, byte: u8)
        requires
            old(self)@.wf(),
            x < 16,
        ensures
            final(self)@ == (ChipState { rng: lcg_next(old(self)@.rng), ..old(self)@ }).with_reg(
                x as int,
                random_byte(lcg_next(old(self)@.rng)) & byte,
            ),
    {
        self.rng_state = next_state(self.rng_state);
        let rand_byte = byte_of_state(self.rng_state);
        let new_val = rand_byte & byte;
        self.set_reg(x, new_val);
    }

    fn skp_vx(&mut self, x: u8, keys: u16) -> (r: Result<(), ChipError>)
        requires
            old(self)@.wf(),
            x < 16,
        ensures
            execute_spec(old(self)@, Instruction::SkpVx(x), keys) == ran_as(r, final(self)@),
            r is Err ==> final(self)@ == old(self)@,
    {
        let down = is_key_down(keys, self.get_reg(x));
        self.skip_if(down)
    }

    fn sknp_vx(&mut self, x: u8, keys: u16) -> (r: Result<(), ChipError>)
        requires
            old(self)@.wf(),
            x < 16,
        ensures
            execute_spec(old(self)@, Instruction::SknpVx(x), keys) == ran_as(r, final(self)@),
            r is Err ==> final(self)@ == old(self)@,
    {
        let down = is_key_down(keys, self.get_reg(x));
        self.skip_if(!down)
    }

    fn ld_vx_dt(&mut self, x: u8)
        requires
            old(self)@.wf(),
            x < 16,
        ensures
            final(self)@ == old(self)@.with_reg(x as int, old(self)@.dt),
    {
        let dt = self.dt;
        self.set_reg(x, dt);
    }

    /// Stores the lowest key that is down in register `x`. While no key is
    /// down, it sets the program counter back onto this instruction, which
    /// was fetched from 2 bytes before it, and reports that it waits.
    fn ld_vx_k(&mut self, x: u8, keys: u16) -> (r: Result<Status, ChipError>)
        requires
            old(self)@.wf(),
            x < 16,
        ensures
            match execute_spec(old(self)@, Instruction::LdVxK(x), keys) {
                Ok((t, status)) => r == Ok::<Status, ChipError>(status) && final(self)@ == t,
                Err(e) => r == Err::<Status, ChipError>(e) && final(self)@ == old(self)@,
            },
    {
        let k = first_key_down(keys);
        if k == 16 {
            if self.pc < 2 {
                return Err(ChipError::OutOfBoundsAccess);
            }
            self.pc = self.pc - 2;
            Ok(Status::AwaitingKey)
        } else {
            self.set_reg(x, k);
            Ok(Status::Ran)
        }
    }

    fn ld_dt_vx(&mut self, x: u8)
        requires
            old(self)@.wf(),
            x < 16,
        ensures
            final(self)@ == (ChipState { dt: old(self)@.v[x as int], ..old(self)@ }),
    {
        self.dt = self.get_reg(x);
    }

    fn ld_st_vx(&mut self, x: u8)
        requires
            old(self)@.wf(),
            x < 16,
        ensures
            final(self)@ == (ChipState { st: old(self)@.v[x as int], ..old(self)@ }),
    {
        self.st = self.get_reg(x);
    }

    fn add_i_vx(&mut self, x: u8) -> (r: Result<(), ChipError>)
        requires
            old(self)@.wf(),
            x < 16,
        ensures
            execute_spec(old(self)@, Instruction::AddIVx(x), 0) == ran_as(r, final(self)@),
            r is Err ==> final(self)@ == old(self)@,
    {
        let val = self.get_reg(x) as u16;
        if self.i > 0xFFFF - val {
            return Err(ChipError::OutOfBoundsAccess);
        }
        self.i = self.i + val;
        Ok(())
    }

    /// Points the index register at the glyph of the digit in register `x`.
    fn ld_f_vx(&mut self, x: u8) -> (r: Result<(), ChipError>)
        requires
            old(self)@.wf(),
            x < 16,
        ensures
            execute_spec(old(self)@, Instruction::LdFVx(x), 0) == ran_as(r, final(self)@),
            r is Err ==> final(self)@ == old(self)@,
    {
        let digit_wanted = self.get_reg(x);
        if digit_wanted > 0xF {
            return Err(ChipError::InvalidDigit);
        }
        self.i = digit_wanted as u16 * 5;
        Ok(())
    }

    /// Stores the hundreds, tens and ones digits of register `x` at the index
    /// register and the two addresses after it.
    fn ld_b_vx(&mut self, x: u8) -> (r: Result<(), ChipError>)
        requires
            old(self)@.wf(),
            x < 16,
        ensures
            execute_spec(old(self)@, Instruction::LdBVx(x), 0) == ran_as(r, final(self)@),
            r is Err ==> final(self)@ == old(self)@,
    {
        let base = self.i as usize;
        if base + 2 >= MEMORY_SIZE {
            return Err(ChipError::OutOfBoundsAccess);
        }
        let value = self.get_reg(x);
        let hundreds = value / 100;
        let tens = (value % 100) / 10;
        let ones = value % 10;
        self.memory.set(base, hundreds);
        self.memory.set(base + 1, tens);
        self.memory.set(base + 2, ones);
        Ok(())
    }

    /// Copies registers `0..=x` to memory starting at the index register.
    fn ld_i_vx(&mut self, x: u8) -> (r: Result<(), ChipError>)
        requires
            old(self)@.wf(),
            x < 16,
        ensures
            execute_spec(old(self)@, Instruction::LdIVx(x), 0) == ran_as(r, final(self)@),
            r is Err ==> final(self)@ == old(self)@,
    {
        let base = self.i as usize;
        if base + x as usize >= MEMORY_SIZE {
            return Err(ChipError::OutOfBoundsAccess);
        }
        let mut idx: u8 = 0;
        while idx <= x
            invariant
                old(self)@.wf(),
                x < 16,
                idx <= x + 1,
                base == old(self)@.i,
                base + x < 4096,
                self@ == (ChipState { memory: self@.memory, ..old(self)@ }),
                self@.memory.len() == 4096,
                forall|a: int|
                    0 <= a < 4096 ==> #[trigger] self@.memory[a] == if base <= a < base + idx {
                        old(self)@.v[a - base]
                    } else {
                        old(self)@.memory[a]
                    },
            decreases x + 1 - idx,
        {
            let val = self.get_reg(idx);
            self.memory.set(base + idx as usize, val);
            idx += 1;
        }
        assert(self@.memory =~= old(self)@.after_store(x).memory);
        Ok(())
    }

    /// Loads registers `0..=x` from memory starting at the index register.
    fn ld_vx_i(&mut self, x: u8) -> (r: Result<(), ChipError>)
        requires
            old(self)@.wf(),
            x < 16,
        ensures
            execute_spec(old(self)@, Instruction::LdVxI(x), 0) == ran_as(r, final(self)@),
            r is Err ==> final(self)@ == old(self)@,
    {
        let base = self.i as usize;
        if base + x as usize >= MEMORY_SIZE {
            return Err(ChipError::OutOfBoundsAccess);
        }
        let mut idx: u8 = 0;
        while idx <= x
            invariant
                old(self)@.wf(),
                x < 16,
                idx <= x + 1,
                base == old(self)@.i,
                base + x < 4096,
                self@ == (ChipState { v: self@.v, ..old(self)@ }),
                self@.v.len() == 16,
                forall|j: int|
                    0 <= j < 16 ==> #[trigger] self@.v[j] == if j < idx {
                        old(self)@.memory[base + j]
                    } else {
                        old(self)@.v[j]
                    },
            decreases x + 1 - idx,
        {
            let new_val = self.memory[base + idx as usize];
            self.set_reg(idx, new_val);
            idx += 1;
        }
        assert(self@.v =~= old(self)@.after_load(x).v);
        Ok(())
    }

    /// XOR-draws the `nibble` sprite rows found at the index register with
    /// their top-left corner at `(Vx, Vy)`, wrapping at the edges, and sets
    /// the flag register to whether a lit pixel was turned off.
    fn drw_vx_vy_nibble(&mut self, x: u8, y: u8, nibble: u8) -> (r: Result<(), ChipError>)
        requires
            old(self)@.wf(),
            x < 16,
            y < 16,
            nibble < 16,
        ensures
            execute_spec(old(self)@, Instruction::DrwVxVyNibble(x, y, nibble), 0) == ran_as(
                r,
                final(self)@,
            ),
            r is Err ==> final(self)@ == old(self)@,
    {
        let base = self.i as usize;
        if base + nibble as usize > MEMORY_SIZE {
            return Err(ChipError::OutOfBoundsAccess);
        }
        let vx = self.get_reg(x);
        let vy = self.get_reg(y);
        let ghost s0 = self@;
        let ghost d = s0.display;
        let ghost rows = s0.sprite_rows(nibble);
        let mut collision = false;
        let mut dy: u8 = 0;
        proof {
            lemma_draw_start(d, rows, vx, vy);
        }
        while dy < nibble
            invariant
                s0 == old(self)@,
                s0.wf(),
                d == s0.display,
                dy <= nibble,
                nibble < 16,
                base == s0.i,
                base + nibble <= 4096,
                rows == s0.sprite_rows(nibble),
                self@ == (ChipState { display: self@.display, ..s0 }),
                self@.display == drawn_upto(d, rows, vx, vy, dy as int, 0),
                collision == collides_upto(d, rows, vx, vy, dy as int, 0),
            decreases nibble - dy,
        {
            let byte = self.memory[base + dy as usize];
            let mut dx: u8 = 0;
            while dx < 8
                invariant
                    s0.wf(),
                    d == s0.display,
                    dy < nibble,
                    dx <= 8,
                    nibble < 16,
                    rows.len() == nibble,
                    byte == rows[dy as int],
                    self@ == (ChipState { display: self@.display, ..s0 }),
                    self@.display == drawn_upto(d, rows, vx, vy, dy as int, dx as int),
                    collision == collides_upto(d, rows, vx, vy, dy as int, dx as int),
                decreases 8 - dx,
            {
                let px = (vx as usize + dx as usize) % DISPLAY_WIDTH;
                let py = (vy as usize + dy as usize) % DISPLAY_HEIGHT;
                proof {
                    lemma_sprite_position(vx, vy, dx as int, dy as int);
                    lemma_draw_step(d, rows, vx, vy, dy as int, dx as int);
                }
                if (byte >> (7 - dx)) & 1 == 1 {
                    let on = self.get_buffer(px, py);
                    collision = collision || on;
                    self.set_buffer(px, py, !on);
                }
                dx += 1;
            }
            proof {
                lemma_draw_next_row(d, rows, vx, vy, dy as int);
            }
            dy += 1;
        }
        proof {
            lemma_draw_done(d, rows, vx, vy);
        }
        self.set_vf(collision);
        Ok(())
    }
}

/// Whether display position `k` lies before column `dx` of row `dy` in the
/// row-by-row order in which a sprite drawn at `(vx, vy)` is visited.
spec fn visited(vx: u8, vy: u8, dy: int, dx: int, k: int) -> bool {
    sprite_dy(vy, k) < dy || (sprite_dy(vy, k) == dy && sprite_dx(vx, k) < dx)
}

/// The display once the sprite's bits before column `dx` of row `dy` are drawn.
spec fn drawn_upto(display: Seq<bool>, rows: Seq<u8>, vx: u8, vy: u8, dy: int, dx: int) -> Seq<bool> {
    Seq::new(
        2048,
        |k: int|
            if visited(vx, vy, dy, dx, k) && sprite_covers(rows, vx, vy, k) {
                !display[k]
            } else {
                display[k]
            },
    )
}

/// Whether a lit pixel at position `k` is turned off by the sprite before
/// column `dx` of row `dy`.
spec fn hit_upto(display: Seq<bool>, rows: Seq<u8>, vx: u8, vy: u8, dy: int, dx: int, k: int) -> bool {
    0 <= k < 2048 && visited(vx, vy, dy, dx, k) && sprite_covers(rows, vx, vy, k) && display[k]
}

spec fn collides_upto(display: Seq<bool>, rows: Seq<u8>, vx: u8, vy: u8, dy: int, dx: int) -> bool {
    exists|k: int| #[trigger] hit_upto(display, rows, vx, vy, dy, dx, k)
}

proof fn lemma_draw_start(d: Seq<bool>, rows: Seq<u8>, vx: u8, vy: u8)
    requires
        d.len() == 2048,
    ensures
        drawn_upto(d, rows, vx, vy, 0, 0) == d,
        !collides_upto(d, rows, vx, vy, 0, 0),
{
    assert(drawn_upto(d, rows, vx, vy, 0, 0) =~= d);
}

/// Visiting column `dx` of row `dy` toggles the one position it lands on,
/// where the sprite's bit there is set, and records a collision where that
/// pixel was lit.
proof fn lemma_draw_step(d: Seq<bool>, rows: Seq<u8>, vx: u8, vy: u8, dy: int, dx: int)
    requires
        d.len() == 2048,
        0 <= dx < 8,
        0 <= dy < rows.len(),
        rows.len() < 16,
    ensures
        ({
            let k0 = ((vy + dy) % 32) * 64 + (vx + dx) % 64;
            let covered = sprite_bit(rows[dy], dx as u8);
            &&& sprite_covers(rows, vx, vy, k0) == covered
            &&& drawn_upto(d, rows, vx, vy, dy, dx)[k0] == d[k0]
            &&& drawn_upto(d, rows, vx, vy, dy, dx + 1) == if covered {
                drawn_upto(d, rows, vx, vy, dy, dx).update(k0, !d[k0])
            } else {
                drawn_upto(d, rows, vx, vy, dy, dx)
            }
            &&& collides_upto(d, rows, vx, vy, dy, dx + 1) == (collides_upto(d, rows, vx, vy, dy, dx)
                || (covered && d[k0]))
        }),
{
    let k0 = ((vy + dy) % 32) * 64 + (vx + dx) % 64;
    let covered = sprite_bit(rows[dy], dx as u8);
    let ndx = dx + 1;
    lemma_sprite_position(vx, vy, dx, dy);
    let next = drawn_upto(d, rows, vx, vy, dy, ndx);
    let cur = drawn_upto(d, rows, vx, vy, dy, dx);
    if covered {
        assert(next =~= cur.update(k0, !d[k0]));
    } else {
        assert(next =~= cur);
    }
    if collides_upto(d, rows, vx, vy, dy, dx) {
        let k = choose|k: int| hit_upto(d, rows, vx, vy, dy, dx, k);
        assert(hit_upto(d, rows, vx, vy, dy, ndx, k));
    }
    if covered && d[k0] {
        assert(hit_upto(d, rows, vx, vy, dy, ndx, k0));
    }
    if collides_upto(d, rows, vx, vy, dy, ndx) {
        let k = choose|k: int| hit_upto(d, rows, vx, vy, dy, ndx, k);
        if !visited(vx, vy, dy, dx, k) {
            assert(k == k0);
        } else {
            assert(hit_upto(d, rows, vx, vy, dy, dx, k));
        }
    }
}

/// A row visited up to its eighth column is the same as the next row not yet begun.
proof fn lemma_draw_next_row(d: Seq<bool>, rows: Seq<u8>, vx: u8, vy: u8, dy: int)
    ensures
        drawn_upto(d, rows, vx, vy, dy, 8) == drawn_upto(d, rows, vx, vy, dy + 1, 0),
        collides_upto(d, rows, vx, vy, dy, 8) == collides_upto(d, rows, vx, vy, dy + 1, 0),
{
    let ndy = dy + 1;
    assert(drawn_upto(d, rows, vx, vy, dy, 8) =~= drawn_upto(d, rows, vx, vy, ndy, 0));
    if collides_upto(d, rows, vx, vy, dy, 8) {
        let k = choose|k: int| hit_upto(d, rows, vx, vy, dy, 8, k);
        assert(hit_upto(d, rows, vx, vy, ndy, 0, k));
    }
    if collides_upto(d, rows, vx, vy, ndy, 0) {
        let k = choose|k: int| hit_upto(d, rows, vx, vy, ndy, 0, k);
        assert(hit_upto(d, rows, vx, vy, dy, 8, k));
    }
}

/// Once every row is visited, the display and the collision are those of the whole draw.
proof fn lemma_draw_done(d: Seq<bool>, rows: Seq<u8>, vx: u8, vy: u8)
    requires
        d.len() == 2048,
    ensures
        drawn_upto(d, rows, vx, vy, rows.len() as int, 0) == drawn(d, rows, vx, vy),
        collides_upto(d, rows, vx, vy, rows.len() as int, 0) == collides(d, rows, vx, vy),
{
    let n = rows.len() as int;
    assert(drawn_upto(d, rows, vx, vy, n, 0) =~= drawn(d, rows, vx, vy));
    if collides_upto(d, rows, vx, vy, n, 0) {
        let k = choose|k: int| hit_upto(d, rows, vx, vy, n, 0, k);
        assert(sprite_covers(rows, vx, vy, k));
    }
    if collides(d, rows, vx, vy) {
        let k = choose|k: int| 0 <= k < d.len() && #[trigger] sprite_covers(rows, vx, vy, k) && d[k];
        assert(hit_upto(d, rows, vx, vy, n, 0, k));
    }
}

/// Whether key `k` is down in `keys`.
fn is_key_down(keys: u16, k: u8) -> (r: bool)
    ensures
        r == key_down(keys, k as int),
{
    k < 16 && (keys >> (k as u16)) & 1 == 1
}

/// The lowest key that is down in `keys`, or 16 where none is.
fn first_key_down(keys: u16) -> (r: u8)
    ensures
        r == lowest_key_down(keys, 0),
{
    let mut k: u8 = 0;
    while k < 16
        invariant
            k <= 16,
            lowest_key_down(keys, 0) == lowest_key_down(keys, k as int),
        decreases 16 - k,
    {
        if is_key_down(keys, k) {
            return k;
        }
        k += 1;
    }
    16
}

/// The display position that column `dx` and row `dy` of a sprite drawn at
/// `(vx, vy)` land on, and the only one whose offsets are `(dx, dy)`.
proof fn lemma_sprite_position(vx: u8, vy: u8, dx: int, dy: int)
    requires
        0 <= dx < 8,
        0 <= dy < 16,
    ensures
        ({
            let k0 = ((vy + dy) % 32) * 64 + (vx + dx) % 64;
            &&& 0 <= k0 < 2048
            &&& sprite_dx(vx, k0) == dx
            &&& sprite_dy(vy, k0) == dy
            &&& forall|k: int|
                0 <= k < 2048 && sprite_dx(vx, k) == dx && sprite_dy(vy, k) == dy ==> k == k0
        }),
{
    let px = (vx + dx) % 64;
    let py = (vy + dy) % 32;
    let k0 = py * 64 + px;
    assert(k0 % 64 == px && k0 / 64 == py) by (nonlinear_arith)
        requires k0 == py * 64 + px, 0 <= px < 64, 0 <= py < 32;
    assert((px - vx) % 64 == dx) by (nonlinear_arith)
        requires px == (vx + dx) % 64, 0 <= dx < 8, 0 <= vx < 256;
    assert((py - vy) % 32 == dy) by (nonlinear_arith)
        requires py == (vy + dy) % 32, 0 <= dy < 16, 0 <= vy < 256;
    assert forall|k: int|
        0 <= k < 2048 && sprite_dx(vx, k) == dx && sprite_dy(vy, k) == dy implies k == k0 by {
        let qx = k % 64;
        let qy = k / 64;
        assert(k == qy * 64 + qx && 0 <= qx < 64 && 0 <= qy < 32) by (nonlinear_arith)
            requires qx == k % 64, qy == k / 64, 0 <= k < 2048;
        assert(qx == px) by (nonlinear_arith)
            requires (qx - vx) % 64 == dx, px == (vx + dx) % 64, 0 <= qx < 64;
        assert(qy == py) by (nonlinear_arith)
            requires (qy - vy) % 32 == dy, py == (vy + dy) % 32, 0 <= qy < 32;
    }
}

} // verus!
