use vstd::prelude::*;

use crate::error::ChipError;
use crate::instruction::{decode_spec, Instruction};
use crate::rng::{lcg_next, random_byte};
use crate::state::{execute_spec, step_spec, ChipState, Status};

verus! {

/// The state that `ins` leaves behind when it runs to completion from `s`.
pub open spec fn ran_state(s: ChipState, ins: Instruction, keys: u16) -> ChipState {
    execute_spec(s, ins, keys)->Ok_0.0
}

/// Whether `ins` runs to completion from `s`, leaving register `x` at
/// `result`, the flag register at `flag` unless `x` is the flag register
/// itself, and every other register as it was.
pub open spec fn writes_result(s: ChipState, ins: Instruction, keys: u16, x: int, result: int, flag: bool) -> bool {
    let r = execute_spec(s, ins, keys);
    let t = ran_state(s, ins, keys);
    &&& r is Ok
    &&& r->Ok_0.1 == Status::Ran
    &&& t.v.len() == 16
    &&& t.v[x] == result
    &&& x != 15 ==> t.v[15] == (if flag { 1u8 } else { 0u8 })
    &&& forall|j: int| 0 <= j < 16 && j != x && j != 15 ==> t.v[j] == s.v[j]
}

/// Arithmetic on registers `x` and `y`, with values `a` and `b`, wraps modulo
/// 256 and reports its carry, borrow or shifted-out bit in the flag register:
/// addition gives `a + b` with flag `a + b >= 256`; subtraction `a - b` with
/// flag `a >= b`; reversed subtraction `b - a` with flag `b >= a`; a right
/// shift `a / 2` with the low bit of `a`; a left shift `2 * a` with the high
/// bit of `a`. Where `x` is the flag register, the result overwrites the flag.
pub proof fn lemma_alu_results(s: ChipState, x: u8, y: u8, keys: u16)
    requires
        s.wf(),
        x < 16,
        y < 16,
    ensures
        ({
            let (a, b) = (s.v[x as int] as int, s.v[y as int] as int);
            &&& writes_result(s, Instruction::AddVxVy(x, y), keys, x as int, (a + b) % 256, a + b >= 256)
            &&& writes_result(s, Instruction::SubVxVy(x, y), keys, x as int, (a - b) % 256, a >= b)
            &&& writes_result(s, Instruction::SubnVxVy(x, y), keys, x as int, (b - a) % 256, b >= a)
            &&& writes_result(s, Instruction::ShrVx(x), keys, x as int, a / 2, a % 2 == 1)
            &&& writes_result(s, Instruction::ShlVx(x), keys, x as int, (2 * a) % 256, a >= 128)
        }),
{
}

/// Storing registers `0..=x` at the index register and loading them straight
/// back restores every register.
pub proof fn lemma_store_then_load(s: ChipState, x: u8, keys: u16)
    requires
        s.wf(),
        x < 16,
        s.i + x < 4096,
    ensures
        ({
            let stored = execute_spec(s, Instruction::LdIVx(x), keys);
            let loaded = execute_spec(ran_state(s, Instruction::LdIVx(x), keys), Instruction::LdVxI(x), keys);
            &&& stored is Ok
            &&& loaded is Ok
            &&& ran_state(ran_state(s, Instruction::LdIVx(x), keys), Instruction::LdVxI(x), keys).v == s.v
        }),
{
    let t = ran_state(s, Instruction::LdIVx(x), keys);
    let u = ran_state(t, Instruction::LdVxI(x), keys);
    assert(u.v =~= s.v);
}

/// A random draw depends on the generator state alone: from two states whose
/// generators agree, the same draw stores the same masked byte and leaves the
/// generators agreeing again.
pub proof fn lemma_random_draw_determined_by_seed(
    s1: ChipState,
    s2: ChipState,
    x: u8,
    mask: u8,
    keys1: u16,
    keys2: u16,
)
    requires
        s1.wf(),
        s2.wf(),
        x < 16,
        s1.rng == s2.rng,
    ensures
        ({
            let ins = Instruction::RndVxByte(x, mask);
            let t1 = ran_state(s1, ins, keys1);
            let t2 = ran_state(s2, ins, keys2);
            &&& execute_spec(s1, ins, keys1) is Ok
            &&& execute_spec(s2, ins, keys2) is Ok
            &&& t1.v[x as int] == t2.v[x as int]
            &&& t1.v[x as int] == random_byte(lcg_next(s1.rng)) & mask
            &&& t1.rng == t2.rng
            &&& t1.rng == lcg_next(s1.rng)
        }),
{
}

/// A step that runs an equality test against an immediate moves the program
/// counter 4 bytes on when the register equals the immediate and 2 when not.
pub proof fn lemma_skip_distance(s: ChipState, keys: u16)
    requires
        s.wf(),
        s.pc + 1 < 4096,
        decode_spec(s.memory[s.pc as int], s.memory[s.pc + 1]) matches Some(
            Instruction::SeVxByte(_, _),
        ),
    ensures
        ({
            let ins = decode_spec(s.memory[s.pc as int], s.memory[s.pc + 1])->Some_0;
            let (t, r) = step_spec(s, keys);
            &&& r is Ok
            &&& t.pc == if s.v[ins->SeVxByte_0 as int] == ins->SeVxByte_1 {
                s.pc + 4
            } else {
                s.pc + 2
            }
        }),
{
}

/// Only a random draw advances the generator: every other instruction that
/// completes leaves the generator state as it was.
pub proof fn lemma_only_draws_advance_generator(s: ChipState, ins: Instruction, keys: u16)
    requires
        s.wf(),
        ins.wf(),
        !(ins is RndVxByte),
        execute_spec(s, ins, keys) is Ok,
    ensures
        execute_spec(s, ins, keys)->Ok_0.0.rng == s.rng,
{
}

/// A call made with a free return slot, followed by a return, comes back to
/// the address after the call with the stack as deep as before.
pub proof fn lemma_call_then_return(s: ChipState, addr: u16, keys: u16)
    requires
        s.wf(),
        s.sp < 15,
    ensures
        ({
            let called = execute_spec(s, Instruction::Call(addr), keys);
            let t = ran_state(s, Instruction::Call(addr), keys);
            let returned = execute_spec(t, Instruction::Ret, keys);
            &&& called is Ok
            &&& t.pc == addr
            &&& t.sp == s.sp + 1
            &&& returned is Ok
            &&& ran_state(t, Instruction::Ret, keys).pc == s.pc
            &&& ran_state(t, Instruction::Ret, keys).sp == s.sp
        }),
{
}

/// A call made with every return slot in use fails with a stack overflow.
pub proof fn lemma_call_overflow(s: ChipState, addr: u16, keys: u16)
    requires
        s.wf(),
        s.sp == 15,
    ensures
        execute_spec(s, Instruction::Call(addr), keys) == Err::<(ChipState, Status), ChipError>(
            ChipError::StackOverflow,
        ),
{
}

} // verus!
