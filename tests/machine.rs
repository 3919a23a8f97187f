use chip_eight::{ChipEight, ChipError, Instruction, Status, StepRecord};

fn machine() -> ChipEight {
    ChipEight::new(&[], 0)
}

fn run(chip: &mut ChipEight, ins: Instruction) -> Result<Status, ChipError> {
    chip.execute(ins, 0)
}

fn load(chip: &mut ChipEight, reg: u8, val: u8) {
    assert_eq!(run(chip, Instruction::LdVxByte(reg, val)), Ok(Status::Ran));
}

#[test]
fn new_loads_font_and_program() {
    let chip = ChipEight::new(&[0x12, 0x34, 0x56], 7);
    assert_eq!(chip.pc(), 0x200);
    assert_eq!(chip.memory_at(0), 0xF0);
    assert_eq!(chip.memory_at(79), 0x80);
    assert_eq!(chip.memory_at(80), 0);
    assert_eq!(chip.memory_at(0x200), 0x12);
    assert_eq!(chip.memory_at(0x202), 0x56);
    assert_eq!(chip.memory_at(0x203), 0);
    assert_eq!(chip.index(), 0);
    for r in 0..16u8 {
        assert_eq!(chip.get_reg(r), 0);
    }
    for x in 0..64usize {
        for y in 0..32usize {
            assert!(!chip.get_buffer(x, y));
        }
    }
}

#[test]
fn buffer_dimensions() {
    assert_eq!(ChipEight::buffer_width(), 64);
    assert_eq!(ChipEight::buffer_height(), 32);
}

#[test]
fn add_wraps_and_sets_carry() {
    let mut chip = machine();
    load(&mut chip, 1, 200);
    load(&mut chip, 2, 100);
    run(&mut chip, Instruction::AddVxVy(1, 2)).unwrap();
    assert_eq!(chip.get_reg(1), 44);
    assert_eq!(chip.get_reg(15), 1);
    load(&mut chip, 3, 5);
    run(&mut chip, Instruction::AddVxVy(3, 2)).unwrap();
    assert_eq!(chip.get_reg(3), 105);
    assert_eq!(chip.get_reg(15), 0);
}

#[test]
fn add_into_flag_register_keeps_result() {
    let mut chip = machine();
    load(&mut chip, 15, 200);
    load(&mut chip, 2, 100);
    run(&mut chip, Instruction::AddVxVy(15, 2)).unwrap();
    assert_eq!(chip.get_reg(15), 44);
}

#[test]
fn sub_and_subn_set_no_borrow_flag() {
    let mut chip = machine();
    load(&mut chip, 1, 10);
    load(&mut chip, 2, 3);
    run(&mut chip, Instruction::SubVxVy(1, 2)).unwrap();
    assert_eq!(chip.get_reg(1), 7);
    assert_eq!(chip.get_reg(15), 1);
    load(&mut chip, 1, 3);
    load(&mut chip, 2, 10);
    run(&mut chip, Instruction::SubVxVy(1, 2)).unwrap();
    assert_eq!(chip.get_reg(1), 249);
    assert_eq!(chip.get_reg(15), 0);
    load(&mut chip, 1, 3);
    load(&mut chip, 2, 10);
    run(&mut chip, Instruction::SubnVxVy(1, 2)).unwrap();
    assert_eq!(chip.get_reg(1), 7);
    assert_eq!(chip.get_reg(15), 1);
    load(&mut chip, 1, 10);
    load(&mut chip, 2, 3);
    run(&mut chip, Instruction::SubnVxVy(1, 2)).unwrap();
    assert_eq!(chip.get_reg(1), 249);
    assert_eq!(chip.get_reg(15), 0);
}

#[test]
fn shifts_report_shifted_out_bit() {
    let mut chip = machine();
    load(&mut chip, 4, 0b1000_0011);
    run(&mut chip, Instruction::ShrVx(4)).unwrap();
    assert_eq!(chip.get_reg(4), 0b0100_0001);
    assert_eq!(chip.get_reg(15), 1);
    load(&mut chip, 4, 0b1000_0010);
    run(&mut chip, Instruction::ShlVx(4)).unwrap();
    assert_eq!(chip.get_reg(4), 0b0000_0100);
    assert_eq!(chip.get_reg(15), 1);
    load(&mut chip, 4, 0b0100_0010);
    run(&mut chip, Instruction::ShlVx(4)).unwrap();
    assert_eq!(chip.get_reg(4), 0b1000_0100);
    assert_eq!(chip.get_reg(15), 0);
}

#[test]
fn bitwise_ops_leave_flag() {
    let mut chip = machine();
    load(&mut chip, 15, 9);
    load(&mut chip, 1, 0b1100);
    load(&mut chip, 2, 0b1010);
    run(&mut chip, Instruction::OrVxVy(1, 2)).unwrap();
    assert_eq!(chip.get_reg(1), 0b1110);
    load(&mut chip, 1, 0b1100);
    run(&mut chip, Instruction::AndVxVy(1, 2)).unwrap();
    assert_eq!(chip.get_reg(1), 0b1000);
    load(&mut chip, 1, 0b1100);
    run(&mut chip, Instruction::XorVxVy(1, 2)).unwrap();
    assert_eq!(chip.get_reg(1), 0b0110);
    assert_eq!(chip.get_reg(15), 9);
    run(&mut chip, Instruction::AddVxByte(1, 255)).unwrap();
    assert_eq!(chip.get_reg(1), 5);
    assert_eq!(chip.get_reg(15), 9);
}

#[test]
fn store_then_load_restores_registers() {
    let mut chip = machine();
    for r in 0..16u8 {
        load(&mut chip, r, r * 3 + 1);
    }
    run(&mut chip, Instruction::LdIAddr(0x300)).unwrap();
    run(&mut chip, Instruction::LdIVx(7)).unwrap();
    assert_eq!(chip.memory_at(0x300), 1);
    assert_eq!(chip.memory_at(0x307), 22);
    assert_eq!(chip.memory_at(0x308), 0);
    for r in 0..8u8 {
        load(&mut chip, r, 0);
    }
    run(&mut chip, Instruction::LdVxI(7)).unwrap();
    for r in 0..16u8 {
        assert_eq!(chip.get_reg(r), r * 3 + 1);
    }
}

#[test]
fn random_byte_from_seed_one() {
    let mut chip = ChipEight::new(&[], 1);
    run(&mut chip, Instruction::RndVxByte(0, 0xFF)).unwrap();
    assert_eq!(chip.get_reg(0), 0x7E);
}

#[test]
fn random_stream_is_reproducible() {
    let mut a = ChipEight::new(&[], 12345);
    let mut b = ChipEight::new(&[], 12345);
    for _ in 0..50 {
        run(&mut a, Instruction::RndVxByte(3, 0xFF)).unwrap();
        run(&mut b, Instruction::RndVxByte(3, 0xFF)).unwrap();
        assert_eq!(a.get_reg(3), b.get_reg(3));
    }
    let mut c = ChipEight::new(&[], 1);
    run(&mut c, Instruction::RndVxByte(2, 0x0F)).unwrap();
    assert_eq!(c.get_reg(2), 0x0E);
}

#[test]
fn draw_zero_glyph_twice_collides() {
    let mut chip = machine();
    run(&mut chip, Instruction::LdIAddr(0)).unwrap();
    run(&mut chip, Instruction::DrwVxVyNibble(0, 1, 5)).unwrap();
    assert_eq!(chip.get_reg(15), 0);
    let rows = [0xF0u8, 0x90, 0x90, 0x90, 0xF0];
    for y in 0..32usize {
        for x in 0..64usize {
            let lit = y < 5 && x < 8 && (rows[y] >> (7 - x)) & 1 == 1;
            assert_eq!(chip.get_buffer(x, y), lit);
        }
    }
    run(&mut chip, Instruction::DrwVxVyNibble(0, 1, 5)).unwrap();
    assert_eq!(chip.get_reg(15), 1);
    for y in 0..32usize {
        for x in 0..64usize {
            assert!(!chip.get_buffer(x, y));
        }
    }
}

#[test]
fn draw_wraps_around_edges() {
    let mut chip = machine();
    load(&mut chip, 1, 62);
    load(&mut chip, 2, 31);
    run(&mut chip, Instruction::LdIAddr(0)).unwrap();
    run(&mut chip, Instruction::DrwVxVyNibble(1, 2, 2)).unwrap();
    assert_eq!(chip.get_reg(15), 0);
    assert!(chip.get_buffer(62, 31));
    assert!(chip.get_buffer(63, 31));
    assert!(chip.get_buffer(0, 31));
    assert!(chip.get_buffer(1, 31));
    assert!(!chip.get_buffer(2, 31));
    assert!(chip.get_buffer(62, 0));
    assert!(!chip.get_buffer(63, 0));
    assert!(chip.get_buffer(1, 0));
}

#[test]
fn draw_without_overlap_does_not_collide() {
    let mut chip = machine();
    run(&mut chip, Instruction::LdIAddr(0)).unwrap();
    run(&mut chip, Instruction::DrwVxVyNibble(0, 0, 5)).unwrap();
    load(&mut chip, 1, 10);
    run(&mut chip, Instruction::DrwVxVyNibble(1, 0, 5)).unwrap();
    assert_eq!(chip.get_reg(15), 0);
    run(&mut chip, Instruction::Cls).unwrap();
    assert!(!chip.get_buffer(0, 0));
    assert!(!chip.get_buffer(10, 0));
}

#[test]
fn draw_past_memory_end_fails() {
    let mut chip = machine();
    run(&mut chip, Instruction::LdIAddr(0xFFE)).unwrap();
    assert_eq!(run(&mut chip, Instruction::DrwVxVyNibble(0, 0, 3)), Err(ChipError::OutOfBoundsAccess));
    assert!(!chip.get_buffer(0, 0));
    assert_eq!(run(&mut chip, Instruction::DrwVxVyNibble(0, 0, 2)), Ok(Status::Ran));
}

#[test]
fn bcd_of_157() {
    let mut chip = machine();
    load(&mut chip, 6, 157);
    run(&mut chip, Instruction::LdIAddr(0x300)).unwrap();
    run(&mut chip, Instruction::LdBVx(6)).unwrap();
    assert_eq!(chip.memory_at(0x300), 1);
    assert_eq!(chip.memory_at(0x301), 5);
    assert_eq!(chip.memory_at(0x302), 7);
}

#[test]
fn bcd_past_memory_end_fails() {
    let mut chip = machine();
    run(&mut chip, Instruction::LdIAddr(0xFFE)).unwrap();
    assert_eq!(run(&mut chip, Instruction::LdBVx(0)), Err(ChipError::OutOfBoundsAccess));
}

#[test]
fn skip_if_equal_advances_four_or_two() {
    let mut chip = ChipEight::new(&[0x61, 0x05, 0x31, 0x05, 0x00, 0x00, 0x31, 0x06], 0);
    chip.step(0).unwrap();
    let start = chip.pc();
    let record = chip.step(0).unwrap();
    assert_eq!(record.address, start);
    assert_eq!(record.instruction, Instruction::SeVxByte(1, 5));
    assert_eq!(chip.pc(), start + 4);
    let start = chip.pc();
    chip.step(0).unwrap();
    assert_eq!(chip.pc(), start + 2);
}

#[test]
fn other_skips() {
    let mut chip = machine();
    load(&mut chip, 1, 5);
    load(&mut chip, 2, 5);
    let pc = chip.pc();
    run(&mut chip, Instruction::SneVxByte(1, 5)).unwrap();
    assert_eq!(chip.pc(), pc);
    run(&mut chip, Instruction::SneVxByte(1, 6)).unwrap();
    assert_eq!(chip.pc(), pc + 2);
    run(&mut chip, Instruction::SeVxVy(1, 2)).unwrap();
    assert_eq!(chip.pc(), pc + 4);
    run(&mut chip, Instruction::SneVxVy(1, 2)).unwrap();
    assert_eq!(chip.pc(), pc + 4);
}

#[test]
fn fifteen_calls_then_overflow_then_returns() {
    let mut chip = machine();
    let mut successors = Vec::new();
    for n in 0..15u16 {
        let target = 0x300 + 2 * n;
        let before = chip.pc();
        successors.push(before);
        assert_eq!(run(&mut chip, Instruction::Call(target)), Ok(Status::Ran));
        assert_eq!(chip.pc(), target);
    }
    assert_eq!(chip.stack_depth(), 15);
    let pc = chip.pc();
    assert_eq!(run(&mut chip, Instruction::Call(0x400)), Err(ChipError::StackOverflow));
    assert_eq!(chip.pc(), pc);
    for expected in successors.iter().rev() {
        assert_eq!(run(&mut chip, Instruction::Ret), Ok(Status::Ran));
        assert_eq!(chip.pc(), *expected);
    }
    assert_eq!(run(&mut chip, Instruction::Ret), Err(ChipError::StackUnderflow));
}

#[test]
fn call_and_return_through_steps() {
    // 0x200: CALL 0x206; 0x202: LD V1, 9; 0x206: LD V2, 7; 0x208: RET
    let program = [0x22, 0x06, 0x61, 0x09, 0x00, 0x00, 0x62, 0x07, 0x00, 0xEE];
    let mut chip = ChipEight::new(&program, 0);
    chip.step(0).unwrap();
    assert_eq!(chip.pc(), 0x206);
    chip.step(0).unwrap();
    let record = chip.step(0).unwrap();
    assert_eq!(record.instruction, Instruction::Ret);
    assert_eq!(chip.pc(), 0x202);
    chip.step(0).unwrap();
    assert_eq!(chip.get_reg(1), 9);
    assert_eq!(chip.get_reg(2), 7);
}

#[test]
fn return_with_empty_stack_fails() {
    let mut chip = ChipEight::new(&[0x00, 0xEE], 0);
    assert_eq!(chip.step(0), Err(ChipError::StackUnderflow));
    assert_eq!(chip.pc(), 0x202);
    assert_eq!(chip.stack_depth(), 0);
}

#[test]
fn step_matches_fetch_then_execute() {
    let mut stepped = ChipEight::new(&[0x00, 0xEE], 0);
    let mut split = ChipEight::new(&[0x00, 0xEE], 0);
    let stepped_result = stepped.step(0);
    let ins = split.fetch_decode().unwrap();
    let split_result = split.execute(ins, 0);
    assert_eq!(stepped_result, Err(ChipError::StackUnderflow));
    assert_eq!(split_result, Err(ChipError::StackUnderflow));
    assert_eq!(stepped.pc(), split.pc());

    let mut stepped = ChipEight::new(&[0xF3, 0x0A], 0);
    let mut split = ChipEight::new(&[0xF3, 0x0A], 0);
    assert_eq!(stepped.step(0).unwrap().status, Status::AwaitingKey);
    let ins = split.fetch_decode().unwrap();
    assert_eq!(split.execute(ins, 0), Ok(Status::AwaitingKey));
    assert_eq!(stepped.pc(), 0x200);
    assert_eq!(split.pc(), 0x200);
}

#[test]
fn key_wait_outside_a_step() {
    let mut chip = machine();
    run(&mut chip, Instruction::Jp(0x300)).unwrap();
    assert_eq!(chip.execute(Instruction::LdVxK(2), 0), Ok(Status::AwaitingKey));
    assert_eq!(chip.pc(), 0x2FE);
    assert_eq!(chip.execute(Instruction::LdVxK(2), 1 << 4), Ok(Status::Ran));
    assert_eq!(chip.get_reg(2), 4);
    assert_eq!(chip.pc(), 0x2FE);
    run(&mut chip, Instruction::Jp(1)).unwrap();
    assert_eq!(chip.execute(Instruction::LdVxK(2), 0), Err(ChipError::OutOfBoundsAccess));
    assert_eq!(chip.pc(), 1);
}

#[test]
fn invalid_opcode_is_reported() {
    let mut chip = ChipEight::new(&[0x50, 0x01], 0);
    assert_eq!(chip.fetch_decode(), Err(ChipError::InvalidOpcode));
    assert_eq!(chip.step(0), Err(ChipError::InvalidOpcode));
    assert_eq!(chip.pc(), 0x200);
}

#[test]
fn fetch_past_memory_end_fails() {
    let mut chip = ChipEight::new(&[0x1F, 0xFF], 0);
    chip.step(0).unwrap();
    assert_eq!(chip.pc(), 0xFFF);
    assert_eq!(chip.step(0), Err(ChipError::OutOfBoundsAccess));
}

#[test]
fn font_lookup_and_invalid_digit() {
    let mut chip = machine();
    load(&mut chip, 3, 0xA);
    run(&mut chip, Instruction::LdFVx(3)).unwrap();
    assert_eq!(chip.index(), 50);
    load(&mut chip, 3, 16);
    assert_eq!(run(&mut chip, Instruction::LdFVx(3)), Err(ChipError::InvalidDigit));
    assert_eq!(chip.index(), 50);
}

#[test]
fn index_add_overflow_fails() {
    let mut chip = machine();
    load(&mut chip, 1, 0x10);
    run(&mut chip, Instruction::LdIAddr(0xFF0)).unwrap();
    run(&mut chip, Instruction::AddIVx(1)).unwrap();
    assert_eq!(chip.index(), 0x1000);
    load(&mut chip, 1, 0xFF);
    for _ in 0..240 {
        run(&mut chip, Instruction::AddIVx(1)).unwrap();
    }
    assert_eq!(chip.index(), 0x1000 + 240 * 0xFF);
    assert_eq!(run(&mut chip, Instruction::AddIVx(1)), Err(ChipError::OutOfBoundsAccess));
}

#[test]
fn store_past_memory_end_fails() {
    let mut chip = machine();
    run(&mut chip, Instruction::LdIAddr(0xFFA)).unwrap();
    assert_eq!(run(&mut chip, Instruction::LdIVx(6)), Err(ChipError::OutOfBoundsAccess));
    assert_eq!(run(&mut chip, Instruction::LdVxI(6)), Err(ChipError::OutOfBoundsAccess));
    assert_eq!(run(&mut chip, Instruction::LdIVx(5)), Ok(Status::Ran));
}

#[test]
fn jumps() {
    let mut chip = machine();
    run(&mut chip, Instruction::Jp(0x345)).unwrap();
    assert_eq!(chip.pc(), 0x345);
    load(&mut chip, 0, 0x10);
    run(&mut chip, Instruction::JpV0Addr(0x300)).unwrap();
    assert_eq!(chip.pc(), 0x310);
}

#[test]
fn sys_is_a_no_op() {
    let mut chip = ChipEight::new(&[0x01, 0x23, 0x61, 0x01], 0);
    let record = chip.step(0).unwrap();
    assert_eq!(record, StepRecord { address: 0x200, instruction: Instruction::Sys(0x123), status: Status::Ran });
    assert_eq!(chip.pc(), 0x202);
}

#[test]
fn timers_load_and_tick() {
    let mut chip = machine();
    load(&mut chip, 1, 2);
    run(&mut chip, Instruction::LdDtVx(1)).unwrap();
    run(&mut chip, Instruction::LdStVx(1)).unwrap();
    chip.tick_timers();
    assert_eq!(chip.delay_timer(), 1);
    assert_eq!(chip.sound_timer(), 1);
    chip.tick_timers();
    chip.tick_timers();
    assert_eq!(chip.delay_timer(), 0);
    assert_eq!(chip.sound_timer(), 0);
    load(&mut chip, 1, 40);
    run(&mut chip, Instruction::LdDtVx(1)).unwrap();
    run(&mut chip, Instruction::LdVxDt(5)).unwrap();
    assert_eq!(chip.get_reg(5), 40);
}

#[test]
fn key_skips_follow_keypad() {
    let mut chip = machine();
    load(&mut chip, 1, 0xA);
    let pc = chip.pc();
    chip.execute(Instruction::SkpVx(1), 1 << 0xA).unwrap();
    assert_eq!(chip.pc(), pc + 2);
    chip.execute(Instruction::SkpVx(1), 1 << 0xB).unwrap();
    assert_eq!(chip.pc(), pc + 2);
    chip.execute(Instruction::SknpVx(1), 1 << 0xB).unwrap();
    assert_eq!(chip.pc(), pc + 4);
    chip.execute(Instruction::SknpVx(1), 1 << 0xA).unwrap();
    assert_eq!(chip.pc(), pc + 4);
    load(&mut chip, 1, 200);
    chip.execute(Instruction::SkpVx(1), 0xFFFF).unwrap();
    assert_eq!(chip.pc(), pc + 4);
}

#[test]
fn key_wait_suspends_until_a_key_is_down() {
    let mut chip = ChipEight::new(&[0xF3, 0x0A, 0x61, 0x01], 0);
    let record = chip.step(0).unwrap();
    assert_eq!(record.status, Status::AwaitingKey);
    assert_eq!(record.instruction, Instruction::LdVxK(3));
    assert_eq!(chip.pc(), 0x200);
    let record = chip.step(0).unwrap();
    assert_eq!(record.status, Status::AwaitingKey);
    assert_eq!(chip.pc(), 0x200);
    let record = chip.step((1 << 9) | (1 << 12)).unwrap();
    assert_eq!(record.status, Status::Ran);
    assert_eq!(chip.get_reg(3), 9);
    assert_eq!(chip.pc(), 0x202);
}
