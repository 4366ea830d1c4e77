use chip8::cpu::{OpCode, Outcome, CPU};
use chip8::display::Display;
use chip8::keyboard::{KeyBoardEvent, Keyboard};
use chip8::memory::Memory;
use chip8::Fault;

fn machine() -> (CPU, Memory, Display, Keyboard) {
    (CPU::new(), Memory::new(), Display::new(), Keyboard::new())
}

fn step(cpu: &mut CPU, mem: &mut Memory, disp: &mut Display, kb: &Keyboard, op: OpCode) -> Result<Outcome, Fault> {
    cpu.execute(mem, disp, kb, &op)
}

#[test]
fn add_const_wraps_modulo_256() {
    let (mut cpu, mut mem, mut disp, kb) = machine();
    cpu.registers[3] = 250;
    let r = step(&mut cpu, &mut mem, &mut disp, &kb, OpCode::ADD_CONST(3, 10));
    assert_eq!(r, Ok(Outcome::Normal));
    assert_eq!(cpu.registers[3], 4);
}

#[test]
fn subtract_is_reversed_relative_to_sub_reg() {
    let (mut cpu, mut mem, mut disp, kb) = machine();
    cpu.registers[1] = 7;
    cpu.registers[2] = 20;
    // SUBTRACT stores register[y] - register[x] into register x.
    let r = step(&mut cpu, &mut mem, &mut disp, &kb, OpCode::SUBTRACT(1, 2));
    assert_eq!(r, Ok(Outcome::Normal));
    assert_eq!(cpu.registers[1], 13);

    let (mut cpu2, mut mem2, mut disp2, kb2) = machine();
    cpu2.registers[1] = 7;
    cpu2.registers[2] = 20;
    // SUB_REG stores register[x] - register[y] into register x, wrapping.
    let r2 = step(&mut cpu2, &mut mem2, &mut disp2, &kb2, OpCode::SUB_REG(1, 2));
    assert_eq!(r2, Ok(Outcome::Normal));
    assert_eq!(cpu2.registers[1], 243);
}

#[test]
fn shift_right_flags_high_bit_and_shifts() {
    let (mut cpu, mut mem, mut disp, kb) = machine();
    cpu.registers[4] = 0b1001_0110;
    let r = step(&mut cpu, &mut mem, &mut disp, &kb, OpCode::BSHIFT_RGHT(4, 5));
    assert_eq!(r, Ok(Outcome::Normal));
    assert_eq!(cpu.registers[15], 1);
    assert_eq!(cpu.registers[4], 0b0100_1011);
}

#[test]
fn shift_left_flags_low_bit_and_shifts() {
    let (mut cpu, mut mem, mut disp, kb) = machine();
    cpu.registers[4] = 0b1001_0111;
    let r = step(&mut cpu, &mut mem, &mut disp, &kb, OpCode::BSHIFT_LEFT(4, 5));
    assert_eq!(r, Ok(Outcome::Normal));
    assert_eq!(cpu.registers[15], 1);
    assert_eq!(cpu.registers[4], 0b0010_1110);
}

#[test]
fn twelve_nested_calls_succeed_thirteenth_faults() {
    let (mut cpu, mut mem, mut disp, kb) = machine();
    for k in 0..12u16 {
        let r = step(&mut cpu, &mut mem, &mut disp, &kb, OpCode::CALL(0x300 + k));
        assert_eq!(r, Ok(Outcome::Normal));
        assert_eq!(cpu.sp, (k + 1) as u8);
    }
    let r = step(&mut cpu, &mut mem, &mut disp, &kb, OpCode::CALL(0x400));
    assert_eq!(r, Err(Fault::StackOverflow));
    assert_eq!(cpu.sp, 12);
    assert_eq!(cpu.pc, 0x300 + 11);
}

#[test]
fn call_then_return_resumes_after_call() {
    let (mut cpu, mut mem, mut disp, kb) = machine();
    assert_eq!(cpu.pc, 512);
    let r = step(&mut cpu, &mut mem, &mut disp, &kb, OpCode::CALL(0x300));
    assert_eq!(r, Ok(Outcome::Normal));
    assert_eq!(cpu.pc, 0x300);
    let r2 = step(&mut cpu, &mut mem, &mut disp, &kb, OpCode::RETURN);
    assert_eq!(r2, Ok(Outcome::Normal));
    assert_eq!(cpu.pc, 514);
}

#[test]
fn return_on_empty_stack_faults() {
    let (mut cpu, mut mem, mut disp, kb) = machine();
    let r = step(&mut cpu, &mut mem, &mut disp, &kb, OpCode::RETURN);
    assert_eq!(r, Err(Fault::StackUnderflow));
    assert_eq!(cpu.pc, 512);
}

#[test]
fn timers_floor_at_zero() {
    let mut cpu = CPU::new();
    assert_eq!(cpu.delay, 0);
    assert_eq!(cpu.sound, 0);
    for _ in 0..5 {
        cpu.delay_timer();
        cpu.sound_timer();
        assert_eq!(cpu.delay, 0);
        assert_eq!(cpu.sound, 0);
    }
    cpu.delay = 3;
    cpu.delay_timer();
    assert_eq!(cpu.delay, 2);
    cpu.sound = 1;
    cpu.sound_timer();
    assert_eq!(cpu.sound, 0);
    cpu.sound_timer();
    assert_eq!(cpu.sound, 0);
}

#[test]
fn comparisons_skip_next_instruction() {
    let (mut cpu, mut mem, mut disp, kb) = machine();
    cpu.registers[2] = 9;
    let _ = step(&mut cpu, &mut mem, &mut disp, &kb, OpCode::EQ(2, 9));
    assert_eq!(cpu.pc, 516);
    let _ = step(&mut cpu, &mut mem, &mut disp, &kb, OpCode::EQ(2, 8));
    assert_eq!(cpu.pc, 518);
    let _ = step(&mut cpu, &mut mem, &mut disp, &kb, OpCode::NEQ(2, 8));
    assert_eq!(cpu.pc, 522);
    cpu.registers[3] = 9;
    let _ = step(&mut cpu, &mut mem, &mut disp, &kb, OpCode::EQ_REG(2, 3));
    assert_eq!(cpu.pc, 526);
    let _ = step(&mut cpu, &mut mem, &mut disp, &kb, OpCode::NEQ_REG(2, 3));
    assert_eq!(cpu.pc, 528);
}

#[test]
fn bitwise_and_register_moves() {
    let (mut cpu, mut mem, mut disp, kb) = machine();
    cpu.registers[0] = 0b1100;
    cpu.registers[1] = 0b1010;
    let _ = step(&mut cpu, &mut mem, &mut disp, &kb, OpCode::OR(0, 1));
    assert_eq!(cpu.registers[0], 0b1110);
    let _ = step(&mut cpu, &mut mem, &mut disp, &kb, OpCode::AND(0, 1));
    assert_eq!(cpu.registers[0], 0b1010);
    let _ = step(&mut cpu, &mut mem, &mut disp, &kb, OpCode::XOR(0, 1));
    assert_eq!(cpu.registers[0], 0);
    let _ = step(&mut cpu, &mut mem, &mut disp, &kb, OpCode::SET_REG(0, 1));
    assert_eq!(cpu.registers[0], 0b1010);
    let _ = step(&mut cpu, &mut mem, &mut disp, &kb, OpCode::ADD_REG(0, 1));
    assert_eq!(cpu.registers[0], 0b10100);
}

#[test]
fn add_reg_wraps() {
    let (mut cpu, mut mem, mut disp, kb) = machine();
    cpu.registers[0] = 200;
    cpu.registers[1] = 100;
    let _ = step(&mut cpu, &mut mem, &mut disp, &kb, OpCode::ADD_REG(0, 1));
    assert_eq!(cpu.registers[0], 44);
}

#[test]
fn goto_and_jump_set_counter_without_increment() {
    let (mut cpu, mut mem, mut disp, kb) = machine();
    let _ = step(&mut cpu, &mut mem, &mut disp, &kb, OpCode::GOTO(0x2F0));
    assert_eq!(cpu.pc, 0x2F0);
    cpu.registers[0] = 4;
    let _ = step(&mut cpu, &mut mem, &mut disp, &kb, OpCode::JUMP(0x300));
    assert_eq!(cpu.pc, 0x304);
}

#[test]
fn seti_addi_and_spri_drive_index_register() {
    let (mut cpu, mut mem, mut disp, kb) = machine();
    let _ = step(&mut cpu, &mut mem, &mut disp, &kb, OpCode::SETI(0x123));
    assert_eq!(cpu.i, 0x123);
    cpu.registers[6] = 0x10;
    let _ = step(&mut cpu, &mut mem, &mut disp, &kb, OpCode::ADDI(6));
    assert_eq!(cpu.i, 0x133);
    cpu.registers[7] = 0xB;
    let _ = step(&mut cpu, &mut mem, &mut disp, &kb, OpCode::SPRI(7));
    assert_eq!(cpu.i, 55);
}

#[test]
fn addi_wraps_sixteen_bits() {
    let (mut cpu, mut mem, mut disp, kb) = machine();
    cpu.i = 0xFFFE;
    cpu.registers[0] = 5;
    let r = step(&mut cpu, &mut mem, &mut disp, &kb, OpCode::ADDI(0));
    assert_eq!(r, Ok(Outcome::Normal));
    assert_eq!(cpu.i, 3);
}

#[test]
fn timers_are_read_and_written_through_registers() {
    let (mut cpu, mut mem, mut disp, kb) = machine();
    cpu.registers[5] = 42;
    let _ = step(&mut cpu, &mut mem, &mut disp, &kb, OpCode::SET_DELAY(5));
    assert_eq!(cpu.delay, 42);
    let _ = step(&mut cpu, &mut mem, &mut disp, &kb, OpCode::GET_DELAY(6));
    assert_eq!(cpu.registers[6], 42);
    cpu.registers[7] = 9;
    let _ = step(&mut cpu, &mut mem, &mut disp, &kb, OpCode::SET_SOUND(7));
    assert_eq!(cpu.sound, 9);
}

#[test]
fn bcp_writes_three_decimal_digits() {
    let (mut cpu, mut mem, mut disp, kb) = machine();
    cpu.i = 0x300;
    cpu.registers[2] = 173;
    let r = step(&mut cpu, &mut mem, &mut disp, &kb, OpCode::BCP(2));
    assert_eq!(r, Ok(Outcome::Normal));
    assert_eq!(mem.read(0x300), Ok(1));
    assert_eq!(mem.read(0x301), Ok(7));
    assert_eq!(mem.read(0x302), Ok(3));
}

#[test]
fn bcp_past_end_of_memory_faults_without_writing() {
    let (mut cpu, mut mem, mut disp, kb) = machine();
    cpu.i = 4094;
    cpu.registers[2] = 99;
    let r = step(&mut cpu, &mut mem, &mut disp, &kb, OpCode::BCP(2));
    assert_eq!(r, Err(Fault::AddressFault));
    assert_eq!(mem.read(4094), Ok(0));
    assert_eq!(mem.read(4095), Ok(0));
}

#[test]
fn dump_and_load_move_register_blocks() {
    let (mut cpu, mut mem, mut disp, kb) = machine();
    cpu.i = 0x250;
    for k in 0..5u8 {
        cpu.registers[k as usize] = 10 + k;
    }
    // DUMP writes registers 0..count exclusive.
    let r = step(&mut cpu, &mut mem, &mut disp, &kb, OpCode::DUMP(5));
    assert_eq!(r, Ok(Outcome::Normal));
    for k in 0..5u16 {
        assert_eq!(mem.read(0x250 + k), Ok(10 + k as u8));
    }
    assert_eq!(mem.read(0x255), Ok(0));

    let mut cpu2 = CPU::new();
    cpu2.i = 0x250;
    let r2 = cpu2.execute(&mut mem, &mut disp, &kb, &OpCode::LOAD(3));
    assert_eq!(r2, Ok(Outcome::Normal));
    assert_eq!(cpu2.registers[0], 10);
    assert_eq!(cpu2.registers[1], 11);
    assert_eq!(cpu2.registers[2], 12);
    assert_eq!(cpu2.registers[3], 0);
}

#[test]
fn dump_past_end_of_memory_faults() {
    let (mut cpu, mut mem, mut disp, kb) = machine();
    cpu.i = 4090;
    let r = step(&mut cpu, &mut mem, &mut disp, &kb, OpCode::DUMP(10));
    assert_eq!(r, Err(Fault::AddressFault));
    assert_eq!(cpu.pc, 512);
}

#[test]
fn rand_with_zero_mask_clears_register() {
    let (mut cpu, mut mem, mut disp, kb) = machine();
    cpu.registers[9] = 0xFF;
    let r = step(&mut cpu, &mut mem, &mut disp, &kb, OpCode::RAND(9, 0));
    assert_eq!(r, Ok(Outcome::Normal));
    assert_eq!(cpu.registers[9], 0);
}

#[test]
fn rand_respects_mask_bits() {
    let (mut cpu, mut mem, mut disp, kb) = machine();
    for _ in 0..20 {
        let _ = step(&mut cpu, &mut mem, &mut disp, &kb, OpCode::RAND(9, 0x0F));
        assert!(cpu.registers[9] <= 0x0F);
    }
}

#[test]
fn key_skips_follow_tracked_key() {
    let (mut cpu, mut mem, mut disp, mut kb) = machine();
    cpu.registers[1] = 7;
    kb.map_code('7');
    let _ = step(&mut cpu, &mut mem, &mut disp, &kb, OpCode::KEY_P(1));
    assert_eq!(cpu.pc, 516);
    let _ = step(&mut cpu, &mut mem, &mut disp, &kb, OpCode::KEY_NP(1));
    assert_eq!(cpu.pc, 518);
    kb.clear_key();
    let _ = step(&mut cpu, &mut mem, &mut disp, &kb, OpCode::KEY_P(1));
    assert_eq!(cpu.pc, 520);
    let _ = step(&mut cpu, &mut mem, &mut disp, &kb, OpCode::KEY_NP(1));
    assert_eq!(cpu.pc, 524);
}

#[test]
fn get_key_waits_until_a_key_is_tracked() {
    let (mut cpu, mut mem, mut disp, mut kb) = machine();
    let r = step(&mut cpu, &mut mem, &mut disp, &kb, OpCode::GET_KEY(2));
    assert_eq!(r, Ok(Outcome::WaitKey));
    assert_eq!(cpu.pc, 512);
    kb.map_code('b');
    let r2 = step(&mut cpu, &mut mem, &mut disp, &kb, OpCode::GET_KEY(2));
    assert_eq!(r2, Ok(Outcome::Normal));
    assert_eq!(cpu.registers[2], 11);
    assert_eq!(cpu.pc, 514);
}

#[test]
fn get_key_ignores_control_signals() {
    let (mut cpu, mut mem, mut disp, mut kb) = machine();
    kb.key = Some(KeyBoardEvent::Quit);
    let r = step(&mut cpu, &mut mem, &mut disp, &kb, OpCode::GET_KEY(2));
    assert_eq!(r, Ok(Outcome::WaitKey));
    assert_eq!(cpu.pc, 512);
}

#[test]
fn halt_reports_halted_and_no_ops_advance() {
    let (mut cpu, mut mem, mut disp, kb) = machine();
    let r = step(&mut cpu, &mut mem, &mut disp, &kb, OpCode::HALT);
    assert_eq!(r, Ok(Outcome::Halted));
    assert_eq!(cpu.pc, 514);
    let r2 = step(&mut cpu, &mut mem, &mut disp, &kb, OpCode::NONE);
    assert_eq!(r2, Ok(Outcome::Normal));
    assert_eq!(cpu.pc, 516);
    let r3 = step(&mut cpu, &mut mem, &mut disp, &kb, OpCode::ROUTINE(0x123));
    assert_eq!(r3, Ok(Outcome::Normal));
    assert_eq!(cpu.pc, 518);
}
