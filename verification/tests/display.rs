use chip8::cpu::{OpCode, Outcome, CPU};
use chip8::display::{Display, HEIGHT, WIDTH};
use chip8::keyboard::Keyboard;
use chip8::memory::Memory;

#[test]
fn new_display_is_all_off() {
    let disp = Display::new();
    for y in 0..HEIGHT as u8 {
        for x in 0..WIDTH as u8 {
            assert!(!disp.get_pixel(x, y));
        }
    }
}

#[test]
fn draw_pixel_xors_and_reports_prior_state() {
    let mut disp = Display::new();
    assert!(!disp.draw_pixel(3, 4, true));
    assert!(disp.get_pixel(3, 4));
    assert!(disp.draw_pixel(3, 4, true));
    assert!(!disp.get_pixel(3, 4));
    // Plotting an off bit changes nothing but still reports the cell.
    assert!(!disp.draw_pixel(3, 4, false));
    assert!(!disp.get_pixel(3, 4));
}

#[test]
fn draw_pixel_wraps_coordinates() {
    let mut disp = Display::new();
    disp.draw_pixel(64, 32, true);
    assert!(disp.get_pixel(0, 0));
    disp.draw_pixel(130, 70, true);
    assert!(disp.get_pixel(2, 6));
}

#[test]
fn clear_turns_every_cell_off() {
    let mut disp = Display::new();
    disp.draw_pixel(10, 10, true);
    disp.draw_pixel(63, 31, true);
    disp.clear();
    for y in 0..HEIGHT as u8 {
        for x in 0..WIDTH as u8 {
            assert!(!disp.get_pixel(x, y));
        }
    }
}

#[test]
fn dump_renders_rows_of_cell_characters() {
    let mut disp = Display::new();
    disp.draw_pixel(1, 0, true);
    let text = disp.dump();
    let lines: Vec<&str> = text.lines().collect();
    assert_eq!(lines.len(), HEIGHT);
    assert_eq!(lines[0].len(), WIDTH);
    assert!(lines[0].starts_with("01000"));
    assert!(lines[1].chars().all(|c| c == '0'));
}

#[test]
fn drawing_a_sprite_twice_toggles_it_back_off() {
    // The sprite is the font glyph for 0 stored at address 0.
    let mut cpu = CPU::new();
    let mut mem = Memory::new();
    mem.load_font_table();
    let mut disp = Display::new();
    let kb = Keyboard::new();

    cpu.registers[0] = 12;
    cpu.registers[1] = 8;
    cpu.i = 0;
    let r = cpu.execute(&mut mem, &mut disp, &kb, &OpCode::DRAW(0, 1, 5));
    assert_eq!(r, Ok(Outcome::Normal));
    assert_eq!(cpu.registers[15], 0);
    // Top row of the glyph is 0xF0: four lit columns.
    assert!(disp.get_pixel(12, 8));
    assert!(disp.get_pixel(13, 8));
    assert!(disp.get_pixel(14, 8));
    assert!(disp.get_pixel(15, 8));
    assert!(!disp.get_pixel(16, 8));

    let r2 = cpu.execute(&mut mem, &mut disp, &kb, &OpCode::DRAW(0, 1, 5));
    assert_eq!(r2, Ok(Outcome::Normal));
    // Every pixel lit by the first pass collides and toggles back off.
    assert_eq!(cpu.registers[15], 1);
    for y in 0..HEIGHT as u8 {
        for x in 0..WIDTH as u8 {
            assert!(!disp.get_pixel(x, y));
        }
    }
}

#[test]
fn sprite_at_last_column_wraps_to_column_zero() {
    let mut cpu = CPU::new();
    let mut mem = Memory::new();
    let mut disp = Display::new();
    let kb = Keyboard::new();

    // One row of all-lit bits at address 0x300.
    mem.write(0x300, 0xFF).unwrap();
    cpu.i = 0x300;
    cpu.registers[0] = (WIDTH - 1) as u8;
    cpu.registers[1] = 5;
    let r = cpu.execute(&mut mem, &mut disp, &kb, &OpCode::DRAW(0, 1, 1));
    assert_eq!(r, Ok(Outcome::Normal));
    assert!(disp.get_pixel(63, 5));
    for x in 0..7u8 {
        assert!(disp.get_pixel(x, 5));
    }
    assert!(!disp.get_pixel(7, 5));
}

#[test]
fn sprite_rows_wrap_to_top() {
    let mut cpu = CPU::new();
    let mut mem = Memory::new();
    let mut disp = Display::new();
    let kb = Keyboard::new();

    mem.write(0x300, 0x80).unwrap();
    mem.write(0x301, 0x80).unwrap();
    cpu.i = 0x300;
    cpu.registers[0] = 0;
    cpu.registers[1] = (HEIGHT - 1) as u8;
    let r = cpu.execute(&mut mem, &mut disp, &kb, &OpCode::DRAW(0, 1, 2));
    assert_eq!(r, Ok(Outcome::Normal));
    assert!(disp.get_pixel(0, 31));
    assert!(disp.get_pixel(0, 0));
}

#[test]
fn draw_rows_past_end_of_memory_fault_without_plotting() {
    let mut cpu = CPU::new();
    let mut mem = Memory::new();
    let mut disp = Display::new();
    let kb = Keyboard::new();

    cpu.i = 4095;
    let r = cpu.execute(&mut mem, &mut disp, &kb, &OpCode::DRAW(0, 1, 2));
    assert_eq!(r, Err(chip8::Fault::AddressFault));
    for y in 0..HEIGHT as u8 {
        for x in 0..WIDTH as u8 {
            assert!(!disp.get_pixel(x, y));
        }
    }
    assert_eq!(cpu.pc, 512);
}

#[test]
fn clear_instruction_clears_the_framebuffer() {
    let mut cpu = CPU::new();
    let mut mem = Memory::new();
    let mut disp = Display::new();
    let kb = Keyboard::new();

    disp.draw_pixel(5, 5, true);
    let r = cpu.execute(&mut mem, &mut disp, &kb, &OpCode::CLEAR);
    assert_eq!(r, Ok(Outcome::Normal));
    assert!(!disp.get_pixel(5, 5));
    assert_eq!(cpu.pc, 514);
}
