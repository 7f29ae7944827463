use chip8::emulator::Emulator;
use chip8::machine::{Fault, RomError, MAX_ROM_LEN, PROGRAM_START};

fn loaded(rom: &[u8]) -> Emulator {
    let mut e = Emulator::new();
    assert_eq!(e.load_rom(rom), Ok(()));
    e
}

#[test]
fn new_machine_is_halted_with_font() {
    let e = Emulator::new();
    assert!(e.is_halting());
    assert_eq!(e.pc, 0x200);
    assert_eq!(e.memory.len(), 65536);
    assert_eq!(&e.memory[0..5], &[0xF0, 0x90, 0x90, 0x90, 0xF0]);
    assert_eq!(&e.memory[75..80], &[0xF0, 0x80, 0xF0, 0x80, 0x80]);
    assert!(e.memory[80..].iter().all(|&b| b == 0));
    assert_eq!(e.get_code_range(), (0x200, 0x200));
    assert!(e.get_code().is_empty());
}

#[test]
fn halted_machine_does_not_run() {
    let mut e = Emulator::new();
    e.memory[0x200] = 0x60;
    e.memory[0x201] = 0x42;
    e.delay = 5;
    assert_eq!(e.update(1_000_000), Ok(()));
    assert_eq!(e.pc, 0x200);
    assert_eq!(e.rs[0], 0);
    assert_eq!(e.delay, 5);
}

#[test]
fn load_rom_resets_everything() {
    let mut e = loaded(&[0x61, 0x07, 0x22, 0x10]);
    e.update(0).unwrap();
    e.update(0).unwrap();
    e.delay = 9;
    e.ri = 0x123;
    e.screen.set_pixel(5, 5, true);
    e.screen.reset_dirty();
    e.keypad.set(4, true);
    assert_eq!(e.rs[1], 7);
    assert_eq!(e.stack, vec![0x204]);

    assert_eq!(e.load_rom(&[0x12, 0x00]), Ok(()));
    assert!(!e.is_halting());
    assert_eq!(e.pc, PROGRAM_START);
    assert_eq!(e.delay, 0);
    assert_eq!(e.ri, 0);
    assert!(e.stack.is_empty());
    assert_eq!(e.rs, [0u8; 16]);
    assert!(e.screen.is_dirty());
    assert!(!e.screen.get_pixel(5, 5));
    assert!(!e.keypad.is_pressed(4));
    assert_eq!(e.get_code(), &[0x12, 0x00]);
    assert_eq!(e.get_code_range(), (0x200, 0x202));
    assert_eq!(&e.memory[0x202..0x206], &[0, 0, 0, 0]);
}

#[test]
fn oversized_rom_is_refused_and_state_kept() {
    let mut e = loaded(&[0x60, 0x01]);
    e.update(0).unwrap();
    let big = vec![0xAAu8; MAX_ROM_LEN + 1];
    assert_eq!(e.load_rom(&big), Err(RomError::TooLarge));
    assert_eq!(e.rs[0], 1);
    assert_eq!(e.pc, 0x202);
    let full = vec![0xAAu8; MAX_ROM_LEN];
    assert_eq!(e.load_rom(&full), Ok(()));
    assert_eq!(e.memory[65535], 0xAA);
    assert_eq!(e.get_code_range(), (0x200, 65536));
}

#[test]
fn add_sets_carry() {
    let mut e = loaded(&[0x80, 0x14]);
    e.rs[0] = 0xFF;
    e.rs[1] = 0x01;
    e.step(0).unwrap();
    assert_eq!(e.rs[0], 0x00);
    assert_eq!(e.rs[0xF], 1);
    assert_eq!(e.pc, 0x202);

    let mut e = loaded(&[0x80, 0x14]);
    e.rs[0] = 0x10;
    e.rs[1] = 0x20;
    e.rs[0xF] = 7;
    e.step(0).unwrap();
    assert_eq!(e.rs[0], 0x30);
    assert_eq!(e.rs[0xF], 0);
}

#[test]
fn subtract_sets_no_borrow() {
    let mut e = loaded(&[0x80, 0x15]);
    e.rs[0] = 0x01;
    e.rs[1] = 0x02;
    e.step(0).unwrap();
    assert_eq!(e.rs[0], 0xFF);
    assert_eq!(e.rs[0xF], 0);

    let mut e = loaded(&[0x80, 0x15]);
    e.rs[0] = 0x05;
    e.rs[1] = 0x05;
    e.step(0).unwrap();
    assert_eq!(e.rs[0], 0x00);
    assert_eq!(e.rs[0xF], 1);
}

#[test]
fn reverse_subtract_sets_no_borrow() {
    let mut e = loaded(&[0x82, 0x37]);
    e.rs[2] = 0x10;
    e.rs[3] = 0x30;
    e.step(0).unwrap();
    assert_eq!(e.rs[2], 0x20);
    assert_eq!(e.rs[0xF], 1);

    let mut e = loaded(&[0x82, 0x37]);
    e.rs[2] = 0x30;
    e.rs[3] = 0x10;
    e.step(0).unwrap();
    assert_eq!(e.rs[2], 0xE0);
    assert_eq!(e.rs[0xF], 0);
}

#[test]
fn flag_register_as_destination_keeps_result() {
    let mut e = loaded(&[0x8F, 0x14]);
    e.rs[0xF] = 0xFF;
    e.rs[1] = 0x03;
    e.step(0).unwrap();
    assert_eq!(e.rs[0xF], 0x02);
}

#[test]
fn shifts_set_shifted_out_bit() {
    let mut e = loaded(&[0x84, 0x06, 0x85, 0x0E]);
    e.rs[4] = 0b1000_0101;
    e.rs[5] = 0b1000_0101;
    e.step(0).unwrap();
    assert_eq!(e.rs[4], 0b0100_0010);
    assert_eq!(e.rs[0xF], 1);
    e.step(0).unwrap();
    assert_eq!(e.rs[5], 0b0000_1010);
    assert_eq!(e.rs[0xF], 1);

    let mut e = loaded(&[0x84, 0x06, 0x85, 0x0E]);
    e.rs[4] = 0b0000_0010;
    e.rs[5] = 0b0100_0000;
    e.step(0).unwrap();
    assert_eq!(e.rs[0xF], 0);
    e.step(0).unwrap();
    assert_eq!(e.rs[5], 0b1000_0000);
    assert_eq!(e.rs[0xF], 0);
}

#[test]
fn logic_and_moves() {
    let mut e = loaded(&[0x80, 0x11, 0x82, 0x12, 0x83, 0x13, 0x84, 0x10]);
    e.rs[0] = 0b1100;
    e.rs[1] = 0b1010;
    e.rs[2] = 0b1100;
    e.rs[3] = 0b1100;
    e.rs[4] = 0x99;
    for _ in 0..4 {
        e.step(0).unwrap();
    }
    assert_eq!(e.rs[0], 0b1110);
    assert_eq!(e.rs[2], 0b1000);
    assert_eq!(e.rs[3], 0b0110);
    assert_eq!(e.rs[4], 0b1010);
}

#[test]
fn immediate_add_wraps_without_flag() {
    let mut e = loaded(&[0x63, 0xF0, 0x73, 0x20]);
    e.rs[0xF] = 9;
    e.step(0).unwrap();
    e.step(0).unwrap();
    assert_eq!(e.rs[3], 0x10);
    assert_eq!(e.rs[0xF], 9);
}

#[test]
fn skips() {
    // 3xnn taken, then 4xnn not taken, then 5xy0 taken, 9xy0 not taken.
    let mut e = loaded(&[0x30, 0x00, 0x00, 0x00, 0x40, 0x00, 0x50, 0x10]);
    e.step(0).unwrap();
    assert_eq!(e.pc, 0x204);
    e.step(0).unwrap();
    assert_eq!(e.pc, 0x206);
    e.step(0).unwrap();
    assert_eq!(e.pc, 0x20A);

    let mut e = loaded(&[0x90, 0x10, 0x31, 0x05, 0x41, 0x05]);
    e.rs[1] = 4;
    e.step(0).unwrap();
    assert_eq!(e.pc, 0x204);
    e.step(0).unwrap();
    assert_eq!(e.pc, 0x208);
    e.step(0).unwrap();
    assert_eq!(e.pc, 0x20A);
}

#[test]
fn call_and_return() {
    let mut e = loaded(&[0x22, 0x06, 0x00, 0x00, 0x00, 0x00, 0x00, 0xEE]);
    e.step(0).unwrap();
    assert_eq!(e.pc, 0x206);
    assert_eq!(e.stack, vec![0x202]);
    e.step(0).unwrap();
    assert_eq!(e.pc, 0x202);
    assert!(e.stack.is_empty());
}

#[test]
fn return_with_empty_stack_moves_on() {
    let mut e = loaded(&[0x00, 0xEE]);
    e.step(0).unwrap();
    assert_eq!(e.pc, 0x202);
}

#[test]
fn other_system_calls_are_ignored() {
    let mut e = loaded(&[0x01, 0x23, 0x05, 0x10]);
    e.step(0).unwrap();
    e.step(0).unwrap();
    assert_eq!(e.pc, 0x204);
    assert!(e.stack.is_empty());
}

#[test]
fn jumps() {
    let mut e = loaded(&[0x1A, 0xBC]);
    e.step(0).unwrap();
    assert_eq!(e.pc, 0xABC);

    let mut e = loaded(&[0xB3, 0x00]);
    e.rs[0] = 0x22;
    e.step(0).unwrap();
    assert_eq!(e.pc, 0x322);
}

#[test]
fn index_register_instructions() {
    let mut e = loaded(&[0xA1, 0x23, 0xF5, 0x1E, 0xF6, 0x29]);
    e.rs[5] = 0x10;
    e.rs[6] = 0xB;
    e.step(0).unwrap();
    assert_eq!(e.ri, 0x123);
    e.step(0).unwrap();
    assert_eq!(e.ri, 0x133);
    e.step(0).unwrap();
    assert_eq!(e.ri, 55);
}

#[test]
fn index_add_wraps() {
    let mut e = loaded(&[0xF0, 0x1E]);
    e.ri = 0xFFFF;
    e.rs[0] = 2;
    e.step(0).unwrap();
    assert_eq!(e.ri, 1);
}

#[test]
fn random_is_masked() {
    let mut e = loaded(&[0xC2, 0x0F, 0xC3, 0xF0]);
    e.step(0xAB).unwrap();
    assert_eq!(e.rs[2], 0x0B);
    e.step(0xAB).unwrap();
    assert_eq!(e.rs[3], 0xA0);

    let mut e = loaded(&[0xC4, 0x00]);
    e.rs[4] = 0x55;
    e.execute_instruction().unwrap();
    assert_eq!(e.rs[4], 0);
}

#[test]
fn bcd_store() {
    let mut e = loaded(&[0xA3, 0x00, 0xF7, 0x33]);
    e.rs[7] = 254;
    e.step(0).unwrap();
    e.step(0).unwrap();
    assert_eq!(&e.memory[0x300..0x303], &[2, 5, 4]);
    assert_eq!(e.ri, 0x300);
}

#[test]
fn store_then_load_registers_round_trip() {
    let mut e = loaded(&[0xA4, 0x00, 0xF3, 0x55, 0xA4, 0x00, 0xF3, 0x65]);
    e.rs[0] = 0x11;
    e.rs[1] = 0x22;
    e.rs[2] = 0x33;
    e.rs[3] = 0x44;
    e.rs[4] = 0x55;
    e.step(0).unwrap();
    e.step(0).unwrap();
    assert_eq!(&e.memory[0x400..0x405], &[0x11, 0x22, 0x33, 0x44, 0]);
    assert_eq!(e.ri, 0x404);
    e.rs = [0; 16];
    e.step(0).unwrap();
    e.step(0).unwrap();
    assert_eq!(&e.rs[0..5], &[0x11, 0x22, 0x33, 0x44, 0]);
    assert_eq!(e.ri, 0x404);
}

#[test]
fn delay_timer_instructions() {
    let mut e = loaded(&[0xF3, 0x15, 0xF4, 0x07, 0xF4, 0x18]);
    e.rs[3] = 42;
    e.step(0).unwrap();
    assert_eq!(e.delay, 42);
    e.step(0).unwrap();
    assert_eq!(e.rs[4], 42);
    e.step(0).unwrap();
    assert_eq!(e.pc, 0x206);
}

#[test]
fn key_skips() {
    let mut e = loaded(&[0xE1, 0x9E, 0xE1, 0xA1]);
    e.rs[1] = 0xC;
    e.keypad.set(0xC, true);
    e.step(0).unwrap();
    assert_eq!(e.pc, 0x204);

    let mut e = loaded(&[0xE1, 0x9E, 0xE1, 0xA1]);
    e.rs[1] = 0xC;
    e.step(0).unwrap();
    assert_eq!(e.pc, 0x202);
    e.step(0).unwrap();
    assert_eq!(e.pc, 0x206);
}

#[test]
fn wait_for_key_busy_waits_then_takes_lowest() {
    let mut e = loaded(&[0xF5, 0x0A, 0x12, 0x02]);
    for _ in 0..5 {
        e.update(16_000).unwrap();
        assert_eq!(e.pc, 0x200);
        assert_eq!(e.rs[5], 0);
    }
    e.keypad.set(0xE, true);
    e.keypad.set(0x6, true);
    e.update(16_000).unwrap();
    assert_eq!(e.rs[5], 0x6);
    assert_eq!(e.pc, 0x202);
}

#[test]
fn draw_instruction_sets_collision_flag() {
    // Draw glyph 0 at (V0, V1), then again over it.
    let mut e = loaded(&[0xD0, 0x15, 0xD0, 0x15]);
    e.rs[0] = 8;
    e.rs[1] = 3;
    e.rs[0xF] = 1;
    e.screen.reset_dirty();
    e.step(0).unwrap();
    assert_eq!(e.rs[0xF], 0);
    assert!(e.screen.is_dirty());
    assert!(e.screen.get_pixel(8, 3));
    assert!(e.screen.get_pixel(11, 3));
    assert!(!e.screen.get_pixel(12, 3));
    assert!(e.screen.get_pixel(8, 4));
    assert!(!e.screen.get_pixel(9, 4));
    e.step(0).unwrap();
    assert_eq!(e.rs[0xF], 1);
    assert!(!e.screen.get_pixel(8, 3));
}

#[test]
fn clear_screen_instruction() {
    let mut e = loaded(&[0x00, 0xE0]);
    e.screen.set_pixel(1, 2, true);
    e.screen.reset_dirty();
    e.step(0).unwrap();
    assert!(!e.screen.get_pixel(1, 2));
    assert!(e.screen.is_dirty());
}

#[test]
fn draw_past_end_of_memory_faults() {
    let mut e = loaded(&[0xD0, 0x12]);
    e.ri = 0xFFFF;
    assert_eq!(e.step(0), Err(Fault::MemoryOutOfRange));
    assert_eq!(e.pc, 0x200);
    assert_eq!(e.rs[0xF], 0);

    let mut e = loaded(&[0xD0, 0x11]);
    e.ri = 0xFFFF;
    assert_eq!(e.step(0), Ok(()));
}

#[test]
fn memory_instructions_past_end_fault() {
    let mut e = loaded(&[0xF0, 0x33]);
    e.ri = 0xFFFE;
    assert_eq!(e.step(0), Err(Fault::MemoryOutOfRange));
    assert_eq!(e.memory[0xFFFE], 0);

    let mut e = loaded(&[0xF3, 0x55]);
    e.ri = 0xFFFD;
    e.rs[0] = 9;
    assert_eq!(e.step(0), Err(Fault::MemoryOutOfRange));
    assert_eq!(e.memory[0xFFFD], 0);

    let mut e = loaded(&[0xF3, 0x65]);
    e.ri = 0xFFFC;
    e.memory[0xFFFC] = 7;
    assert_eq!(e.step(0), Ok(()));
    assert_eq!(e.rs[0], 7);
    assert_eq!(e.ri, 0);
}

#[test]
fn key_beyond_pad_faults() {
    let mut e = loaded(&[0xE2, 0xA1]);
    e.rs[2] = 16;
    assert_eq!(e.step(0), Err(Fault::KeyOutOfRange));
    assert_eq!(e.pc, 0x200);
}

#[test]
fn fetch_at_last_byte_faults() {
    let mut e = loaded(&[0x1F, 0xFE, 0x00, 0x00]);
    e.memory[0xFFFE] = 0x00;
    e.memory[0xFFFF] = 0x00;
    e.step(0).unwrap();
    assert_eq!(e.pc, 0xFFE);
    e.pc = 0xFFFF;
    assert_eq!(e.step(0), Err(Fault::FetchOutOfRange));
    e.pc = 0xFFFE;
    e.step(0).unwrap();
    assert_eq!(e.pc, 0);
}

#[test]
fn timer_counts_sixty_per_second() {
    let mut e = loaded(&[0x12, 0x00]);
    e.delay = 120;
    e.update(1_000_000).unwrap();
    assert_eq!(e.delay, 60);
    assert_eq!(e.total_dt, 0);
}

#[test]
fn timer_ignores_how_time_is_split() {
    let mut a = loaded(&[0x12, 0x00]);
    a.delay = 200;
    for _ in 0..60 {
        a.update(16_667).unwrap();
    }
    let mut b = loaded(&[0x12, 0x00]);
    b.delay = 200;
    b.update_timer(60 * 16_667);
    assert_eq!(a.delay, 140);
    assert_eq!(b.delay, 140);
    assert_eq!(a.total_dt, b.total_dt);
}

#[test]
fn timer_stops_at_zero() {
    let mut e = loaded(&[0x12, 0x00]);
    e.delay = 3;
    e.update_timer(1_000_000);
    assert_eq!(e.delay, 0);
    e.update_timer(1_000_000);
    assert_eq!(e.delay, 0);
    e.delay = 1;
    e.total_dt = 0;
    e.update_timer(16_666);
    assert_eq!(e.delay, 1);
    e.update_timer(1);
    assert_eq!(e.delay, 0);
}

#[test]
fn end_to_end_draw_and_jump_loop() {
    // V0 = 5, then V0 = 0xA; draw the five-row glyph at I = 0 at (V0, V1)
    // = (10, 0); jump back to the start.
    let mut e = loaded(&[0x60, 0x05, 0x60, 0x0A, 0xD0, 0x15, 0x12, 0x00]);
    e.update(16_000).unwrap();
    assert_eq!(e.rs[0], 5);
    e.update(16_000).unwrap();
    assert_eq!(e.rs[0], 0x0A);
    e.update(16_000).unwrap();
    assert_eq!(e.rs[0xF], 0);
    for x in 10..14 {
        assert!(e.screen.get_pixel(x, 0));
        assert!(e.screen.get_pixel(x, 4));
    }
    assert!(e.screen.get_pixel(10, 1));
    assert!(e.screen.get_pixel(13, 2));
    assert!(!e.screen.get_pixel(11, 2));
    e.update(16_000).unwrap();
    assert_eq!(e.pc, 0x200);
    // The loop draws the same glyph again, erasing it with a collision.
    for _ in 0..3 {
        e.update(16_000).unwrap();
    }
    assert_eq!(e.rs[0xF], 1);
    assert!(!e.screen.get_pixel(10, 0));
    e.update(16_000).unwrap();
    assert_eq!(e.pc, 0x200);
}
