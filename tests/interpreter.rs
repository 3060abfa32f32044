use chip8::{decode, Chip8, Fault, Instruction, Step, SCREEN_HEIGHT, SCREEN_WIDTH};

fn loaded(program: &[u8]) -> Chip8 {
    let mut emu = Chip8::new();
    assert_eq!(emu.load(program), Ok(()));
    emu
}

fn run(emu: &mut Chip8, ticks: usize) {
    for _ in 0..ticks {
        assert_eq!(emu.tick(), Ok(Step::Advance));
    }
}

fn lit(emu: &Chip8, x: usize, y: usize) -> bool {
    emu.pixels()[y * SCREEN_WIDTH + x]
}

fn assert_power_on_state(emu: &Chip8) {
    let fresh = Chip8::new();
    assert_eq!(emu.pc(), 0x200);
    assert_eq!(emu.index_register(), 0);
    assert_eq!(emu.stack_pointer(), 0);
    assert_eq!(emu.delay_timer(), 0);
    assert_eq!(emu.sound_timer(), 0);
    for a in 0..4096 {
        assert_eq!(emu.memory_byte(a), fresh.memory_byte(a));
    }
    for r in 0..16 {
        assert_eq!(emu.register(r), 0);
        assert!(!emu.key(r));
    }
    assert!(emu.pixels().iter().all(|p| !p));
}

#[test]
fn new_interpreter_has_font_and_start_address() {
    let emu = Chip8::new();
    assert_eq!(emu.pc(), 0x200);
    assert_eq!(emu.width(), 64);
    assert_eq!(emu.height(), 32);
    assert_eq!(emu.pixels().len(), 2048);
    let zero = [0xF0, 0x90, 0x90, 0x90, 0xF0];
    let four = [0x90, 0x90, 0xF0, 0x10, 0x10];
    let f = [0xF0, 0x80, 0xF0, 0x80, 0x80];
    for k in 0..5 {
        assert_eq!(emu.memory_byte(k), zero[k]);
        assert_eq!(emu.memory_byte(20 + k), four[k]);
        assert_eq!(emu.memory_byte(75 + k), f[k]);
    }
    assert_eq!(emu.memory_byte(80), 0);
    assert_eq!(emu.memory_byte(0x200), 0);
    let d = Chip8::default();
    assert_eq!(d.memory_byte(0), 0xF0);
}

#[test]
fn reset_restores_power_on_state() {
    let program = [
        0x60, 0x07, 0xF0, 0x15, 0xF0, 0x18, 0xA2, 0x50, 0xF0, 0x55, 0x22, 0x0E, 0xD0, 0x05, 0x00, 0xEE,
    ];
    let mut emu = loaded(&program);
    emu.set_key(3, true);
    run(&mut emu, 6);
    emu.tick_timers();
    assert_ne!(emu.register(0), 0);
    assert_ne!(emu.stack_pointer(), 0);
    emu.reset();
    assert_power_on_state(&emu);
}

#[test]
fn clear_screen_scenario() {
    let mut emu = loaded(&[0x00, 0xE0]);
    assert_eq!(emu.tick(), Ok(Step::Advance));
    assert!(emu.pixels().iter().all(|p| !p));
    assert_eq!(emu.pixels().len(), 2048);
    assert_eq!(emu.pc(), 0x202);
}

#[test]
fn clear_screen_turns_lit_pixels_off() {
    let mut emu = loaded(&[0xD0, 0x05, 0x00, 0xE0]);
    run(&mut emu, 1);
    assert!(lit(&emu, 0, 0));
    run(&mut emu, 1);
    assert!(emu.pixels().iter().all(|p| !p));
}

#[test]
fn add_registers_scenario() {
    let mut emu = loaded(&[0x6A, 0x05, 0x6B, 0x03, 0x8A, 0xB4]);
    run(&mut emu, 3);
    assert_eq!(emu.register(10), 8);
    assert_eq!(emu.register(11), 3);
    assert_eq!(emu.register(15), 0);
    assert_eq!(emu.pc(), 0x206);
}

#[test]
fn return_with_empty_stack_faults() {
    let mut emu = loaded(&[0x00, 0xEE]);
    assert_eq!(emu.tick(), Err(Fault::StackUnderflow));
    assert_eq!(emu.stack_pointer(), 0);
}

#[test]
fn font_char_scenario() {
    let mut emu = Chip8::new();
    assert_eq!(emu.execute(0x6104), Ok(Step::Advance));
    assert_eq!(emu.register(1), 4);
    assert_eq!(emu.load(&[0xF1, 0x29]), Ok(()));
    assert_eq!(emu.tick(), Ok(Step::Advance));
    assert_eq!(emu.index_register(), 20);
    assert_eq!(emu.memory_byte(20), 0x90);
}

#[test]
fn timers_count_down_to_zero_and_stay() {
    let mut emu = loaded(&[0x60, 0x03, 0xF0, 0x15, 0x61, 0x01, 0xF1, 0x18]);
    run(&mut emu, 4);
    assert_eq!(emu.delay_timer(), 3);
    assert_eq!(emu.sound_timer(), 1);
    emu.tick_timers();
    assert_eq!(emu.delay_timer(), 2);
    assert_eq!(emu.sound_timer(), 0);
    emu.tick_timers();
    assert_eq!(emu.delay_timer(), 1);
    emu.tick_timers();
    assert_eq!(emu.delay_timer(), 0);
    emu.tick_timers();
    assert_eq!(emu.delay_timer(), 0);
    assert_eq!(emu.sound_timer(), 0);
}

#[test]
fn timers_at_zero_stay_at_zero() {
    let mut emu = Chip8::new();
    for _ in 0..5 {
        emu.tick_timers();
        assert_eq!(emu.delay_timer(), 0);
        assert_eq!(emu.sound_timer(), 0);
    }
}

#[test]
fn delay_timer_is_readable_by_programs() {
    let mut emu = loaded(&[0x60, 0x09, 0xF0, 0x15, 0xF5, 0x07]);
    run(&mut emu, 2);
    emu.tick_timers();
    run(&mut emu, 1);
    assert_eq!(emu.register(5), 8);
}

#[test]
fn call_then_return_resumes_after_call() {
    let mut emu = loaded(&[0x22, 0x06, 0x00, 0x00, 0x00, 0x00, 0x00, 0xEE]);
    run(&mut emu, 1);
    assert_eq!(emu.pc(), 0x206);
    assert_eq!(emu.stack_pointer(), 1);
    run(&mut emu, 1);
    assert_eq!(emu.pc(), 0x202);
    assert_eq!(emu.stack_pointer(), 0);
}

#[test]
fn seventeenth_nested_call_overflows() {
    let mut emu = loaded(&[0x22, 0x00]);
    run(&mut emu, 16);
    assert_eq!(emu.stack_pointer(), 16);
    assert_eq!(emu.tick(), Err(Fault::StackOverflow));
    assert_eq!(emu.stack_pointer(), 16);
}

#[test]
fn add_sets_flag_on_carry() {
    let mut emu = loaded(&[0x60, 0xC8, 0x61, 0x64, 0x80, 0x14]);
    run(&mut emu, 3);
    assert_eq!(emu.register(0), 44);
    assert_eq!(emu.register(15), 1);
    let mut emu = loaded(&[0x60, 0xFF, 0x61, 0x00, 0x80, 0x14]);
    run(&mut emu, 3);
    assert_eq!(emu.register(0), 255);
    assert_eq!(emu.register(15), 0);
}

#[test]
fn sub_sets_flag_without_borrow() {
    let mut emu = loaded(&[0x60, 0x05, 0x61, 0x03, 0x80, 0x15]);
    run(&mut emu, 3);
    assert_eq!(emu.register(0), 2);
    assert_eq!(emu.register(15), 1);
    let mut emu = loaded(&[0x60, 0x03, 0x61, 0x05, 0x80, 0x15]);
    run(&mut emu, 3);
    assert_eq!(emu.register(0), 254);
    assert_eq!(emu.register(15), 0);
    let mut emu = loaded(&[0x60, 0x04, 0x61, 0x04, 0x80, 0x15]);
    run(&mut emu, 3);
    assert_eq!(emu.register(0), 0);
    assert_eq!(emu.register(15), 1);
}

#[test]
fn reverse_sub_sets_flag_without_borrow() {
    let mut emu = loaded(&[0x60, 0x03, 0x61, 0x05, 0x80, 0x17]);
    run(&mut emu, 3);
    assert_eq!(emu.register(0), 2);
    assert_eq!(emu.register(15), 1);
    let mut emu = loaded(&[0x60, 0x05, 0x61, 0x03, 0x80, 0x17]);
    run(&mut emu, 3);
    assert_eq!(emu.register(0), 254);
    assert_eq!(emu.register(15), 0);
}

#[test]
fn shifts_set_flag() {
    let mut emu = loaded(&[0x60, 0x05, 0x80, 0x06]);
    run(&mut emu, 2);
    assert_eq!(emu.register(0), 2);
    assert_eq!(emu.register(15), 1);
    let mut emu = loaded(&[0x60, 0x81, 0x80, 0x0E]);
    run(&mut emu, 2);
    assert_eq!(emu.register(0), 0x02);
    assert_eq!(emu.register(15), 0x80);
    let mut emu = loaded(&[0x60, 0xB3, 0x80, 0x0E]);
    run(&mut emu, 2);
    assert_eq!(emu.register(0), 0x66);
    assert_eq!(emu.register(15), 0xB0);
}

#[test]
fn logic_and_immediates() {
    let mut emu = loaded(&[
        0x60, 0x0C, 0x61, 0x0A, 0x82, 0x00, 0x82, 0x11, 0x83, 0x00, 0x83, 0x12, 0x84, 0x00, 0x84, 0x13,
        0x75, 0xFF, 0x75, 0x03,
    ]);
    run(&mut emu, 10);
    assert_eq!(emu.register(2), 0x0E);
    assert_eq!(emu.register(3), 0x08);
    assert_eq!(emu.register(4), 0x06);
    assert_eq!(emu.register(5), 0x02);
    assert_eq!(emu.register(15), 0);
}

#[test]
fn skips_follow_their_conditions() {
    let mut emu = loaded(&[0x60, 0x07, 0x30, 0x07]);
    run(&mut emu, 2);
    assert_eq!(emu.pc(), 0x206);
    let mut emu = loaded(&[0x60, 0x07, 0x30, 0x08]);
    run(&mut emu, 2);
    assert_eq!(emu.pc(), 0x204);
    let mut emu = loaded(&[0x60, 0x07, 0x40, 0x08]);
    run(&mut emu, 2);
    assert_eq!(emu.pc(), 0x206);
    let mut emu = loaded(&[0x60, 0x07, 0x61, 0x07, 0x50, 0x10]);
    run(&mut emu, 3);
    assert_eq!(emu.pc(), 0x208);
    let mut emu = loaded(&[0x60, 0x07, 0x61, 0x07, 0x90, 0x10]);
    run(&mut emu, 3);
    assert_eq!(emu.pc(), 0x206);
}

#[test]
fn key_skips_read_the_key_numbered_by_the_register() {
    let mut emu = loaded(&[0xE1, 0x9E]);
    emu.set_key(0, true);
    run(&mut emu, 1);
    assert_eq!(emu.pc(), 0x204);
    let mut emu = loaded(&[0xE1, 0x9E]);
    emu.set_key(1, true);
    run(&mut emu, 1);
    assert_eq!(emu.pc(), 0x202);
    let mut emu = loaded(&[0x62, 0x05, 0xE2, 0xA1]);
    emu.set_key(2, true);
    run(&mut emu, 2);
    assert_eq!(emu.pc(), 0x206);
    let mut emu = loaded(&[0x62, 0x05, 0xE2, 0xA1]);
    emu.set_key(5, true);
    run(&mut emu, 2);
    assert_eq!(emu.pc(), 0x204);
}

#[test]
fn key_number_out_of_range_faults() {
    let mut emu = loaded(&[0x63, 0x10, 0xE3, 0x9E]);
    run(&mut emu, 1);
    assert_eq!(emu.tick(), Err(Fault::KeyOutOfRange));
    let mut emu = loaded(&[0x63, 0xFF, 0xE3, 0xA1]);
    run(&mut emu, 1);
    assert_eq!(emu.tick(), Err(Fault::KeyOutOfRange));
    let mut emu = loaded(&[0x63, 0x10, 0xF3, 0x0A]);
    run(&mut emu, 1);
    assert_eq!(emu.tick(), Err(Fault::KeyOutOfRange));
    assert_eq!(emu.pc(), 0x204);
}

#[test]
fn wait_key_stalls_until_pressed() {
    let mut emu = loaded(&[0xF1, 0x0A]);
    emu.set_key(1, true);
    assert_eq!(emu.tick(), Ok(Step::Stall));
    assert_eq!(emu.pc(), 0x200);
    assert_eq!(emu.tick(), Ok(Step::Stall));
    emu.set_key(0, true);
    assert!(emu.key(0));
    assert_eq!(emu.tick(), Ok(Step::Advance));
    assert_eq!(emu.pc(), 0x202);
    let mut emu = loaded(&[0x64, 0x07, 0xF4, 0x0A]);
    run(&mut emu, 1);
    assert_eq!(emu.tick(), Ok(Step::Stall));
    emu.set_key(7, true);
    assert_eq!(emu.tick(), Ok(Step::Advance));
}

#[test]
fn unknown_word_stalls() {
    let mut emu = loaded(&[0xFF, 0xFF]);
    assert_eq!(emu.tick(), Ok(Step::Stall));
    assert_eq!(emu.pc(), 0x200);
    assert_eq!(emu.tick(), Ok(Step::Stall));
    assert_eq!(emu.pc(), 0x200);
}

#[test]
fn jumps_set_program_counter() {
    let mut emu = loaded(&[0x13, 0x45]);
    run(&mut emu, 1);
    assert_eq!(emu.pc(), 0x345);
    let mut emu = loaded(&[0x60, 0x10, 0xB3, 0x00]);
    run(&mut emu, 2);
    assert_eq!(emu.pc(), 0x310);
}

#[test]
fn fetch_past_end_of_memory_faults() {
    let mut emu = loaded(&[0x1F, 0xFF]);
    run(&mut emu, 1);
    assert_eq!(emu.pc(), 0xFFF);
    assert_eq!(emu.tick(), Err(Fault::AddressOutOfRange));
    assert_eq!(emu.pc(), 0xFFF);
}

#[test]
fn fetch_below_program_area_faults() {
    let mut emu = loaded(&[0x10, 0x00]);
    run(&mut emu, 1);
    assert_eq!(emu.pc(), 0x000);
    assert_eq!(emu.tick(), Err(Fault::AddressOutOfRange));
    assert_eq!(emu.pc(), 0x000);
    let mut emu = loaded(&[0x11, 0xFE]);
    run(&mut emu, 1);
    assert_eq!(emu.fetch(), Err(Fault::AddressOutOfRange));
    assert_eq!(emu.pc(), 0x1FE);
}

#[test]
fn fetch_reads_big_endian_words() {
    let mut emu = loaded(&[0x12, 0x34]);
    assert_eq!(emu.fetch(), Ok(0x1234));
    assert_eq!(emu.pc(), 0x202);
}

#[test]
fn draw_reports_collision_on_redraw() {
    let mut emu = loaded(&[0xA0, 0x00, 0xD0, 0x15, 0xD0, 0x15]);
    run(&mut emu, 2);
    assert_eq!(emu.register(15), 0);
    for x in 0..4 {
        assert!(lit(&emu, x, 0));
        assert!(lit(&emu, x, 4));
    }
    assert!(lit(&emu, 0, 1));
    assert!(!lit(&emu, 1, 1));
    assert!(!lit(&emu, 4, 0));
    run(&mut emu, 1);
    assert_eq!(emu.register(15), 1);
    assert!(lit(&emu, 0, 0));
}

#[test]
fn draw_wraps_around_edges() {
    let mut emu = loaded(&[0x60, 0x3E, 0x61, 0x1F, 0xA0, 0x00, 0xD0, 0x12]);
    run(&mut emu, 4);
    assert_eq!(emu.register(15), 0);
    assert!(lit(&emu, 62, 31));
    assert!(lit(&emu, 63, 31));
    assert!(lit(&emu, 0, 31));
    assert!(lit(&emu, 1, 31));
    assert!(lit(&emu, 62, 0));
    assert!(lit(&emu, 1, 0));
    assert!(!lit(&emu, 63, 0));
    assert!(!lit(&emu, 2, 31));
    let count = emu.pixels().iter().filter(|p| **p).count();
    assert_eq!(count, 6);
    assert_eq!(SCREEN_HEIGHT, 32);
}

#[test]
fn draw_of_zero_rows_changes_nothing() {
    let mut emu = loaded(&[0xD0, 0x00]);
    run(&mut emu, 1);
    assert!(emu.pixels().iter().all(|p| !p));
    assert_eq!(emu.register(15), 0);
}

#[test]
fn draw_past_end_of_memory_faults() {
    let mut emu = loaded(&[0xAF, 0xFE, 0xD0, 0x03]);
    run(&mut emu, 1);
    assert_eq!(emu.tick(), Err(Fault::AddressOutOfRange));
    assert!(emu.pixels().iter().all(|p| !p));
}

#[test]
fn bcd_stores_decimal_digits() {
    let mut emu = loaded(&[0x60, 0xFE, 0xA3, 0x00, 0xF0, 0x33]);
    run(&mut emu, 3);
    assert_eq!(emu.memory_byte(0x300), 2);
    assert_eq!(emu.memory_byte(0x301), 5);
    assert_eq!(emu.memory_byte(0x302), 4);
    let mut emu = loaded(&[0xAF, 0xFE, 0xF0, 0x33]);
    run(&mut emu, 1);
    assert_eq!(emu.tick(), Err(Fault::AddressOutOfRange));
}

#[test]
fn register_dump_and_load_are_inclusive() {
    let mut emu = loaded(&[
        0x60, 0x01, 0x61, 0x02, 0x62, 0x03, 0x63, 0x04, 0xA3, 0x00, 0xF2, 0x55, 0x60, 0x00, 0x61, 0x00,
        0x62, 0x00, 0xF1, 0x65,
    ]);
    run(&mut emu, 10);
    assert_eq!(emu.memory_byte(0x300), 1);
    assert_eq!(emu.memory_byte(0x301), 2);
    assert_eq!(emu.memory_byte(0x302), 3);
    assert_eq!(emu.memory_byte(0x303), 0);
    assert_eq!(emu.register(0), 1);
    assert_eq!(emu.register(1), 2);
    assert_eq!(emu.register(2), 0);
    assert_eq!(emu.register(3), 4);
    assert_eq!(emu.index_register(), 0x300);
}

#[test]
fn add_to_index_and_its_overflow() {
    let mut emu = loaded(&[0x60, 0x10, 0xA1, 0x00, 0xF0, 0x1E]);
    run(&mut emu, 3);
    assert_eq!(emu.index_register(), 0x110);
    let mut emu = Chip8::new();
    assert_eq!(emu.apply(Instruction::SetIndex(0xFFF), 0), Ok(Step::Advance));
    for _ in 0..15 {
        assert_eq!(emu.apply(Instruction::SetImm(0, 0xFF), 0), Ok(Step::Advance));
    }
    let mut total: u32 = 0xFFF;
    while total + 0xFF <= 0xFFFF {
        assert_eq!(emu.apply(Instruction::AddIndex(0), 0), Ok(Step::Advance));
        total += 0xFF;
    }
    assert_eq!(emu.index_register() as u32, total);
    assert_eq!(emu.apply(Instruction::AddIndex(0), 0), Err(Fault::AddressOutOfRange));
    assert_eq!(emu.index_register() as u32, total);
}

#[test]
fn random_is_masked() {
    let mut emu = Chip8::new();
    assert_eq!(emu.apply(Instruction::Random(3, 0x0F), 0xAB), Ok(Step::Advance));
    assert_eq!(emu.register(3), 0x0B);
    assert_eq!(emu.execute(0xC300), Ok(Step::Advance));
    assert_eq!(emu.register(3), 0);
    for _ in 0..20 {
        assert_eq!(emu.execute(0xC30F), Ok(Step::Advance));
        assert!(emu.register(3) <= 0x0F);
    }
}

#[test]
fn load_rejects_oversized_program() {
    let mut emu = Chip8::new();
    let big = vec![0xAAu8; 3585];
    assert_eq!(emu.load(&big), Err(Fault::ProgramTooLarge));
    assert_eq!(emu.memory_byte(0x200), 0);
    let full = vec![0xABu8; 3584];
    assert_eq!(emu.load(&full), Ok(()));
    assert_eq!(emu.memory_byte(0x200), 0xAB);
    assert_eq!(emu.memory_byte(4095), 0xAB);
    assert_eq!(emu.memory_byte(0x1FF), 0);
}

#[test]
fn decode_splits_nibbles() {
    assert_eq!(decode(0x00E0), Instruction::ClearScreen);
    assert_eq!(decode(0x00EE), Instruction::Return);
    assert_eq!(decode(0x1ABC), Instruction::Jump(0xABC));
    assert_eq!(decode(0x2ABC), Instruction::Call(0xABC));
    assert_eq!(decode(0x3A12), Instruction::SkipEqImm(10, 0x12));
    assert_eq!(decode(0x5AB0), Instruction::SkipEqReg(10, 11));
    assert_eq!(decode(0x5AB1), Instruction::Unknown);
    assert_eq!(decode(0x8AB4), Instruction::AddReg(10, 11));
    assert_eq!(decode(0x8AB6), Instruction::ShiftRight(10));
    assert_eq!(decode(0x8ABE), Instruction::ShiftLeft(10));
    assert_eq!(decode(0x8AB8), Instruction::Unknown);
    assert_eq!(decode(0xBABC), Instruction::JumpOffset(0xABC));
    assert_eq!(decode(0xC3F0), Instruction::Random(3, 0xF0));
    assert_eq!(decode(0xD12F), Instruction::Draw(1, 2, 15));
    assert_eq!(decode(0xE59E), Instruction::SkipKey(5));
    assert_eq!(decode(0xE5A1), Instruction::SkipNoKey(5));
    assert_eq!(decode(0xF129), Instruction::FontChar(1));
    assert_eq!(decode(0xF165), Instruction::LoadRegs(1));
    assert_eq!(decode(0xF166), Instruction::Unknown);
    assert_eq!(decode(0x0123), Instruction::Unknown);
}

#[test]
fn screen_operations() {
    let mut screen = chip8::Screen::new();
    assert_eq!(screen.width(), 64);
    assert_eq!(screen.height(), 32);
    assert_eq!(screen.get_index(3, 2), 131);
    screen.set_pixel(3, 2, true);
    assert!(screen.get_pixel(3, 2));
    assert!(screen.pixels()[131]);
    assert_eq!(screen.pixels().iter().filter(|p| **p).count(), 1);
    screen.clear();
    assert!(screen.pixels().iter().all(|p| !p));
    let d = chip8::Screen::default();
    assert_eq!(d.pixels().len(), 2048);
}
