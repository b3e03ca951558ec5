use silk8::instruction::decode_word;
use silk8::keypad::{index_from_value, value_from_index};
use silk8::{Chip8, Instruction, Variant};

fn machine(variant: Variant, rom: &[u8]) -> Chip8 {
    let mut c = Chip8::new(variant);
    c.load_font();
    c.load_rom_from_bytes(rom.to_vec());
    c
}

fn run_steps(c: &mut Chip8, n: usize) {
    for _ in 0..n {
        c.run_with_random(0);
    }
}

fn arith(variant: Variant, a: u8, b: u8, op: u8) -> (u8, u8) {
    let rom = [0x60, a, 0x61, b, 0x80, 0x10 | op];
    let mut c = machine(variant, &rom);
    run_steps(&mut c, 3);
    (c.get_register(0), c.get_register(0xF))
}

#[test]
fn new_session_starts_at_program_start() {
    let c = Chip8::new(Variant::CHIP8);
    assert_eq!(c.get_pc(), 0x200);
    assert_eq!(c.get_index(), 0);
    assert_eq!(c.get_sound_timer(), 0);
    assert_eq!(c.get_delay_timer(), 0);
    assert!(!c.hires_mode());
    assert!(!c.displayed_this_frame());
    assert!(c.get_display().iter().all(|p| *p == 0));
}

#[test]
fn add_sets_carry_on_wraparound() {
    assert_eq!(arith(Variant::CHIP8, 0xFF, 0x01, 4), (0x00, 1));
    assert_eq!(arith(Variant::CHIP8, 0x10, 0x20, 4), (0x30, 0));
    assert_eq!(arith(Variant::XOCHIP, 0x80, 0x80, 4), (0x00, 1));
    assert_eq!(arith(Variant::XOCHIP, 0xFF, 0x00, 4), (0xFF, 0));
}

#[test]
fn sub_sets_no_borrow_flag() {
    assert_eq!(arith(Variant::CHIP8, 0x05, 0x06, 5), (0xFF, 0));
    assert_eq!(arith(Variant::CHIP8, 0x06, 0x05, 5), (0x01, 1));
    assert_eq!(arith(Variant::CHIP8, 0x07, 0x07, 5), (0x00, 1));
}

#[test]
fn subrev_sets_no_borrow_flag() {
    assert_eq!(arith(Variant::SCHIP1_1, 0x05, 0x06, 7), (0x01, 1));
    assert_eq!(arith(Variant::SCHIP1_1, 0x06, 0x05, 7), (0xFF, 0));
    assert_eq!(arith(Variant::SCHIP1_1, 0x00, 0x00, 7), (0x00, 1));
}

#[test]
fn arithmetic_flags_over_many_values() {
    let mut a: u32 = 0;
    while a < 256 {
        let mut b: u32 = 0;
        while b < 256 {
            let (x, y) = (a as u8, b as u8);
            let sum = a + b;
            assert_eq!(arith(Variant::CHIP8, x, y, 4), ((sum % 256) as u8, (sum > 255) as u8));
            assert_eq!(arith(Variant::CHIP8, x, y, 5), (x.wrapping_sub(y), (a >= b) as u8));
            assert_eq!(arith(Variant::CHIP8, x, y, 7), (y.wrapping_sub(x), (b >= a) as u8));
            b += 15;
        }
        a += 17;
    }
}

#[test]
fn add_with_vf_as_target_keeps_the_flag() {
    // VF = 0xFF, V1 = 1: VF += V1 gives the carry, not the sum.
    let rom = [0x6F, 0xFF, 0x61, 0x01, 0x8F, 0x14];
    let mut c = machine(Variant::CHIP8, &rom);
    run_steps(&mut c, 3);
    assert_eq!(c.get_register(0xF), 1);
}

#[test]
fn chip8_logic_clears_vf() {
    for op in [1u8, 2, 3] {
        let rom = [0x6F, 0x05, 0x60, 0x03, 0x61, 0x05, 0x80, 0x10 | op];
        let mut c = machine(Variant::CHIP8, &rom);
        run_steps(&mut c, 4);
        assert_eq!(c.get_register(0xF), 0);
        let mut s = machine(Variant::SCHIP1_1, &rom);
        run_steps(&mut s, 4);
        assert_eq!(s.get_register(0xF), 5);
    }
    let mut c = machine(Variant::CHIP8, &[0x60, 0x0C, 0x61, 0x0A, 0x80, 0x11]);
    run_steps(&mut c, 3);
    assert_eq!(c.get_register(0), 0x0E);
    let mut c = machine(Variant::CHIP8, &[0x60, 0x0C, 0x61, 0x0A, 0x80, 0x12]);
    run_steps(&mut c, 3);
    assert_eq!(c.get_register(0), 0x08);
    let mut c = machine(Variant::CHIP8, &[0x60, 0x0C, 0x61, 0x0A, 0x80, 0x13]);
    run_steps(&mut c, 3);
    assert_eq!(c.get_register(0), 0x06);
}

#[test]
fn shift_source_depends_on_variant() {
    // V0 = 3, V1 = 5, 8016.
    let rom = [0x60, 0x03, 0x61, 0x05, 0x80, 0x16];
    let mut c = machine(Variant::CHIP8, &rom);
    run_steps(&mut c, 3);
    assert_eq!((c.get_register(0), c.get_register(0xF)), (0x02, 1));
    for v in [Variant::SCHIP1_0, Variant::SCHIP1_1, Variant::XOCHIP] {
        let mut s = machine(v, &rom);
        run_steps(&mut s, 3);
        assert_eq!((s.get_register(0), s.get_register(0xF)), (0x01, 1));
        assert_eq!(s.get_register(1), 0x05);
    }
    // V0 = 0x01, V1 = 0x81, 801E.
    let rom = [0x60, 0x01, 0x61, 0x81, 0x80, 0x1E];
    let mut c = machine(Variant::CHIP8, &rom);
    run_steps(&mut c, 3);
    assert_eq!((c.get_register(0), c.get_register(0xF)), (0x02, 1));
    let mut s = machine(Variant::XOCHIP, &rom);
    run_steps(&mut s, 3);
    assert_eq!((s.get_register(0), s.get_register(0xF)), (0x02, 0));
}

#[test]
fn return_with_empty_stack_goes_to_program_start() {
    let mut c = machine(Variant::CHIP8, &[0x00, 0xEE]);
    c.run_with_random(0);
    assert_eq!(c.get_pc(), 0x200);
}

#[test]
fn call_and_return() {
    // 0x200: call 0x206; 0x206: return.
    let rom = [0x22, 0x06, 0x00, 0x00, 0x00, 0x00, 0x00, 0xEE];
    let mut c = machine(Variant::CHIP8, &rom);
    c.run_with_random(0);
    assert_eq!(c.get_pc(), 0x206);
    c.run_with_random(0);
    assert_eq!(c.get_pc(), 0x202);
    c.run_with_random(0);
    c.run_with_random(0);
    assert_eq!(c.get_pc(), 0x206);
    c.run_with_random(0);
    assert_eq!(c.get_pc(), 0x200);
}

#[test]
fn drawing_twice_restores_display() {
    // I = glyph of 0, draw it at (0, 0) twice.
    let rom = [0x60, 0x00, 0xF0, 0x29, 0xD0, 0x05, 0xD0, 0x05];
    let mut c = machine(Variant::CHIP8, &rom);
    run_steps(&mut c, 3);
    assert!(c.displayed_this_frame());
    assert_eq!(c.get_register(0xF), 0);
    let d = c.get_display();
    assert_eq!(&d[0..4], &[1, 1, 1, 1]);
    assert_eq!(&d[64..68], &[1, 0, 0, 1]);
    assert_eq!(d[4], 0);
    c.run_with_random(0);
    assert_eq!(c.get_register(0xF), 1);
    assert!(c.get_display().iter().all(|p| *p == 0));
}

#[test]
fn draw_without_overlap_reports_no_collision() {
    // Glyph 0 at (0, 0), then glyph 1 at (8, 0).
    let rom = [0x60, 0x00, 0xF0, 0x29, 0xD0, 0x05, 0x61, 0x01, 0xF1, 0x29, 0x62, 0x08, 0xD2, 0x05];
    let mut c = machine(Variant::CHIP8, &rom);
    run_steps(&mut c, 7);
    assert_eq!(c.get_register(0xF), 0);
    assert!(c.displayed_this_frame());
    c.run_with_random(0);
    assert!(!c.displayed_this_frame());
}

#[test]
fn draw_clips_on_chip8_and_wraps_on_xochip() {
    // V0 = 62, I = glyph of 0 (top row 0xF0), draw one row at (62, 0).
    let rom = [0x60, 0x3E, 0x61, 0x00, 0xA0, 0x00, 0xD0, 0x11];
    let mut c = machine(Variant::CHIP8, &rom);
    run_steps(&mut c, 4);
    let d = c.get_display();
    assert_eq!((d[62], d[63], d[0], d[1]), (1, 1, 0, 0));
    let mut x = machine(Variant::XOCHIP, &rom);
    run_steps(&mut x, 4);
    let d = x.get_display();
    assert_eq!((d[62], d[63], d[0], d[1]), (1, 1, 1, 1));
}

#[test]
fn draw_start_coordinates_wrap() {
    // V0 = 64 + 2 draws at column 2 in low resolution.
    let rom = [0x60, 0x42, 0x61, 0x00, 0xA0, 0x00, 0xD0, 0x11];
    let mut c = machine(Variant::CHIP8, &rom);
    run_steps(&mut c, 4);
    let d = c.get_display();
    assert_eq!(&d[0..7], &[0, 0, 1, 1, 1, 1, 0]);
}

#[test]
fn big_sprite_is_sixteen_by_sixteen() {
    // Sprite data at 0x300: 32 bytes of 0xFF. High resolution, draw D010.
    let mut rom = vec![0x00, 0xFF, 0xA3, 0x00, 0x60, 0x00, 0xD0, 0x00];
    rom.resize(0x100, 0);
    rom.extend(std::iter::repeat(0xFF).take(32));
    let mut c = machine(Variant::SCHIP1_1, &rom);
    run_steps(&mut c, 4);
    let d = c.get_display();
    assert_eq!(d.len(), 128 * 64);
    for row in 0..16 {
        for col in 0..16 {
            assert_eq!(d[row * 128 + col], 1);
        }
        assert_eq!(d[row * 128 + 16], 0);
    }
    assert_eq!(d[16 * 128], 0);
    // On CHIP-8, D010 draws nothing.
    let mut c = machine(Variant::CHIP8, &rom);
    run_steps(&mut c, 4);
    assert!(c.get_display().iter().all(|p| *p == 0));
}

#[test]
fn store_and_load_round_trip() {
    // V0..V3 = 1, 2, 3, 4; I = 0x300; FX55; zero them; I = 0x300; FX65.
    let rom = [
        0x60, 0x01, 0x61, 0x02, 0x62, 0x03, 0x63, 0x04, 0xA3, 0x00, 0xF3, 0x55, 0x60, 0x00, 0x61,
        0x00, 0x62, 0x00, 0x63, 0x00, 0xA3, 0x00, 0xF3, 0x65,
    ];
    let mut c = machine(Variant::CHIP8, &rom);
    run_steps(&mut c, 6);
    assert_eq!(c.get_index(), 0x304);
    assert_eq!(c.read_memory(0x300), 1);
    assert_eq!(c.read_memory(0x303), 4);
    run_steps(&mut c, 6);
    assert_eq!(
        [c.get_register(0), c.get_register(1), c.get_register(2), c.get_register(3)],
        [1, 2, 3, 4]
    );
    assert_eq!(c.get_index(), 0x304);
    let mut x = machine(Variant::XOCHIP, &rom);
    run_steps(&mut x, 6);
    assert_eq!(x.get_index(), 0x300);
    run_steps(&mut x, 6);
    assert_eq!(
        [x.get_register(0), x.get_register(1), x.get_register(2), x.get_register(3)],
        [1, 2, 3, 4]
    );
    assert_eq!(x.get_index(), 0x300);
}

#[test]
fn store_wraps_around_memory() {
    // I = 0xFFF, V0 = 7, V1 = 9, F155.
    let rom = [0x60, 0x07, 0x61, 0x09, 0xAF, 0xFF, 0xF1, 0x55];
    let mut c = machine(Variant::XOCHIP, &rom);
    run_steps(&mut c, 4);
    assert_eq!(c.read_memory(0xFFF), 7);
    assert_eq!(c.read_memory(0x000), 9);
}

#[test]
fn wait_key_blocks_until_release() {
    let rom = [0xF3, 0x0A];
    let mut c = machine(Variant::CHIP8, &rom);
    for _ in 0..5 {
        c.run_with_random(0);
        assert_eq!(c.get_pc(), 0x200);
    }
    c.set_keypad_state(3, true);
    c.run_with_random(0);
    assert_eq!(c.get_pc(), 0x200);
    c.set_keypad_state(3, false);
    c.run_with_random(0);
    assert_eq!(c.get_register(3), 0xC);
    assert_eq!(c.get_pc(), 0x202);
}

#[test]
fn wait_key_holds_the_latched_key() {
    let rom = [0xF0, 0x0A];
    let mut c = machine(Variant::CHIP8, &rom);
    c.set_keypad_state(5, true);
    c.run_with_random(0);
    c.run_with_random(0);
    assert_eq!(c.get_pc(), 0x200);
    // Another key goes down and up: the latch stays on key 5.
    c.set_keypad_state(2, true);
    c.run_with_random(0);
    c.set_keypad_state(2, false);
    c.run_with_random(0);
    assert_eq!(c.get_pc(), 0x200);
    c.set_keypad_state(5, false);
    c.run_with_random(0);
    assert_eq!(c.get_pc(), 0x202);
    assert_eq!(c.get_register(0), 0x5);
}

#[test]
fn font_address_low_resolution() {
    let rom = [0x60, 0x0A, 0xF0, 0x29];
    let mut c = machine(Variant::CHIP8, &rom);
    run_steps(&mut c, 2);
    assert_eq!(c.get_index(), 5 * 10);
    assert_eq!(c.read_memory(50), 0xF0);
    assert_eq!(c.read_memory(51), 0x90);
}

#[test]
fn font_address_high_resolution() {
    let rom = [0x60, 0x1A, 0xF0, 0x30];
    let mut c = machine(Variant::SCHIP1_1, &rom);
    run_steps(&mut c, 2);
    assert_eq!(c.get_index(), 0x50 + 10 * 10);
    assert_eq!(c.read_memory(0x50 + 100), 0x7E);
    assert_eq!(c.read_memory(0x50), 0xFF);
    assert_eq!(c.read_memory(0xEF), 0xC0);
}

#[test]
fn scroll_down_in_high_resolution() {
    // High resolution, glyph 0 at (0, 0), then 00C2.
    let rom = [0x00, 0xFF, 0x60, 0x00, 0xF0, 0x29, 0xD0, 0x05, 0x00, 0xC2];
    let mut c = machine(Variant::SCHIP1_1, &rom);
    run_steps(&mut c, 4);
    let before = c.get_display();
    c.run_with_random(0);
    let after = c.get_display();
    assert_eq!(after.len(), 128 * 64);
    assert!(after[0..2 * 128].iter().all(|p| *p == 0));
    for row in 0..62 {
        assert_eq!(&after[(row + 2) * 128..(row + 3) * 128], &before[row * 128..(row + 1) * 128]);
    }
    assert_eq!(after[2 * 128], 1);
}

#[test]
fn scroll_sideways() {
    // Glyph 0 at (0, 0) in low resolution, then scroll right, then left twice.
    let rom = [0x60, 0x00, 0xF0, 0x29, 0xD0, 0x05, 0x00, 0xFB, 0x00, 0xFC, 0x00, 0xFC];
    let mut c = machine(Variant::SCHIP1_1, &rom);
    run_steps(&mut c, 4);
    let d = c.get_display();
    assert_eq!(d.len(), 64 * 32);
    assert_eq!(&d[0..9], &[0, 0, 0, 0, 1, 1, 1, 1, 0]);
    c.run_with_random(0);
    let d = c.get_display();
    assert_eq!(&d[0..5], &[1, 1, 1, 1, 0]);
    c.run_with_random(0);
    assert!(c.get_display().iter().all(|p| *p == 0));
}

#[test]
fn clear_and_resolution_switch() {
    let rom = [0x60, 0x00, 0xF0, 0x29, 0xD0, 0x05, 0x00, 0xE0, 0x00, 0xFF, 0x00, 0xFE];
    let mut c = machine(Variant::XOCHIP, &rom);
    run_steps(&mut c, 4);
    assert!(c.get_display().iter().all(|p| *p == 0));
    c.run_with_random(0);
    assert!(c.hires_mode());
    assert_eq!(c.get_display().len(), 8192);
    c.run_with_random(0);
    assert!(!c.hires_mode());
    assert_eq!(c.get_display().len(), 2048);
}

#[test]
fn skips() {
    // 3XNN taken, 4XNN not taken, 5XY0 taken, 9XY0 not taken.
    let rom = [0x60, 0x05, 0x61, 0x05, 0x30, 0x05];
    let mut c = machine(Variant::CHIP8, &rom);
    run_steps(&mut c, 3);
    assert_eq!(c.get_pc(), 0x208);
    let rom = [0x60, 0x05, 0x40, 0x05];
    let mut c = machine(Variant::CHIP8, &rom);
    run_steps(&mut c, 2);
    assert_eq!(c.get_pc(), 0x204);
    let rom = [0x60, 0x05, 0x61, 0x05, 0x50, 0x10];
    let mut c = machine(Variant::CHIP8, &rom);
    run_steps(&mut c, 3);
    assert_eq!(c.get_pc(), 0x208);
    let rom = [0x60, 0x05, 0x61, 0x05, 0x90, 0x10];
    let mut c = machine(Variant::CHIP8, &rom);
    run_steps(&mut c, 3);
    assert_eq!(c.get_pc(), 0x206);
}

#[test]
fn jumps() {
    let mut c = machine(Variant::CHIP8, &[0x13, 0x45]);
    c.run_with_random(0);
    assert_eq!(c.get_pc(), 0x345);
    // V0 = 2, V1 = 4, B100.
    let rom = [0x60, 0x02, 0x61, 0x04, 0xB1, 0x00];
    let mut c = machine(Variant::CHIP8, &rom);
    run_steps(&mut c, 3);
    assert_eq!(c.get_pc(), 0x102);
    let mut s = machine(Variant::SCHIP1_1, &rom);
    run_steps(&mut s, 3);
    assert_eq!(s.get_pc(), 0x104);
    let mut x = machine(Variant::XOCHIP, &rom);
    run_steps(&mut x, 3);
    assert_eq!(x.get_pc(), 0x102);
}

#[test]
fn random_is_masked() {
    let mut c = machine(Variant::CHIP8, &[0xC0, 0x0F, 0xC1, 0x00]);
    c.run_with_random(0xAB);
    assert_eq!(c.get_register(0), 0x0B);
    c.run();
    assert_eq!(c.get_register(1), 0);
}

#[test]
fn timers_count_down_to_zero() {
    let rom = [0x60, 0x02, 0xF0, 0x15, 0xF0, 0x18, 0xF1, 0x07];
    let mut c = machine(Variant::CHIP8, &rom);
    run_steps(&mut c, 3);
    assert_eq!(c.get_sound_timer(), 2);
    assert_eq!(c.get_delay_timer(), 2);
    c.decrement_timers();
    c.run_with_random(0);
    assert_eq!(c.get_register(1), 1);
    c.decrement_timers();
    c.decrement_timers();
    assert_eq!(c.get_sound_timer(), 0);
    assert_eq!(c.get_delay_timer(), 0);
}

#[test]
fn bcd_digits() {
    let rom = [0x60, 0xFE, 0xA3, 0x00, 0xF0, 0x33];
    let mut c = machine(Variant::CHIP8, &rom);
    run_steps(&mut c, 3);
    assert_eq!([c.read_memory(0x300), c.read_memory(0x301), c.read_memory(0x302)], [2, 5, 4]);
    let rom = [0x60, 0x7B, 0xAF, 0xFF, 0xF0, 0x33];
    let mut c = machine(Variant::CHIP8, &rom);
    run_steps(&mut c, 3);
    assert_eq!([c.read_memory(0xFFF), c.read_memory(0x000), c.read_memory(0x001)], [1, 2, 3]);
}

#[test]
fn add_to_index_wraps() {
    let rom = [0xAF, 0xFF, 0x60, 0xFF, 0xF0, 0x1E];
    let mut c = machine(Variant::CHIP8, &rom);
    run_steps(&mut c, 3);
    assert_eq!(c.get_index(), 0x10FE);
}

#[test]
fn add_immediate_wraps_without_flag() {
    let rom = [0x6F, 0x07, 0x60, 0xFF, 0x70, 0x02];
    let mut c = machine(Variant::CHIP8, &rom);
    run_steps(&mut c, 3);
    assert_eq!(c.get_register(0), 0x01);
    assert_eq!(c.get_register(0xF), 0x07);
}

#[test]
fn user_flags_keep_eight_registers() {
    // V0..VA = 1..11, FA75, zero V0 and V9, FA85.
    let mut rom = Vec::new();
    for k in 0..11u8 {
        rom.extend([0x60 | k, k + 1]);
    }
    rom.extend([0xFA, 0x75, 0x60, 0x00, 0x69, 0x00, 0xFA, 0x85]);
    let mut c = machine(Variant::XOCHIP, &rom);
    run_steps(&mut c, 15);
    assert_eq!(c.get_register(0), 1);
    assert_eq!(c.get_register(7), 8);
    assert_eq!(c.get_register(9), 0);
    assert_eq!(c.get_register(10), 11);
}

#[test]
fn key_skips_use_the_layout() {
    // V0 = 0xC is the key at position 3.
    let rom = [0x60, 0x0C, 0xE0, 0x9E, 0x00, 0x00, 0xE0, 0xA1];
    let mut c = machine(Variant::CHIP8, &rom);
    c.set_keypad_state(3, true);
    run_steps(&mut c, 2);
    assert_eq!(c.get_pc(), 0x206);
    c.run_with_random(0);
    assert_eq!(c.get_pc(), 0x208);
    let mut c = machine(Variant::CHIP8, &rom);
    run_steps(&mut c, 2);
    assert_eq!(c.get_pc(), 0x204);
}

#[test]
fn unknown_opcode_is_a_no_op() {
    let mut c = machine(Variant::CHIP8, &[0x01, 0x23, 0x51, 0x21, 0xFF, 0xFF]);
    run_steps(&mut c, 3);
    assert_eq!(c.get_pc(), 0x206);
    for k in 0..16 {
        assert_eq!(c.get_register(k), 0);
    }
}

#[test]
fn pc_past_memory_restarts_at_program_start() {
    // Jump to 0xFFE, execute the zero word there, then fetch again from 0x200.
    let mut c = machine(Variant::CHIP8, &[0x1F, 0xFE]);
    c.run_with_random(0);
    assert_eq!(c.get_pc(), 0xFFE);
    c.run_with_random(0);
    assert_eq!(c.get_pc(), 0x1000);
    c.run_with_random(0);
    assert_eq!(c.get_pc(), 0xFFE);
}

#[test]
fn oversized_rom_is_truncated() {
    let rom: Vec<u8> = (0..4000u32).map(|k| (k % 251) as u8).collect();
    let mut c = Chip8::new(Variant::CHIP8);
    c.load_rom_from_bytes(rom.clone());
    assert_eq!(c.read_memory(0x200), rom[0]);
    assert_eq!(c.read_memory(0xFFF), rom[0xDFF]);
    assert_eq!(c.read_memory(0x1FF), 0);
}

#[test]
fn font_is_loaded_below_program_start() {
    let mut c = Chip8::new(Variant::CHIP8);
    c.load_font();
    assert_eq!(c.read_memory(0), 0xF0);
    assert_eq!(c.read_memory(79), 0x80);
    assert_eq!(c.read_memory(80), 0xFF);
    assert_eq!(c.read_memory(0x50 + 10), 0x18);
    assert_eq!(c.read_memory(0xF0), 0);
}

#[test]
fn keypad_layout_round_trips() {
    assert_eq!(value_from_index(3), 0xC);
    assert_eq!(value_from_index(13), 0x0);
    assert_eq!(value_from_index(16), 0);
    assert_eq!(index_from_value(0xC), 3);
    assert_eq!(index_from_value(0x1C), 0);
    assert_eq!(index_from_value(16), 0);
    assert_eq!(index_from_value(0x0), 13);
    for k in 0..16u8 {
        assert_eq!(index_from_value(value_from_index(k)), k as usize);
    }
}

#[test]
fn decode_words() {
    assert_eq!(decode_word(0x80, 0x14), Instruction::AddReg { x: 0, y: 1 });
    assert_eq!(decode_word(0x00, 0xC3), Instruction::ScrollDown { n: 3 });
    assert_eq!(decode_word(0xD1, 0x20), Instruction::Draw { x: 1, y: 2, n: 0 });
    assert_eq!(decode_word(0xB2, 0x34), Instruction::JumpOffset { x: 2, nnn: 0x234 });
    assert_eq!(decode_word(0x51, 0x21), Instruction::Unknown { op: 0x5121 });
    assert_eq!(decode_word(0xF5, 0x85), Instruction::LoadFlags { x: 5 });
}

#[test]
fn frame_ends_after_a_draw_on_chip8_only() {
    // V0 = 0, I = glyph of 0, draw, then V0 += 1 and zero words.
    let rom = [0x60, 0x00, 0xF0, 0x29, 0xD0, 0x05, 0x70, 0x01];
    let mut c = machine(Variant::CHIP8, &rom);
    c.run_frame_with_random(&vec![0; 10]);
    assert_eq!(c.get_pc(), 0x206);
    assert_eq!(c.get_register(0), 0);
    let mut x = machine(Variant::XOCHIP, &rom);
    x.run_frame_with_random(&vec![0; 10]);
    assert_eq!(x.get_pc(), 0x214);
    assert_eq!(x.get_register(0), 1);
}

#[test]
fn frame_ticks_timers_once() {
    let rom = [0x60, 0x05, 0xF0, 0x15, 0xF0, 0x18];
    let mut c = machine(Variant::XOCHIP, &rom);
    c.run_frame_with_random(&vec![0; 3]);
    assert_eq!(c.get_delay_timer(), 4);
    assert_eq!(c.get_sound_timer(), 4);
    c.run_frame();
    assert_eq!(c.get_delay_timer(), 3);
    let mut e = machine(Variant::XOCHIP, &rom);
    e.run_frame_with_random(&Vec::new());
    assert_eq!(e.get_pc(), 0x200);
    assert_eq!(e.get_delay_timer(), 0);
}

#[test]
fn key_skip_masks_the_register() {
    // V0 = 0x1C: its low nibble 0xC is the key at position 3.
    let rom = [0x60, 0x1C, 0xE0, 0x9E];
    let mut c = machine(Variant::CHIP8, &rom);
    c.set_keypad_state(3, true);
    run_steps(&mut c, 2);
    assert_eq!(c.get_pc(), 0x206);
}

#[test]
fn second_draw_collides_only_where_the_first_lit_pixels() {
    // Glyph 0 drawn twice at (0, 0): the first draw lights pixels, the second collides.
    let rom = [0x60, 0x00, 0xF0, 0x29, 0xD0, 0x05, 0xD0, 0x05];
    let mut c = machine(Variant::XOCHIP, &rom);
    run_steps(&mut c, 3);
    let first = c.get_display();
    assert!(first.iter().any(|p| *p == 1));
    c.run_with_random(0);
    assert_eq!(c.get_register(0xF), 1);
    // A sprite of all-zero rows lights nothing, so drawing it twice never collides.
    let rom = [0x60, 0x00, 0xA3, 0x00, 0xD0, 0x05, 0xD0, 0x05];
    let mut z = machine(Variant::XOCHIP, &rom);
    run_steps(&mut z, 4);
    assert_eq!(z.get_register(0xF), 0);
    assert!(z.get_display().iter().all(|p| *p == 0));
}
