use chip8::Chip8;

/// A machine loaded with `rom`, as the loader builds it.
fn machine(rom: &[u8]) -> Chip8 {
    Chip8::setup(&rom.to_vec())
}

/// One deterministic step with no held key, no random byte needed, and no
/// timer interval elapsed.
fn step(c: &mut Chip8) -> bool {
    let mut key: Option<u8> = None;
    c.step_with(&mut key, 0, false)
}

#[test]
fn loader_places_font_rom_and_pc() {
    let c = machine(&[0xAB, 0xCD]);
    assert_eq!(&c.memory[0..5], &[0xF0, 0x90, 0x90, 0x90, 0xF0]); // glyph 0
    assert_eq!(&c.memory[75..80], &[0xF0, 0x80, 0xF0, 0x80, 0x80]); // glyph F
    assert_eq!(c.memory[0x1FF], 0);
    assert_eq!(c.memory[0x200], 0xAB);
    assert_eq!(c.memory[0x201], 0xCD);
    assert_eq!(c.pc, 0x200);
    assert_eq!(c.sp, 0);
    assert_eq!(c.register_i, 0);
    assert!(c.registers.iter().all(|&r| r == 0));
    assert!(c.screen.iter().all(|&p| !p));
}

#[test]
fn loader_truncates_oversized_rom() {
    let rom = vec![0x77u8; 0x1000];
    let c = machine(&rom);
    assert_eq!(c.memory.len(), 0xFFF);
    assert_eq!(c.memory[0xFFE], 0x77);
    assert_eq!(c.memory[0x200], 0x77);
}

#[test]
fn add_immediate_wraps_without_flag() {
    // 7xkk with Vx = 0xFF and kk = 0x02 wraps to 0x01 and leaves VF alone.
    let mut c = machine(&[0x70, 0x02]);
    c.registers[0] = 0xFF;
    c.registers[0xF] = 0xA5;
    step(&mut c);
    assert_eq!(c.registers[0], 0x01);
    assert_eq!(c.registers[0xF], 0xA5);
    assert_eq!(c.pc, 0x202);

    let mut c = machine(&[0x73, 0x02]);
    c.registers[3] = 0xFF;
    step(&mut c);
    assert_eq!(c.registers[3], 0x01);
    assert_eq!(c.registers[0xF], 0);
}

#[test]
fn add_register_sets_carry_iff_sum_exceeds_255() {
    let mut c = machine(&[0x80, 0x14]);
    c.registers[0] = 200;
    c.registers[1] = 100;
    step(&mut c);
    assert_eq!(c.registers[0], 44);
    assert_eq!(c.registers[1], 100);
    assert_eq!(c.registers[0xF], 1);

    let mut c = machine(&[0x80, 0x14]);
    c.registers[0] = 100;
    c.registers[1] = 100;
    step(&mut c);
    assert_eq!(c.registers[0], 200);
    assert_eq!(c.registers[0xF], 0);
}

#[test]
fn sub_register_sets_not_borrow_flag() {
    // VF = 0 iff Vx < Vy.
    let mut c = machine(&[0x80, 0x15]);
    c.registers[0] = 5;
    c.registers[1] = 10;
    step(&mut c);
    assert_eq!(c.registers[0], 251);
    assert_eq!(c.registers[0xF], 0);

    let mut c = machine(&[0x80, 0x15]);
    c.registers[0] = 10;
    c.registers[1] = 5;
    step(&mut c);
    assert_eq!(c.registers[0], 5);
    assert_eq!(c.registers[0xF], 1);
}

#[test]
fn sub_reverse_uses_vy_minus_vx() {
    let mut c = machine(&[0x80, 0x17]);
    c.registers[0] = 5;
    c.registers[1] = 10;
    step(&mut c);
    assert_eq!(c.registers[0], 5);
    assert_eq!(c.registers[0xF], 1);

    let mut c = machine(&[0x80, 0x17]);
    c.registers[0] = 10;
    c.registers[1] = 5;
    step(&mut c);
    assert_eq!(c.registers[0], 251);
    assert_eq!(c.registers[0xF], 0);
}

#[test]
fn shift_right_reads_vy_not_vx() {
    let mut c = machine(&[0x80, 0x16]);
    c.registers[0] = 0xAA; // would give a different answer if Vx were shifted
    c.registers[1] = 0x0B;
    step(&mut c);
    assert_eq!(c.registers[0], 0x05);
    assert_eq!(c.registers[1], 0x0B);
    assert_eq!(c.registers[0xF], 1);
}

#[test]
fn shift_left_reads_vy_not_vx() {
    let mut c = machine(&[0x80, 0x1E]);
    c.registers[0] = 0xAA;
    c.registers[1] = 0x81;
    step(&mut c);
    assert_eq!(c.registers[0], 0x02);
    assert_eq!(c.registers[1], 0x81);
    assert_eq!(c.registers[0xF], 1);
}

#[test]
fn alu_assign_or_and_xor() {
    let mut c = machine(&[0x80, 0x10, 0x82, 0x31, 0x84, 0x52, 0x86, 0x73]);
    c.registers[1] = 0x12;
    c.registers[2] = 0xF0;
    c.registers[3] = 0x0F;
    c.registers[4] = 0x3C;
    c.registers[5] = 0x1F;
    c.registers[6] = 0xFF;
    c.registers[7] = 0x0F;
    step(&mut c);
    assert_eq!(c.registers[0], 0x12);
    step(&mut c);
    assert_eq!(c.registers[2], 0xFF);
    step(&mut c);
    assert_eq!(c.registers[4], 0x1C);
    step(&mut c);
    assert_eq!(c.registers[6], 0xF0);
}

#[test]
fn clear_screen_then_render_is_all_off() {
    let mut c = machine(&[0x00, 0xE0]);
    for i in 0..2048 {
        c.screen[i] = i % 3 == 0;
    }
    let changed = step(&mut c);
    assert!(changed);
    let pixels = c.draw();
    assert_eq!(pixels.len(), 64 * 32 * 4);
    for cell in pixels.chunks(4) {
        assert_eq!(cell, &[0x00, 0xF0, 0x00, 0xFF]);
    }
}

#[test]
fn render_maps_on_pixels_to_white() {
    let mut c = machine(&[]);
    c.screen[0] = true;
    c.screen[65] = true;
    let pixels = c.draw();
    assert_eq!(&pixels[0..4], &[0xFF, 0xFF, 0xFF, 0xFF]);
    assert_eq!(&pixels[4..8], &[0x00, 0xF0, 0x00, 0xFF]);
    assert_eq!(&pixels[65 * 4..66 * 4], &[0xFF, 0xFF, 0xFF, 0xFF]);
}

#[test]
fn draw_sprite_xor_and_collision() {
    // An 8x1 sprite of 0xFF at (0,0): first draw turns the first 8 pixels of
    // row 0 on with VF = 0; the identical draw turns them back off, VF = 1.
    let mut c = machine(&[0xD0, 0x11]);
    c.register_i = 0x300;
    c.memory[0x300] = 0xFF;
    let changed = step(&mut c);
    assert!(changed);
    for x in 0..8 {
        assert!(c.screen[x]);
    }
    assert!(!c.screen[8]);
    assert_eq!(c.registers[0xF], 0);

    c.pc = 0x200;
    let changed = step(&mut c);
    assert!(changed);
    for x in 0..8 {
        assert!(!c.screen[x]);
    }
    assert_eq!(c.registers[0xF], 1);
}

#[test]
fn draw_clips_at_screen_edges() {
    let mut c = machine(&[0xD0, 0x12]);
    c.register_i = 0x300;
    c.memory[0x300] = 0xFF;
    c.memory[0x301] = 0xFF;
    c.registers[0] = 60; // x: only 4 columns fit
    c.registers[1] = 31; // y: only 1 row fits
    step(&mut c);
    let lit: Vec<usize> = (0..2048).filter(|&i| c.screen[i]).collect();
    assert_eq!(lit, vec![31 * 64 + 60, 31 * 64 + 61, 31 * 64 + 62, 31 * 64 + 63]);
    assert_eq!(c.registers[0xF], 0);
}

#[test]
fn draw_wraps_start_coordinates() {
    let mut c = machine(&[0xD0, 0x11]);
    c.register_i = 0x300;
    c.memory[0x300] = 0x80; // single pixel
    c.registers[0] = 64; // 64 % 64 == 0
    c.registers[1] = 32; // 32 % 32 == 0
    step(&mut c);
    assert!(c.screen[0]);
    assert_eq!(c.screen.iter().filter(|&&p| p).count(), 1);
}

#[test]
fn bcd_stores_three_digits() {
    let mut c = machine(&[0xF0, 0x33]);
    c.registers[0] = 157;
    c.register_i = 0x300;
    step(&mut c);
    assert_eq!(c.memory[0x300], 1);
    assert_eq!(c.memory[0x301], 5);
    assert_eq!(c.memory[0x302], 7);
}

#[test]
fn bcd_writes_past_top_of_memory_are_dropped() {
    let mut c = machine(&[0xF0, 0x33]);
    c.registers[0] = 231;
    c.register_i = 0xFFE;
    step(&mut c);
    assert_eq!(c.memory[0xFFE], 2); // hundreds digit lands; the rest is clipped
    assert_eq!(c.pc, 0x202);
}

#[test]
fn store_then_load_round_trips_registers() {
    let mut c = machine(&[0xF3, 0x55, 0xF3, 0x65]);
    c.register_i = 0x400;
    let saved = [12u8, 34, 56, 78];
    c.registers[..4].copy_from_slice(&saved);
    c.registers[4] = 0x99;
    step(&mut c);
    assert_eq!(&c.memory[0x400..0x404], &saved);
    assert_eq!(c.memory[0x404], 0); // V4 is outside the stored range
    for r in c.registers[..4].iter_mut() {
        *r = 0xEE;
    }
    step(&mut c);
    assert_eq!(&c.registers[..4], &saved);
    assert_eq!(c.registers[4], 0x99);
}

#[test]
fn halted_machine_never_changes() {
    let mut c = machine(&[0x00, 0xE0]);
    c.pc = 0xFFE;
    c.dt = 7;
    c.st = 3;
    c.registers[2] = 0x42;
    for _ in 0..5 {
        let mut key: Option<u8> = Some(9);
        let changed = c.step_with(&mut key, 0x5A, true);
        assert!(!changed);
        assert_eq!(key, Some(9));
    }
    assert_eq!(c.pc, 0xFFE);
    assert_eq!(c.dt, 7);
    assert_eq!(c.st, 3);
    assert_eq!(c.registers[2], 0x42);

    c.pc = 0xFFF;
    assert!(!step(&mut c));
    assert_eq!(c.pc, 0xFFF);
}

#[test]
fn timers_tick_only_when_interval_elapsed() {
    let mut c = machine(&[0x60, 0x01, 0x60, 0x01, 0x60, 0x01]);
    c.dt = 5;
    c.st = 3;
    let mut key: Option<u8> = None;
    c.step_with(&mut key, 0, false);
    assert_eq!((c.dt, c.st), (5, 3));
    c.step_with(&mut key, 0, true);
    assert_eq!((c.dt, c.st), (4, 2));
    c.step_with(&mut key, 0, false);
    assert_eq!((c.dt, c.st), (4, 2));
}

#[test]
fn timers_never_go_below_zero() {
    let mut c = machine(&[0x60, 0x01, 0x60, 0x01]);
    c.dt = 1;
    c.st = 0;
    let mut key: Option<u8> = None;
    c.step_with(&mut key, 0, true);
    assert_eq!((c.dt, c.st), (0, 0));
    c.step_with(&mut key, 0, true);
    assert_eq!((c.dt, c.st), (0, 0));
}

#[test]
fn branching_instruction_skips_the_tick() {
    // 1nnn jumps back to itself: the timers are left alone even when the
    // interval elapsed.
    let mut c = machine(&[0x12, 0x00]);
    c.dt = 5;
    let mut key: Option<u8> = None;
    let changed = c.step_with(&mut key, 0, true);
    assert!(!changed);
    assert_eq!(c.pc, 0x200);
    assert_eq!(c.dt, 5);
}

#[test]
fn jump_call_and_return() {
    let mut c = machine(&[0x22, 0x06, 0x00, 0x00, 0x00, 0x00, 0x00, 0xEE]);
    step(&mut c); // 2nnn: call 0x206
    assert_eq!(c.pc, 0x206);
    assert_eq!(c.sp, 1);
    assert_eq!(c.stack[1], 0x202);
    step(&mut c); // 00EE: return
    assert_eq!(c.pc, 0x202);
    assert_eq!(c.sp, 0);

    let mut c = machine(&[0x1A, 0xBC]);
    step(&mut c);
    assert_eq!(c.pc, 0xABC);
}

#[test]
fn jump_with_offset_adds_v0() {
    let mut c = machine(&[0xB3, 0x00]);
    c.registers[0] = 0x21;
    step(&mut c);
    assert_eq!(c.pc, 0x321);
}

#[test]
fn return_with_empty_stack_is_a_no_op() {
    let mut c = machine(&[0x00, 0xEE]);
    step(&mut c);
    assert_eq!(c.pc, 0x202);
    assert_eq!(c.sp, 0);
}

#[test]
fn call_with_full_stack_is_a_no_op() {
    let mut c = machine(&[0x23, 0x00]);
    c.sp = 15;
    step(&mut c);
    assert_eq!(c.pc, 0x202);
    assert_eq!(c.sp, 15);
}

#[test]
fn skip_instructions() {
    // 3xkk skips when Vx == kk.
    let mut c = machine(&[0x30, 0x07]);
    c.registers[0] = 0x07;
    step(&mut c);
    assert_eq!(c.pc, 0x204);
    let mut c = machine(&[0x30, 0x07]);
    step(&mut c);
    assert_eq!(c.pc, 0x202);

    // 4xkk skips when Vx != kk.
    let mut c = machine(&[0x40, 0x07]);
    step(&mut c);
    assert_eq!(c.pc, 0x204);

    // 5xy0 skips when Vx == Vy; 9xy0 when Vx != Vy.
    let mut c = machine(&[0x50, 0x10]);
    c.registers[0] = 3;
    c.registers[1] = 3;
    step(&mut c);
    assert_eq!(c.pc, 0x204);
    let mut c = machine(&[0x90, 0x10]);
    c.registers[0] = 3;
    c.registers[1] = 4;
    step(&mut c);
    assert_eq!(c.pc, 0x204);
}

#[test]
fn load_immediate_and_index() {
    let mut c = machine(&[0x6A, 0x55, 0xA1, 0x23]);
    step(&mut c);
    assert_eq!(c.registers[0xA], 0x55);
    step(&mut c);
    assert_eq!(c.register_i, 0x123);
}

#[test]
fn add_to_index_wraps_sixteen_bits() {
    let mut c = machine(&[0xF0, 0x1E]);
    c.register_i = 0xFFFF;
    c.registers[0] = 3;
    step(&mut c);
    assert_eq!(c.register_i, 2);
}

#[test]
fn font_lookup_multiplies_by_five() {
    let mut c = machine(&[0xF0, 0x29]);
    c.registers[0] = 0x0F;
    step(&mut c);
    assert_eq!(c.register_i, 75);
}

#[test]
fn timer_register_moves() {
    let mut c = machine(&[0xF0, 0x07, 0xF1, 0x15, 0xF2, 0x18]);
    c.dt = 42;
    step(&mut c);
    assert_eq!(c.registers[0], 42);
    c.registers[1] = 9;
    c.registers[2] = 8;
    step(&mut c);
    assert_eq!(c.dt, 9);
    step(&mut c);
    assert_eq!(c.st, 8);
}

#[test]
fn random_with_zero_mask_is_zero() {
    // Cxkk masks the random byte with kk; kk = 0 pins the result whatever
    // the random source returned.
    let mut c = machine(&[0xC5, 0x00]);
    c.registers[5] = 0xAA;
    let mut key: Option<u8> = None;
    let mut time = std::time::Instant::now();
    c.run_instruction(&mut key, &mut time);
    assert_eq!(c.registers[5], 0);
    assert_eq!(c.pc, 0x202);
}

#[test]
fn skip_if_key_consumes_the_match() {
    let mut c = machine(&[0xE0, 0x9E]);
    c.registers[0] = 7;
    let mut key: Option<u8> = Some(7);
    c.step_with(&mut key, 0, false);
    assert_eq!(c.pc, 0x204);
    assert_eq!(key, None);

    let mut c = machine(&[0xE0, 0x9E]);
    c.registers[0] = 7;
    let mut key: Option<u8> = Some(3);
    c.step_with(&mut key, 0, false);
    assert_eq!(c.pc, 0x202);
    assert_eq!(key, Some(3));

    let mut c = machine(&[0xE0, 0x9E]);
    c.registers[0] = 7;
    let mut key: Option<u8> = None;
    c.step_with(&mut key, 0, false);
    assert_eq!(c.pc, 0x202);
}

#[test]
fn skip_if_not_key_consumes_the_mismatch() {
    let mut c = machine(&[0xE0, 0xA1]);
    c.registers[0] = 7;
    let mut key: Option<u8> = Some(3);
    c.step_with(&mut key, 0, false);
    assert_eq!(c.pc, 0x204);
    assert_eq!(key, None);

    let mut c = machine(&[0xE0, 0xA1]);
    c.registers[0] = 7;
    let mut key: Option<u8> = Some(7);
    c.step_with(&mut key, 0, false);
    assert_eq!(c.pc, 0x202);
    assert_eq!(key, Some(7));

    let mut c = machine(&[0xE0, 0xA1]);
    let mut key: Option<u8> = None;
    c.step_with(&mut key, 0, false);
    assert_eq!(c.pc, 0x204);
    assert_eq!(key, None);
}

#[test]
fn wait_for_key_blocks_until_one_is_held() {
    let mut c = machine(&[0xF4, 0x0A]);
    let mut key: Option<u8> = None;
    for _ in 0..3 {
        let changed = c.step_with(&mut key, 0, false);
        assert!(!changed);
        assert_eq!(c.pc, 0x200);
    }
    let mut key: Option<u8> = Some(0xB);
    c.step_with(&mut key, 0, false);
    assert_eq!(c.registers[4], 0xB);
    assert_eq!(key, None);
    assert_eq!(c.pc, 0x202);
}

#[test]
fn wait_for_key_skips_the_tick_while_blocked() {
    let mut c = machine(&[0xF4, 0x0A]);
    c.dt = 5;
    let mut key: Option<u8> = None;
    c.step_with(&mut key, 0, true);
    assert_eq!(c.dt, 5);
}

#[test]
fn unknown_opcodes_fall_through() {
    // 8xyF, ExFF, FxFF and 0nnn forms with no meaning do nothing but advance.
    for rom in [[0x80u8, 0x1F], [0xE0, 0xFF], [0xF0, 0xFF], [0x01, 0x23]] {
        let mut c = machine(&rom);
        c.registers[0] = 0x11;
        c.registers[1] = 0x22;
        let changed = step(&mut c);
        assert!(!changed);
        assert_eq!(c.pc, 0x202);
        assert_eq!(c.registers[0], 0x11);
        assert_eq!(c.registers[1], 0x22);
    }
}

#[test]
fn store_past_top_of_memory_is_dropped() {
    let mut c = machine(&[0xF1, 0x55]);
    c.register_i = 0xFFE;
    c.registers[0] = 0xAB;
    c.registers[1] = 0xCD;
    step(&mut c);
    assert_eq!(c.memory[0xFFE], 0xAB);
    assert_eq!(c.pc, 0x202);
}

#[test]
fn end_to_end_draws_a_glyph() {
    // Clear the screen, set V0 = 0x0F, point I at the glyph for that digit,
    // and draw it five rows tall at (V1, V1) = (0, 0). The glyph's pixel
    // rows are 0xF0, 0x80, 0xF0, 0x80, 0x80, and there is no collision.
    let rom = [0x00u8, 0xE0, 0x60, 0x0F, 0xF0, 0x29, 0xD1, 0x15];
    let mut c = machine(&rom);
    let mut key: Option<u8> = None;
    let mut time = std::time::Instant::now();
    let mut changed = false;
    for _ in 0..4 {
        changed = c.run_instruction(&mut key, &mut time);
    }
    assert!(changed);
    assert_eq!(c.registers[0xF], 0);
    assert_eq!(c.register_i, 75);
    let glyph = [0xF0u8, 0x80, 0xF0, 0x80, 0x80];
    let pixels = c.draw();
    for (row, byte) in glyph.iter().enumerate() {
        for col in 0..8 {
            let on = (byte >> (7 - col)) & 1 == 1;
            let idx = (row * 64 + col) * 4;
            let expect: [u8; 4] = if on {
                [0xFF, 0xFF, 0xFF, 0xFF]
            } else {
                [0x00, 0xF0, 0x00, 0xFF]
            };
            assert_eq!(&pixels[idx..idx + 4], &expect);
        }
    }
    // Nothing else on the screen is lit.
    for (i, &p) in c.screen.iter().enumerate() {
        let row = i / 64;
        let col = i % 64;
        let expect = row < 5 && col < 8 && (glyph[row] >> (7 - col)) & 1 == 1;
        assert_eq!(p, expect, "pixel ({col}, {row})");
    }
}

#[test]
fn flag_register_as_destination_keeps_the_flag() {
    // 8FF4 adds VF to itself; the carry write happens last, so VF ends up
    // holding the flag, not the wrapped sum.
    let mut c = machine(&[0x8F, 0xF4]);
    c.registers[0xF] = 200;
    step(&mut c);
    assert_eq!(c.registers[0xF], 1);

    let mut c = machine(&[0x8F, 0xF4]);
    c.registers[0xF] = 100;
    step(&mut c);
    assert_eq!(c.registers[0xF], 0);
}

#[test]
fn sprite_rows_past_top_of_memory_are_skipped() {
    let mut c = machine(&[0xD0, 0x12]);
    c.register_i = 0xFFE;
    c.memory[0xFFE] = 0xFF; // row 0 exists; row 1 would sit past the top
    let changed = step(&mut c);
    assert!(changed);
    for x in 0..8 {
        assert!(c.screen[x]);
    }
    assert_eq!(c.screen.iter().filter(|&&p| p).count(), 8);
    assert_eq!(c.registers[0xF], 0);
    assert_eq!(c.pc, 0x202);
}
