use chip8::Chip8;
use chip8::Fault;

fn boot(prog: &[u8]) -> Chip8 {
    let mut c = Chip8::new();
    c.load(&prog.to_vec()).unwrap();
    c
}

#[test]
fn jump_lands_exactly_on_target() {
    let mut c = boot(&[0x13, 0x00]);
    c.step(0, 0).unwrap();
    // 0x300 exactly, not 0x300 + 2
    assert_eq!(c.pc, 0x300);
}

#[test]
fn call_then_return_resumes_after_call() {
    // call 0x300 from 0x200; 0x300 holds the return instruction
    let mut prog = vec![0u8; 0x102];
    prog[0] = 0x23;
    prog[1] = 0x00;
    prog[0x100] = 0x00;
    prog[0x101] = 0xEE;
    let mut c = boot(&prog);
    c.step(0, 0).unwrap();
    assert_eq!(c.pc, 0x300);
    assert_eq!(c.stack, vec![0x202]);
    c.step(0, 0).unwrap();
    assert_eq!(c.pc, 0x202);
    assert_eq!(c.stack.len(), 0);
}

#[test]
fn seventeenth_nested_call_overflows_stack() {
    // a chain of calls, each to the next address
    let mut prog: Vec<u8> = Vec::new();
    for k in 0..17u16 {
        let target = 0x202 + 2 * k;
        prog.push(0x20 | (target >> 8) as u8);
        prog.push((target & 0xFF) as u8);
    }
    let mut c = boot(&prog);
    for _ in 0..16 {
        c.step(0, 0).unwrap();
    }
    let expected: Vec<u16> = (0..16u16).map(|k| 0x202 + 2 * k).collect();
    assert_eq!(c.stack, expected);
    assert_eq!(c.pc, 0x220);
    assert_eq!(c.step(0, 0), Err(Fault::StackOverflow));
    // the first 16 return addresses are untouched and the machine did
    // not move
    assert_eq!(c.stack, expected);
    assert_eq!(c.pc, 0x220);
}

#[test]
fn set_and_add_immediate() {
    let mut c = boot(&[0x60, 0x05, 0x70, 0x0A]);
    c.step(0, 0).unwrap();
    assert_eq!(c.v[0], 5);
    c.step(0, 0).unwrap();
    assert_eq!(c.v[0], 15);
}

#[test]
fn add_immediate_wraps_without_flag() {
    // VF = 5 first, then V0 = 250, V0 += 10
    let mut c = boot(&[0x6F, 0x05, 0x60, 0xFA, 0x70, 0x0A]);
    for _ in 0..3 {
        c.step(0, 0).unwrap();
    }
    assert_eq!(c.v[0], 4);
    // the immediate add never touches the flag register
    assert_eq!(c.v[15], 5);
}

#[test]
fn add_register_sets_carry() {
    // V0 = 200, V1 = 100, V0 += V1
    let mut c = boot(&[0x60, 0xC8, 0x61, 0x64, 0x80, 0x14]);
    for _ in 0..3 {
        c.step(0, 0).unwrap();
    }
    assert_eq!(c.v[0], 44);
    assert_eq!(c.v[15], 1);
}

#[test]
fn add_register_clears_carry() {
    // VF = 1 beforehand to see it cleared
    let mut c = boot(&[0x6F, 0x01, 0x60, 0x14, 0x61, 0x28, 0x80, 0x14]);
    for _ in 0..4 {
        c.step(0, 0).unwrap();
    }
    assert_eq!(c.v[0], 60);
    assert_eq!(c.v[15], 0);
}

#[test]
fn sub_register_borrow_polarity() {
    // V0 = 10, V1 = 25, V0 -= V1: borrow, VF = 0, result wraps
    let mut c = boot(&[0x60, 0x0A, 0x61, 0x19, 0x80, 0x15]);
    for _ in 0..3 {
        c.step(0, 0).unwrap();
    }
    assert_eq!(c.v[0], 241);
    assert_eq!(c.v[15], 0);
}

#[test]
fn sub_register_no_borrow() {
    // V0 = 25, V1 = 10, V0 -= V1: no borrow, VF = 1
    let mut c = boot(&[0x60, 0x19, 0x61, 0x0A, 0x80, 0x15]);
    for _ in 0..3 {
        c.step(0, 0).unwrap();
    }
    assert_eq!(c.v[0], 15);
    assert_eq!(c.v[15], 1);
}

#[test]
fn subn_register_reversed_order() {
    // V0 = 10, V1 = 25, V0 = V1 - V0: no borrow, VF = 1
    let mut c = boot(&[0x60, 0x0A, 0x61, 0x19, 0x80, 0x17]);
    for _ in 0..3 {
        c.step(0, 0).unwrap();
    }
    assert_eq!(c.v[0], 15);
    assert_eq!(c.v[15], 1);
}

#[test]
fn bitwise_or_and_xor() {
    let mut c = boot(&[
        0x60, 0x0C, 0x61, 0x0A, 0x80, 0x11, // V0 = 0x0C | 0x0A
        0x62, 0x0C, 0x63, 0x0A, 0x82, 0x32, // V2 = 0x0C & 0x0A
        0x64, 0x0C, 0x65, 0x0A, 0x84, 0x53, // V4 = 0x0C ^ 0x0A
    ]);
    for _ in 0..9 {
        c.step(0, 0).unwrap();
    }
    assert_eq!(c.v[0], 0x0E);
    assert_eq!(c.v[2], 0x08);
    assert_eq!(c.v[4], 0x06);
}

#[test]
fn shifts_report_shifted_out_bit() {
    // V0 = 0b1000_0101; shift right then left
    let mut c = boot(&[0x60, 0x85, 0x80, 0x06]);
    c.step(0, 0).unwrap();
    c.step(0, 0).unwrap();
    assert_eq!(c.v[0], 0x42);
    assert_eq!(c.v[15], 1);
    let mut c2 = boot(&[0x60, 0x85, 0x80, 0x0E]);
    c2.step(0, 0).unwrap();
    c2.step(0, 0).unwrap();
    assert_eq!(c2.v[0], 0x0A);
    assert_eq!(c2.v[15], 1);
}

#[test]
fn conditional_skips() {
    // V0 = 7: skip if V0 == 7 skips; then a word that would fault is
    // jumped over
    let mut c = boot(&[0x60, 0x07, 0x30, 0x07]);
    c.step(0, 0).unwrap();
    c.step(0, 0).unwrap();
    assert_eq!(c.pc, 0x206);
    // not taken when unequal
    let mut c2 = boot(&[0x60, 0x07, 0x30, 0x08]);
    c2.step(0, 0).unwrap();
    c2.step(0, 0).unwrap();
    assert_eq!(c2.pc, 0x204);
    // 4XNN skips on not-equal
    let mut c3 = boot(&[0x60, 0x07, 0x40, 0x08]);
    c3.step(0, 0).unwrap();
    c3.step(0, 0).unwrap();
    assert_eq!(c3.pc, 0x206);
    // 5XY0 and 9XY0 compare registers
    let mut c4 = boot(&[0x60, 0x07, 0x61, 0x07, 0x50, 0x10]);
    for _ in 0..3 {
        c4.step(0, 0).unwrap();
    }
    assert_eq!(c4.pc, 0x208);
    let mut c5 = boot(&[0x60, 0x07, 0x61, 0x08, 0x90, 0x10]);
    for _ in 0..3 {
        c5.step(0, 0).unwrap();
    }
    assert_eq!(c5.pc, 0x208);
}

#[test]
fn key_skips_follow_key_state() {
    // V0 = 5; EX9E skips when key 5 is pressed
    let keys: u16 = 1 << 5;
    let mut c = boot(&[0x60, 0x05, 0xE0, 0x9E]);
    c.step(keys, 0).unwrap();
    c.step(keys, 0).unwrap();
    assert_eq!(c.pc, 0x206);
    // EXA1 skips when it is not pressed
    let mut c2 = boot(&[0x60, 0x05, 0xE0, 0xA1]);
    c2.step(0, 0).unwrap();
    c2.step(0, 0).unwrap();
    assert_eq!(c2.pc, 0x206);
    let mut c3 = boot(&[0x60, 0x05, 0xE0, 0xA1]);
    c3.step(keys, 0).unwrap();
    c3.step(keys, 0).unwrap();
    assert_eq!(c3.pc, 0x204);
}

#[test]
fn wait_key_polls_until_a_key_comes() {
    let mut c = boot(&[0xF0, 0x0A]);
    // no key: no progress, the same instruction runs again
    c.step(0, 0).unwrap();
    assert_eq!(c.pc, 0x200);
    c.step(0, 0).unwrap();
    assert_eq!(c.pc, 0x200);
    // keys 3 and 9 pressed: the lowest one is latched
    c.step((1 << 3) | (1 << 9), 0).unwrap();
    assert_eq!(c.pc, 0x202);
    assert_eq!(c.v[0], 3);
}

#[test]
fn random_byte_is_masked() {
    let mut c = boot(&[0xC0, 0x0F]);
    c.step(0, 0xAB).unwrap();
    assert_eq!(c.v[0], 0x0B);
}

#[test]
fn jump_with_offset_adds_v0() {
    let mut c = boot(&[0x60, 0x10, 0xB3, 0x00]);
    c.step(0, 0).unwrap();
    c.step(0, 0).unwrap();
    assert_eq!(c.pc, 0x310);
}

#[test]
fn index_register_ops() {
    let mut c = boot(&[0xA3, 0x00, 0x60, 0x05, 0xF0, 0x1E]);
    for _ in 0..3 {
        c.step(0, 0).unwrap();
    }
    assert_eq!(c.i, 0x305);
    // the add wraps in the 12-bit space
    let mut c2 = boot(&[0xAF, 0xFF, 0x60, 0x05, 0xF0, 0x1E]);
    for _ in 0..3 {
        c2.step(0, 0).unwrap();
    }
    assert_eq!(c2.i, 0x004);
}

#[test]
fn font_index_points_at_glyph() {
    let mut c = boot(&[0x60, 0x0B, 0xF0, 0x29]);
    c.step(0, 0).unwrap();
    c.step(0, 0).unwrap();
    assert_eq!(c.i, 0x50 + 5 * 0x0B);
}

#[test]
fn bcd_store_writes_three_digits() {
    let mut c = boot(&[0x60, 0xFE, 0xA3, 0x00, 0xF0, 0x33]);
    for _ in 0..3 {
        c.step(0, 0).unwrap();
    }
    assert_eq!(c.memory[0x300], 2);
    assert_eq!(c.memory[0x301], 5);
    assert_eq!(c.memory[0x302], 4);
    assert_eq!(c.i, 0x300);
}

#[test]
fn store_and_load_registers_round_trip() {
    let mut c = boot(&[
        0x60, 0x11, 0x61, 0x22, 0x62, 0x33, // V0..V2
        0xA3, 0x00, 0xF2, 0x55, // store V0..=V2 at 0x300
        0x60, 0x00, 0x61, 0x00, 0x62, 0x00, // clear them
        0xF2, 0x65, // load back
    ]);
    for _ in 0..5 {
        c.step(0, 0).unwrap();
    }
    assert_eq!(c.memory[0x300], 0x11);
    assert_eq!(c.memory[0x301], 0x22);
    assert_eq!(c.memory[0x302], 0x33);
    // the index register is left unchanged by the transfer
    assert_eq!(c.i, 0x300);
    for _ in 0..4 {
        c.step(0, 0).unwrap();
    }
    assert_eq!(c.v[0], 0x11);
    assert_eq!(c.v[1], 0x22);
    assert_eq!(c.v[2], 0x33);
    assert_eq!(c.i, 0x300);
}

#[test]
fn draws_the_five_glyph_at_origin() {
    // V0 = 5; I = font address of the glyph for 5; V0 = 0; V1 = 0;
    // draw 5 rows at (V0, V1)
    let mut c = boot(&[0x60, 0x05, 0xF0, 0x29, 0x60, 0x00, 0x61, 0x00, 0xD0, 0x15]);
    for _ in 0..5 {
        c.step(0, 0).unwrap();
    }
    let glyph = [0xF0u8, 0x80, 0xF0, 0x10, 0xF0];
    for y in 0..5 {
        for x in 0..8 {
            let expected = (glyph[y] >> (7 - x)) & 1 == 1;
            assert_eq!(c.get_pixel(x, y), expected);
        }
    }
    // a draw on a blank screen collides nowhere
    assert_eq!(c.v[15], 0);
}

#[test]
fn draw_twice_restores_the_display() {
    let prog = [0x60, 0x05, 0xF0, 0x29, 0x60, 0x07, 0x61, 0x03, 0xD0, 0x15, 0xD0, 0x15];
    let mut c = boot(&prog);
    for _ in 0..5 {
        c.step(0, 0).unwrap();
    }
    assert_eq!(c.v[15], 0);
    assert!(c.get_pixel(7, 3));
    c.step(0, 0).unwrap();
    // XOR is its own inverse: the display is blank again
    for y in 0..32 {
        for x in 0..64 {
            assert!(!c.get_pixel(x, y));
        }
    }
    // the second draw cleared every pixel the first had set
    assert_eq!(c.v[15], 1);
}

#[test]
fn draw_clips_at_the_edges() {
    // V0 = 62, V1 = 30: only the 2x2 corner of the glyph plots
    let mut c = boot(&[0x60, 0x05, 0xF0, 0x29, 0x60, 0x3E, 0x61, 0x1E, 0xD0, 0x15]);
    for _ in 0..5 {
        c.step(0, 0).unwrap();
    }
    // rows 0 and 1 of the glyph for 5 are 0xF0 and 0x80
    assert!(c.get_pixel(62, 30));
    assert!(c.get_pixel(63, 30));
    assert!(c.get_pixel(62, 31));
    assert!(!c.get_pixel(63, 31));
    assert_eq!(c.v[15], 0);
}

#[test]
fn draw_origin_wraps_modulo_grid() {
    // V0 = 64 wraps to column 0, V1 = 35 wraps to row 3
    let mut c = boot(&[0x60, 0x05, 0xF0, 0x29, 0x60, 0x40, 0x61, 0x23, 0xD0, 0x11]);
    for _ in 0..5 {
        c.step(0, 0).unwrap();
    }
    // first glyph row of 5 is 0xF0: four pixels at (0..4, 3)
    assert!(c.get_pixel(0, 3));
    assert!(c.get_pixel(3, 3));
    assert!(!c.get_pixel(4, 3));
}

#[test]
fn clear_screen_resets_every_pixel() {
    let mut c = boot(&[0x60, 0x05, 0xF0, 0x29, 0x60, 0x00, 0x61, 0x00, 0xD0, 0x15, 0x00, 0xE0]);
    for _ in 0..6 {
        c.step(0, 0).unwrap();
    }
    for y in 0..32 {
        for x in 0..64 {
            assert!(!c.get_pixel(x, y));
        }
    }
}

#[test]
fn collision_flag_set_when_pixels_clear() {
    // draw the glyph for 5, then draw the glyph for 7 over it: row 0 of
    // both is 0xF0, so pixels clear and VF reports the collision
    let mut c = boot(&[
        0x60, 0x05, 0xF0, 0x29, 0x62, 0x00, 0x63, 0x00, 0xD2, 0x31,
        0x60, 0x07, 0xF0, 0x29, 0xD2, 0x31,
    ]);
    for _ in 0..8 {
        c.step(0, 0).unwrap();
    }
    assert_eq!(c.v[15], 1);
    assert!(!c.get_pixel(0, 0));
}

#[test]
fn set_register_copies_register() {
    let mut c = boot(&[0x61, 0x2A, 0x80, 0x10]);
    c.step(0, 0).unwrap();
    c.step(0, 0).unwrap();
    assert_eq!(c.v[0], 0x2A);
    assert_eq!(c.v[1], 0x2A);
}

#[test]
fn unknown_sub_patterns_are_invalid() {
    // 5XY1, 8XY8, EX00 and 0NNN machine calls match no known pattern
    for prog in [[0x50u8, 0x11], [0x80, 0x18], [0xE0, 0x00], [0x02, 0x34]] {
        let mut c = boot(&prog);
        assert_eq!(c.step(0, 0), Err(Fault::InvalidOpcode));
        assert_eq!(c.pc, 0x200);
    }
}
