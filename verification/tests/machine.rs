use chip8::Chip8;
use chip8::Fault;

#[test]
fn new_machine_layout() {
    let c = Chip8::new();
    assert_eq!(c.pc, 0x200);
    assert_eq!(c.i, 0);
    assert_eq!(c.memory.len(), 4096);
    assert_eq!(c.v, vec![0u8; 16]);
    assert_eq!(c.stack.len(), 0);
    assert_eq!(c.delay_timer, 0);
    assert_eq!(c.sound_timer, 0);
    for y in 0..32 {
        for x in 0..64 {
            assert!(!c.get_pixel(x, y));
        }
    }
}

#[test]
fn font_seeded_at_0x50() {
    let c = Chip8::new();
    // glyph for 0 at the start, glyph for F at the end
    assert_eq!(&c.memory[0x50..0x55], &[0xF0, 0x90, 0x90, 0x90, 0xF0]);
    assert_eq!(&c.memory[0x9B..0xA0], &[0xF0, 0x80, 0xF0, 0x80, 0x80]);
    // outside the font everything is zero
    assert_eq!(c.memory[0x4F], 0);
    assert_eq!(c.memory[0xA0], 0);
}

#[test]
fn load_places_program_at_0x200() {
    let mut c = Chip8::new();
    c.load(&vec![0xAB, 0xCD, 0xEF]).unwrap();
    assert_eq!(c.memory[0x200], 0xAB);
    assert_eq!(c.memory[0x201], 0xCD);
    assert_eq!(c.memory[0x202], 0xEF);
    assert_eq!(c.memory[0x203], 0x00);
    assert_eq!(c.pc, 0x200);
}

#[test]
fn load_of_3584_bytes_succeeds() {
    let mut c = Chip8::new();
    let prog = vec![0x77u8; 3584];
    assert_eq!(c.load(&prog), Ok(()));
    assert_eq!(c.memory[0xFFF], 0x77);
    assert_eq!(c.memory[0x200], 0x77);
}

#[test]
fn load_of_3585_bytes_fails() {
    let mut c = Chip8::new();
    let prog = vec![0x77u8; 3585];
    assert_eq!(c.load(&prog), Err(Fault::ProgramTooLarge));
    // nothing was written
    assert_eq!(c.memory[0x200], 0x00);
    assert_eq!(c.memory[0xFFF], 0x00);
}

#[test]
fn flip_pixel_reports_prior_state() {
    let mut c = Chip8::new();
    assert!(!c.flip_pixel(3, 4));
    assert!(c.get_pixel(3, 4));
    assert!(c.flip_pixel(3, 4));
    assert!(!c.get_pixel(3, 4));
}

#[test]
fn read_sprite_bytes_reads_memory() {
    let c = Chip8::new();
    assert_eq!(c.read_sprite_bytes(0x50, 5), vec![0xF0, 0x90, 0x90, 0x90, 0xF0]);
    assert_eq!(c.read_sprite_bytes(0x00, 0), Vec::<u8>::new());
}

#[test]
fn timers_count_down_to_zero_and_stop() {
    let mut c = Chip8::new();
    // V2 = 2, delay = V2, V3 = 1, sound = V3
    c.load(&vec![0x62, 0x02, 0xF2, 0x15, 0x63, 0x01, 0xF3, 0x18]).unwrap();
    for _ in 0..4 {
        c.step(0, 0).unwrap();
    }
    assert_eq!(c.delay_timer, 2);
    assert_eq!(c.sound_timer, 1);
    c.tick_timers();
    assert_eq!(c.delay_timer, 1);
    assert_eq!(c.sound_timer, 0);
    c.tick_timers();
    assert_eq!(c.delay_timer, 0);
    assert_eq!(c.sound_timer, 0);
    c.tick_timers();
    assert_eq!(c.delay_timer, 0);
    assert_eq!(c.sound_timer, 0);
}

#[test]
fn delay_timer_read_into_register() {
    let mut c = Chip8::new();
    // V2 = 9, delay = V2, V4 = delay
    c.load(&vec![0x62, 0x09, 0xF2, 0x15, 0xF4, 0x07]).unwrap();
    for _ in 0..3 {
        c.step(0, 0).unwrap();
    }
    assert_eq!(c.v[4], 9);
}

#[test]
fn store_regs_keeps_font_region_intact() {
    let mut c = Chip8::new();
    // V0 = 9, V1 = 9, I = 0x050, store V0..=V1
    c.load(&vec![0x60, 0x09, 0x61, 0x09, 0xA0, 0x50, 0xF1, 0x55]).unwrap();
    for _ in 0..4 {
        c.step(0, 0).unwrap();
    }
    // the font region is immutable: the writes were dropped
    assert_eq!(c.memory[0x50], 0xF0);
    assert_eq!(c.memory[0x51], 0x90);
}

#[test]
fn step_reports_pc_out_of_bounds() {
    let mut c = Chip8::new();
    // jump to 0xFFF: the fetch there needs a byte at 0x1000, which does
    // not exist
    c.load(&vec![0x1F, 0xFF]).unwrap();
    c.step(0, 0).unwrap();
    assert_eq!(c.pc, 0xFFF);
    assert_eq!(c.step(0, 0), Err(Fault::ProgramCounterOutOfBounds));
    // the fault left the machine untouched
    assert_eq!(c.pc, 0xFFF);
}

#[test]
fn step_reports_invalid_opcode() {
    let mut c = Chip8::new();
    c.load(&vec![0xF0, 0xFF]).unwrap();
    assert_eq!(c.step(0, 0), Err(Fault::InvalidOpcode));
    assert_eq!(c.pc, 0x200);
}

#[test]
fn zero_word_is_invalid_opcode() {
    let mut c = Chip8::new();
    assert_eq!(c.step(0, 0), Err(Fault::InvalidOpcode));
}

#[test]
fn step_reports_stack_underflow() {
    let mut c = Chip8::new();
    c.load(&vec![0x00, 0xEE]).unwrap();
    assert_eq!(c.step(0, 0), Err(Fault::StackUnderflow));
    assert_eq!(c.pc, 0x200);
}

#[test]
fn load_of_empty_program_succeeds() {
    let mut c = Chip8::new();
    assert_eq!(c.load(&Vec::new()), Ok(()));
    assert_eq!(c.memory[0x200], 0);
    assert_eq!(c.pc, 0x200);
}

#[test]
fn zero_row_draw_changes_nothing() {
    let mut c = Chip8::new();
    c.load(&vec![0xA0, 0x50, 0xD0, 0x00]).unwrap();
    c.step(0, 0).unwrap();
    c.step(0, 0).unwrap();
    assert_eq!(c.v[15], 0);
    for y in 0..32 {
        for x in 0..64 {
            assert!(!c.get_pixel(x, y));
        }
    }
}
