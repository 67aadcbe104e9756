use chip8::emu::{Chip8, Chip8Options};
use chip8::step::{CycleDiag, Fault};

/// A machine whose program image starts with the given instruction words.
fn machine_with(program: &[u16], saving_increases_reg_i: bool, shift_vy_not_vx: bool) -> Chip8 {
    let mut rom: [u8; 3584] = [0; 3584];
    for i in 0..program.len() {
        rom[i * 2] = (program[i] >> 8) as u8;
        rom[i * 2 + 1] = (program[i] & 0xFF) as u8;
    }
    Chip8::new(rom, Chip8Options { saving_increases_reg_i, shift_vy_not_vx })
}

#[test]
fn new_loads_font_and_program() {
    let m = machine_with(&[0x1234], false, false);
    assert_eq!(m.reg_pc, 0x200);
    assert_eq!(m.memory.len(), 4096);
    assert_eq!(m.memory[0], 96);
    assert_eq!(m.memory[79], 64);
    assert_eq!(m.memory[80], 0);
    assert_eq!(m.memory[0x1FF], 0);
    assert_eq!(m.memory[0x200], 0x12);
    assert_eq!(m.memory[0x201], 0x34);
    assert_eq!(m.stack_pointer, 0);
    assert_eq!(m.reg_i, 0);
    assert_eq!(m.display.len(), 2048);
    assert!(m.display.iter().all(|&p| p == 0));
    assert!(!m.awaiting_keypress);
}

#[test]
fn tick_never_below_zero() {
    let mut m = machine_with(&[], false, false);
    m.delay_timer = 2;
    m.sound_timer = 1;
    m.tick();
    assert_eq!((m.delay_timer, m.sound_timer), (1, 0));
    m.tick();
    assert_eq!((m.delay_timer, m.sound_timer), (0, 0));
    m.tick();
    assert_eq!((m.delay_timer, m.sound_timer), (0, 0));
}

#[test]
fn sprite_draw_wraps() {
    // An 8x2 all-set sprite drawn at (63, 31): the columns wrap back to
    // 0..=6 and the second row wraps back to row 0. Nothing is clipped.
    let mut m = machine_with(&[0x603F, 0x611F, 0xA300, 0xD012], false, false);
    m.memory[0x300] = 0xFF;
    m.memory[0x301] = 0xFF;
    m.cycle().unwrap();
    m.cycle().unwrap();
    m.cycle().unwrap();
    assert_eq!(m.cycle(), Ok(CycleDiag::Normal));
    assert_eq!(m.display[31 * 64 + 63], 1);
    assert_eq!(m.display[63], 1);
    for c in 0..7 {
        assert_eq!(m.display[31 * 64 + c], 1);
        assert_eq!(m.display[c], 1);
    }
    assert_eq!(m.regs_v[0xF], 0);
    let lit: usize = m.display.iter().filter(|&&p| p == 1).count();
    assert_eq!(lit, 16);
}

#[test]
fn sprite_collision_toggles_off() {
    // Drawing the same sprite twice erases it and reports the collision.
    let mut m = machine_with(&[0xA300, 0xD001, 0xD001], false, false);
    m.memory[0x300] = 0xFF;
    m.cycle().unwrap();
    m.cycle().unwrap();
    assert_eq!(m.regs_v[0xF], 0);
    for c in 0..8 {
        assert_eq!(m.display[c], 1);
    }
    m.cycle().unwrap();
    assert_eq!(m.regs_v[0xF], 1);
    for c in 0..8 {
        assert_eq!(m.display[c], 0);
    }
}

#[test]
fn wait_key_scenario() {
    // Fx0A pauses execution; a cycle with no key held changes nothing; the
    // first held key lands in the target register; the next cycle resumes
    // the normal fetch where it left off.
    let mut m = machine_with(&[0xF30A, 0x6455], false, false);
    m.cycle().unwrap();
    assert_eq!(m.reg_pc, 0x202);
    assert!(m.awaiting_keypress);
    let regs_before: Vec<u8> = m.regs_v.clone();
    m.cycle().unwrap();
    assert_eq!(m.reg_pc, 0x202);
    assert_eq!(m.regs_v, regs_before);
    assert!(m.awaiting_keypress);
    m.keys[7] = true;
    m.cycle().unwrap();
    assert_eq!(m.regs_v[3], 7);
    assert!(!m.awaiting_keypress);
    assert_eq!(m.reg_pc, 0x202);
    m.cycle().unwrap();
    assert_eq!(m.regs_v[4], 0x55);
    assert_eq!(m.reg_pc, 0x204);
}

#[test]
fn wait_key_consumes_already_held_key() {
    // The wait tests "key currently held", not a press edge: a key already
    // held when the wait begins satisfies it on the very next cycle.
    let mut m = machine_with(&[0xF00A], false, false);
    m.keys[0xC] = true;
    m.cycle().unwrap();
    assert!(m.awaiting_keypress);
    m.cycle().unwrap();
    assert!(!m.awaiting_keypress);
    assert_eq!(m.regs_v[0], 0xC);
}

#[test]
fn wait_key_takes_lowest_held_key() {
    let mut m = machine_with(&[0xF20A], false, false);
    m.cycle().unwrap();
    m.keys[0x9] = true;
    m.keys[0x4] = true;
    m.cycle().unwrap();
    assert_eq!(m.regs_v[2], 4);
}

#[test]
fn call_stack_overflow_is_fatal() {
    // Sixteen nested calls succeed; the seventeenth raises the fatal
    // overflow fault and leaves the machine unchanged.
    let mut m = machine_with(&[0x2200], false, false);
    for _ in 0..16 {
        assert_eq!(m.cycle(), Ok(CycleDiag::Normal));
    }
    assert_eq!(m.stack_pointer, 16);
    assert_eq!(m.cycle(), Err(Fault::StackOverflow));
    assert_eq!(m.stack_pointer, 16);
    assert_eq!(m.reg_pc, 0x200);
}

#[test]
fn return_on_empty_stack_is_fatal() {
    let mut m = machine_with(&[0x00EE], false, false);
    assert_eq!(m.cycle(), Err(Fault::StackUnderflow));
    assert_eq!(m.reg_pc, 0x200);
    assert_eq!(m.stack_pointer, 0);
}

#[test]
fn program_counter_out_of_bounds_is_fatal() {
    let mut m = machine_with(&[0x1FFF], false, false);
    assert_eq!(m.cycle(), Ok(CycleDiag::Normal));
    assert_eq!(m.reg_pc, 0xFFF);
    assert_eq!(m.cycle(), Err(Fault::ProgramCounterOutOfBounds));
    assert_eq!(m.reg_pc, 0xFFF);
}

#[test]
fn register_save_past_memory_end_is_fatal() {
    let mut m = machine_with(&[0xAFFF, 0xFF55], false, false);
    m.cycle().unwrap();
    assert_eq!(m.cycle(), Err(Fault::MemoryOutOfBounds));
    assert_eq!(m.reg_pc, 0x202);
}

#[test]
fn digit_store_past_memory_end_is_fatal() {
    let mut m = machine_with(&[0xAFFE, 0xF033], false, false);
    m.cycle().unwrap();
    assert_eq!(m.cycle(), Err(Fault::MemoryOutOfBounds));
}

#[test]
fn key_skip_with_register_out_of_range_is_fatal() {
    let mut m = machine_with(&[0x6020, 0xE09E], false, false);
    m.cycle().unwrap();
    assert_eq!(m.cycle(), Err(Fault::KeyOutOfRange));
}

#[test]
fn unrecognized_opcode_is_reported_and_stepped_past() {
    let mut m = machine_with(&[0x0123], false, false);
    assert_eq!(m.cycle(), Ok(CycleDiag::UnknownOpcode(0x01, 0x23)));
    assert_eq!(m.reg_pc, 0x202);
}

#[test]
fn jump_below_reserved_region_is_reported() {
    let mut m = machine_with(&[0x1100], false, false);
    assert_eq!(m.cycle(), Ok(CycleDiag::LowTarget(0x100)));
    assert_eq!(m.reg_pc, 0x100);
    let mut m2 = machine_with(&[0x2100], false, false);
    assert_eq!(m2.cycle(), Ok(CycleDiag::LowTarget(0x100)));
    assert_eq!(m2.reg_pc, 0x100);
    assert_eq!(m2.stack_pointer, 1);
}

#[test]
fn random_byte_is_masked() {
    // Cxkk masks the random byte with kk, so a mask of zero always gives 0.
    let mut m = machine_with(&[0xC500], false, false);
    m.regs_v[5] = 0xAA;
    assert_eq!(m.cycle(), Ok(CycleDiag::Normal));
    assert_eq!(m.regs_v[5], 0);
    assert_eq!(m.reg_pc, 0x202);
}

#[test]
fn key_skips() {
    let mut m = machine_with(&[0x6007, 0xE09E], false, false);
    m.keys[7] = true;
    m.cycle().unwrap();
    m.cycle().unwrap();
    assert_eq!(m.reg_pc, 0x206);
    let mut m2 = machine_with(&[0x6007, 0xE0A1], false, false);
    m2.keys[7] = true;
    m2.cycle().unwrap();
    m2.cycle().unwrap();
    assert_eq!(m2.reg_pc, 0x204);
}

#[test]
fn shift_right_uses_vx_by_default() {
    let mut m = machine_with(&[0x8566], false, false);
    m.regs_v[5] = 0x0B;
    m.regs_v[6] = 0xF0;
    m.cycle().unwrap();
    assert_eq!(m.regs_v[5], 0x05);
    assert_eq!(m.regs_v[0xF], 1);
}

#[test]
fn shift_right_uses_vy_when_configured() {
    let mut m = machine_with(&[0x8566], false, true);
    m.regs_v[5] = 0x0B;
    m.regs_v[6] = 0xF0;
    m.cycle().unwrap();
    assert_eq!(m.regs_v[5], 0x78);
    assert_eq!(m.regs_v[0xF], 0);
}

#[test]
fn shift_left_uses_vx_by_default() {
    let mut m = machine_with(&[0x856E], false, false);
    m.regs_v[5] = 0x81;
    m.regs_v[6] = 0x7F;
    m.cycle().unwrap();
    assert_eq!(m.regs_v[5], 0x02);
    assert_eq!(m.regs_v[0xF], 1);
}

#[test]
fn shift_left_uses_vy_when_configured() {
    let mut m = machine_with(&[0x856E], false, true);
    m.regs_v[5] = 0x81;
    m.regs_v[6] = 0x7F;
    m.cycle().unwrap();
    assert_eq!(m.regs_v[5], 0xFE);
    assert_eq!(m.regs_v[0xF], 0);
}

#[test]
fn save_then_restore_round_trips_registers() {
    // Fx55 followed by Fx65 on the same range and index register brings
    // every register back unchanged.
    let mut m = machine_with(&[0xA300, 0xF755, 0xF765], false, false);
    for i in 0..8 {
        m.regs_v[i] = (10 * i + 3) as u8;
    }
    m.cycle().unwrap();
    m.cycle().unwrap();
    assert_eq!(m.reg_i, 0x300);
    for i in 0..8 {
        assert_eq!(m.memory[0x300 + i], (10 * i + 3) as u8);
    }
    m.regs_v[2] = 0xEE;
    m.cycle().unwrap();
    assert_eq!(m.reg_i, 0x300);
    for i in 0..8 {
        assert_eq!(m.regs_v[i], (10 * i + 3) as u8);
    }
}

#[test]
fn save_advances_index_when_configured() {
    let mut m = machine_with(&[0xA300, 0xF255], true, false);
    m.cycle().unwrap();
    m.cycle().unwrap();
    assert_eq!(m.reg_i, 0x303);
}

#[test]
fn decimal_digits_are_stored() {
    let mut m = machine_with(&[0x6EEA, 0xA300, 0xFE33], false, false);
    m.cycle().unwrap();
    m.cycle().unwrap();
    m.cycle().unwrap();
    assert_eq!(m.memory[0x300], 2);
    assert_eq!(m.memory[0x301], 3);
    assert_eq!(m.memory[0x302], 4);
    assert_eq!(m.reg_i, 0x300);
}

#[test]
fn font_glyph_address() {
    let mut m = machine_with(&[0x60AB, 0xF029], false, false);
    m.cycle().unwrap();
    m.cycle().unwrap();
    assert_eq!(m.reg_i, 0xB * 5);
}

#[test]
fn timers_via_opcodes() {
    let mut m = machine_with(&[0x6321, 0xF315, 0xF318, 0xF007], false, false);
    m.cycle().unwrap();
    m.cycle().unwrap();
    assert_eq!(m.delay_timer, 0x21);
    m.cycle().unwrap();
    assert_eq!(m.sound_timer, 0x21);
    m.cycle().unwrap();
    assert_eq!(m.regs_v[0], 0x21);
}

#[test]
fn index_register_add() {
    let mut m = machine_with(&[0xA100, 0x6005, 0xF01E], false, false);
    m.cycle().unwrap();
    m.cycle().unwrap();
    m.cycle().unwrap();
    assert_eq!(m.reg_i, 0x105);
}

#[test]
fn clear_display_erases_everything() {
    let mut m = machine_with(&[0xA300, 0xD001, 0x00E0], false, false);
    m.memory[0x300] = 0xFF;
    m.cycle().unwrap();
    m.cycle().unwrap();
    assert!(m.display.iter().any(|&p| p == 1));
    assert_eq!(m.cycle(), Ok(CycleDiag::Normal));
    assert!(m.display.iter().all(|&p| p == 0));
    assert_eq!(m.reg_pc, 0x206);
}
