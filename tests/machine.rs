use chip8::chip::Chip;
use chip8::decode::decode;
use chip8::error::{CycleError, Fault, LoadError};

fn chip_with_program(program: &[u8]) -> Chip {
    let mut chip = Chip::default();
    chip.load_rom(program).unwrap();
    chip
}

#[test]
fn fresh_machine_holds_font_and_starts_at_origin() {
    let chip = Chip::default();
    assert_eq!(chip.program_counter, 0x200);
    assert_eq!(&chip.memory[0..5], &[0xF0, 0x90, 0x90, 0x90, 0xF0]);
    assert_eq!(&chip.memory[75..80], &[0xF0, 0x80, 0xF0, 0x80, 0x80]);
    assert!(chip.memory[80..].iter().all(|&b| b == 0));
    assert_eq!(chip.memory.len(), 4096);
    assert!(chip.video.iter().all(|&c| c == 0));
    assert_eq!(chip.stack_pointer, 0);
    assert!(!chip.sound_on());
}

#[test]
fn decode_splits_fields() {
    let f = decode(0xD12A);
    assert_eq!(f.category, 0xD);
    assert_eq!(f.x, 0x1);
    assert_eq!(f.y, 0x2);
    assert_eq!(f.kk, 0x2A);
    assert_eq!(f.nnn, 0x12A);
    assert_eq!(f.n, 0xA);
}

#[test]
fn load_immediate_sets_register() {
    for x in 0..16u16 {
        let mut chip = Chip::default();
        chip.execute_opcode(0x6000 | (x << 8) | 0xAB, 0).unwrap();
        assert_eq!(chip.general_purpose_reg[x as usize], 0xAB);
    }
}

#[test]
fn add_immediate_wraps_without_flag() {
    let mut chip = Chip::default();
    chip.general_purpose_reg[3] = 250;
    chip.general_purpose_reg[15] = 7;
    chip.execute_opcode(0x730A, 0).unwrap();
    assert_eq!(chip.general_purpose_reg[3], 4);
    assert_eq!(chip.general_purpose_reg[15], 7);
}

#[test]
fn add_registers_sets_carry() {
    let mut chip = Chip::default();
    chip.general_purpose_reg[1] = 200;
    chip.general_purpose_reg[2] = 100;
    chip.execute_opcode(0x8124, 0).unwrap();
    assert_eq!(chip.general_purpose_reg[1], 44);
    assert_eq!(chip.general_purpose_reg[15], 1);
}

#[test]
fn sub_registers_wraps_and_clears_flag() {
    let mut chip = Chip::default();
    chip.general_purpose_reg[1] = 5;
    chip.general_purpose_reg[2] = 10;
    chip.execute_opcode(0x8125, 0).unwrap();
    assert_eq!(chip.general_purpose_reg[15], 0);
    assert_eq!(chip.general_purpose_reg[1], 251);
}

#[test]
fn reverse_sub_and_shifts() {
    let mut chip = Chip::default();
    chip.general_purpose_reg[1] = 5;
    chip.general_purpose_reg[2] = 10;
    chip.execute_opcode(0x8127, 0).unwrap();
    assert_eq!(chip.general_purpose_reg[1], 5);
    assert_eq!(chip.general_purpose_reg[15], 1);
    chip.general_purpose_reg[4] = 0b1000_0011;
    chip.execute_opcode(0x8406, 0).unwrap();
    assert_eq!(chip.general_purpose_reg[4], 0b0100_0001);
    assert_eq!(chip.general_purpose_reg[15], 1);
    chip.general_purpose_reg[4] = 0b1000_0011;
    chip.execute_opcode(0x840E, 0).unwrap();
    assert_eq!(chip.general_purpose_reg[4], 0b0000_0110);
    assert_eq!(chip.general_purpose_reg[15], 1);
}

#[test]
fn logic_operations() {
    let mut chip = Chip::default();
    chip.general_purpose_reg[0] = 0b1100;
    chip.general_purpose_reg[1] = 0b1010;
    chip.execute_opcode(0x8011, 0).unwrap();
    assert_eq!(chip.general_purpose_reg[0], 0b1110);
    chip.execute_opcode(0x8012, 0).unwrap();
    assert_eq!(chip.general_purpose_reg[0], 0b1010);
    chip.execute_opcode(0x8013, 0).unwrap();
    assert_eq!(chip.general_purpose_reg[0], 0);
}

#[test]
fn clear_blanks_display() {
    let mut chip = Chip::default();
    for c in chip.video.iter_mut().step_by(3) {
        *c = 1;
    }
    chip.execute_opcode(0x00E0, 0).unwrap();
    assert!(chip.video.iter().all(|&c| c == 0));
}

#[test]
fn bcd_stores_digits() {
    let mut chip = Chip::default();
    chip.general_purpose_reg[5] = 123;
    chip.i_reg = 0x300;
    chip.execute_opcode(0xF533, 0).unwrap();
    assert_eq!(&chip.memory[0x300..0x303], &[1, 2, 3]);
}

#[test]
fn bcd_near_end_of_memory_is_refused() {
    let mut chip = Chip::default();
    chip.i_reg = 0xFFE;
    assert_eq!(chip.execute_opcode(0xF033, 0), Err(Fault::MemoryOutOfBounds));
    assert_eq!(chip.memory[0xFFE], 0);
}

#[test]
fn draw_twice_restores_display() {
    let mut chip = Chip::default();
    chip.general_purpose_reg[0] = 62;
    chip.general_purpose_reg[1] = 30;
    chip.i_reg = 0; // glyph "0", five rows
    chip.video[0] = 1;
    let before = chip.video.clone();
    chip.execute_opcode(0xD015, 0).unwrap();
    assert_ne!(chip.video, before);
    // the sprite wraps: row 0 of the glyph at (62, 30), its third column at (0, 30)
    assert_eq!(chip.video[30 * 64 + 62], 1);
    assert_eq!(chip.video[30 * 64 + 0], 1);
    assert_eq!(chip.video[0 * 64 + 62], 1);
    chip.execute_opcode(0xD015, 0).unwrap();
    assert_eq!(chip.video, before);
    assert_eq!(chip.general_purpose_reg[15], 1);
}

#[test]
fn draw_reports_collision() {
    let mut chip = Chip::default();
    chip.i_reg = 0;
    chip.execute_opcode(0xD001, 0).unwrap();
    assert_eq!(chip.general_purpose_reg[15], 0);
    assert_eq!(&chip.video[0..8], &[1, 1, 1, 1, 0, 0, 0, 0]);
    chip.i_reg = 5; // glyph "1": first row 0x20
    chip.execute_opcode(0xD001, 0).unwrap();
    assert_eq!(chip.general_purpose_reg[15], 1);
    assert_eq!(&chip.video[0..8], &[1, 1, 0, 1, 0, 0, 0, 0]);
}

#[test]
fn draw_past_memory_is_refused() {
    let mut chip = Chip::default();
    chip.i_reg = 0xFFE;
    assert_eq!(chip.execute_opcode(0xD003, 0), Err(Fault::MemoryOutOfBounds));
}

#[test]
fn call_then_return_resumes_after_call() {
    // 0x200: call 0x300; 0x300: return
    let mut chip = chip_with_program(&[0x23, 0x00]);
    chip.memory[0x300] = 0x00;
    chip.memory[0x301] = 0xEE;
    chip.cycle_with(0).unwrap();
    assert_eq!(chip.program_counter, 0x300);
    assert_eq!(chip.stack_pointer, 1);
    chip.cycle_with(0).unwrap();
    assert_eq!(chip.program_counter, 0x202);
    assert_eq!(chip.stack_pointer, 0);
}

#[test]
fn return_on_empty_stack_is_an_error() {
    let mut chip = chip_with_program(&[0x00, 0xEE]);
    let r = chip.cycle_with(0);
    assert_eq!(
        r,
        Err(CycleError::Execute { fault: Fault::StackUnderflow, opcode: 0x00EE, address: 0x200 })
    );
    assert_eq!(chip.program_counter, 0x200);
}

#[test]
fn call_on_full_stack_is_an_error() {
    let mut chip = Chip::default();
    chip.stack_pointer = 16;
    assert_eq!(chip.execute_opcode(0x2400, 0), Err(Fault::StackOverflow));
    assert_eq!(chip.program_counter, 0x200);
}

#[test]
fn unknown_opcode_is_reported_and_state_kept() {
    let mut chip = chip_with_program(&[0x80, 0x1F]);
    chip.delay_reg = 3;
    let r = chip.cycle_with(0);
    assert_eq!(
        r,
        Err(CycleError::Execute { fault: Fault::UnknownOpcode, opcode: 0x801F, address: 0x200 })
    );
    assert_eq!(chip.program_counter, 0x200);
    assert_eq!(chip.delay_reg, 3);
}

#[test]
fn fetch_past_memory_is_an_error() {
    let mut chip = Chip::default();
    chip.program_counter = 0xFFF;
    assert_eq!(chip.cycle_with(0), Err(CycleError::FetchOutOfBounds { address: 0xFFF }));
}

#[test]
fn timers_tick_and_stop_at_zero() {
    // 6000 twice: no effect on the timers
    let mut chip = chip_with_program(&[0x60, 0x00, 0x60, 0x00]);
    chip.cycle_with(0).unwrap();
    assert_eq!(chip.delay_reg, 0);
    assert_eq!(chip.audio_reg, 0);
    chip.delay_reg = 5;
    chip.audio_reg = 1;
    assert!(chip.sound_on());
    chip.cycle_with(0).unwrap();
    assert_eq!(chip.delay_reg, 4);
    assert_eq!(chip.audio_reg, 0);
    assert!(!chip.sound_on());
}

#[test]
fn load_round_trip() {
    let rom: Vec<u8> = (0..300u32).map(|i| (i * 7 % 256) as u8).collect();
    let before = Chip::default();
    let chip = chip_with_program(&rom);
    assert_eq!(&chip.memory[0x200..0x200 + rom.len()], &rom[..]);
    assert_eq!(&chip.memory[..0x200], &before.memory[..0x200]);
    assert!(chip.memory[0x200 + rom.len()..].iter().all(|&b| b == 0));
}

#[test]
fn load_largest_rom_and_refuse_larger() {
    let mut chip = Chip::default();
    assert_eq!(chip.load_rom(&vec![1u8; 3584]), Ok(()));
    assert_eq!(chip.memory[4095], 1);
    let mut other = Chip::default();
    assert_eq!(other.load_rom(&vec![1u8; 3585]), Err(LoadError::TooLarge { len: 3585 }));
    assert!(other.memory[0x200..].iter().all(|&b| b == 0));
}

#[test]
fn skips_compare_register_and_constant() {
    let mut chip = Chip::default();
    chip.general_purpose_reg[2] = 9;
    chip.execute_opcode(0x3209, 0).unwrap();
    assert_eq!(chip.program_counter, 0x202);
    chip.execute_opcode(0x4209, 0).unwrap();
    assert_eq!(chip.program_counter, 0x202);
    chip.execute_opcode(0x5230, 0).unwrap();
    assert_eq!(chip.program_counter, 0x202);
    chip.execute_opcode(0x9230, 0).unwrap();
    assert_eq!(chip.program_counter, 0x204);
}

#[test]
fn jumps_and_index() {
    let mut chip = Chip::default();
    chip.execute_opcode(0x1ABC, 0).unwrap();
    assert_eq!(chip.program_counter, 0xABC);
    chip.general_purpose_reg[0] = 0x10;
    chip.execute_opcode(0xB300, 0).unwrap();
    assert_eq!(chip.program_counter, 0x310);
    chip.execute_opcode(0xA123, 0).unwrap();
    assert_eq!(chip.i_reg, 0x123);
    chip.general_purpose_reg[4] = 0xF;
    chip.execute_opcode(0xF41E, 0).unwrap();
    assert_eq!(chip.i_reg, 0x132);
    chip.execute_opcode(0xF429, 0).unwrap();
    assert_eq!(chip.i_reg, 75);
}

#[test]
fn random_byte_is_masked() {
    let mut chip = Chip::default();
    chip.execute_opcode(0xC30F, 0xAB).unwrap();
    assert_eq!(chip.general_purpose_reg[3], 0x0B);
    let mut other = chip_with_program(&[0xC5, 0x00]);
    other.cycle().unwrap();
    assert_eq!(other.general_purpose_reg[5], 0);
}

#[test]
fn keys_skip_and_wait() {
    let mut chip = Chip::default();
    chip.general_purpose_reg[1] = 0xA;
    chip.set_key(0xA, true);
    chip.execute_opcode(0xE19E, 0).unwrap();
    assert_eq!(chip.program_counter, 0x202);
    chip.execute_opcode(0xE1A1, 0).unwrap();
    assert_eq!(chip.program_counter, 0x202);
    chip.set_key(0xA, false);
    chip.execute_opcode(0xE1A1, 0).unwrap();
    assert_eq!(chip.program_counter, 0x204);
    chip.general_purpose_reg[1] = 16;
    assert_eq!(chip.execute_opcode(0xE19E, 0), Err(Fault::KeyOutOfRange));
}

#[test]
fn wait_for_key_spins_then_takes_lowest() {
    let mut chip = chip_with_program(&[0xF2, 0x0A]);
    chip.cycle_with(0).unwrap();
    assert_eq!(chip.program_counter, 0x200);
    chip.set_key(0xC, true);
    chip.set_key(0x7, true);
    chip.cycle_with(0).unwrap();
    assert_eq!(chip.program_counter, 0x202);
    assert_eq!(chip.general_purpose_reg[2], 0x7);
}

#[test]
fn timers_from_registers() {
    let mut chip = Chip::default();
    chip.general_purpose_reg[6] = 42;
    chip.execute_opcode(0xF615, 0).unwrap();
    chip.execute_opcode(0xF618, 0).unwrap();
    assert_eq!(chip.delay_reg, 42);
    assert_eq!(chip.audio_reg, 42);
    chip.execute_opcode(0xF707, 0).unwrap();
    assert_eq!(chip.general_purpose_reg[7], 42);
}

#[test]
fn store_and_load_registers() {
    let mut chip = Chip::default();
    for r in 0..16 {
        chip.general_purpose_reg[r] = r as u8 + 1;
    }
    chip.i_reg = 0x400;
    chip.execute_opcode(0xF255, 0).unwrap();
    assert_eq!(&chip.memory[0x400..0x404], &[1, 2, 3, 0]);
    chip.memory[0x401] = 99;
    chip.execute_opcode(0xF165, 0).unwrap();
    assert_eq!(&chip.general_purpose_reg[0..3], &[1, 99, 3]);
    chip.i_reg = 0xFFF;
    assert_eq!(chip.execute_opcode(0xF155, 0), Err(Fault::MemoryOutOfBounds));
    assert_eq!(chip.execute_opcode(0xF165, 0), Err(Fault::MemoryOutOfBounds));
}
