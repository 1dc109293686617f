use chip8::chip8::Chip8;
use chip8::constants::{
    DISPLAY_HEIGHT, DISPLAY_SIZE, DISPLAY_WIDTH, FONTSET_SIZE, FONT_SET, PROGRAM_START, RAM_SIZE,
};
use chip8::fault::Fault;

#[test]
fn font_load() {
    let mut chip8 = Chip8::new();

    chip8.load_fonts();

    assert_eq!(chip8.ram[0..FONTSET_SIZE], FONT_SET[0..FONTSET_SIZE]);
}

#[test]
fn new_machine_is_blank() {
    let chip8 = Chip8::new();
    assert!(chip8.ram.iter().all(|byte| *byte == 0));
    assert_eq!(chip8.vregs, [0u8; 16]);
    assert_eq!(chip8.stack, [0u16; 16]);
    assert_eq!(chip8.keyboard, [false; 16]);
    assert!(chip8.display.iter().all(|pixel| !*pixel));
    assert_eq!(chip8.ireg, 0);
    assert_eq!(chip8.program_counter, 0);
    assert_eq!(chip8.stack_pointer, 0);
    assert_eq!(chip8.delay_timer, 0);
    assert_eq!(chip8.sound_timer, 0);
    assert!(!chip8.clear_flag);
    assert!(!chip8.display_flag);
}

#[test]
fn sizes_agree() {
    assert_eq!(RAM_SIZE, 4096);
    assert_eq!(DISPLAY_SIZE, DISPLAY_WIDTH * DISPLAY_HEIGHT);
    assert_eq!(FONTSET_SIZE, 80);
    assert_eq!(FONT_SET.len(), FONTSET_SIZE);
    assert_eq!(PROGRAM_START, 0x200);
}

#[test]
fn fonts_fill_the_first_eighty_bytes_and_nothing_else() {
    let mut chip8 = Chip8::new();
    for byte in chip8.ram.iter_mut() {
        *byte = 0xAA;
    }
    let before = chip8.clone();
    chip8.load_fonts();
    assert_eq!(chip8.ram[0..80], FONT_SET[..]);
    assert_eq!(chip8.ram[0], 0xF0);
    assert_eq!(chip8.ram[5..10], [0x20, 0x60, 0x20, 0x20, 0x70]);
    assert_eq!(chip8.ram[75..80], [0xF0, 0x80, 0xF0, 0x80, 0x80]);
    assert!(chip8.ram[80..].iter().all(|byte| *byte == 0xAA));
    let mut expected = before;
    expected.ram[0..80].copy_from_slice(&FONT_SET);
    assert_eq!(chip8, expected);
}

#[test]
fn rom_lands_at_the_program_start() {
    let mut chip8 = Chip8::new();
    for byte in chip8.ram.iter_mut() {
        *byte = 0x11;
    }
    let before = chip8.clone();
    let rom = [0x12u8, 0x34, 0x56, 0x78, 0x9A];
    assert_eq!(chip8.load_rom(&rom), Ok(()));
    assert_eq!(chip8.ram[0x200..0x205], rom);
    assert!(chip8.ram[..0x200].iter().all(|byte| *byte == 0x11));
    assert!(chip8.ram[0x205..].iter().all(|byte| *byte == 0x11));
    let mut expected = before;
    expected.ram[0x200..0x205].copy_from_slice(&rom);
    assert_eq!(chip8, expected);
}

#[test]
fn empty_rom_changes_nothing() {
    let mut chip8 = Chip8::new();
    chip8.load_fonts();
    let before = chip8.clone();
    assert_eq!(chip8.load_rom(&[]), Ok(()));
    assert_eq!(chip8, before);
}

#[test]
fn rom_that_fills_memory_fits() {
    let mut chip8 = Chip8::new();
    let rom: Vec<u8> = (0..RAM_SIZE - PROGRAM_START).map(|i| (i % 251) as u8 + 1).collect();
    assert_eq!(rom.len(), 3584);
    assert_eq!(chip8.load_rom(&rom), Ok(()));
    assert_eq!(chip8.ram[0x200..], rom[..]);
    assert_eq!(chip8.ram[0x1FF], 0);
    assert_eq!(chip8.ram[0xFFF], rom[3583]);
}

#[test]
fn rom_that_is_too_large_is_refused() {
    let mut chip8 = Chip8::new();
    chip8.load_fonts();
    let before = chip8.clone();
    let rom = vec![0xFFu8; 3585];
    assert_eq!(chip8.load_rom(&rom), Err(Fault::RomTooLarge { len: 3585 }));
    assert_eq!(chip8, before);
}

#[test]
fn key_set_records_each_transition() {
    let mut chip8 = Chip8::new();
    assert_eq!(chip8.key_set(0, true), Ok(()));
    assert_eq!(chip8.key_set(15, true), Ok(()));
    let mut expected = [false; 16];
    expected[0] = true;
    expected[15] = true;
    assert_eq!(chip8.keyboard, expected);
    assert_eq!(chip8.key_set(0, false), Ok(()));
    expected[0] = false;
    assert_eq!(chip8.keyboard, expected);
    assert_eq!(chip8.key_set(15, true), Ok(()));
    assert_eq!(chip8.keyboard, expected);
}

#[test]
fn key_set_refuses_a_key_the_pad_lacks() {
    let mut chip8 = Chip8::new();
    chip8.keyboard[3] = true;
    let before = chip8.clone();
    assert_eq!(chip8.key_set(16, true), Err(Fault::InvalidKey { key: 16 }));
    assert_eq!(chip8.key_set(1000, false), Err(Fault::InvalidKey { key: 1000 }));
    assert_eq!(chip8, before);
}

#[test]
fn get_display_is_the_pixel_grid_row_by_row() {
    let mut chip8 = Chip8::new();
    chip8.display[3 + 64 * 2] = true;
    chip8.display[2047] = true;
    let pixels = chip8.get_display();
    assert_eq!(pixels.len(), 2048);
    for (index, pixel) in pixels.iter().enumerate() {
        assert_eq!(*pixel, index == 131 || index == 2047);
    }
}

#[test]
fn timers_count_down_and_stay_at_zero() {
    let mut chip8 = Chip8::new();
    chip8.delay_timer = 3;
    chip8.sound_timer = 1;
    chip8.vregs[4] = 9;
    let start = chip8.clone();
    chip8.tick_timers();
    assert_eq!((chip8.delay_timer, chip8.sound_timer), (2, 0));
    chip8.tick_timers();
    assert_eq!((chip8.delay_timer, chip8.sound_timer), (1, 0));
    chip8.tick_timers();
    assert_eq!((chip8.delay_timer, chip8.sound_timer), (0, 0));
    for _ in 0..1000 {
        chip8.tick_timers();
        assert_eq!((chip8.delay_timer, chip8.sound_timer), (0, 0));
    }
    let mut expected = start;
    expected.delay_timer = 0;
    expected.sound_timer = 0;
    assert_eq!(chip8, expected);
}

#[test]
fn timers_from_the_top_take_255_ticks() {
    let mut chip8 = Chip8::new();
    chip8.delay_timer = 255;
    chip8.sound_timer = 200;
    for _ in 0..200 {
        chip8.tick_timers();
    }
    assert_eq!((chip8.delay_timer, chip8.sound_timer), (55, 0));
    for _ in 0..55 {
        chip8.tick_timers();
    }
    assert_eq!((chip8.delay_timer, chip8.sound_timer), (0, 0));
}

#[test]
fn sound_timer_signals_when_it_runs_out() {
    let mut chip8 = Chip8::new();
    chip8.sound_timer = 2;
    chip8.delay_timer = 1;
    assert!(!chip8.tick_timers());
    assert!(chip8.tick_timers());
    assert!(!chip8.tick_timers());
    assert!(!chip8.tick_timers());
}

#[test]
fn fetch_reads_high_byte_first_and_advances_by_two() {
    let mut chip8 = Chip8::new();
    chip8.ram[0x200] = 0xAB;
    chip8.ram[0x201] = 0xCD;
    chip8.program_counter = 0x200;
    let before = chip8.clone();
    assert_eq!(chip8.fetch_opcode(), Ok(0xABCD));
    let mut expected = before;
    expected.program_counter = 0x202;
    assert_eq!(chip8, expected);
}

#[test]
fn fetch_of_the_last_word_succeeds() {
    let mut chip8 = Chip8::new();
    chip8.ram[4094] = 0x00;
    chip8.ram[4095] = 0xE0;
    chip8.program_counter = 4094;
    assert_eq!(chip8.fetch_opcode(), Ok(0x00E0));
    assert_eq!(chip8.program_counter, 4096);
}

#[test]
fn fetch_beyond_memory_is_a_fault() {
    let mut chip8 = Chip8::new();
    chip8.program_counter = 4095;
    let before = chip8.clone();
    assert_eq!(chip8.fetch_opcode(), Err(Fault::MemoryOutOfRange { address: 4096 }));
    assert_eq!(chip8, before);

    chip8.program_counter = 4096;
    assert_eq!(chip8.fetch_opcode(), Err(Fault::MemoryOutOfRange { address: 4096 }));
    assert_eq!(chip8.program_counter, 4096);

    chip8.program_counter = 0xFFFF;
    assert_eq!(chip8.fetch_opcode(), Err(Fault::MemoryOutOfRange { address: 0xFFFF }));
    assert_eq!(chip8.program_counter, 0xFFFF);
}

#[test]
fn tick_runs_one_instruction_and_hands_back_its_word() {
    let mut chip8 = Chip8::new();
    chip8.program_counter = 0x200;
    assert_eq!(chip8.load_rom(&[0x61, 0x2A, 0x71, 0x01]), Ok(()));
    assert_eq!(chip8.tick(), Ok(0x612A));
    assert_eq!(chip8.vregs[1], 0x2A);
    assert_eq!(chip8.program_counter, 0x202);
    assert_eq!(chip8.tick(), Ok(0x7101));
    assert_eq!(chip8.vregs[1], 0x2B);
    assert_eq!(chip8.program_counter, 0x204);
}

#[test]
fn tick_on_a_fresh_machine_starts_at_address_zero() {
    let mut chip8 = Chip8::new();
    chip8.ram[0] = 0x6A;
    chip8.ram[1] = 0x07;
    assert_eq!(chip8.tick(), Ok(0x6A07));
    assert_eq!(chip8.vregs[10], 7);
    assert_eq!(chip8.program_counter, 2);
}

#[test]
fn tick_that_faults_in_the_fetch_changes_nothing() {
    let mut chip8 = Chip8::new();
    chip8.program_counter = 4095;
    let before = chip8.clone();
    assert_eq!(chip8.tick(), Err(Fault::MemoryOutOfRange { address: 4096 }));
    assert_eq!(chip8, before);
}

#[test]
fn tick_that_faults_in_the_instruction_changes_nothing() {
    let mut chip8 = Chip8::new();
    chip8.program_counter = 0x200;
    assert_eq!(chip8.load_rom(&[0x00, 0xEE]), Ok(()));
    let before = chip8.clone();
    assert_eq!(chip8.tick(), Err(Fault::StackUnderflow));
    assert_eq!(chip8, before);
    assert_eq!(chip8.tick(), Err(Fault::StackUnderflow));
    assert_eq!(chip8, before);
}

#[test]
fn tick_skips_past_an_unimplemented_word() {
    let mut chip8 = Chip8::new();
    chip8.program_counter = 0x200;
    assert_eq!(chip8.load_rom(&[0xF1, 0xFF]), Ok(()));
    let before = chip8.clone();
    assert_eq!(chip8.tick(), Ok(0xF1FF));
    let mut expected = before;
    expected.program_counter = 0x202;
    assert_eq!(chip8, expected);
}
