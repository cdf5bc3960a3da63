use rusty_gb::apu::MixLevels;
use rusty_gb::cartridge::CartridgeError;
use rusty_gb::{Button, GameBoy, CYCLES_PER_FRAME, SCREEN_HEIGHT, SCREEN_WIDTH};

fn rom_with(mapper: u8, ram_size: u8, program: &[u8]) -> Vec<u8> {
    let mut rom = vec![0u8; 0x8000];
    rom[0x147] = mapper;
    rom[0x149] = ram_size;
    rom[0x100..0x100 + program.len()].copy_from_slice(program);
    rom
}

#[test]
fn frame_constants() {
    assert_eq!(CYCLES_PER_FRAME, 70224);
    assert_eq!(SCREEN_WIDTH, 160);
    assert_eq!(SCREEN_HEIGHT, 144);
}

#[test]
fn from_rom_reports_short_image() {
    assert!(matches!(GameBoy::from_rom(vec![0u8; 0x100]), Err(CartridgeError::RomTooSmall)));
}

#[test]
fn from_rom_reports_unsupported_mapper() {
    let rom = rom_with(0x20, 0, &[]);
    assert!(matches!(GameBoy::from_rom(rom), Err(CartridgeError::UnsupportedMapper(0x20))));
}

#[test]
fn from_rom_starts_at_entry_point() {
    let mut gb = GameBoy::from_rom(rom_with(0x00, 0, &[0x00])).unwrap();
    let cpu = gb.cpu();
    assert_eq!(cpu.pc, 0x0100);
    assert_eq!(cpu.a, 0x01);
    assert_eq!(cpu.sp, 0xFFFE);
    assert_eq!(gb.frame().len(), SCREEN_WIDTH * SCREEN_HEIGHT * 4);
}

#[test]
fn run_frame_executes_a_whole_frame() {
    // JR -2: a 12-cycle loop.
    let mut gb = GameBoy::from_rom(rom_with(0x00, 0, &[0x18, 0xFE])).unwrap();
    let audio = gb.run_frame();
    assert_eq!(audio.len(), 70224 / 12);
    assert!(audio.iter().all(|t| t.cycles == 12));
    let silent = MixLevels { ch1: 0, ch2: 0, ch4: 0, master: 14 };
    assert!(audio.iter().all(|t| t.mix == silent));
    assert_eq!(gb.cpu().pc, 0x0100);
    // A blank background: every pixel shade 0.
    let frame = gb.frame();
    for px in frame.chunks(4) {
        assert_eq!(px, &[224, 248, 208, 255]);
    }
    // 154 lines ran: LY is back at 0.
    assert_eq!(gb.bus().read_byte(0xFF44), 0);
}

#[test]
fn halted_cpu_still_advances_the_frame() {
    let mut gb = GameBoy::from_rom(rom_with(0x00, 0, &[0x76])).unwrap();
    let audio = gb.run_frame();
    assert_eq!(audio.len(), 70224 / 4);
    assert!(gb.cpu().halted);
    // The frame's V-Blank is latched in IF.
    assert_eq!(gb.bus().read_byte(0xFF0F) & 0x01, 0x01);
}

#[test]
fn powered_off_apu_produces_no_audio() {
    // LD A,0; LDH (0x26),A; JR -2
    let mut gb = GameBoy::from_rom(rom_with(0x00, 0, &[0x3E, 0x00, 0xE0, 0x26, 0x18, 0xFE])).unwrap();
    let audio = gb.run_frame();
    // Only the instruction before the power-off produces a tick: the
    // write takes effect before the bus ticks for its own instruction.
    assert_eq!(audio.len(), 1);
    assert_eq!(audio[0].cycles, 8);
}

#[test]
fn cartridge_ram_written_by_program_is_saved() {
    // LD A,0x0A; LD (0x0000),A; LD A,0x5A; LD (0xA000),A; JR -2
    let program = [0x3E, 0x0A, 0xEA, 0x00, 0x00, 0x3E, 0x5A, 0xEA, 0x00, 0xA0, 0x18, 0xFE];
    let mut gb = GameBoy::from_rom(rom_with(0x03, 0x02, &program)).unwrap();
    assert!(gb.save_data().is_none());
    gb.run_frame();
    let saved = gb.save_data().unwrap();
    assert_eq!(saved.len(), 0x2000);
    assert_eq!(saved[0], 0x5A);
}

#[test]
fn saved_ram_is_visible_to_the_program() {
    let mut image = vec![0u8; 0x2000];
    image[0x10] = 0xC3;
    let mut gb = GameBoy::from_rom_with_save(rom_with(0x03, 0x02, &[0x18, 0xFE]), Some(image)).unwrap();
    let bus = gb.bus();
    bus.write_byte(0x0000, 0x0A);
    assert_eq!(bus.read_byte(0xA010), 0xC3);
}

#[test]
fn buttons_reach_the_joypad_register() {
    let mut gb = GameBoy::from_rom(rom_with(0x00, 0, &[0x18, 0xFE])).unwrap();
    gb.set_button(Button::Start, true);
    gb.set_button(Button::Up, true);
    let bus = gb.bus();
    bus.write_byte(0xFF00, 0x10);
    assert_eq!(bus.read_byte(0xFF00), 0xC7);
    bus.write_byte(0xFF00, 0x20);
    assert_eq!(bus.read_byte(0xFF00), 0xCB);
    gb.set_button(Button::Up, false);
    assert_eq!(gb.bus().read_byte(0xFF00), 0xCF);
}

#[test]
fn button_press_wakes_halted_program() {
    // LD A,0x10; LDH (0xFF),A; HALT; LD B,0x99; JR -2
    let program = [0x3E, 0x10, 0xE0, 0xFF, 0x76, 0x06, 0x99, 0x18, 0xFE];
    let mut gb = GameBoy::from_rom(rom_with(0x00, 0, &program)).unwrap();
    gb.run_frame();
    assert!(gb.cpu().halted);
    gb.set_button(Button::A, true);
    gb.run_frame();
    assert!(!gb.cpu().halted);
    assert_eq!(gb.cpu().b, 0x99);
}

#[test]
fn mark_saved_leaves_nothing_to_save() {
    // LD A,0x0A; LD (0x0000),A; LD A,0x5A; LD (0xA000),A; JR -2
    let program = [0x3E, 0x0A, 0xEA, 0x00, 0x00, 0x3E, 0x5A, 0xEA, 0x00, 0xA0, 0x18, 0xFE];
    let mut gb = GameBoy::from_rom(rom_with(0x03, 0x02, &program)).unwrap();
    gb.run_frame();
    assert!(gb.save_data().is_some());
    gb.mark_saved();
    assert!(gb.save_data().is_none());
    // The program only loops now: still nothing to save.
    gb.run_frame();
    assert!(gb.save_data().is_none());
}
