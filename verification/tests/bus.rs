use rusty_gb::bus::Motherboard;
use rusty_gb::cartridge::from_bytes;
use rusty_gb::Button;

fn board() -> Motherboard {
    let mut rom = vec![0u8; 0x8000];
    rom[0x0150] = 0xAB;
    rom[0x7FFF] = 0xCD;
    Motherboard::new(from_bytes(rom, None).unwrap())
}

#[test]
fn bus_routes_cartridge_rom() {
    let mut m = board();
    assert_eq!(m.read_byte(0x0150), 0xAB);
    assert_eq!(m.read_byte(0x7FFF), 0xCD);
    m.write_byte(0x0150, 0x00);
    assert_eq!(m.read_byte(0x0150), 0xAB);
    // A ROM-only cartridge has no external RAM.
    assert_eq!(m.read_byte(0xA000), 0xFF);
}

#[test]
fn work_and_high_ram_read_back() {
    let mut m = board();
    for (addr, val) in [(0xC000u16, 0x11u8), (0xDFFF, 0x22), (0xFF80, 0x33), (0xFFFE, 0x44), (0xFFFF, 0x1F)] {
        m.write_byte(addr, val);
        assert_eq!(m.read_byte(addr), val);
    }
}

#[test]
fn echo_ram_mirrors_work_ram() {
    let mut m = board();
    m.write_byte(0xC123, 0x5A);
    assert_eq!(m.read_byte(0xE123), 0x5A);
    m.write_byte(0xFDFF, 0xA5);
    assert_eq!(m.read_byte(0xDDFF), 0xA5);
}

#[test]
fn interrupt_flag_upper_bits_read_high() {
    let mut m = board();
    assert_eq!(m.read_byte(0xFF0F), 0xE1);
    m.write_byte(0xFF0F, 0x00);
    assert_eq!(m.read_byte(0xFF0F), 0xE0);
    m.write_byte(0xFF0F, 0x1F);
    assert_eq!(m.read_byte(0xFF0F), 0xFF);
}

#[test]
fn unmapped_addresses_read_open_bus() {
    let mut m = board();
    for addr in [0xFEA0u16, 0xFEFF, 0xFF03, 0xFF08, 0xFF0E, 0xFF4C, 0xFF7F] {
        m.write_byte(addr, 0x00);
        assert_eq!(m.read_byte(addr), 0xFF);
    }
}

#[test]
fn serial_control_reads_unused_bits_high() {
    let mut m = board();
    m.write_byte(0xFF01, 0x42);
    assert_eq!(m.read_byte(0xFF01), 0x42);
    assert_eq!(m.read_byte(0xFF02), 0x7E);
}

#[test]
fn serial_transfer_completes_on_next_tick() {
    let mut m = board();
    m.write_byte(0xFF0F, 0x00);
    m.write_byte(0xFF02, 0x81);
    assert_eq!(m.read_byte(0xFF02), 0xFF);
    m.tick(4);
    assert_eq!(m.read_byte(0xFF02), 0x7F);
    assert_eq!(m.read_byte(0xFF0F) & 0x08, 0x08);
}

#[test]
fn word_access_is_little_endian() {
    let mut m = board();
    m.write_word(0xC010, 0xBEEF);
    assert_eq!(m.read_byte(0xC010), 0xEF);
    assert_eq!(m.read_byte(0xC011), 0xBE);
    assert_eq!(m.read_word(0xC010), 0xBEEF);
    m.write_word(0xFF80, 0x1234);
    assert_eq!(m.read_word(0xFF80), 0x1234);
}

#[test]
fn word_access_wraps_at_top_of_memory() {
    let mut m = board();
    m.write_word(0xFFFF, 0x0110);
    assert_eq!(m.read_byte(0xFFFF), 0x10);
    // The high byte lands at 0x0000 (ROM, ignored).
    assert_eq!(m.read_word(0xFFFF), 0x0010);
}

#[test]
fn dma_copies_a_page_to_oam() {
    let mut m = board();
    for i in 0..160u16 {
        m.write_byte(0xC100 + i, (i as u8) ^ 0x5A);
    }
    m.write_byte(0xFF46, 0xC1);
    for i in 0..160u16 {
        assert_eq!(m.read_byte(0xFE00 + i), (i as u8) ^ 0x5A);
    }
    assert_eq!(m.read_byte(0xC100), 0x5A);
}

#[test]
fn joypad_press_raises_interrupt_on_tick() {
    let mut m = board();
    m.write_byte(0xFF0F, 0x00);
    m.set_button(Button::Start, true);
    m.write_byte(0xFF00, 0x10);
    assert_eq!(m.read_byte(0xFF00), 0xC7);
    m.tick(4);
    assert_eq!(m.read_byte(0xFF0F) & 0x10, 0x10);
    m.write_byte(0xFF0F, 0x00);
    m.tick(4);
    assert_eq!(m.read_byte(0xFF0F) & 0x10, 0x00);
}

#[test]
fn timer_and_apu_are_mapped() {
    let mut m = board();
    m.write_byte(0xFF06, 0x99);
    assert_eq!(m.read_byte(0xFF06), 0x99);
    assert_eq!(m.read_byte(0xFF07), 0xF8);
    assert_eq!(m.read_byte(0xFF26), 0x80);
    m.write_byte(0xFF24, 0x12);
    assert_eq!(m.read_byte(0xFF24), 0x12);
    let mix = m.tick(4).unwrap();
    assert_eq!(mix.master, 3);
}

#[test]
fn vram_and_ppu_registers_are_mapped() {
    let mut m = board();
    m.write_byte(0x8800, 0x3C);
    assert_eq!(m.read_byte(0x8800), 0x3C);
    m.write_byte(0xFF42, 0x10);
    assert_eq!(m.read_byte(0xFF42), 0x10);
    assert_eq!(m.read_byte(0xFF40), 0x91);
    assert_eq!(m.frame().len(), 160 * 144 * 4);
}

#[test]
fn board_reports_no_save_for_rom_only() {
    let m = board();
    assert!(m.save_data().is_none());
}

#[test]
fn ticks_leave_memory_alone() {
    let mut m = board();
    m.write_byte(0xC000, 0x12);
    m.write_byte(0xFF90, 0x34);
    m.write_byte(0x9000, 0x56);
    m.write_byte(0xFE10, 0x78);
    m.write_byte(0xFFFF, 0x05);
    for _ in 0..1000 {
        m.tick(200);
    }
    assert_eq!(m.read_byte(0xC000), 0x12);
    assert_eq!(m.read_byte(0xFF90), 0x34);
    assert_eq!(m.read_byte(0x9000), 0x56);
    assert_eq!(m.read_byte(0xFE10), 0x78);
    assert_eq!(m.read_byte(0xFFFF), 0x05);
    assert_eq!(m.read_byte(0x0150), 0xAB);
}
