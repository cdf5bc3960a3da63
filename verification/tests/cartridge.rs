use rusty_gb::cartridge::{from_bytes, Cartridge, CartridgeError};

/// A ROM image of `banks` 16 KiB banks whose first byte in each bank is the
/// bank number, with the given mapper and RAM-size header bytes.
fn banked_rom(banks: usize, mapper: u8, ram_size: u8) -> Vec<u8> {
    let mut rom = vec![0u8; banks * 0x4000];
    for b in 1..banks {
        rom[b * 0x4000] = b as u8;
        rom[b * 0x4000 + 1] = 0xB0 | (b as u8);
    }
    rom[0x147] = mapper;
    rom[0x149] = ram_size;
    rom
}

#[test]
fn short_rom_is_rejected() {
    let res = from_bytes(vec![0u8; 0x14F], None);
    assert!(matches!(res, Err(CartridgeError::RomTooSmall)));
    let res = from_bytes(Vec::new(), None);
    assert!(matches!(res, Err(CartridgeError::RomTooSmall)));
}

#[test]
fn unknown_mapper_is_rejected() {
    let rom = banked_rom(2, 0x05, 0);
    let res = from_bytes(rom, None);
    assert!(matches!(res, Err(CartridgeError::UnsupportedMapper(0x05))));
    let rom = banked_rom(2, 0xFF, 0);
    assert!(matches!(from_bytes(rom, None), Err(CartridgeError::UnsupportedMapper(0xFF))));
}

#[test]
fn header_only_rom_only_image_is_accepted() {
    let mut rom = vec![0u8; 0x150];
    rom[0x100] = 0x3C;
    let cart = from_bytes(rom, None).unwrap();
    assert_eq!(cart.read(0x0100), 0x3C);
    assert_eq!(cart.read(0x0150), 0xFF);
}

#[test]
fn rom_only_reads_image_and_ignores_writes() {
    let mut rom = banked_rom(2, 0x00, 0x02);
    rom[0x1234] = 0x77;
    let mut cart = from_bytes(rom, None).unwrap();
    assert_eq!(cart.read(0x1234), 0x77);
    assert_eq!(cart.read(0x4000), 0x01);
    cart.write(0x1234, 0x00);
    cart.write(0x2000, 0x05);
    assert_eq!(cart.read(0x1234), 0x77);
    assert_eq!(cart.read(0x4000), 0x01);
    // No cartridge RAM: open bus.
    cart.write(0x0000, 0x0A);
    cart.write(0xA000, 0x12);
    assert_eq!(cart.read(0xA000), 0xFF);
    assert!(cart.save_data().is_none());
}

#[test]
fn mbc1_switches_rom_banks() {
    let mut cart = from_bytes(banked_rom(4, 0x01, 0x00), None).unwrap();
    // Power-on: bank 1 mapped high.
    assert_eq!(cart.read(0x4000), 1);
    assert_eq!(cart.read(0x4001), 0xB1);
    cart.write(0x2000, 0x02);
    assert_eq!(cart.read(0x4000), 2);
    cart.write(0x2000, 0x03);
    assert_eq!(cart.read(0x4001), 0xB3);
    // Bank numbers beyond the image wrap through the mask.
    cart.write(0x2000, 0x07);
    assert_eq!(cart.read(0x4000), 3);
    // The fixed window always shows bank 0 in mode 0.
    assert_eq!(cart.read(0x0000), 0);
}

#[test]
fn mbc1_zero_bank_selects_bank_one() {
    let mut cart = from_bytes(banked_rom(4, 0x01, 0x00), None).unwrap();
    cart.write(0x2000, 0x02);
    assert_eq!(cart.read(0x4000), 2);
    cart.write(0x2000, 0x00);
    assert_eq!(cart.read(0x4000), 1);
    cart.write(0x2000, 0x20);
    assert_eq!(cart.read(0x4000), 1);
}

#[test]
fn mbc1_ram_needs_enable() {
    let mut cart = from_bytes(banked_rom(4, 0x03, 0x02), None).unwrap();
    // Disabled RAM reads open bus and ignores writes.
    cart.write(0xA010, 0x55);
    assert_eq!(cart.read(0xA010), 0xFF);
    assert!(cart.save_data().is_none());
    cart.write(0x0000, 0x0A);
    assert_eq!(cart.read(0xA010), 0x00);
    cart.write(0xA010, 0x55);
    assert_eq!(cart.read(0xA010), 0x55);
    // Any low nibble other than 0xA disables it again.
    cart.write(0x1000, 0x0B);
    assert_eq!(cart.read(0xA010), 0xFF);
    cart.write(0x1000, 0x1A);
    assert_eq!(cart.read(0xA010), 0x55);
}

#[test]
fn mbc1_save_data_after_write() {
    let mut cart = from_bytes(banked_rom(4, 0x03, 0x02), None).unwrap();
    cart.write(0x0000, 0x0A);
    cart.write(0xA000, 0x11);
    cart.write(0xBFFF, 0x22);
    let saved = cart.save_data().unwrap().to_vec();
    assert_eq!(saved.len(), 0x2000);
    assert_eq!(saved[0], 0x11);
    assert_eq!(saved[0x1FFF], 0x22);
    assert_eq!(saved[1], 0x00);
}

#[test]
fn saved_ram_is_restored_when_size_matches() {
    let mut image = vec![0u8; 0x2000];
    image[5] = 0x99;
    let mut cart = from_bytes(banked_rom(4, 0x03, 0x02), Some(image)).unwrap();
    cart.write(0x0000, 0x0A);
    assert_eq!(cart.read(0xA005), 0x99);
    // Not written yet: nothing to save.
    assert!(cart.save_data().is_none());
}

#[test]
fn saved_ram_of_wrong_size_is_ignored() {
    let image = vec![0x99u8; 0x800];
    let mut cart = from_bytes(banked_rom(4, 0x03, 0x02), Some(image)).unwrap();
    cart.write(0x0000, 0x0A);
    assert_eq!(cart.read(0xA005), 0x00);
}

#[test]
fn mbc1_mode_one_banks_ram() {
    // 32 KiB of RAM: four 8 KiB banks.
    let mut cart = from_bytes(banked_rom(4, 0x03, 0x03), None).unwrap();
    cart.write(0x0000, 0x0A);
    cart.write(0xA000, 0x10);
    cart.write(0x6000, 0x01);
    cart.write(0x4000, 0x02);
    assert_eq!(cart.read(0xA000), 0x00);
    cart.write(0xA000, 0x12);
    cart.write(0x4000, 0x00);
    assert_eq!(cart.read(0xA000), 0x10);
    cart.write(0x4000, 0x02);
    assert_eq!(cart.read(0xA000), 0x12);
    let saved = cart.save_data().unwrap();
    assert_eq!(saved.len(), 0x8000);
    assert_eq!(saved[2 * 0x2000], 0x12);
}

#[test]
fn mbc3_switches_banks_and_ram() {
    let mut cart = from_bytes(banked_rom(8, 0x13, 0x03), None).unwrap();
    assert_eq!(cart.read(0x4000), 1);
    cart.write(0x2000, 0x05);
    assert_eq!(cart.read(0x4000), 5);
    cart.write(0x2000, 0x00);
    assert_eq!(cart.read(0x4000), 1);
    cart.write(0x0000, 0x0A);
    cart.write(0x4000, 0x01);
    cart.write(0xA123, 0x42);
    assert_eq!(cart.read(0xA123), 0x42);
    cart.write(0x4000, 0x00);
    assert_eq!(cart.read(0xA123), 0x00);
    // RTC registers are selected but not emulated: they read 0.
    cart.write(0x4000, 0x08);
    assert_eq!(cart.read(0xA123), 0x00);
    cart.write(0xA123, 0x77);
    cart.write(0x4000, 0x01);
    assert_eq!(cart.read(0xA123), 0x42);
    let saved = cart.save_data().unwrap();
    assert_eq!(saved[0x2000 + 0x123], 0x42);
}

#[test]
fn mbc5_nine_bit_rom_bank() {
    let mut cart = from_bytes(banked_rom(8, 0x19, 0x00), None).unwrap();
    assert_eq!(cart.read(0x4000), 1);
    cart.write(0x2000, 0x06);
    assert_eq!(cart.read(0x4000), 6);
    // MBC5 can map bank 0 high.
    cart.write(0x2000, 0x00);
    assert_eq!(cart.read(0x4000), 0);
    // The ninth bit is masked away on a small image.
    cart.write(0x2000, 0x03);
    cart.write(0x3000, 0x01);
    assert_eq!(cart.read(0x4000), 3);
    // No RAM on this cartridge.
    cart.write(0x0000, 0x0A);
    assert_eq!(cart.read(0xA000), 0xFF);
    assert!(cart.save_data().is_none());
}

#[test]
fn mbc5_ram_banks() {
    let mut cart = from_bytes(banked_rom(4, 0x1B, 0x03), None).unwrap();
    cart.write(0x0000, 0x0A);
    cart.write(0x4000, 0x03);
    cart.write(0xA000, 0xAB);
    cart.write(0x4000, 0x00);
    assert_eq!(cart.read(0xA000), 0x00);
    cart.write(0x4000, 0x03);
    assert_eq!(cart.read(0xA000), 0xAB);
    let saved = cart.save_data().unwrap();
    assert_eq!(saved[3 * 0x2000], 0xAB);
}

#[test]
fn save_image_reloads_into_same_ram() {
    let rom = banked_rom(4, 0x1B, 0x02);
    let mut cart = from_bytes(rom.clone(), None).unwrap();
    cart.write(0x0000, 0x0A);
    for i in 0..16u16 {
        cart.write(0xA000 + i * 3, (i as u8) * 7 + 1);
    }
    let image = cart.save_data().unwrap().to_vec();
    let mut again = from_bytes(rom, Some(image.clone())).unwrap();
    again.write(0x0000, 0x0A);
    for i in 0..0x2000u16 {
        assert_eq!(again.read(0xA000 + i), image[i as usize]);
    }
    assert_eq!(again.read(0xA000 + 15 * 3), 15 * 7 + 1);
}

#[test]
fn short_mbc3_and_mbc5_images_read_open_bus_past_the_end() {
    for mapper in [0x0Fu8, 0x13, 0x19, 0x1E] {
        let mut rom = vec![0u8; 0x200];
        rom[0x147] = mapper;
        rom[0x1FF] = 0x42;
        let cart = from_bytes(rom, None).unwrap();
        assert_eq!(cart.read(0x01FF), 0x42);
        assert_eq!(cart.read(0x0200), 0xFF);
        assert_eq!(cart.read(0x3FFF), 0xFF);
    }
}

#[test]
fn mark_saved_clears_pending_save_until_next_ram_write() {
    let mut cart = from_bytes(banked_rom(4, 0x03, 0x02), None).unwrap();
    cart.write(0x0000, 0x0A);
    cart.write(0xA000, 0x11);
    assert!(cart.save_data().is_some());
    cart.mark_saved();
    assert!(cart.save_data().is_none());
    // Mapper register writes do not make a save pending.
    cart.write(0x2000, 0x02);
    cart.write(0x0000, 0x0A);
    assert!(cart.save_data().is_none());
    cart.write(0xA001, 0x22);
    let saved = cart.save_data().unwrap();
    assert_eq!(saved[0], 0x11);
    assert_eq!(saved[1], 0x22);
}
