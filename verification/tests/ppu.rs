use rusty_gb::ppu::Ppu;

const WHITE: [u8; 4] = [224, 248, 208, 255];
const LIGHT: [u8; 4] = [136, 192, 112, 255];
const DARK: [u8; 4] = [52, 104, 86, 255];
const BLACK: [u8; 4] = [8, 24, 32, 255];

fn pixel(p: &Ppu, x: usize, y: usize) -> [u8; 4] {
    let f = p.frame();
    let o = (y * 160 + x) * 4;
    [f[o], f[o + 1], f[o + 2], f[o + 3]]
}

fn run(p: &mut Ppu, n: usize, cycles: u8, if_reg: &mut u8) {
    for _ in 0..n {
        p.tick(cycles, if_reg);
    }
}

#[test]
fn ppu_power_on_registers() {
    let p = Ppu::new();
    assert_eq!(p.read(0xFF40), 0x91);
    assert_eq!(p.read(0xFF41), 0x85);
    assert_eq!(p.read(0xFF44), 0x00);
    assert_eq!(p.read(0xFF47), 0xE4);
    assert_eq!(p.read(0xFF48), 0xE4);
    assert_eq!(p.read(0xFF49), 0xE4);
    assert_eq!(p.read(0xFF46), 0xFF);
    assert_eq!(p.read(0xFF4C), 0xFF);
    assert_eq!(p.frame().len(), 160 * 144 * 4);
    assert!(p.frame().iter().all(|b| *b == 0));
}

#[test]
fn vram_and_oam_read_back() {
    let mut p = Ppu::new();
    p.write(0x8000, 0x12);
    p.write(0x9FFF, 0x34);
    p.write(0xFE00, 0x56);
    p.write(0xFE9F, 0x78);
    assert_eq!(p.read(0x8000), 0x12);
    assert_eq!(p.read(0x9FFF), 0x34);
    assert_eq!(p.read(0xFE00), 0x56);
    assert_eq!(p.read(0xFE9F), 0x78);
    p.write_oam(1, 0x9A);
    assert_eq!(p.read(0xFE01), 0x9A);
}

#[test]
fn scroll_and_palette_registers_read_back() {
    let mut p = Ppu::new();
    for (addr, val) in [(0xFF42u16, 0x11u8), (0xFF43, 0x22), (0xFF45, 0x33), (0xFF47, 0x1B), (0xFF48, 0x44), (0xFF49, 0x55), (0xFF4A, 0x66), (0xFF4B, 0x77)] {
        p.write(addr, val);
        assert_eq!(p.read(addr), val);
    }
}

#[test]
fn stat_low_bits_are_read_only() {
    let mut p = Ppu::new();
    p.write(0xFF41, 0xFF);
    assert_eq!(p.read(0xFF41), 0xFD);
    p.write(0xFF41, 0x00);
    assert_eq!(p.read(0xFF41), 0x85);
}

#[test]
fn ly_ignores_writes_and_counts_lines() {
    let mut p = Ppu::new();
    let mut if_reg = 0u8;
    p.write(0xFF44, 0x42);
    assert_eq!(p.read(0xFF44), 0);
    run(&mut p, 2, 228, &mut if_reg);
    assert_eq!(p.read(0xFF44), 1);
    run(&mut p, 2, 228, &mut if_reg);
    assert_eq!(p.read(0xFF44), 2);
}

#[test]
fn vblank_raises_interrupt_at_line_144() {
    let mut p = Ppu::new();
    let mut if_reg = 0u8;
    run(&mut p, 143 * 2, 228, &mut if_reg);
    assert_eq!(p.read(0xFF44), 143);
    assert_eq!(if_reg & 0x01, 0);
    run(&mut p, 2, 228, &mut if_reg);
    assert_eq!(p.read(0xFF44), 144);
    assert_eq!(if_reg & 0x01, 0x01);
    assert_eq!(p.read(0xFF41) & 0x03, 0x01);
    // The frame wraps after line 153.
    run(&mut p, 10 * 2, 228, &mut if_reg);
    assert_eq!(p.read(0xFF44), 0);
    assert_eq!(p.read(0xFF41) & 0x03, 0x02);
}

#[test]
fn lyc_match_sets_coincidence_and_interrupt() {
    let mut p = Ppu::new();
    let mut if_reg = 0u8;
    p.write(0xFF45, 3);
    p.write(0xFF41, 0x40);
    run(&mut p, 3 * 2, 228, &mut if_reg);
    assert_eq!(p.read(0xFF44), 3);
    assert_eq!(p.read(0xFF41) & 0x04, 0x04);
    assert_eq!(if_reg & 0x02, 0x02);
    run(&mut p, 2, 228, &mut if_reg);
    assert_eq!(p.read(0xFF41) & 0x04, 0x00);
}

#[test]
fn lcd_off_resets_line_and_freezes() {
    let mut p = Ppu::new();
    let mut if_reg = 0u8;
    run(&mut p, 10, 228, &mut if_reg);
    assert_eq!(p.read(0xFF44), 5);
    p.write(0xFF40, 0x11);
    assert_eq!(p.read(0xFF44), 0);
    assert_eq!(p.read(0xFF41) & 0x03, 0);
    run(&mut p, 10, 228, &mut if_reg);
    assert_eq!(p.read(0xFF44), 0);
    p.write(0xFF40, 0x91);
    run(&mut p, 2, 228, &mut if_reg);
    assert_eq!(p.read(0xFF44), 1);
}

#[test]
fn background_line_is_rendered_on_hblank() {
    let mut p = Ppu::new();
    let mut if_reg = 0u8;
    // Tile 0, row 0: colour index 3 everywhere.
    p.write(0x8000, 0xFF);
    p.write(0x8001, 0xFF);
    // Mode 3 up to dot 252: nothing drawn yet.
    run(&mut p, 63, 4, &mut if_reg);
    assert_eq!(pixel(&p, 0, 0), [0, 0, 0, 0]);
    run(&mut p, 1, 4, &mut if_reg);
    for x in 0..160 {
        assert_eq!(pixel(&p, x, 0), BLACK);
    }
    assert_eq!(pixel(&p, 0, 1), [0, 0, 0, 0]);
}

#[test]
fn background_palette_maps_shades() {
    let mut p = Ppu::new();
    let mut if_reg = 0u8;
    // Row 0 of tile 0: colour indices 3,2,1,0,0,0,0,0.
    p.write(0x8000, 0b1010_0000);
    p.write(0x8001, 0b1100_0000);
    run(&mut p, 64, 4, &mut if_reg);
    assert_eq!(pixel(&p, 0, 0), BLACK);
    assert_eq!(pixel(&p, 1, 0), DARK);
    assert_eq!(pixel(&p, 2, 0), LIGHT);
    assert_eq!(pixel(&p, 3, 0), WHITE);
    assert_eq!(pixel(&p, 8, 0), BLACK);
}

#[test]
fn disabled_background_draws_shade_zero() {
    let mut p = Ppu::new();
    let mut if_reg = 0u8;
    p.write(0x8000, 0xFF);
    p.write(0x8001, 0xFF);
    p.write(0xFF40, 0x90);
    run(&mut p, 64, 4, &mut if_reg);
    assert_eq!(pixel(&p, 0, 0), WHITE);
    assert_eq!(pixel(&p, 159, 0), WHITE);
}

#[test]
fn sprite_is_drawn_over_background() {
    let mut p = Ppu::new();
    let mut if_reg = 0u8;
    p.write(0xFF40, 0x93);
    // Tile 1, row 0: leftmost pixel colour 1.
    p.write(0x8010, 0x80);
    p.write(0x8011, 0x00);
    // Sprite 0 at the top-left corner.
    p.write(0xFE00, 16);
    p.write(0xFE01, 8);
    p.write(0xFE02, 1);
    p.write(0xFE03, 0);
    run(&mut p, 64, 4, &mut if_reg);
    assert_eq!(pixel(&p, 0, 0), LIGHT);
    assert_eq!(pixel(&p, 1, 0), WHITE);
}

#[test]
fn lower_oam_index_wins() {
    let mut p = Ppu::new();
    let mut if_reg = 0u8;
    p.write(0xFF40, 0x93);
    p.write(0x8010, 0x80);
    p.write(0x8020, 0x80);
    p.write(0x8021, 0x80);
    for (i, tile) in [(0u16, 1u8), (1, 2)] {
        p.write(0xFE00 + i * 4, 16);
        p.write(0xFE01 + i * 4, 8);
        p.write(0xFE02 + i * 4, tile);
    }
    run(&mut p, 64, 4, &mut if_reg);
    assert_eq!(pixel(&p, 0, 0), LIGHT);
}

#[test]
fn sprite_behind_opaque_background_is_hidden() {
    let mut p = Ppu::new();
    let mut if_reg = 0u8;
    p.write(0xFF40, 0x93);
    // Background pixel 0 has colour 1, pixel 1 colour 0.
    p.write(0x8000, 0x80);
    p.write(0x8010, 0xC0);
    p.write(0x8011, 0xC0);
    p.write(0xFE00, 16);
    p.write(0xFE01, 8);
    p.write(0xFE02, 1);
    p.write(0xFE03, 0x80);
    run(&mut p, 64, 4, &mut if_reg);
    assert_eq!(pixel(&p, 0, 0), LIGHT);
    assert_eq!(pixel(&p, 1, 0), BLACK);
}
