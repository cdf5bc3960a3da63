use rusty_gb::timer::Timer;

fn ticks(t: &mut Timer, n: usize, cycles: u8, if_reg: &mut u8) {
    for _ in 0..n {
        t.tick(cycles, if_reg);
    }
}

#[test]
fn timer_starts_cleared() {
    let t = Timer::new();
    assert_eq!(t.read(0xFF04), 0);
    assert_eq!(t.read(0xFF05), 0);
    assert_eq!(t.read(0xFF06), 0);
    assert_eq!(t.read(0xFF07), 0xF8);
    assert_eq!(t.read(0xFF08), 0xFF);
    assert_eq!(t.read(0xFF03), 0xFF);
}

#[test]
fn div_counts_every_256_cycles() {
    let mut t = Timer::new();
    let mut if_reg = 0u8;
    ticks(&mut t, 64, 4, &mut if_reg);
    assert_eq!(t.read(0xFF04), 1);
    assert_eq!(t.div, 256);
    ticks(&mut t, 3, 255, &mut if_reg);
    assert_eq!(t.div, 256 + 765);
    assert_eq!(t.read(0xFF04), 3);
    assert_eq!(if_reg, 0);
}

#[test]
fn div_write_resets_counter() {
    let mut t = Timer::new();
    let mut if_reg = 0u8;
    ticks(&mut t, 200, 4, &mut if_reg);
    assert_eq!(t.read(0xFF04), 3);
    t.write(0xFF04, 0x5A);
    assert_eq!(t.read(0xFF04), 0);
    assert_eq!(t.div, 0);
}

#[test]
fn timer_registers_read_back() {
    let mut t = Timer::new();
    t.write(0xFF05, 0x12);
    t.write(0xFF06, 0x34);
    t.write(0xFF07, 0x05);
    assert_eq!(t.read(0xFF05), 0x12);
    assert_eq!(t.read(0xFF06), 0x34);
    assert_eq!(t.read(0xFF07), 0xFD);
    t.write(0xFF07, 0xFF);
    assert_eq!(t.read(0xFF07), 0xFF);
    // Writes outside the block change nothing.
    t.write(0xFF03, 0x77);
    assert_eq!(t.read(0xFF05), 0x12);
}

#[test]
fn tima_counts_falling_edges_of_selected_bit() {
    let mut t = Timer::new();
    let mut if_reg = 0u8;
    // Enabled, 16-cycle period (DIV bit 3).
    t.write(0xFF07, 0x05);
    ticks(&mut t, 4, 4, &mut if_reg);
    assert_eq!(t.read(0xFF05), 1);
    ticks(&mut t, 40, 4, &mut if_reg);
    assert_eq!(t.read(0xFF05), 11);
    // 1024-cycle period (DIV bit 9).
    let mut t = Timer::new();
    t.write(0xFF07, 0x04);
    ticks(&mut t, 255, 4, &mut if_reg);
    assert_eq!(t.read(0xFF05), 0);
    ticks(&mut t, 1, 4, &mut if_reg);
    assert_eq!(t.read(0xFF05), 1);
}

#[test]
fn disabled_timer_does_not_count() {
    let mut t = Timer::new();
    let mut if_reg = 0u8;
    t.write(0xFF07, 0x01);
    ticks(&mut t, 100, 4, &mut if_reg);
    assert_eq!(t.read(0xFF05), 0);
    assert_eq!(if_reg, 0);
}

#[test]
fn overflow_reloads_tma_one_m_cycle_later() {
    let mut t = Timer::new();
    let mut if_reg = 0u8;
    t.write(0xFF07, 0x05);
    t.write(0xFF06, 0xAB);
    t.write(0xFF05, 0xFF);
    ticks(&mut t, 4, 4, &mut if_reg);
    // The T-cycle that overflows leaves TIMA at 0 and raises nothing yet;
    // the reload follows four T-cycles later.
    assert_eq!(t.read(0xFF05), 0x00);
    assert_eq!(if_reg & 0x04, 0);
    ticks(&mut t, 1, 4, &mut if_reg);
    assert_eq!(t.read(0xFF05), 0xAB);
    assert_eq!(if_reg, 0x04);
}

#[test]
fn long_tick_counts_every_falling_edge() {
    let mut t = Timer::new();
    let mut if_reg = 0u8;
    t.write(0xFF07, 0x05);
    t.tick(8, &mut if_reg);
    assert_eq!(t.read(0xFF05), 0);
    // DIV 8 -> 32 crosses the falling edges of bit 3 at 16 and at 32.
    t.tick(24, &mut if_reg);
    assert_eq!(t.read(0xFF05), 2);
    let mut t = Timer::new();
    t.write(0xFF07, 0x05);
    t.tick(255, &mut if_reg);
    assert_eq!(t.read(0xFF05), 15);
}

#[test]
fn overflow_inside_a_long_tick_reloads_in_the_same_tick() {
    let mut t = Timer::new();
    let mut if_reg = 0u8;
    t.write(0xFF07, 0x05);
    t.write(0xFF06, 0x10);
    t.write(0xFF05, 0xFF);
    t.tick(19, &mut if_reg);
    assert_eq!(t.read(0xFF05), 0x00);
    assert_eq!(if_reg, 0);
    t.tick(1, &mut if_reg);
    assert_eq!(t.read(0xFF05), 0x10);
    assert_eq!(if_reg, 0x04);
}
