use rusty_gb::apu::{Apu, MixLevels};

fn run(apu: &mut Apu, n: usize, cycles: u8) -> Option<MixLevels> {
    let mut last = None;
    for _ in 0..n {
        last = apu.tick(cycles);
    }
    last
}

#[test]
fn apu_power_on_registers() {
    let apu = Apu::new();
    assert_eq!(apu.read(0xFF24), 0x77);
    assert_eq!(apu.read(0xFF25), 0xF3);
    assert_eq!(apu.read(0xFF26), 0x80);
    assert_eq!(apu.read(0xFF10), 0xFF);
    assert_eq!(apu.read(0xFF30), 0xFF);
    let m = apu.mix();
    assert_eq!(m, MixLevels { ch1: 0, ch2: 0, ch4: 0, master: 14 });
}

#[test]
fn master_volume_sums_both_terminals() {
    let mut apu = Apu::new();
    apu.write(0xFF24, 0x35);
    assert_eq!(apu.mix().master, 8);
    apu.write(0xFF24, 0x88);
    assert_eq!(apu.mix().master, 0);
    assert_eq!(apu.read(0xFF24), 0x88);
}

#[test]
fn square_channel_follows_duty_pattern() {
    let mut apu = Apu::new();
    apu.write(0xFF12, 0xF0);
    apu.write(0xFF11, 0x80);
    apu.write(0xFF13, 0x00);
    apu.write(0xFF14, 0x87);
    assert!(apu.ch1.enabled);
    assert_eq!(apu.ch1.freq, 0x700);
    assert_eq!(apu.ch1.env_vol, 15);
    // 50 % duty, position 0 is high.
    assert_eq!(apu.mix().ch1, 15);
    // The first tick reloads the timer and advances to position 1 (low).
    let m = apu.tick(4).unwrap();
    assert_eq!(m.ch1, -15);
    assert_eq!(apu.ch1.timer, 1024);
    assert_eq!(apu.ch1.duty_pos, 1);
    // Not routed to an output: level 0.
    apu.write(0xFF25, 0x22);
    assert_eq!(apu.mix().ch1, 0);
}

#[test]
fn length_counter_silences_channel() {
    let mut apu = Apu::new();
    apu.write(0xFF17, 0xF0);
    apu.write(0xFF16, 0xBF);
    apu.write(0xFF19, 0xC7);
    assert!(apu.ch2.enabled);
    assert_eq!(apu.ch2.length, 1);
    // Frame-sequencer step 1 does not clock lengths, step 2 does.
    run(&mut apu, 64, 128);
    assert_eq!(apu.frame_step, 1);
    assert!(apu.ch2.enabled);
    run(&mut apu, 64, 128);
    assert_eq!(apu.frame_step, 2);
    assert!(!apu.ch2.enabled);
    assert_eq!(apu.mix().ch2, 0);
}

#[test]
fn envelope_steps_at_sequencer_step_seven() {
    let mut apu = Apu::new();
    apu.write(0xFF12, 0xF1);
    apu.write(0xFF14, 0x80);
    assert_eq!(apu.ch1.env_vol, 15);
    run(&mut apu, 448, 128);
    assert_eq!(apu.frame_step, 7);
    assert_eq!(apu.ch1.env_vol, 14);
    run(&mut apu, 512, 128);
    assert_eq!(apu.ch1.env_vol, 13);
}

#[test]
fn noise_lfsr_shifts_on_each_period() {
    let mut apu = Apu::new();
    apu.write(0xFF21, 0xA0);
    apu.write(0xFF22, 0x00);
    apu.write(0xFF23, 0x80);
    assert_eq!(apu.ch4.lfsr, 0x7FFF);
    assert_eq!(apu.mix().ch4, -10);
    let m = run(&mut apu, 14, 8).unwrap();
    assert_eq!(apu.ch4.lfsr, 0x0001);
    assert_eq!(m.ch4, -10);
    let m = run(&mut apu, 1, 8).unwrap();
    assert_eq!(apu.ch4.lfsr, 0x4000);
    assert_eq!(m.ch4, 10);
}

#[test]
fn power_off_ignores_writes_and_silences() {
    let mut apu = Apu::new();
    apu.write(0xFF12, 0xF0);
    apu.write(0xFF14, 0x80);
    apu.write(0xFF26, 0x00);
    assert_eq!(apu.read(0xFF26), 0x00);
    assert!(!apu.ch1.enabled);
    assert_eq!(apu.mix().ch1, 0);
    assert!(apu.tick(4).is_none());
    apu.write(0xFF24, 0x00);
    assert_eq!(apu.read(0xFF24), 0x77);
    apu.write(0xFF26, 0xFF);
    assert_eq!(apu.read(0xFF26), 0x80);
    assert!(apu.tick(4).is_some());
}
