use rusty_gb::bus::Motherboard;
use rusty_gb::cartridge::from_bytes;
use rusty_gb::cpu::Cpu;

/// A machine whose ROM holds `program` at the entry point 0x0100, with
/// the CPU in its post-boot state.
fn machine(program: &[u8]) -> (Cpu, Motherboard) {
    let mut rom = vec![0u8; 0x8000];
    rom[0x100..0x100 + program.len()].copy_from_slice(program);
    let bus = Motherboard::new(from_bytes(rom, None).unwrap());
    let mut cpu = Cpu::new();
    cpu.reset_to_boot();
    (cpu, bus)
}

#[test]
fn new_cpu_is_zeroed() {
    let c = Cpu::new();
    assert_eq!((c.a, c.f, c.b, c.c, c.d, c.e, c.h, c.l), (0, 0, 0, 0, 0, 0, 0, 0));
    assert_eq!((c.sp, c.pc), (0, 0));
    assert!(!c.ime && !c.halted && !c.ei_pending);
}

#[test]
fn boot_state_registers() {
    let mut c = Cpu::new();
    c.reset_to_boot();
    assert_eq!((c.a, c.f, c.b, c.c), (0x01, 0xB0, 0x00, 0x13));
    assert_eq!((c.d, c.e, c.h, c.l), (0x00, 0xD8, 0x01, 0x4D));
    assert_eq!(c.sp, 0xFFFE);
    assert_eq!(c.pc, 0x0100);
}

#[test]
fn load_store_and_halt() {
    // LD A,0x42; LD (0xC000),A; INC A; HALT
    let (mut cpu, mut bus) = machine(&[0x3E, 0x42, 0xEA, 0x00, 0xC0, 0x3C, 0x76]);
    assert_eq!(cpu.step(&mut bus), 8);
    assert_eq!(cpu.a, 0x42);
    assert_eq!(cpu.step(&mut bus), 16);
    assert_eq!(bus.read_byte(0xC000), 0x42);
    assert_eq!(cpu.step(&mut bus), 4);
    assert_eq!(cpu.a, 0x43);
    // INC keeps the carry flag of the boot state.
    assert_eq!(cpu.f, 0x10);
    assert_eq!(cpu.step(&mut bus), 4);
    assert!(cpu.halted);
    assert_eq!(cpu.pc, 0x0107);
    // Halted with nothing pending: idles for 4 cycles.
    assert_eq!(cpu.step(&mut bus), 4);
    assert_eq!(cpu.pc, 0x0107);
    assert!(cpu.halted);
}

#[test]
fn alu_flags() {
    let (mut cpu, mut bus) = machine(&[
        0x3E, 0x0F, 0xC6, 0x01, // LD A,0x0F; ADD A,1
        0x3E, 0xFF, 0xC6, 0x01, // LD A,0xFF; ADD A,1
        0x3E, 0x10, 0xD6, 0x01, // LD A,0x10; SUB 1
        0xFE, 0x0F, // CP 0x0F
        0x3E, 0xF0, 0xE6, 0x0F, // LD A,0xF0; AND 0x0F
        0xAF, // XOR A
        0x37, 0x3E, 0x01, 0xCE, 0x01, // SCF; LD A,1; ADC A,1
    ]);
    cpu.step(&mut bus);
    assert_eq!(cpu.step(&mut bus), 8);
    assert_eq!((cpu.a, cpu.f), (0x10, 0x20));
    cpu.step(&mut bus);
    cpu.step(&mut bus);
    assert_eq!((cpu.a, cpu.f), (0x00, 0xB0));
    cpu.step(&mut bus);
    cpu.step(&mut bus);
    assert_eq!((cpu.a, cpu.f), (0x0F, 0x60));
    cpu.step(&mut bus);
    assert_eq!((cpu.a, cpu.f), (0x0F, 0xC0));
    cpu.step(&mut bus);
    cpu.step(&mut bus);
    assert_eq!((cpu.a, cpu.f), (0x00, 0xA0));
    assert_eq!(cpu.step(&mut bus), 4);
    assert_eq!((cpu.a, cpu.f), (0x00, 0x80));
    cpu.step(&mut bus);
    cpu.step(&mut bus);
    cpu.step(&mut bus);
    assert_eq!((cpu.a, cpu.f), (0x03, 0x00));
}

#[test]
fn daa_adjusts_bcd_sums() {
    // LD A,0x15; ADD A,0x27; DAA; LD A,0x99; ADD A,0x01; DAA
    let (mut cpu, mut bus) = machine(&[0x3E, 0x15, 0xC6, 0x27, 0x27, 0x3E, 0x99, 0xC6, 0x01, 0x27]);
    cpu.step(&mut bus);
    cpu.step(&mut bus);
    assert_eq!(cpu.a, 0x3C);
    assert_eq!(cpu.step(&mut bus), 4);
    assert_eq!((cpu.a, cpu.f), (0x42, 0x00));
    cpu.step(&mut bus);
    cpu.step(&mut bus);
    cpu.step(&mut bus);
    assert_eq!((cpu.a, cpu.f), (0x00, 0x90));
}

#[test]
fn daa_after_subtraction() {
    // LD A,0x42; SUB 0x13; DAA  (42 - 13 = 29 in BCD)
    let (mut cpu, mut bus) = machine(&[0x3E, 0x42, 0xD6, 0x13, 0x27]);
    cpu.step(&mut bus);
    cpu.step(&mut bus);
    cpu.step(&mut bus);
    assert_eq!(cpu.a, 0x29);
    assert_eq!(cpu.f & 0x40, 0x40);
}

#[test]
fn push_pop_round_trip() {
    // LD BC,0x1234; PUSH BC; POP DE
    let (mut cpu, mut bus) = machine(&[0x01, 0x34, 0x12, 0xC5, 0xD1]);
    assert_eq!(cpu.step(&mut bus), 12);
    assert_eq!(cpu.step(&mut bus), 16);
    assert_eq!(cpu.sp, 0xFFFC);
    assert_eq!(bus.read_word(0xFFFC), 0x1234);
    assert_eq!(cpu.step(&mut bus), 12);
    assert_eq!((cpu.d, cpu.e), (0x12, 0x34));
    assert_eq!(cpu.sp, 0xFFFE);
}

#[test]
fn pop_af_clears_low_flag_nibble() {
    // LD BC,0x12FF; PUSH BC; POP AF
    let (mut cpu, mut bus) = machine(&[0x01, 0xFF, 0x12, 0xC5, 0xF1]);
    cpu.step(&mut bus);
    cpu.step(&mut bus);
    cpu.step(&mut bus);
    assert_eq!((cpu.a, cpu.f), (0x12, 0xF0));
}

#[test]
fn call_and_return() {
    let mut code = vec![0u8; 0x101];
    // 0x0100: CALL 0x0200
    code[0..3].copy_from_slice(&[0xCD, 0x00, 0x02]);
    // 0x0200: RET
    code[0x100] = 0xC9;
    let (mut cpu, mut bus) = machine(&code);
    assert_eq!(cpu.step(&mut bus), 24);
    assert_eq!(cpu.pc, 0x0200);
    assert_eq!(cpu.sp, 0xFFFC);
    assert_eq!(bus.read_word(0xFFFC), 0x0103);
    assert_eq!(cpu.step(&mut bus), 16);
    assert_eq!(cpu.pc, 0x0103);
    assert_eq!(cpu.sp, 0xFFFE);
}

#[test]
fn relative_jumps() {
    // XOR A; JR NZ,+5; JR -5
    let (mut cpu, mut bus) = machine(&[0xAF, 0x20, 0x05, 0x18, 0xFB]);
    cpu.step(&mut bus);
    assert_eq!(cpu.step(&mut bus), 8);
    assert_eq!(cpu.pc, 0x0103);
    assert_eq!(cpu.step(&mut bus), 12);
    assert_eq!(cpu.pc, 0x0100);
}

#[test]
fn cb_prefixed_operations() {
    // LD A,0xF1; SWAP A; BIT 7,A; LD HL,0xC000; SET 0,(HL); SRL A
    let (mut cpu, mut bus) = machine(&[
        0x3E, 0xF1, 0xCB, 0x37, 0xCB, 0x7F, 0x21, 0x00, 0xC0, 0xCB, 0xC6, 0xCB, 0x3F,
    ]);
    cpu.step(&mut bus);
    assert_eq!(cpu.step(&mut bus), 8);
    assert_eq!((cpu.a, cpu.f), (0x1F, 0x00));
    assert_eq!(cpu.step(&mut bus), 8);
    assert_eq!(cpu.f, 0xA0);
    cpu.step(&mut bus);
    assert_eq!(cpu.step(&mut bus), 16);
    assert_eq!(bus.read_byte(0xC000), 0x01);
    cpu.step(&mut bus);
    assert_eq!((cpu.a, cpu.f), (0x0F, 0x10));
}

#[test]
fn stack_pointer_offset_flags() {
    // LD SP,0x00FF; ADD SP,1; LD HL,SP-1
    let (mut cpu, mut bus) = machine(&[0x31, 0xFF, 0x00, 0xE8, 0x01, 0xF8, 0xFF]);
    cpu.step(&mut bus);
    assert_eq!(cpu.step(&mut bus), 16);
    assert_eq!((cpu.sp, cpu.f), (0x0100, 0x30));
    assert_eq!(cpu.step(&mut bus), 12);
    assert_eq!((cpu.h, cpu.l), (0x00, 0xFF));
    assert_eq!(cpu.f, 0x00);
}

#[test]
fn ei_takes_effect_after_next_instruction() {
    // EI; NOP; NOP
    let (mut cpu, mut bus) = machine(&[0xFB, 0x00, 0x00]);
    // V-Blank requested and enabled.
    bus.write_byte(0xFFFF, 0x01);
    bus.write_byte(0xFF0F, 0x01);
    assert_eq!(cpu.step(&mut bus), 4);
    assert!(!cpu.ime);
    assert!(cpu.ei_pending);
    assert_eq!(cpu.step(&mut bus), 4);
    assert!(cpu.ime);
    assert_eq!(cpu.pc, 0x0102);
    // Now the interrupt is dispatched.
    assert_eq!(cpu.step(&mut bus), 20);
    assert_eq!(cpu.pc, 0x0040);
    assert!(!cpu.ime);
    assert_eq!(cpu.sp, 0xFFFC);
    assert_eq!(bus.read_word(0xFFFC), 0x0102);
    assert_eq!(bus.read_byte(0xFF0F), 0xE0);
}

#[test]
fn lowest_pending_interrupt_wins() {
    // EI; NOP
    let (mut cpu, mut bus) = machine(&[0xFB, 0x00]);
    bus.write_byte(0xFFFF, 0x1F);
    bus.write_byte(0xFF0F, 0x14);
    cpu.step(&mut bus);
    cpu.step(&mut bus);
    assert_eq!(cpu.step(&mut bus), 20);
    // Timer (bit 2) before joypad (bit 4).
    assert_eq!(cpu.pc, 0x0050);
    assert_eq!(bus.read_byte(0xFF0F), 0xF0);
}

#[test]
fn halt_wakes_on_pending_interrupt_without_ime() {
    // HALT; LD A,0x77
    let (mut cpu, mut bus) = machine(&[0x76, 0x3E, 0x77]);
    cpu.step(&mut bus);
    assert!(cpu.halted);
    assert_eq!(cpu.step(&mut bus), 4);
    bus.write_byte(0xFFFF, 0x04);
    bus.write_byte(0xFF0F, 0x04);
    // IME is off: the CPU wakes and carries on without dispatching.
    assert_eq!(cpu.step(&mut bus), 8);
    assert!(!cpu.halted);
    assert_eq!(cpu.a, 0x77);
}

#[test]
fn undefined_opcode_acts_as_nop() {
    let (mut cpu, mut bus) = machine(&[0xD3, 0xFC]);
    assert_eq!(cpu.step(&mut bus), 4);
    assert_eq!(cpu.pc, 0x0101);
    assert_eq!(cpu.step(&mut bus), 4);
    assert_eq!(cpu.pc, 0x0102);
}

#[test]
fn rotate_right_undoes_rotate_left_and_swap_undoes_itself() {
    // LD A,0xB5; RLC A; RRC A; SWAP A; SWAP A
    let (mut cpu, mut bus) = machine(&[0x3E, 0xB5, 0xCB, 0x07, 0xCB, 0x0F, 0xCB, 0x37, 0xCB, 0x37]);
    cpu.step(&mut bus);
    cpu.step(&mut bus);
    assert_eq!((cpu.a, cpu.f), (0x6B, 0x10));
    cpu.step(&mut bus);
    assert_eq!((cpu.a, cpu.f), (0xB5, 0x10));
    cpu.step(&mut bus);
    assert_eq!((cpu.a, cpu.f), (0x5B, 0x00));
    cpu.step(&mut bus);
    assert_eq!(cpu.a, 0xB5);
}

#[test]
fn cp_sets_sub_flags_and_keeps_a() {
    // LD A,0x3C; CP 0x40; SUB 0x40
    let (mut cpu, mut bus) = machine(&[0x3E, 0x3C, 0xFE, 0x40, 0xD6, 0x40]);
    cpu.step(&mut bus);
    cpu.step(&mut bus);
    let cp_flags = cpu.f;
    assert_eq!(cpu.a, 0x3C);
    cpu.step(&mut bus);
    assert_eq!(cpu.f, cp_flags);
    assert_eq!(cpu.a, 0xFC);
    assert_eq!(cp_flags, 0x50);
}
