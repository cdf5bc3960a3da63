use rusty_gb::joypad::Joypad;
use rusty_gb::Button;

#[test]
fn released_pad_reads_all_high() {
    let j = Joypad::new();
    assert_eq!(j.read(), 0xCF);
    assert!(!j.interrupt);
}

#[test]
fn pressed_action_button_reads_low_in_its_row() {
    let mut j = Joypad::new();
    j.set_button(Button::A, true);
    // Select the action row only (bit 5 low).
    j.write(0x10);
    assert_eq!(j.read(), 0xCE);
    // Select the direction row only: A is not visible there.
    j.write(0x20);
    assert_eq!(j.read(), 0xCF);
    j.set_button(Button::Start, true);
    j.write(0x10);
    assert_eq!(j.read(), 0xC6);
}

#[test]
fn pressed_direction_reads_low_in_its_row() {
    let mut j = Joypad::new();
    j.set_button(Button::Down, true);
    j.set_button(Button::Left, true);
    j.write(0x20);
    assert_eq!(j.read(), 0xC5);
    j.write(0x10);
    assert_eq!(j.read(), 0xCF);
    // Neither row selected: nothing pressed shows.
    j.write(0x30);
    assert_eq!(j.read(), 0xCF);
    // Both rows selected: the rows are combined.
    j.set_button(Button::B, true);
    j.write(0x00);
    assert_eq!(j.read(), 0xC5);
}

#[test]
fn unused_bits_always_read_high() {
    let mut j = Joypad::new();
    for b in [Button::Right, Button::Left, Button::Up, Button::Down, Button::A, Button::B, Button::Select, Button::Start] {
        j.set_button(b, true);
    }
    for sel in [0x00u8, 0x10, 0x20, 0x30, 0xFF] {
        j.write(sel);
        assert_eq!(j.read() & 0xC0, 0xC0);
    }
    j.write(0x00);
    assert_eq!(j.read(), 0xC0);
}

#[test]
fn new_press_latches_interrupt_once() {
    let mut j = Joypad::new();
    j.set_button(Button::Select, true);
    assert!(j.interrupt);
    assert!(j.take_interrupt());
    assert!(!j.take_interrupt());
    // Holding the button does not raise it again.
    j.set_button(Button::Select, true);
    assert!(!j.interrupt);
    // A release does not raise it either.
    j.set_button(Button::Select, false);
    assert!(!j.interrupt);
    j.set_button(Button::Select, true);
    assert!(j.take_interrupt());
}

#[test]
fn release_restores_the_released_reading() {
    let mut j = Joypad::new();
    j.write(0x10);
    let before = j.read();
    j.set_button(Button::B, true);
    assert_ne!(j.read(), before);
    j.set_button(Button::B, false);
    assert_eq!(j.read(), before);
}
