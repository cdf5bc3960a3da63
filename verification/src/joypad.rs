//! Joypad (P1/JOYP) emulation.
//!
//! The Game Boy exposes its eight physical buttons through a single
//! multiplexed register at `0xFF00`. Two column-select lines pick whether
//! the four returned bits report the direction pad or the action buttons.
//! Pressed inputs read as `0`, released inputs as `1`.
use vstd::prelude::*;

verus! {

/// Logical Game Boy button. The variant order is not significant.
#[derive(Clone, Copy, Debug, PartialEq, Eq, Structural)]
pub enum Button {
    Right,
    Left,
    Up,
    Down,
    A,
    B,
    Select,
    Start,
}

/// True for the four buttons of the direction pad (the row selected by
/// P1 bit 4 being low); false for the action row (P1 bit 5 low).
pub open spec fn is_direction(b: Button) -> bool {
    b is Right || b is Left || b is Up || b is Down
}

/// The bit that a button occupies inside its row.
pub open spec fn button_mask(b: Button) -> u8 {
    match b {
        Button::A => 0x01,
        Button::B => 0x02,
        Button::Select => 0x04,
        Button::Start => 0x08,
        Button::Right => 0x01,
        Button::Left => 0x02,
        Button::Up => 0x04,
        Button::Down => 0x08,
    }
}

/// Joypad register state: the active-low masks of the two button rows,
/// the column-select bits last written by the CPU, and the pending
/// joypad-interrupt latch.
#[derive(Clone, Copy)]
pub struct Joypad {
    /// Active-low mask of the action row (A/B/Select/Start).
    pub action: u8,
    /// Active-low mask of the direction row (Right/Left/Up/Down).
    pub direction: u8,
    /// Mirror of the column-select bits last written by the CPU.
    pub column_select: u8,
    /// Set when any button transitions from released to pressed.
    /// Consumed (and cleared) by the bus during its next tick.
    pub interrupt: bool,
}

/// Bit facts about a row, one of its button masks and the P1 selection.
proof fn lemma_row_bits(prev: u8, mask: u8, x: u8, y: u8, cs: u8)
    by (bit_vector)
    requires
        mask == 1 || mask == 2 || mask == 4 || mask == 8,
    ensures
        (prev & !mask) & mask == 0,
        (prev | mask) & mask != 0,
        prev <= 0x0F ==> (prev & !mask) <= 0x0F,
        prev <= 0x0F ==> (prev | mask) <= 0x0F,
        (prev & mask) != 0 ==> ((prev & !mask) | mask) == prev,
        ((x & ((prev & !mask) | 0xF0)) & mask) == 0,
        (y & mask) == 0 ==> ((y & x) & mask) == 0,
        ((0xCFu8 & ((prev | mask) | 0xF0)) & mask) == mask,
        ((0xCFu8 & (prev | 0xF0)) & (x | 0xF0)) & 0xC0 == 0xC0,
        (0xCFu8 & (prev | 0xF0)) & 0xC0 == 0xC0,
        (0xCFu8 & (x | 0xF0)) & 0xC0 == 0xC0,
        0xCFu8 & 0xC0 == 0xC0,
        (cs & 0x30) == 0x20 ==> (cs & 0x10) == 0 && (cs & 0x20) != 0,
        (cs & 0x30) == 0x10 ==> (cs & 0x20) == 0 && (cs & 0x10) != 0,
{
}

impl Joypad {
    pub open spec fn spec_action(self) -> u8 {
        self.action
    }

    pub open spec fn spec_direction(self) -> u8 {
        self.direction
    }

    pub open spec fn spec_column_select(self) -> u8 {
        self.column_select
    }

    pub open spec fn spec_interrupt(self) -> bool {
        self.interrupt
    }

    /// The row that holds button `b`.
    pub open spec fn row_of(self, b: Button) -> u8 {
        if is_direction(b) {
            self.spec_direction()
        } else {
            self.spec_action()
        }
    }

    /// Both rows only ever hold their low four bits.
    pub open spec fn wf(self) -> bool {
        self.spec_action() <= 0x0F && self.spec_direction() <= 0x0F
    }

    /// The state after the button `b` is set to `pressed`.
    pub open spec fn set_button_spec(self, b: Button, pressed: bool) -> Joypad {
        let mask = button_mask(b);
        let prev = self.row_of(b);
        let row = if pressed {
            prev & !mask
        } else {
            prev | mask
        };
        let newly = (prev & mask) != 0 && (row & mask) == 0;
        Joypad {
            action: if is_direction(b) {
                self.action
            } else {
                row
            },
            direction: if is_direction(b) {
                row
            } else {
                self.direction
            },
            column_select: self.column_select,
            interrupt: self.interrupt || newly,
        }
    }

    /// The power-on state: every button released, no row selected yet,
    /// no interrupt pending.
    pub open spec fn new_spec() -> Joypad {
        Joypad { action: 0x0F, direction: 0x0F, column_select: 0, interrupt: false }
    }

    /// The state with the joypad interrupt latch cleared.
    pub open spec fn clear_interrupt_spec(self) -> Joypad {
        Joypad { interrupt: false, ..self }
    }

    /// The P1 register as the CPU reads it.
    pub open spec fn read_spec(self) -> u8 {
        let v0: u8 = 0xCF;
        let v1: u8 = if (self.spec_column_select() & 0x10) == 0 {
            v0 & (self.spec_direction() | 0xF0)
        } else {
            v0
        };
        if (self.spec_column_select() & 0x20) == 0 {
            v1 & (self.spec_action() | 0xF0)
        } else {
            v1
        }
    }

    /// The state after the CPU writes `value` to P1.
    pub open spec fn write_spec(self, value: u8) -> Joypad {
        Joypad { column_select: value & 0x30, ..self }
    }

    /// Build a joypad with every button released.
    pub fn new() -> (j: Self)
        ensures
            j == Joypad::new_spec(),
            j.spec_action() == 0x0F,
            j.spec_direction() == 0x0F,
            j.spec_column_select() == 0,
            !j.spec_interrupt(),
            j.wf(),
    {
        Joypad { action: 0x0F, direction: 0x0F, column_select: 0, interrupt: false }
    }

    /// Update the internal mask for a single button.
    ///
    /// When `pressed` is `true` the matching bit is cleared (active-low).
    /// A new press (released → pressed transition) latches the joypad
    /// interrupt request so the bus can forward it to the CPU.
    pub fn set_button(&mut self, button: Button, pressed: bool)
        ensures
            *final(self) == old(self).set_button_spec(button, pressed),
            final(self).row_of(button) == (if pressed {
                old(self).row_of(button) & !button_mask(button)
            } else {
                old(self).row_of(button) | button_mask(button)
            }),
            is_direction(button) ==> final(self).spec_action() == old(self).spec_action(),
            !is_direction(button) ==> final(self).spec_direction() == old(self).spec_direction(),
            final(self).spec_column_select() == old(self).spec_column_select(),
            final(self).spec_interrupt() == (old(self).spec_interrupt() || (pressed && (old(self).row_of(
                button,
            ) & button_mask(button)) != 0)),
            old(self).wf() ==> final(self).wf(),
    {
        let (is_dir, mask): (bool, u8) = match button {
            Button::A => (false, 0x01),
            Button::B => (false, 0x02),
            Button::Select => (false, 0x04),
            Button::Start => (false, 0x08),
            Button::Right => (true, 0x01),
            Button::Left => (true, 0x02),
            Button::Up => (true, 0x04),
            Button::Down => (true, 0x08),
        };
        let previous = if is_dir {
            self.direction
        } else {
            self.action
        };
        let row = if pressed {
            previous & !mask
        } else {
            previous | mask
        };
        if is_dir {
            self.direction = row;
        } else {
            self.action = row;
        }
        let newly_pressed = (previous & mask) != 0 && (row & mask) == 0;
        if newly_pressed {
            self.interrupt = true;
        }
        proof {
            lemma_row_bits(previous, mask, 0, 0, 0);
        }
    }

    /// Read the multiplexed P1 register as the CPU would see it.
    /// Bits 6 and 7 are unused and always read as `1`.
    pub fn read(&self) -> (r: u8)
        ensures
            r == self.read_spec(),
    {
        let mut value: u8 = 0xCF;
        if (self.column_select & 0x10) == 0 {
            value &= self.direction | 0xF0;
        }
        if (self.column_select & 0x20) == 0 {
            value &= self.action | 0xF0;
        }
        value
    }

    /// CPU write to P1: only the two column-select bits are writable.
    pub fn write(&mut self, value: u8)
        ensures
            *final(self) == old(self).write_spec(value),
            final(self).spec_column_select() == value & 0x30,
            final(self).spec_action() == old(self).spec_action(),
            final(self).spec_direction() == old(self).spec_direction(),
            final(self).spec_interrupt() == old(self).spec_interrupt(),
    {
        self.column_select = value & 0x30;
    }

    /// Acknowledge the pending joypad interrupt; returns whether one was
    /// pending.
    pub fn take_interrupt(&mut self) -> (was_pending: bool)
        ensures
            was_pending == old(self).spec_interrupt(),
            *final(self) == old(self).clear_interrupt_spec(),
            !old(self).spec_interrupt() ==> *final(self) == *old(self),
    {
        let p = self.interrupt;
        self.interrupt = false;
        p
    }
}

impl Default for Joypad {
    fn default() -> (j: Self)
        ensures
            j == Joypad::new_spec(),
    {
        Self::new()
    }
}

/// Bits 6 and 7 of P1 always read back as 1, whatever the state.
pub proof fn lemma_unused_bits_read_high(j: Joypad)
    ensures
        j.read_spec() & 0xC0 == 0xC0,
{
    let d = j.spec_direction();
    let a = j.spec_action();
    lemma_row_bits(d, 1, a, 0, 0);
}

/// A pressed button reads as 0 in P1 whenever its row is selected.
pub proof fn lemma_pressed_button_reads_low(j: Joypad, b: Button)
    requires
        is_direction(b) ==> (j.spec_column_select() & 0x10) == 0,
        !is_direction(b) ==> (j.spec_column_select() & 0x20) == 0,
    ensures
        j.set_button_spec(b, true).read_spec() & button_mask(b) == 0,
{
    let m = button_mask(b);
    let d = j.set_button_spec(b, true).spec_direction();
    let a = j.set_button_spec(b, true).spec_action();
    let cs = j.spec_column_select();
    assert(m == 1 || m == 2 || m == 4 || m == 8);
    if is_direction(b) {
        let y = 0xCFu8 & ((j.spec_direction() & !m) | 0xF0);
        lemma_row_bits(j.spec_direction(), m, 0xCF, y, 0);
        lemma_row_bits(j.spec_direction(), m, a | 0xF0, y, 0);
    } else {
        let v1: u8 = if (cs & 0x10) == 0 {
            0xCFu8 & (d | 0xF0)
        } else {
            0xCFu8
        };
        lemma_row_bits(j.spec_action(), m, v1, 0, 0);
    }
}

/// A released button reads as 1 in P1 when its row alone is selected.
pub proof fn lemma_released_button_reads_high(j: Joypad, b: Button)
    requires
        is_direction(b) ==> (j.spec_column_select() & 0x30) == 0x20,
        !is_direction(b) ==> (j.spec_column_select() & 0x30) == 0x10,
    ensures
        j.set_button_spec(b, false).read_spec() & button_mask(b) == button_mask(b),
{
    let m = button_mask(b);
    let cs = j.spec_column_select();
    assert(m == 1 || m == 2 || m == 4 || m == 8);
    lemma_row_bits(j.row_of(b), m, 0, 0, cs);
}

/// A press of a released button latches the joypad interrupt; a release
/// never does.
pub proof fn lemma_new_press_latches_interrupt(j: Joypad, b: Button)
    ensures
        (j.row_of(b) & button_mask(b)) != 0 ==> j.set_button_spec(b, true).spec_interrupt(),
        j.set_button_spec(b, false).spec_interrupt() == j.spec_interrupt(),
{
    let m = button_mask(b);
    let r = j.row_of(b);
    assert(m == 1 || m == 2 || m == 4 || m == 8);
    lemma_row_bits(r, m, 0, 0, 0);
}

/// Releasing a button right after pressing it restores both rows, when
/// the button was released beforehand.
pub proof fn lemma_release_undoes_press(j: Joypad, b: Button)
    requires
        (j.row_of(b) & button_mask(b)) != 0,
    ensures
        j.set_button_spec(b, true).set_button_spec(b, false).spec_action() == j.spec_action(),
        j.set_button_spec(b, true).set_button_spec(b, false).spec_direction()
            == j.spec_direction(),
{
    let m = button_mask(b);
    let r = j.row_of(b);
    assert(m == 1 || m == 2 || m == 4 || m == 8);
    lemma_row_bits(r, m, 0, 0, 0);
}

/// The P1 bit each button drives: A/Right bit 0, B/Left bit 1,
/// Select/Up bit 2, Start/Down bit 3.
pub open spec fn p1_bit(b: Button) -> u8 {
    match b {
        Button::A | Button::Right => 0x01,
        Button::B | Button::Left => 0x02,
        Button::Select | Button::Up => 0x04,
        Button::Start | Button::Down => 0x08,
    }
}

/// The P1 value that selects only the row holding `b`: bit 5 low for
/// A/B/Select/Start, bit 4 low for the direction pad.
pub open spec fn p1_own_row(b: Button) -> u8 {
    match b {
        Button::A | Button::B | Button::Select | Button::Start => 0x10,
        _ => 0x20,
    }
}

/// The P1 value that selects only the row not holding `b`.
pub open spec fn p1_other_row(b: Button) -> u8 {
    match b {
        Button::A | Button::B | Button::Select | Button::Start => 0x20,
        _ => 0x10,
    }
}

proof fn lemma_p1_bits(row: u8, m: u8)
    by (bit_vector)
    requires
        m == 1 || m == 2 || m == 4 || m == 8,
        row <= 0x0F,
    ensures
        0xCFu8 & ((row & !m) | 0xF0) == (0xCFu8 & (row | 0xF0)) & !m,
        0xCFu8 & ((row | m) | 0xF0) == (0xCFu8 & (row | 0xF0)) | m,
        (row & !m) <= 0x0F,
        (row | m) <= 0x0F,
{
}

/// The documented P1 layout: with only its own row selected, pressing a
/// button clears exactly its bit of P1 and releasing it sets exactly that
/// bit; with only the other row selected, the button does not show at all.
pub proof fn lemma_p1_button_layout(j: Joypad, b: Button, pressed: bool)
    requires
        j.wf(),
    ensures
        j.write_spec(p1_own_row(b)).set_button_spec(b, true).read_spec() == j.write_spec(
            p1_own_row(b),
        ).read_spec() & !p1_bit(b),
        j.write_spec(p1_own_row(b)).set_button_spec(b, false).read_spec() == j.write_spec(
            p1_own_row(b),
        ).read_spec() | p1_bit(b),
        j.write_spec(p1_other_row(b)).set_button_spec(b, pressed).read_spec() == j.write_spec(
            p1_other_row(b),
        ).read_spec(),
{
    let m = p1_bit(b);
    lemma_p1_bits(j.action, m);
    lemma_p1_bits(j.direction, m);
    assert(0x10u8 & 0x30 == 0x10 && 0x20u8 & 0x30 == 0x20 && 0x10u8 & 0x10 != 0 && 0x10u8 & 0x20
        == 0 && 0x20u8 & 0x20 != 0 && 0x20u8 & 0x10 == 0) by (bit_vector);
}

} // verus!
