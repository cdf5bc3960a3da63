//! DMG timer block (DIV, TIMA, TMA, TAC).
//!
//! The timer counts T-cycles from the system clock and exposes four
//! registers at `0xFF04-0xFF07`. TIMA increments on every falling edge of a
//! selected DIV bit; an overflow latches TMA back into TIMA and raises the
//! timer interrupt one M-cycle (four T-cycles) later.
//!
//! The model advances one T-cycle at a time ([`Timer::cycle_spec`]), so a
//! tick that spans several falling edges counts each of them.
use vstd::prelude::*;

verus! {

/// T-cycles between a TIMA overflow and the reload from TMA.
pub const RELOAD_DELAY: u8 = 4;

/// Timer state.
#[derive(Clone, Copy)]
pub struct Timer {
    /// 16-bit free-running counter. The CPU only sees its upper byte
    /// through `0xFF04`, but the lower bits drive the TIMA multiplexer.
    pub div: u16,
    pub tima: u8,
    pub tma: u8,
    pub tac: u8,
    /// The multiplexer output after the previous T-cycle, used to detect
    /// the falling edge that drives TIMA.
    pub last_bit: bool,
    /// T-cycles left until a pending overflow reloads TIMA from TMA and
    /// requests the interrupt; 0 when none is pending.
    pub reload: u8,
}

/// The DIV bit that TAC bits 0-1 select to clock TIMA:
/// 00 → bit 9, 01 → bit 3, 10 → bit 5, 11 → bit 7.
pub open spec fn tac_bit_index(tac: u8) -> u16 {
    let sel = tac % 4;
    if sel == 0 {
        9
    } else if sel == 1 {
        3
    } else if sel == 2 {
        5
    } else {
        7
    }
}

/// The multiplexer output for a counter value and a TAC value: the
/// selected DIV bit, gated by the TAC enable bit (bit 2).
pub open spec fn mux_output(div: u16, tac: u8) -> bool {
    (tac & 0x04) != 0 && ((div >> tac_bit_index(tac)) & 1) != 0
}

impl Timer {
    /// State and interrupt-flag register after one T-cycle: a pending
    /// reload that is due fires (TIMA from TMA, IF bit 2), DIV counts up,
    /// and a falling edge of the multiplexer output increments TIMA; an
    /// increment from 0xFF leaves 0 and schedules the reload.
    pub open spec fn cycle_spec(self, if_reg: u8) -> (Timer, u8) {
        let fire = self.reload == 1;
        let tima0 = if fire {
            self.tma
        } else {
            self.tima
        };
        let if1 = if fire {
            if_reg | 0x04
        } else {
            if_reg
        };
        let reload0: u8 = if self.reload > 0 {
            (self.reload - 1) as u8
        } else {
            0
        };
        let div = ((self.div + 1) % 0x10000) as u16;
        let new_bit = mux_output(div, self.tac);
        let falling = self.last_bit && !new_bit;
        let tima = if falling {
            ((tima0 + 1) % 0x100) as u8
        } else {
            tima0
        };
        let reload = if falling && tima0 == 0xFF {
            RELOAD_DELAY
        } else {
            reload0
        };
        (Timer { div, tima, tma: self.tma, tac: self.tac, last_bit: new_bit, reload }, if1)
    }

    /// State and interrupt-flag register after `cycles` T-cycles.
    pub open spec fn tick_spec(self, cycles: nat, if_reg: u8) -> (Timer, u8)
        decreases cycles,
    {
        if cycles == 0 {
            (self, if_reg)
        } else {
            let (t1, if1) = self.cycle_spec(if_reg);
            t1.tick_spec((cycles - 1) as nat, if1)
        }
    }

    /// A timer register as the CPU reads it.
    pub open spec fn read_spec(self, addr: u16) -> u8 {
        if addr == 0xFF04 {
            (self.div / 256) as u8
        } else if addr == 0xFF05 {
            self.tima
        } else if addr == 0xFF06 {
            self.tma
        } else if addr == 0xFF07 {
            self.tac | 0xF8
        } else {
            0xFF
        }
    }

    /// The state after the CPU writes `val` at `addr`.
    pub open spec fn write_spec(self, addr: u16, val: u8) -> Timer {
        if addr == 0xFF04 {
            Timer { div: 0, ..self }
        } else if addr == 0xFF05 {
            Timer { tima: val, ..self }
        } else if addr == 0xFF06 {
            Timer { tma: val, ..self }
        } else if addr == 0xFF07 {
            Timer { tac: val, ..self }
        } else {
            self
        }
    }

    /// The power-on state.
    pub open spec fn new_spec() -> Timer {
        Timer { div: 0, tima: 0, tma: 0, tac: 0, last_bit: false, reload: 0 }
    }

    pub fn new() -> (t: Self)
        ensures
            t == Timer::new_spec(),
    {
        Timer { div: 0, tima: 0, tma: 0, tac: 0, last_bit: false, reload: 0 }
    }

    /// Advance the timer by one T-cycle.
    fn cycle(&mut self, if_reg: &mut u8)
        ensures
            (*final(self), *final(if_reg)) == old(self).cycle_spec(*old(if_reg)),
    {
        let fire = self.reload == 1;
        if fire {
            self.tima = self.tma;
            *if_reg |= 0x04;
        }
        if self.reload > 0 {
            self.reload = self.reload - 1;
        }
        self.div = self.div.wrapping_add(1);
        let bit_idx: u16 = match self.tac & 0x03 {
            0 => 9,
            1 => 3,
            2 => 5,
            _ => 7,
        };
        proof {
            let t = self.tac;
            assert(t & 0x03 == t % 4) by (bit_vector);
        }
        let timer_enabled = (self.tac & 0x04) != 0;
        let new_bit = timer_enabled && ((self.div >> bit_idx) & 1) != 0;
        if self.last_bit && !new_bit {
            let overflowed = self.tima == 0xFF;
            self.tima = self.tima.wrapping_add(1);
            if overflowed {
                self.reload = RELOAD_DELAY;
            }
        }
        self.last_bit = new_bit;
    }

    /// Advance the timer by `cycles` T-cycles, one T-cycle at a time, so
    /// that every falling edge in the span clocks TIMA. Sets bit 2 of
    /// `if_reg` when a reload after an overflow falls due.
    pub fn tick(&mut self, cycles: u8, if_reg: &mut u8)
        ensures
            (*final(self), *final(if_reg)) == old(self).tick_spec(cycles as nat, *old(if_reg)),
    {
        let mut i: u8 = 0;
        while i < cycles
            invariant
                i <= cycles,
                old(self).tick_spec(cycles as nat, *old(if_reg)) == self.tick_spec(
                    (cycles - i) as nat,
                    *if_reg,
                ),
            decreases cycles - i,
        {
            self.cycle(if_reg);
            i = i + 1;
        }
    }

    /// Read a timer register. Unmapped addresses return `0xFF`.
    pub fn read(&self, addr: u16) -> (r: u8)
        ensures
            r == self.read_spec(addr),
    {
        match addr {
            0xFF04 => {
                proof {
                    let d = self.div;
                    assert(d >> 8 == d / 256) by (bit_vector);
                }
                (self.div >> 8) as u8
            },
            0xFF05 => self.tima,
            0xFF06 => self.tma,
            0xFF07 => self.tac | 0xF8,
            _ => 0xFF,
        }
    }

    /// Write to a timer register. Any write to `DIV` (`0xFF04`) resets the
    /// entire 16-bit counter back to zero.
    pub fn write(&mut self, addr: u16, val: u8)
        ensures
            *final(self) == old(self).write_spec(addr, val),
    {
        match addr {
            0xFF04 => self.div = 0,
            0xFF05 => self.tima = val,
            0xFF06 => self.tma = val,
            0xFF07 => self.tac = val,
            _ => {},
        }
    }
}

impl Default for Timer {
    fn default() -> (t: Self)
        ensures
            t == Timer::new_spec(),
    {
        Self::new()
    }
}

/// Any write to DIV clears the whole counter, so DIV then reads 0.
pub proof fn lemma_div_write_resets(t: Timer, val: u8)
    ensures
        t.write_spec(0xFF04, val).div == 0,
        t.write_spec(0xFF04, val).read_spec(0xFF04) == 0,
{
}

/// TIMA, TMA and TAC read back what was written (TAC with bits 3-7 set).
pub proof fn lemma_write_read_roundtrip(t: Timer, val: u8)
    ensures
        t.write_spec(0xFF05, val).read_spec(0xFF05) == val,
        t.write_spec(0xFF06, val).read_spec(0xFF06) == val,
        t.write_spec(0xFF07, val).read_spec(0xFF07) == val | 0xF8,
{
}

/// Writes outside `0xFF04-0xFF07` leave the timer unchanged.
pub proof fn lemma_write_elsewhere_ignored(t: Timer, addr: u16, val: u8)
    requires
        addr < 0xFF04 || addr > 0xFF07,
    ensures
        t.write_spec(addr, val) == t,
{
}

/// TAC always reads with its unused bits 3-7 set.
pub proof fn lemma_tac_upper_bits_read_high(t: Timer)
    ensures
        t.read_spec(0xFF07) & 0xF8 == 0xF8,
{
    lemma_tac_read_bits(t.tac);
}

/// A falling edge with TIMA at 0xFF wraps TIMA to 0 without yet raising
/// the interrupt, and schedules the reload four T-cycles ahead.
pub proof fn lemma_overflow_schedules_reload(t: Timer, if_reg: u8)
    requires
        t.tima == 0xFF,
        t.reload == 0,
        t.last_bit,
        !mux_output(((t.div + 1) % 0x10000) as u16, t.tac),
    ensures
        t.cycle_spec(if_reg).0.tima == 0,
        t.cycle_spec(if_reg).0.reload == RELOAD_DELAY,
        t.cycle_spec(if_reg).1 == if_reg,
{
}

/// While a reload is pending but not yet due, a T-cycle counts it down
/// and raises nothing.
pub proof fn lemma_reload_counts_down(t: Timer, if_reg: u8)
    requires
        1 < t.reload <= RELOAD_DELAY,
    ensures
        t.cycle_spec(if_reg).1 == if_reg,
        t.cycle_spec(if_reg).0.reload == t.reload - 1 || t.cycle_spec(if_reg).0.reload
            == RELOAD_DELAY,
{
}

/// When the reload falls due, TIMA takes TMA (plus one if an edge lands on
/// the same T-cycle) and the timer interrupt (IF bit 2) is requested.
pub proof fn lemma_reload_fires(t: Timer, if_reg: u8)
    requires
        t.reload == 1,
    ensures
        t.cycle_spec(if_reg).1 == if_reg | 0x04,
        t.cycle_spec(if_reg).0.tima == t.tma || t.cycle_spec(if_reg).0.tima == ((t.tma + 1)
            % 0x100) as u8,
{
}

/// The length of one period of the DIV bit that TAC selects: TIMA counts
/// once per period.
pub open spec fn tima_period(tac: u8) -> int {
    let sel = tac % 4;
    if sel == 0 {
        1024
    } else if sel == 1 {
        16
    } else if sel == 2 {
        64
    } else {
        256
    }
}

/// A DIV bit falls between `d` and `d + 1` exactly when `d + 1` is a
/// multiple of the bit's period.
proof fn lemma_falling_edge_bits(d: u16, e: u16)
    by (bit_vector)
    requires
        e == d + 1,
    ensures
        (((d >> 3u16) & 1) != 0 && ((e >> 3u16) & 1) == 0) <==> e % 16 == 0,
        (((d >> 5u16) & 1) != 0 && ((e >> 5u16) & 1) == 0) <==> e % 64 == 0,
        (((d >> 7u16) & 1) != 0 && ((e >> 7u16) & 1) == 0) <==> e % 256 == 0,
        (((d >> 9u16) & 1) != 0 && ((e >> 9u16) & 1) == 0) <==> e % 1024 == 0,
{
}

proof fn lemma_div_step(d: int, p: int)
    by (nonlinear_arith)
    requires
        d >= 0,
        p > 0,
    ensures
        (d + 1) / p - d / p == (if (d + 1) % p == 0 { 1int } else { 0int }),
{
}

proof fn lemma_div_monotone(a: int, b: int, p: int)
    by (nonlinear_arith)
    requires
        0 <= a <= b,
        p > 0,
    ensures
        a / p <= b / p,
{
}

/// TIMA counts every falling edge of the selected DIV bit: while the
/// timer is enabled and nothing overflows, a tick of `n` T-cycles adds the
/// number of period boundaries DIV crosses, however many there are, and
/// raises no interrupt.
pub proof fn lemma_tima_counts_every_edge(t: Timer, n: nat, if_reg: u8)
    requires
        (t.tac & 0x04) != 0,
        t.reload == 0,
        t.last_bit == mux_output(t.div, t.tac),
        t.div + n < 0x10000,
        t.tima + (t.div + n) / tima_period(t.tac) - (t.div as int) / tima_period(t.tac) <= 0xFF,
    ensures
        t.tick_spec(n, if_reg).0.tima == t.tima + (t.div + n) / tima_period(t.tac) - t.div
            as int / tima_period(t.tac),
        t.tick_spec(n, if_reg).0.div == t.div + n,
        t.tick_spec(n, if_reg).1 == if_reg,
    decreases n,
{
    if n > 0 {
        let (t1, if1) = t.cycle_spec(if_reg);
        let d = t.div;
        let e = (d + 1) as u16;
        lemma_falling_edge_bits(d, e);
        let p = tima_period(t.tac);
        lemma_div_step(d as int, p);
        lemma_div_monotone(e as int, t.div + n, p);
        assert(t1.div == e);
        assert(t1.reload == 0);
        assert(t1.tima == t.tima + (e as int) / p - (d as int) / p);
        lemma_tima_counts_every_edge(t1, (n - 1) as nat, if1);
    }
}

/// The timer registers as the CPU sees them: DIV is the counter's upper
/// byte, TIMA and TMA read as stored, TAC shows its three bits with bits
/// 3-7 set; other addresses read 0xFF.
pub proof fn lemma_timer_registers(t: Timer, addr: u16)
    ensures
        t.read_spec(0xFF04) == t.div / 256,
        t.read_spec(0xFF05) == t.tima,
        t.read_spec(0xFF06) == t.tma,
        t.read_spec(0xFF07) == 0xF8 + t.tac % 8,
        addr < 0xFF04 || addr > 0xFF07 ==> t.read_spec(addr) == 0xFF,
{
    let v = t.tac;
    lemma_tac_read_bits(v);
}

/// TAC's clock select: bit 2 enables the timer, and bits 0-1 choose a
/// TIMA period of 1024, 16, 64 or 256 T-cycles; with bit 2 clear the
/// multiplexer is always low, so TIMA never counts.
pub proof fn lemma_tac_select(tac: u8, div: u16)
    ensures
        tac % 8 < 4 ==> !mux_output(div, tac),
        tac % 4 == 0 ==> tima_period(tac) == 1024,
        tac % 4 == 1 ==> tima_period(tac) == 16,
        tac % 4 == 2 ==> tima_period(tac) == 64,
        tac % 4 == 3 ==> tima_period(tac) == 256,
        tac % 8 >= 4 ==> mux_output(div, tac) == (((div as int) % tima_period(tac)) >= tima_period(
            tac,
        ) / 2),
{
    lemma_mux_bits(div, tac);
}

proof fn lemma_tac_read_bits(v: u8)
    by (bit_vector)
    ensures
        (v | 0xF8) % 8 == v % 8,
        (v | 0xF8) >= 0xF8,
        (v | 0xF8) & 0xF8 == 0xF8,
{
}

proof fn lemma_mux_bits(d: u16, tac: u8)
    ensures
        ((tac & 0x04) != 0) <==> (tac % 8 >= 4),
        (((d >> 3u16) & 1) != 0) <==> (d % 16 >= 8),
        (((d >> 5u16) & 1) != 0) <==> (d % 64 >= 32),
        (((d >> 7u16) & 1) != 0) <==> (d % 256 >= 128),
        (((d >> 9u16) & 1) != 0) <==> (d % 1024 >= 512),
{
    crate::isa::lemma_byte_bits(tac);
    assert(((((d >> 3u16) & 1) != 0) <==> (d % 16 >= 8)) && ((((d >> 5u16) & 1) != 0) <==> (d % 64
        >= 32)) && ((((d >> 7u16) & 1) != 0) <==> (d % 256 >= 128)) && ((((d >> 9u16) & 1) != 0)
        <==> (d % 1024 >= 512))) by (bit_vector);
}

} // verus!
