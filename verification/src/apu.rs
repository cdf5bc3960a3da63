//! Audio Processing Unit (APU): the integer core.
//!
//! Implements three of the four DMG sound channels:
//!
//! * `CH1` and `CH2` — square wave channels (sweep is not modelled).
//! * `CH4` — pseudo-random noise driven by a 15-bit LFSR.
//!
//! The wave channel (`CH3`) is not emulated.
//!
//! Each tick reports the channel output levels that the mixer sees, so
//! the host can resample them into audio at its own rate.
use vstd::prelude::*;

verus! {

/// The DMG duty-cycle patterns of the square channels:
/// 12.5 %, 25 %, 50 % and 75 %.
pub open spec fn duty_bit(duty: u8, pos: u8) -> u8 {
    if duty == 0 {
        if pos == 7 {
            1
        } else {
            0
        }
    } else if duty == 1 {
        if pos == 0 || pos == 7 {
            1
        } else {
            0
        }
    } else if duty == 2 {
        if pos == 0 || pos == 5 || pos == 6 || pos == 7 {
            1
        } else {
            0
        }
    } else {
        if pos == 0 || pos == 7 {
            0
        } else {
            1
        }
    }
}

/// Frequency divisor table of the noise channel (CH4).
pub open spec fn noise_divisor(code: u8) -> u32 {
    if code == 0 {
        8
    } else {
        (16 * code) as u32
    }
}

/// Bounds of the register fields an 8-bit write loads, and of the
/// frequency a write keeps.
proof fn lemma_reg_bits(val: u8, f: u16, v: u16)
    by (bit_vector)
    requires
        v <= 0xFF,
    ensures
        val >> 6 <= 3,
        val & 0x3F <= 0x3F,
        val >> 4 <= 15,
        val & 7 <= 7,
        (val >> 4) & 7 <= 7,
        0x80u8 & 0x80 != 0,
        (val & 0x80) == 0 ==> (val & 0x80) & 0x80 == 0,
        f <= 0x7FF ==> (f & 0xFF00) | v <= 0x7FF,
        (f & 0x00FF) | ((v & 7) << 8) <= 0x7FF,
        val <= 7 ==> ((val + 1) as u8 & 7) == (val + 1) % 8,
{
}

fn duty_bit_exec(duty: u8, pos: u8) -> (b: u8)
    ensures
        b == duty_bit(duty, pos),
{
    match duty {
        0 => if pos == 7 {
            1
        } else {
            0
        },
        1 => if pos == 0 || pos == 7 {
            1
        } else {
            0
        },
        2 => if pos == 0 || pos == 5 || pos == 6 || pos == 7 {
            1
        } else {
            0
        },
        _ => if pos == 0 || pos == 7 {
            0
        } else {
            1
        },
    }
}

fn noise_divisor_exec(code: u8) -> (d: u32)
    requires
        code <= 7,
    ensures
        d == noise_divisor(code),
{
    match code {
        0 => 8,
        1 => 16,
        2 => 32,
        3 => 48,
        4 => 64,
        5 => 80,
        6 => 96,
        _ => 112,
    }
}

/// One sound channel. The same struct backs the two square channels and
/// the noise channel — `is_noise` selects the timer/output behaviour.
#[derive(Clone, Copy)]
pub struct Channel {
    pub enabled: bool,
    pub is_noise: bool,
    // --- Frequency / timing ---
    pub freq: u16,
    pub timer: u32,
    pub duty: u8,
    pub duty_pos: u8,
    pub lfsr: u16,
    pub width_mode: bool,
    pub divisor_code: u8,
    pub shift_amount: u8,
    // --- Volume envelope ---
    pub env_vol: u8,
    pub env_dir: bool,
    pub env_period: u8,
    pub env_timer: u8,
    pub initial_vol: u8,
    // --- Length counter ---
    pub length: u8,
    pub use_len: bool,
}

impl Channel {
    /// Bounds every register field keeps.
    pub open spec fn wf(self) -> bool {
        &&& self.freq <= 0x7FF
        &&& self.duty <= 3
        &&& self.duty_pos <= 7
        &&& self.divisor_code <= 7
        &&& self.shift_amount <= 15
        &&& self.env_vol <= 15
        &&& self.env_period <= 7
        &&& self.initial_vol <= 15
        &&& self.length <= 64
    }

    /// The channel after its frequency/LFSR timer runs `cycles` T-cycles.
    pub open spec fn tick_spec(self, cycles: u32) -> Channel {
        if self.timer > cycles {
            Channel { timer: (self.timer - cycles) as u32, ..self }
        } else if self.is_noise {
            let xor_res: u16 = (self.lfsr & 1) ^ ((self.lfsr >> 1) & 1);
            let lfsr1: u16 = (self.lfsr >> 1) | (xor_res << 14);
            Channel {
                timer: noise_divisor(self.divisor_code) << self.shift_amount,
                lfsr: if self.width_mode {
                    (lfsr1 & !0x40u16) | (xor_res << 6)
                } else {
                    lfsr1
                },
                ..self
            }
        } else {
            Channel {
                timer: ((2048 - self.freq) * 4) as u32,
                duty_pos: ((self.duty_pos + 1) % 8) as u8,
                ..self
            }
        }
    }

    /// The channel after one step of its volume envelope.
    pub open spec fn envelope_spec(self) -> Channel {
        if self.env_period == 0 {
            self
        } else {
            let t: u8 = if self.env_timer == 0 {
                0
            } else {
                (self.env_timer - 1) as u8
            };
            if t == 0 {
                Channel {
                    env_timer: self.env_period,
                    env_vol: if self.env_dir && self.env_vol < 15 {
                        (self.env_vol + 1) as u8
                    } else if !self.env_dir && self.env_vol > 0 {
                        (self.env_vol - 1) as u8
                    } else {
                        self.env_vol
                    },
                    ..self
                }
            } else {
                Channel { env_timer: t, ..self }
            }
        }
    }

    /// The channel after one step of its length counter.
    pub open spec fn length_spec(self) -> Channel {
        if self.use_len && self.length > 0 {
            Channel {
                length: (self.length - 1) as u8,
                enabled: self.length != 1 && self.enabled,
                ..self
            }
        } else {
            self
        }
    }

    /// The channel once triggered (NRx4 bit 7).
    pub open spec fn trigger_spec(self) -> Channel {
        Channel {
            enabled: true,
            env_vol: self.initial_vol,
            env_timer: self.env_period,
            length: if self.length == 0 {
                64
            } else {
                self.length
            },
            ..self
        }
    }

    /// The channel's current output level in `-15..=15` (its envelope
    /// volume, signed by the waveform's phase; 0 when silent).
    pub open spec fn level_spec(self) -> i8 {
        if !self.enabled || self.env_vol == 0 {
            0
        } else {
            let high = if self.is_noise {
                (self.lfsr & 1) == 0
            } else {
                duty_bit(self.duty, self.duty_pos) == 1
            };
            if high {
                self.env_vol as i8
            } else {
                (-(self.env_vol as int)) as i8
            }
        }
    }

    /// A silent channel at power-on: every register zero, the LFSR full.
    pub open spec fn power_on(is_noise: bool) -> Channel {
        Channel {
            enabled: false,
            is_noise,
            freq: 0,
            timer: 0,
            duty: 0,
            duty_pos: 0,
            lfsr: 0x7FFF,
            width_mode: false,
            divisor_code: 0,
            shift_amount: 0,
            env_vol: 0,
            env_dir: false,
            env_period: 0,
            env_timer: 0,
            initial_vol: 0,
            length: 0,
            use_len: false,
        }
    }

    fn new(is_noise: bool) -> (c: Self)
        ensures
            c == Channel::power_on(is_noise),
            c.wf(),
    {
        Channel {
            enabled: false,
            is_noise,
            freq: 0,
            timer: 0,
            duty: 0,
            duty_pos: 0,
            lfsr: 0x7FFF,
            width_mode: false,
            divisor_code: 0,
            shift_amount: 0,
            env_vol: 0,
            env_dir: false,
            env_period: 0,
            env_timer: 0,
            initial_vol: 0,
            length: 0,
            use_len: false,
        }
    }

    /// Advance the frequency/LFSR timer by `cycles` T-cycles.
    fn tick(&mut self, cycles: u32)
        requires
            old(self).wf(),
        ensures
            *final(self) == old(self).tick_spec(cycles),
            final(self).wf(),
    {
        if self.timer > cycles {
            self.timer = self.timer - cycles;
            return;
        }
        if self.is_noise {
            let divisor = noise_divisor_exec(self.divisor_code);
            self.timer = divisor << self.shift_amount;
            let xor_res = (self.lfsr & 1) ^ ((self.lfsr >> 1) & 1);
            self.lfsr = (self.lfsr >> 1) | (xor_res << 14);
            if self.width_mode {
                self.lfsr = (self.lfsr & !0x40u16) | (xor_res << 6);
            }
        } else {
            self.timer = (2048 - self.freq as u32) * 4;
            self.duty_pos = (self.duty_pos + 1) & 7;
            proof {
                lemma_reg_bits(old(self).duty_pos, 0, 0);
            }
        }
    }

    /// Step the volume envelope (called at 64 Hz by the frame sequencer).
    fn tick_envelope(&mut self)
        requires
            old(self).wf(),
        ensures
            *final(self) == old(self).envelope_spec(),
            final(self).wf(),
    {
        if self.env_period == 0 {
            return;
        }
        self.env_timer = self.env_timer.saturating_sub(1);
        if self.env_timer == 0 {
            self.env_timer = self.env_period;
            if self.env_dir && self.env_vol < 15 {
                self.env_vol = self.env_vol + 1;
            } else if !self.env_dir && self.env_vol > 0 {
                self.env_vol = self.env_vol - 1;
            }
        }
    }

    fn tick_length(&mut self)
        requires
            old(self).wf(),
        ensures
            *final(self) == old(self).length_spec(),
            final(self).wf(),
    {
        if self.use_len && self.length > 0 {
            self.length = self.length - 1;
            if self.length == 0 {
                self.enabled = false;
            }
        }
    }

    fn trigger(&mut self)
        requires
            old(self).wf(),
        ensures
            *final(self) == old(self).trigger_spec(),
            final(self).wf(),
    {
        self.enabled = true;
        self.env_vol = self.initial_vol;
        self.env_timer = self.env_period;
        if self.length == 0 {
            self.length = 64;
        }
    }

    /// The channel's current output level in `-15..=15`.
    pub fn level(&self) -> (l: i8)
        requires
            self.wf(),
        ensures
            l == self.level_spec(),
    {
        if !self.enabled || self.env_vol == 0 {
            return 0;
        }
        let high = if self.is_noise {
            (self.lfsr & 1) == 0
        } else {
            duty_bit_exec(self.duty, self.duty_pos) == 1
        };
        let v = self.env_vol as i8;
        if high {
            v
        } else {
            -v
        }
    }
}

/// What the mixer sees at one instant: each channel's level (0 when the
/// channel is not routed to an output) and the master volume in `0..=14`.
#[derive(Clone, Copy, Debug, PartialEq, Eq, Structural)]
pub struct MixLevels {
    pub ch1: i8,
    pub ch2: i8,
    pub ch4: i8,
    pub master: u8,
}

/// Audio Processing Unit: channel state, frame sequencer and the master
/// control registers NR50-NR52.
#[derive(Clone, Copy)]
pub struct Apu {
    pub ch1: Channel,
    pub ch2: Channel,
    pub ch4: Channel,
    pub frame_step: u8,
    pub frame_div: u32,
    pub nr50: u8,
    pub nr51: u8,
    pub nr52: u8,
}

impl Apu {
    pub open spec fn wf(self) -> bool {
        &&& self.ch1.wf()
        &&& self.ch2.wf()
        &&& self.ch4.wf()
        &&& self.frame_div < 8192
        &&& self.frame_step <= 7
    }

    pub open spec fn powered(self) -> bool {
        (self.nr52 & 0x80) != 0
    }

    /// The power-on state: channels silent, sequencer at its start, both
    /// terminals at full volume, every channel routed, sound on.
    pub open spec fn power_on() -> Apu {
        Apu {
            ch1: Channel::power_on(false),
            ch2: Channel::power_on(false),
            ch4: Channel::power_on(true),
            frame_step: 0,
            frame_div: 0,
            nr50: 0x77,
            nr51: 0xF3,
            nr52: 0x80,
        }
    }

    /// The mixer input for the current channel states.
    pub open spec fn mix_spec(self) -> MixLevels {
        MixLevels {
            ch1: if (self.nr51 & 0x11) != 0 {
                self.ch1.level_spec()
            } else {
                0
            },
            ch2: if (self.nr51 & 0x22) != 0 {
                self.ch2.level_spec()
            } else {
                0
            },
            ch4: if (self.nr51 & 0x88) != 0 {
                self.ch4.level_spec()
            } else {
                0
            },
            master: (((self.nr50 >> 4) & 7) + (self.nr50 & 7)) as u8,
        }
    }

    /// The 512 Hz frame sequencer after `cycles` more T-cycles: every
    /// 8192 cycles it steps; even steps clock the length counters, step 7
    /// the volume envelopes.
    pub open spec fn sequencer_spec(self, cycles: u32) -> Apu {
        let div = self.frame_div + cycles;
        if div >= 8192 {
            let step = ((self.frame_step + 1) % 8) as u8;
            let (c1, c2, c4) = if step % 2 == 0 {
                (self.ch1.length_spec(), self.ch2.length_spec(), self.ch4.length_spec())
            } else {
                (self.ch1, self.ch2, self.ch4)
            };
            let (c1, c2, c4) = if step == 7 {
                (c1.envelope_spec(), c2.envelope_spec(), c4.envelope_spec())
            } else {
                (c1, c2, c4)
            };
            Apu { frame_div: (div - 8192) as u32, frame_step: step, ch1: c1, ch2: c2, ch4: c4, ..self }
        } else {
            Apu { frame_div: div as u32, ..self }
        }
    }

    /// State after a tick of `cycles` T-cycles, and the mixer input the
    /// tick produced (none while the APU is powered off).
    pub open spec fn tick_spec(self, cycles: u8) -> (Apu, Option<MixLevels>) {
        if !self.powered() {
            (self, None)
        } else {
            let a = Apu {
                ch1: self.ch1.tick_spec(cycles as u32),
                ch2: self.ch2.tick_spec(cycles as u32),
                ch4: self.ch4.tick_spec(cycles as u32),
                ..self
            };
            (a.sequencer_spec(cycles as u32), Some(a.mix_spec()))
        }
    }

    /// An APU register as the CPU reads it.
    pub open spec fn read_spec(self, addr: u16) -> u8 {
        if addr == 0xFF24 {
            self.nr50
        } else if addr == 0xFF25 {
            self.nr51
        } else if addr == 0xFF26 {
            self.nr52
        } else {
            0xFF
        }
    }

    /// Duty and length load (NRx1) of a square channel.
    pub open spec fn load_duty_length(c: Channel, val: u8) -> Channel {
        Channel { duty: val >> 6, length: (64 - (val & 0x3F)) as u8, ..c }
    }

    /// Envelope load (NRx2).
    pub open spec fn load_envelope(c: Channel, val: u8) -> Channel {
        Channel { initial_vol: val >> 4, env_dir: (val & 8) != 0, env_period: val & 7, ..c }
    }

    /// Frequency high bits and control (NRx4) of a square channel.
    pub open spec fn load_control(c: Channel, val: u8) -> Channel {
        let c1 = Channel {
            freq: (c.freq & 0x00FF) | (((val as u16) & 7) << 8),
            use_len: (val & 0x40) != 0,
            ..c
        };
        if (val & 0x80) != 0 {
            c1.trigger_spec()
        } else {
            c1
        }
    }

    /// A square channel after a write of `val` to its register `reg`
    /// (1 = NRx1 duty/length, 2 = NRx2 envelope, 3 = NRx3 frequency low,
    /// 4 = NRx4 frequency high and control).
    pub open spec fn square_write_spec(c: Channel, reg: u16, val: u8) -> Channel {
        if reg == 1 {
            Self::load_duty_length(c, val)
        } else if reg == 2 {
            Self::load_envelope(c, val)
        } else if reg == 3 {
            Channel { freq: (c.freq & 0xFF00) | val as u16, ..c }
        } else {
            Self::load_control(c, val)
        }
    }

    /// The noise channel after a write of `val` to its register `reg`
    /// (1 = NR41 length, 2 = NR42 envelope, 3 = NR43 LFSR clock,
    /// 4 = NR44 control).
    pub open spec fn noise_write_spec(c: Channel, reg: u16, val: u8) -> Channel {
        if reg == 1 {
            Channel { length: (64 - (val & 0x3F)) as u8, ..c }
        } else if reg == 2 {
            Self::load_envelope(c, val)
        } else if reg == 3 {
            Channel {
                shift_amount: val >> 4,
                width_mode: (val & 8) != 0,
                divisor_code: val & 7,
                ..c
            }
        } else {
            let c1 = Channel { use_len: (val & 0x40) != 0, ..c };
            if (val & 0x80) != 0 {
                Channel { lfsr: 0x7FFF, ..c1 }.trigger_spec()
            } else {
                c1
            }
        }
    }

    /// The state after the CPU writes `val` at `addr`. While the APU is
    /// powered off, only NR52 accepts writes.
    pub open spec fn write_spec(self, addr: u16, val: u8) -> Apu {
        if !self.powered() && addr != 0xFF26 {
            self
        } else if 0xFF11 <= addr <= 0xFF14 {
            Apu { ch1: Self::square_write_spec(self.ch1, (addr - 0xFF10) as u16, val), ..self }
        } else if 0xFF16 <= addr <= 0xFF19 {
            Apu { ch2: Self::square_write_spec(self.ch2, (addr - 0xFF15) as u16, val), ..self }
        } else if 0xFF20 <= addr <= 0xFF23 {
            Apu { ch4: Self::noise_write_spec(self.ch4, (addr - 0xFF1F) as u16, val), ..self }
        } else if addr == 0xFF24 {
            Apu { nr50: val, ..self }
        } else if addr == 0xFF25 {
            Apu { nr51: val, ..self }
        } else if addr == 0xFF26 {
            if (val & 0x80) == 0 {
                Apu {
                    nr52: val & 0x80,
                    ch1: Channel { enabled: false, ..self.ch1 },
                    ch2: Channel { enabled: false, ..self.ch2 },
                    ch4: Channel { enabled: false, ..self.ch4 },
                    ..self
                }
            } else {
                Apu { nr52: val & 0x80, ..self }
            }
        } else {
            self
        }
    }

    /// The power-on state.
    pub fn new() -> (a: Self)
        ensures
            a == Apu::power_on(),
            a.wf(),
            a.powered(),
    {
        proof {
            lemma_reg_bits(0, 0, 0);
        }
        Apu {
            ch1: Channel::new(false),
            ch2: Channel::new(false),
            ch4: Channel::new(true),
            frame_step: 0,
            frame_div: 0,
            nr50: 0x77,
            nr51: 0xF3,
            nr52: 0x80,
        }
    }

    /// The mixer input for the current channel states.
    pub fn mix(&self) -> (m: MixLevels)
        requires
            self.wf(),
        ensures
            m == self.mix_spec(),
    {
        let ch1 = if (self.nr51 & 0x11) != 0 {
            self.ch1.level()
        } else {
            0
        };
        let ch2 = if (self.nr51 & 0x22) != 0 {
            self.ch2.level()
        } else {
            0
        };
        let ch4 = if (self.nr51 & 0x88) != 0 {
            self.ch4.level()
        } else {
            0
        };
        let hi = (self.nr50 >> 4) & 7;
        let lo = self.nr50 & 7;
        proof {
            lemma_reg_bits(self.nr50, 0, 0);
        }
        MixLevels { ch1, ch2, ch4, master: hi + lo }
    }

    /// 512 Hz frame sequencer that drives length counters (256 Hz) and the
    /// volume envelopes (64 Hz). Sweep is not implemented.
    fn tick_frame_sequencer(&mut self, cycles: u32)
        requires
            old(self).wf(),
            cycles <= 255,
        ensures
            *final(self) == old(self).sequencer_spec(cycles),
            final(self).wf(),
    {
        self.frame_div = self.frame_div + cycles;
        if self.frame_div >= 8192 {
            self.frame_div = self.frame_div - 8192;
            self.frame_step = (self.frame_step + 1) & 7;
            proof {
                lemma_reg_bits(old(self).frame_step, 0, 0);
            }
            if self.frame_step % 2 == 0 {
                self.ch1.tick_length();
                self.ch2.tick_length();
                self.ch4.tick_length();
            }
            if self.frame_step == 7 {
                self.ch1.tick_envelope();
                self.ch2.tick_envelope();
                self.ch4.tick_envelope();
            }
        }
    }

    /// Advance the APU by `cycles` T-cycles. Returns the mixer input the
    /// channels present after their timers have run (before the frame
    /// sequencer steps), or `None` while the APU is powered off.
    pub fn tick(&mut self, cycles: u8) -> (m: Option<MixLevels>)
        requires
            old(self).wf(),
        ensures
            (*final(self), m) == old(self).tick_spec(cycles),
            final(self).wf(),
    {
        if (self.nr52 & 0x80) == 0 {
            return None;
        }
        let cycles = cycles as u32;
        self.ch1.tick(cycles);
        self.ch2.tick(cycles);
        self.ch4.tick(cycles);
        let m = self.mix();
        self.tick_frame_sequencer(cycles);
        Some(m)
    }

    /// Read an APU register. Unmapped addresses return open-bus (`0xFF`).
    pub fn read(&self, addr: u16) -> (r: u8)
        ensures
            r == self.read_spec(addr),
    {
        match addr {
            0xFF24 => self.nr50,
            0xFF25 => self.nr51,
            0xFF26 => self.nr52,
            _ => 0xFF,
        }
    }

    fn write_square(c: &mut Channel, reg: u16, val: u8)
        requires
            old(c).wf(),
            1 <= reg <= 4,
        ensures
            *final(c) == Self::square_write_spec(*old(c), reg, val),
            final(c).wf(),
    {
        proof {
            lemma_reg_bits(val, c.freq, val as u16);
        }
        if reg == 1 {
            c.duty = val >> 6;
            c.length = 64 - (val & 0x3F);
        } else if reg == 2 {
            c.initial_vol = val >> 4;
            c.env_dir = (val & 8) != 0;
            c.env_period = val & 7;
        } else if reg == 3 {
            c.freq = (c.freq & 0xFF00) | val as u16;
        } else {
            c.freq = (c.freq & 0x00FF) | ((val as u16 & 7) << 8);
            c.use_len = (val & 0x40) != 0;
            if (val & 0x80) != 0 {
                c.trigger();
            }
        }
    }

    fn write_noise(c: &mut Channel, reg: u16, val: u8)
        requires
            old(c).wf(),
            1 <= reg <= 4,
        ensures
            *final(c) == Self::noise_write_spec(*old(c), reg, val),
            final(c).wf(),
    {
        proof {
            lemma_reg_bits(val, 0, 0);
        }
        if reg == 1 {
            c.length = 64 - (val & 0x3F);
        } else if reg == 2 {
            c.initial_vol = val >> 4;
            c.env_dir = (val & 8) != 0;
            c.env_period = val & 7;
        } else if reg == 3 {
            c.shift_amount = val >> 4;
            c.width_mode = (val & 8) != 0;
            c.divisor_code = val & 7;
        } else {
            c.use_len = (val & 0x40) != 0;
            if (val & 0x80) != 0 {
                c.lfsr = 0x7FFF;
                c.trigger();
            }
        }
    }

    /// Write to an APU register. While the APU is powered off (`NR52` bit 7
    /// clear) writes are ignored except to `NR52` itself.
    pub fn write(&mut self, addr: u16, val: u8)
        requires
            old(self).wf(),
        ensures
            *final(self) == old(self).write_spec(addr, val),
            final(self).wf(),
    {
        if (self.nr52 & 0x80) == 0 && addr != 0xFF26 {
            return;
        }
        if 0xFF11 <= addr && addr <= 0xFF14 {
            Self::write_square(&mut self.ch1, addr - 0xFF10, val);
        } else if 0xFF16 <= addr && addr <= 0xFF19 {
            Self::write_square(&mut self.ch2, addr - 0xFF15, val);
        } else if 0xFF20 <= addr && addr <= 0xFF23 {
            Self::write_noise(&mut self.ch4, addr - 0xFF1F, val);
        } else if addr == 0xFF24 {
            self.nr50 = val;
        } else if addr == 0xFF25 {
            self.nr51 = val;
        } else if addr == 0xFF26 {
            self.nr52 = val & 0x80;
            if (val & 0x80) == 0 {
                self.ch1.enabled = false;
                self.ch2.enabled = false;
                self.ch4.enabled = false;
            }
        }
    }
}

impl Default for Apu {
    fn default() -> (a: Self)
        ensures
            a == Apu::power_on(),
            a.wf(),
    {
        Self::new()
    }
}

/// While powered off the APU ignores every register write but NR52, and
/// ticks neither change it nor produce output.
pub proof fn lemma_powered_off_is_inert(a: Apu, addr: u16, val: u8, cycles: u8)
    requires
        !a.powered(),
        addr != 0xFF26,
    ensures
        a.write_spec(addr, val) == a,
        a.tick_spec(cycles) == (a, None::<MixLevels>),
{
}

/// Writing 0 to NR52 powers the APU off and silences every channel.
pub proof fn lemma_power_off_silences(a: Apu, val: u8)
    requires
        (val & 0x80) == 0,
    ensures
        !a.write_spec(0xFF26, val).powered(),
        a.write_spec(0xFF26, val).mix_spec().ch1 == 0,
        a.write_spec(0xFF26, val).mix_spec().ch2 == 0,
        a.write_spec(0xFF26, val).mix_spec().ch4 == 0,
{
    lemma_reg_bits(val, 0, 0);
}

/// Every channel level lies in `-15..=15` and the master volume in
/// `0..=14`.
pub proof fn lemma_mix_bounds(a: Apu)
    requires
        a.wf(),
    ensures
        -15 <= a.mix_spec().ch1 <= 15,
        -15 <= a.mix_spec().ch2 <= 15,
        -15 <= a.mix_spec().ch4 <= 15,
        a.mix_spec().master <= 14,
{
    lemma_reg_bits(a.nr50, 0, 0);
}

/// Triggering a channel enables it at its programmed initial volume, with
/// a non-zero length counter.
pub proof fn lemma_trigger_enables(c: Channel)
    ensures
        c.trigger_spec().enabled,
        c.trigger_spec().env_vol == c.initial_vol,
        c.trigger_spec().length > 0,
{
}

/// The volume envelope: with a period of 0 it is stopped; otherwise its
/// timer counts down, and each time it runs out it reloads the period and
/// moves the volume one step up (when NRx2 bit 3 was set) or down, never
/// past 15 or below 0.
pub proof fn lemma_envelope_step(c: Channel)
    requires
        c.wf(),
    ensures
        c.env_period == 0 ==> c.envelope_spec() == c,
        c.env_period != 0 && c.env_timer > 1 ==> c.envelope_spec().env_vol == c.env_vol
            && c.envelope_spec().env_timer == c.env_timer - 1,
        c.env_period != 0 && c.env_timer <= 1 && c.env_dir ==> c.envelope_spec().env_vol == (if c.env_vol
            < 15 { c.env_vol + 1 } else { 15 }) && c.envelope_spec().env_timer == c.env_period,
        c.env_period != 0 && c.env_timer <= 1 && !c.env_dir ==> c.envelope_spec().env_vol == (if c.env_vol
            > 0 { c.env_vol - 1 } else { 0 }) && c.envelope_spec().env_timer == c.env_period,
        c.envelope_spec().enabled == c.enabled,
{
}

/// NRx2 of a square channel (0xFF12 / 0xFF17) loads the initial volume
/// from bits 4-7, the envelope direction from bit 3 (set: up) and the
/// envelope period from bits 0-2; triggering then starts at that volume.
pub proof fn lemma_envelope_register(a: Apu, val: u8)
    requires
        a.powered(),
    ensures
        a.write_spec(0xFF12, val).ch1.initial_vol == val / 16,
        a.write_spec(0xFF12, val).ch1.env_dir == (val % 16 >= 8),
        a.write_spec(0xFF12, val).ch1.env_period == val % 8,
        a.write_spec(0xFF17, val).ch2.initial_vol == val / 16,
        a.write_spec(0xFF17, val).ch2.env_dir == (val % 16 >= 8),
        a.write_spec(0xFF17, val).ch2.env_period == val % 8,
        a.write_spec(0xFF21, val).ch4.initial_vol == val / 16,
        a.write_spec(0xFF21, val).ch4.env_dir == (val % 16 >= 8),
        a.write_spec(0xFF21, val).ch4.env_period == val % 8,
{
    crate::isa::lemma_byte_bits(val);
}

/// The four DMG duty patterns (12.5 %, 25 %, 50 %, 75 %), position by
/// position.
pub proof fn lemma_duty_table(d: u8, pos: u8)
    requires
        d <= 3,
        pos <= 7,
    ensures
        duty_bit(d, pos) == seq![
            seq![0u8, 0, 0, 0, 0, 0, 0, 1],
            seq![1u8, 0, 0, 0, 0, 0, 0, 1],
            seq![1u8, 0, 0, 0, 0, 1, 1, 1],
            seq![0u8, 1, 1, 1, 1, 1, 1, 0],
        ][d as int][pos as int],
{
}

/// The noise channel's divisor table: 8, 16, 32, 48, 64, 80, 96, 112.
pub proof fn lemma_noise_divisor_table(code: u8)
    requires
        code <= 7,
    ensures
        noise_divisor(code) == seq![8u32, 16, 32, 48, 64, 80, 96, 112][code as int],
{
}

/// A square channel's timer: while it has time left it counts down; when
/// it runs out it reloads `(2048 - freq) * 4` T-cycles and the duty
/// position moves one step (wrapping after 7).
pub proof fn lemma_square_timer(c: Channel, cycles: u32)
    requires
        c.wf(),
        !c.is_noise,
    ensures
        c.timer > cycles ==> c.tick_spec(cycles).timer == c.timer - cycles && c.tick_spec(
            cycles,
        ).duty_pos == c.duty_pos,
        c.timer <= cycles ==> c.tick_spec(cycles).timer == (2048 - c.freq) * 4 && c.tick_spec(
            cycles,
        ).duty_pos == (c.duty_pos + 1) % 8,
{
}

/// The length counter: while enabled (NRx4 bit 6) it counts down on each
/// length step and switches the channel off when it reaches 0; NRx1 loads
/// it with 64 minus its low six bits.
pub proof fn lemma_length_counter(c: Channel, a: Apu, val: u8)
    requires
        a.powered(),
    ensures
        c.use_len && c.length > 0 ==> c.length_spec().length == c.length - 1,
        c.use_len && c.length == 1 ==> !c.length_spec().enabled,
        c.use_len && c.length > 1 ==> c.length_spec().enabled == c.enabled,
        !c.use_len ==> c.length_spec() == c,
        a.write_spec(0xFF11, val).ch1.length == 64 - val % 64,
        a.write_spec(0xFF16, val).ch2.length == 64 - val % 64,
        a.write_spec(0xFF20, val).ch4.length == 64 - val % 64,
{
    crate::isa::lemma_byte_bits(val);
}

/// NR51 routing: a channel reaches the mixer only when one of its two
/// NR51 bits (CH1: bits 0 and 4, CH2: bits 1 and 5, CH4: bits 3 and 7) is
/// set; otherwise it contributes 0. The master volume is the sum of the
/// two NR50 terminal volumes (bits 0-2 and 4-6).
pub proof fn lemma_mixer_routing(a: Apu)
    ensures
        a.nr51 % 2 == 0 && (a.nr51 / 16) % 2 == 0 ==> a.mix_spec().ch1 == 0,
        a.nr51 % 2 == 1 || (a.nr51 / 16) % 2 == 1 ==> a.mix_spec().ch1 == a.ch1.level_spec(),
        (a.nr51 / 2) % 2 == 0 && (a.nr51 / 32) % 2 == 0 ==> a.mix_spec().ch2 == 0,
        (a.nr51 / 2) % 2 == 1 || (a.nr51 / 32) % 2 == 1 ==> a.mix_spec().ch2 == a.ch2.level_spec(),
        (a.nr51 / 8) % 2 == 0 && (a.nr51 / 128) % 2 == 0 ==> a.mix_spec().ch4 == 0,
        (a.nr51 / 8) % 2 == 1 || (a.nr51 / 128) % 2 == 1 ==> a.mix_spec().ch4 == a.ch4.level_spec(),
        a.mix_spec().master == a.nr50 % 8 + (a.nr50 / 16) % 8,
{
    let r = a.nr51;
    let v = a.nr50;
    crate::isa::lemma_byte_bits(r);
    assert(((v >> 4) & 7) + (v & 7) == v % 8 + (v / 16) % 8) by (bit_vector);
}

/// A channel's output: silent when off or at volume 0, otherwise its
/// envelope volume, positive in the high half of the waveform (the duty
/// pattern's 1s; for noise, LFSR bit 0 clear) and negative in the low half.
pub proof fn lemma_channel_level(c: Channel)
    requires
        c.wf(),
    ensures
        !c.enabled || c.env_vol == 0 ==> c.level_spec() == 0,
        c.enabled && c.env_vol != 0 && !c.is_noise && duty_bit(c.duty, c.duty_pos) == 1
            ==> c.level_spec() == c.env_vol,
        c.enabled && c.env_vol != 0 && !c.is_noise && duty_bit(c.duty, c.duty_pos) == 0
            ==> c.level_spec() == -c.env_vol,
        c.enabled && c.env_vol != 0 && c.is_noise && c.lfsr % 2 == 0 ==> c.level_spec() == c.env_vol,
        c.enabled && c.env_vol != 0 && c.is_noise && c.lfsr % 2 == 1 ==> c.level_spec() == -c.env_vol,
{
    let l = c.lfsr;
    assert((l & 1) == l % 2) by (bit_vector);
}

/// NRx3/NRx4 of a square channel: NRx3 sets the low eight bits of the
/// 11-bit frequency, NRx4 bits 0-2 its high three bits, bit 6 enables the
/// length counter and bit 7 triggers the channel. NR43 sets the noise
/// shift (bits 4-7), width mode (bit 3) and divisor code (bits 0-2).
pub proof fn lemma_frequency_and_noise_registers(a: Apu, val: u8)
    requires
        a.powered(),
        a.wf(),
    ensures
        a.write_spec(0xFF13, val).ch1.freq == (a.ch1.freq / 256) * 256 + val,
        a.write_spec(0xFF14, val).ch1.freq == a.ch1.freq % 256 + 256 * (val % 8),
        a.write_spec(0xFF14, val).ch1.use_len == ((val / 64) % 2 == 1),
        a.write_spec(0xFF14, val).ch1.enabled == (val >= 128 || a.ch1.enabled),
        a.write_spec(0xFF18, val).ch2.freq == (a.ch2.freq / 256) * 256 + val,
        a.write_spec(0xFF19, val).ch2.freq == a.ch2.freq % 256 + 256 * (val % 8),
        a.write_spec(0xFF19, val).ch2.enabled == (val >= 128 || a.ch2.enabled),
        a.write_spec(0xFF22, val).ch4.shift_amount == val / 16,
        a.write_spec(0xFF22, val).ch4.width_mode == ((val / 8) % 2 == 1),
        a.write_spec(0xFF22, val).ch4.divisor_code == val % 8,
        a.write_spec(0xFF23, val).ch4.enabled == (val >= 128 || a.ch4.enabled),
        val >= 128 ==> a.write_spec(0xFF23, val).ch4.lfsr == 0x7FFF,
{
    let f1 = a.ch1.freq;
    let f2 = a.ch2.freq;
    let w = val as u16;
    assert(w <= 0xFF ==> (f1 & 0xFF00) | w == (f1 / 256) * 256 + w && (f1 & 0x00FF) | ((w & 7) << 8)
        == f1 % 256 + 256 * (w % 8) && (f2 & 0xFF00) | w == (f2 / 256) * 256 + w && (f2 & 0x00FF)
        | ((w & 7) << 8) == f2 % 256 + 256 * (w % 8)) by (bit_vector);
    crate::isa::lemma_byte_bits(val);
    assert(w % 8 == val % 8);
}

/// The frame sequencer: every 8192 T-cycles it moves to the next of its
/// eight steps; the length counters are clocked on even steps and the
/// volume envelopes on step 7.
pub proof fn lemma_frame_sequencer(a: Apu, cycles: u32)
    requires
        a.wf(),
        cycles <= 255,
    ensures
        a.frame_div + cycles < 8192 ==> a.sequencer_spec(cycles) == (Apu {
            frame_div: (a.frame_div + cycles) as u32,
            ..a
        }),
        a.frame_div + cycles >= 8192 ==> ({
            let b = a.sequencer_spec(cycles);
            let step = (a.frame_step + 1) % 8;
            &&& b.frame_step == step
            &&& b.frame_div == a.frame_div + cycles - 8192
            &&& step == 7 ==> b.ch1 == a.ch1.envelope_spec() && b.ch2 == a.ch2.envelope_spec()
                && b.ch4 == a.ch4.envelope_spec()
            &&& step % 2 == 0 ==> b.ch1 == a.ch1.length_spec() && b.ch2 == a.ch2.length_spec()
                && b.ch4 == a.ch4.length_spec()
            &&& step % 2 == 1 && step != 7 ==> b.ch1 == a.ch1 && b.ch2 == a.ch2 && b.ch4 == a.ch4
        }),
{
}

} // verus!
