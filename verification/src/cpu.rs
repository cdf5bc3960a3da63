//! Sharp SM83 CPU (Game Boy's "Z80-like" core).
//!
//! Implements the primary instruction set plus the 256 `0xCB`-prefixed
//! bit-manipulation opcodes. Each [`Cpu::step`] decodes, executes and
//! reports the number of T-cycles consumed by a single instruction (or by
//! an interrupt dispatch); the contract of every step is the instruction
//! semantics in [`crate::isa`].
use vstd::prelude::*;
use crate::bus::{BusView, Motherboard};
use crate::isa::{
    FLAG_C, FLAG_H, FLAG_N, FLAG_Z, add_hl, alu, daa, exec_acc, exec_block0, exec_block1,
    exec_block2, exec_block3, exec_call_cc, exec_cb, exec_inc_dec16, exec_indirect,
    exec_jp_cc_ld, exec_jp_prefix, exec_misc0, exec_pop_ret, exec_push_call, exec_ret_ldh,
    exec_rr_imm_add, execute, fetch16, fetch8, flags, get_r, inc_dec, jr, lowest_interrupt, pop,
    push, service_interrupt, set_flag, set_r, shift_rotate, signed8, sp_offset, step, word,
    wrap16,
};

verus! {

/// SM83 CPU state.
pub struct Cpu {
    pub a: u8,
    pub f: u8,
    pub b: u8,
    pub c: u8,
    pub d: u8,
    pub e: u8,
    pub h: u8,
    pub l: u8,
    pub sp: u16,
    pub pc: u16,
    /// Interrupt Master Enable.
    pub ime: bool,
    /// Set while the CPU is in `HALT` waiting for an interrupt.
    pub halted: bool,
    /// `EI` enables interrupts after the following instruction completes;
    /// this flag tracks the one-instruction delay.
    pub ei_pending: bool,
}

/// The register state after the boot ROM, as the CPU starts a cartridge at
/// `0x0100`.
pub open spec fn boot_state(c: Cpu) -> Cpu {
    Cpu {
        pc: 0x0100,
        a: 0x01,
        f: 0xB0,
        b: 0x00,
        c: 0x13,
        d: 0x00,
        e: 0xD8,
        h: 0x01,
        l: 0x4D,
        sp: 0xFFFE,
        ..c
    }
}

/// A CPU with every register cleared, interrupts disabled, running.
pub open spec fn zeroed() -> Cpu {
    Cpu {
        a: 0,
        f: 0,
        b: 0,
        c: 0,
        d: 0,
        e: 0,
        h: 0,
        l: 0,
        sp: 0,
        pc: 0,
        ime: false,
        halted: false,
        ei_pending: false,
    }
}

/// The CPU as the boot ROM hands over to the cartridge: the post-boot
/// registers, interrupts disabled, running.
pub open spec fn after_boot() -> Cpu {
    boot_state(zeroed())
}

/// The flag register with the four flags set as given.
fn make_flags(z: bool, n: bool, h: bool, c: bool) -> (f: u8)
    ensures
        f == flags(z, n, h, c),
{
    (if z {
        FLAG_Z
    } else {
        0u8
    }) | (if n {
        FLAG_N
    } else {
        0u8
    }) | (if h {
        FLAG_H
    } else {
        0u8
    }) | (if c {
        FLAG_C
    } else {
        0u8
    })
}

/// Facts about one byte: its nibble, its opcode fields and its bits.
proof fn lemma_byte(x: u8)
    by (bit_vector)
    ensures
        x & 0x0F == x % 16,
        x & 0xFF == x,
        x & 7 == x % 8,
        (x >> 3) & 7 == (x / 8) % 8,
        x >> 6 == x / 64,
        (x >> 7 != 0) == (x >= 128),
        (x & 1 != 0) == (x % 2 == 1),
        x & 1 == x % 2,
        !x == 255 - x,
{
}

/// Facts about one word and the two bytes that make it up.
proof fn lemma_word(v: u16, h: u16, l: u16)
    by (bit_vector)
    requires
        h <= 0xFF,
        l <= 0xFF,
    ensures
        ((v >> 8) as u8) == v / 256,
        (v as u8) == v % 256,
        v & 0x0FFF == v % 4096,
        v & 0x0F == v % 16,
        v & 0xFF == v % 256,
        ((h << 8) | l) == h * 256 + l,
        (l & 0x0F) == l % 16,
{
}

proof fn lemma_nibble(x: u8)
    ensures
        x & 0x0F == x % 16,
        x & 0xFF == x,
{
    lemma_byte(x);
}

proof fn lemma_word_parts(hi: u8, lo: u8)
    ensures
        ((hi as u16) << 8u16) | (lo as u16) == word(hi, lo),
{
    lemma_word(0, hi as u16, lo as u16);
}

proof fn lemma_split_word(v: u16)
    ensures
        ((v >> 8u16) as u8) == v / 256,
        (v as u8) == v % 256,
{
    lemma_word(v, 0, 0);
}

/// `v + 1`, wrapping at 16 bits.
fn inc16(v: u16) -> (r: u16)
    ensures
        r == wrap16(v + 1),
{
    v.wrapping_add(1)
}

/// `a + b`, wrapping at 16 bits.
fn add16(a: u16, b: u16) -> (r: u16)
    ensures
        r == wrap16(a + b),
{
    a.wrapping_add(b)
}

proof fn lemma_mask12(x: u16)
    ensures
        x & 0x0FFF == x % 4096,
{
    lemma_word(x, 0, 0);
}

/// `v - 1`, wrapping at 16 bits.
fn dec16(v: u16) -> (r: u16)
    ensures
        r == wrap16(v - 1),
{
    v.wrapping_sub(1)
}

/// Decoded opcode fields match the shifts and masks the hardware uses.
proof fn lemma_decode(op: u8)
    ensures
        op & 7 == op % 8,
        (op >> 3u8) & 7 == (op / 8) % 8,
        op >> 6u8 == op / 64,
{
    lemma_byte(op);
}

impl Cpu {
    pub fn new() -> (c: Self)
        ensures
            c == zeroed(),
    {
        Cpu {
            a: 0,
            f: 0,
            b: 0,
            c: 0,
            d: 0,
            e: 0,
            h: 0,
            l: 0,
            sp: 0,
            pc: 0,
            ime: false,
            halted: false,
            ei_pending: false,
        }
    }

    /// Initialise registers to the post-boot ROM state for a DMG, so that
    /// execution starts straight at the cartridge entry point `0x0100`.
    pub fn reset_to_boot(&mut self)
        ensures
            *final(self) == boot_state(*old(self)),
    {
        self.pc = 0x0100;
        self.a = 0x01;
        self.f = 0xB0;
        self.b = 0x00;
        self.c = 0x13;
        self.d = 0x00;
        self.e = 0xD8;
        self.h = 0x01;
        self.l = 0x4D;
        self.sp = 0xFFFE;
    }

    // ----- Flag and register helpers -------------------------------------
    fn flag_z(&self) -> (r: bool)
        ensures
            r == self.zf(),
    {
        self.f & FLAG_Z != 0
    }

    fn flag_n(&self) -> (r: bool)
        ensures
            r == self.nf(),
    {
        self.f & FLAG_N != 0
    }

    fn flag_h(&self) -> (r: bool)
        ensures
            r == self.hf(),
    {
        self.f & FLAG_H != 0
    }

    fn flag_c(&self) -> (r: bool)
        ensures
            r == self.cf(),
    {
        self.f & FLAG_C != 0
    }

    fn set_flag(&mut self, flag: u8, on: bool)
        ensures
            *final(self) == (Cpu { f: set_flag(old(self).f, flag, on), ..*old(self) }),
    {
        if on {
            self.f = self.f | flag;
        } else {
            self.f = self.f & !flag;
        }
    }

    fn get_bc(&self) -> (r: u16)
        ensures
            r == self.bc(),
    {
        proof {
            lemma_word_parts(self.b, self.c);
        }
        (self.b as u16) << 8 | self.c as u16
    }

    fn get_de(&self) -> (r: u16)
        ensures
            r == self.de(),
    {
        proof {
            lemma_word_parts(self.d, self.e);
        }
        (self.d as u16) << 8 | self.e as u16
    }

    fn get_hl(&self) -> (r: u16)
        ensures
            r == self.hl(),
    {
        proof {
            lemma_word_parts(self.h, self.l);
        }
        (self.h as u16) << 8 | self.l as u16
    }

    fn set_bc(&mut self, v: u16)
        ensures
            *final(self) == old(self).with_bc(v),
    {
        proof {
            lemma_split_word(v);
        }
        self.b = (v >> 8) as u8;
        self.c = v as u8;
    }

    fn set_de(&mut self, v: u16)
        ensures
            *final(self) == old(self).with_de(v),
    {
        proof {
            lemma_split_word(v);
        }
        self.d = (v >> 8) as u8;
        self.e = v as u8;
    }

    fn set_hl(&mut self, v: u16)
        ensures
            *final(self) == old(self).with_hl(v),
    {
        proof {
            lemma_split_word(v);
        }
        self.h = (v >> 8) as u8;
        self.l = v as u8;
    }

    // ----- Bus access ---------------------------------------------------------
    fn next_byte(&mut self, bus: &Motherboard) -> (v: u8)
        requires
            bus@.wf(),
        ensures
            (*final(self), v) == fetch8(*old(self), bus@),
    {
        let v = bus.read_byte(self.pc);
        self.pc = self.pc.wrapping_add(1);
        v
    }

    fn next_word(&mut self, bus: &Motherboard) -> (v: u16)
        requires
            bus@.wf(),
        ensures
            (*final(self), v) == fetch16(*old(self), bus@),
    {
        let lo = self.next_byte(bus);
        let hi = self.next_byte(bus);
        proof {
            lemma_word_parts(hi, lo);
        }
        (hi as u16) << 8 | lo as u16
    }

    fn push_word(&mut self, bus: &mut Motherboard, v: u16)
        requires
            old(bus)@.wf(),
        ensures
            (*final(self), final(bus)@) == push(*old(self), old(bus)@, v),
            final(bus)@.wf(),
    {
        self.sp = self.sp.wrapping_sub(2);
        bus.write_word(self.sp, v);
    }

    fn pop_word(&mut self, bus: &Motherboard) -> (v: u16)
        requires
            bus@.wf(),
        ensures
            (*final(self), v) == pop(*old(self), bus@),
    {
        let v = bus.read_word(self.sp);
        self.sp = self.sp.wrapping_add(2);
        v
    }

    /// Read register `i` using the standard SM83 numbering
    /// (0=B, 1=C, 2=D, 3=E, 4=H, 5=L, 6=(HL), 7=A).
    fn get_r(&self, i: u8, bus: &Motherboard) -> (v: u8)
        requires
            bus@.wf(),
            i <= 7,
        ensures
            v == get_r(*self, bus@, i as int),
    {
        match i {
            0 => self.b,
            1 => self.c,
            2 => self.d,
            3 => self.e,
            4 => self.h,
            5 => self.l,
            6 => bus.read_byte(self.get_hl()),
            _ => self.a,
        }
    }

    /// Write register `i` (same numbering as [`Cpu::get_r`]).
    fn set_r(&mut self, i: u8, v: u8, bus: &mut Motherboard)
        requires
            old(bus)@.wf(),
            i <= 7,
        ensures
            (*final(self), final(bus)@) == set_r(*old(self), old(bus)@, i as int, v),
            final(bus)@.wf(),
    {
        match i {
            0 => self.b = v,
            1 => self.c = v,
            2 => self.d = v,
            3 => self.e = v,
            4 => self.h = v,
            5 => self.l = v,
            6 => bus.write_byte(self.get_hl(), v),
            _ => self.a = v,
        }
    }

    // ----- Arithmetic helpers (operate on A, update flags) ---------------
    #[verifier::spinoff_prover]
    fn add(&mut self, v: u8)
        ensures
            *final(self) == alu(*old(self), 0, v),
    {
        proof {
            lemma_nibble(self.a);
            lemma_nibble(v);
        }
        let r = self.a.wrapping_add(v);
        self.f = make_flags(
            r == 0,
            false,
            (self.a & 0x0F) + (v & 0x0F) > 0x0F,
            (self.a as u16) + (v as u16) > 0xFF,
        );
        self.a = r;
    }

    #[verifier::spinoff_prover]
    fn adc(&mut self, v: u8)
        ensures
            *final(self) == alu(*old(self), 1, v),
    {
        proof {
            lemma_nibble(self.a);
            lemma_nibble(v);
        }
        let carry: u8 = if self.flag_c() {
            1
        } else {
            0
        };
        let r = self.a.wrapping_add(v).wrapping_add(carry);
        self.f = make_flags(
            r == 0,
            false,
            (self.a & 0x0F) + (v & 0x0F) + carry > 0x0F,
            (self.a as u16) + (v as u16) + (carry as u16) > 0xFF,
        );
        self.a = r;
    }

    #[verifier::spinoff_prover]
    fn sub(&mut self, v: u8)
        ensures
            *final(self) == alu(*old(self), 2, v),
    {
        proof {
            lemma_nibble(self.a);
            lemma_nibble(v);
        }
        let r = self.a.wrapping_sub(v);
        self.f = make_flags(r == 0, true, (self.a & 0x0F) < (v & 0x0F), self.a < v);
        self.a = r;
    }

    #[verifier::spinoff_prover]
    fn sbc(&mut self, v: u8)
        ensures
            *final(self) == alu(*old(self), 3, v),
    {
        proof {
            lemma_nibble(self.a);
            lemma_nibble(v);
        }
        let carry: u8 = if self.flag_c() {
            1
        } else {
            0
        };
        let r = self.a.wrapping_sub(v).wrapping_sub(carry);
        self.f = make_flags(
            r == 0,
            true,
            (self.a & 0x0F) < (v & 0x0F) + carry,
            (self.a as u16) < (v as u16) + (carry as u16),
        );
        self.a = r;
    }

    fn and(&mut self, v: u8)
        ensures
            *final(self) == alu(*old(self), 4, v),
    {
        self.a = self.a & v;
        self.f = make_flags(self.a == 0, false, true, false);
    }

    fn xor(&mut self, v: u8)
        ensures
            *final(self) == alu(*old(self), 5, v),
    {
        self.a = self.a ^ v;
        self.f = make_flags(self.a == 0, false, false, false);
    }

    fn or(&mut self, v: u8)
        ensures
            *final(self) == alu(*old(self), 6, v),
    {
        self.a = self.a | v;
        self.f = make_flags(self.a == 0, false, false, false);
    }

    fn cp(&mut self, v: u8)
        ensures
            *final(self) == alu(*old(self), 7, v),
    {
        proof {
            lemma_nibble(self.a);
            lemma_nibble(v);
        }
        self.f = make_flags(self.a == v, true, (self.a & 0x0F) < (v & 0x0F), self.a < v);
    }

    /// One of the eight accumulator operations, selected by bits 3-5 of
    /// `op`.
    fn alu_op(&mut self, op: u8, v: u8)
        ensures
            *final(self) == alu(*old(self), ((op / 8) % 8) as int, v),
    {
        proof {
            lemma_decode(op);
        }
        match (op >> 3) & 7 {
            0 => self.add(v),
            1 => self.adc(v),
            2 => self.sub(v),
            3 => self.sbc(v),
            4 => self.and(v),
            5 => self.xor(v),
            6 => self.or(v),
            _ => self.cp(v),
        }
    }

    fn add_hl(&mut self, v: u16)
        ensures
            *final(self) == add_hl(*old(self), v),
    {
        let hl = self.get_hl();
        let result = add16(hl, v);
        proof {
            lemma_mask12(hl);
            lemma_mask12(v);
        }
        self.f = (self.f & FLAG_Z) | make_flags(
            false,
            false,
            (hl & 0x0FFF) + (v & 0x0FFF) > 0x0FFF,
            (hl as u32) + (v as u32) > 0xFFFF,
        );
        self.set_hl(result);
    }

    /// Binary-Coded-Decimal adjustment after an ADD/ADC/SUB/SBC on A.
    fn daa(&mut self)
        ensures
            *final(self) == daa(*old(self)),
    {
        proof {
            lemma_nibble(self.a);
        }
        let a = self.a;
        let n = self.flag_n();
        let low = self.flag_h() || (!n && (a & 0x0F) > 9);
        let high = self.flag_c() || (!n && a > 0x99);
        let adjustment: u8 = if low {
            6
        } else {
            0
        } + if high {
            0x60
        } else {
            0
        };
        let r = if n {
            a.wrapping_sub(adjustment)
        } else {
            a.wrapping_add(adjustment)
        };
        self.f = make_flags(r == 0, n, false, high);
        self.a = r;
    }

    fn cb_shift_rotate(&mut self, op: u8, v: u8) -> (r: u8)
        requires
            op <= 7,
        ensures
            r == shift_rotate(op as int, v, old(self).cf()).0,
            *final(self) == (Cpu {
                f: flags(r == 0, false, false, shift_rotate(op as int, v, old(self).cf()).1),
                ..*old(self)
            }),
    {
        proof {
            lemma_byte(v);
        }
        let (result, carry) = match op {
            0 => {
                let c = v >> 7;
                ((v << 1) | c, c != 0)
            },
            1 => {
                let c = v & 1;
                ((v >> 1) | (c << 7), c != 0)
            },
            2 => {
                let c = v >> 7;
                let cin: u8 = if self.flag_c() {
                    1
                } else {
                    0
                };
                ((v << 1) | cin, c != 0)
            },
            3 => {
                let c = v & 1;
                let cin: u8 = if self.flag_c() {
                    1
                } else {
                    0
                };
                ((v >> 1) | (cin << 7), c != 0)
            },
            4 => {
                let c = v >> 7;
                (v << 1, c != 0)
            },
            5 => {
                let c = v & 1;
                ((v >> 1) | (v & 0x80), c != 0)
            },
            6 => ((v << 4) | (v >> 4), false),
            _ => {
                let c = v & 1;
                (v >> 1, c != 0)
            },
        };
        self.f = make_flags(result == 0, false, false, carry);
        result
    }
}

impl Cpu {
    /// Decode and execute a `0xCB`-prefixed bit-manipulation opcode.
    fn execute_cb(&mut self, op: u8, bus: &mut Motherboard) -> (cycles: u8)
        requires
            old(bus)@.wf(),
        ensures
            4 <= cycles <= 24,
            (*final(self), final(bus)@, cycles) == exec_cb(*old(self), old(bus)@, op),
            final(bus)@.wf(),
    {
        proof {
            lemma_decode(op);
        }
        let r_idx = op & 0x07;
        let v = self.get_r(r_idx, bus);
        let group = op >> 6;
        let bit = (op >> 3) & 0x07;
        if group == 0 {
            let r = self.cb_shift_rotate(bit, v);
            self.set_r(r_idx, r, bus);
            if r_idx == 6 {
                16
            } else {
                8
            }
        } else if group == 1 {
            // BIT b, r — only updates flags.
            let result = v & (1 << bit);
            self.f = (self.f & FLAG_C) | make_flags(result == 0, false, true, false);
            if r_idx == 6 {
                12
            } else {
                8
            }
        } else if group == 2 {
            self.set_r(r_idx, v & !(1 << bit), bus);
            if r_idx == 6 {
                16
            } else {
                8
            }
        } else {
            self.set_r(r_idx, v | (1 << bit), bus);
            if r_idx == 6 {
                16
            } else {
                8
            }
        }
    }

    fn exec_ld_r_r(&mut self, op: u8, bus: &mut Motherboard) -> (cycles: u8)
        requires
            old(bus)@.wf(),
            0x40 <= op < 0x80,
            op != 0x76,
        ensures
            4 <= cycles <= 24,
            (*final(self), final(bus)@, cycles) == exec_block1(*old(self), old(bus)@, op),
            final(bus)@.wf(),
    {
        proof {
            lemma_decode(op);
        }
        let src = self.get_r(op & 7, bus);
        self.set_r((op >> 3) & 7, src, bus);
        if (op & 7) == 6 || ((op >> 3) & 7) == 6 {
            8
        } else {
            4
        }
    }

    fn exec_inc_dec(&mut self, op: u8, bus: &mut Motherboard) -> (cycles: u8)
        requires
            old(bus)@.wf(),
            op < 0x40,
            op % 8 == 4 || op % 8 == 5,
        ensures
            4 <= cycles <= 24,
            (*final(self), final(bus)@) == inc_dec(
                *old(self),
                old(bus)@,
                ((op / 8) % 8) as int,
                op % 8 == 5,
            ),
            cycles == (if (op / 8) % 8 == 6 {
                12u8
            } else {
                4u8
            }),
            final(bus)@.wf(),
    {
        proof {
            lemma_decode(op);
            lemma_byte(op);
        }
        let r_idx = (op >> 3) & 7;
        let v = self.get_r(r_idx, bus);
        proof {
            lemma_nibble(v);
        }
        let is_dec = (op & 1) != 0;
        let result = if is_dec {
            v.wrapping_sub(1)
        } else {
            v.wrapping_add(1)
        };
        let h = if is_dec {
            (v & 0x0F) == 0
        } else {
            (v & 0x0F) == 0x0F
        };
        self.f = (self.f & FLAG_C) | make_flags(result == 0, is_dec, h, false);
        self.set_r(r_idx, result, bus);
        if r_idx == 6 {
            12
        } else {
            4
        }
    }

    /// PC plus a signed byte.
    fn offset_pc(pc: u16, b: u8) -> (r: u16)
        ensures
            r == wrap16(pc + signed8(b)),
    {
        if b < 128 {
            pc.wrapping_add(b as u16)
        } else {
            pc.wrapping_sub(256 - b as u16)
        }
    }

    fn jr_cond(&mut self, bus: &Motherboard, cond: bool) -> (cycles: u8)
        requires
            bus@.wf(),
        ensures
            4 <= cycles <= 24,
            (*final(self), bus@, cycles) == jr(*old(self), bus@, cond),
    {
        let offset = self.next_byte(bus);
        if cond {
            self.pc = Self::offset_pc(self.pc, offset);
            12
        } else {
            8
        }
    }

    fn jp_cond(&mut self, bus: &Motherboard, cond: bool) -> (cycles: u8)
        requires
            bus@.wf(),
        ensures
            4 <= cycles <= 24,
            ({
                let (c1, dest) = fetch16(*old(self), bus@);
                if cond {
                    *final(self) == c1.with_pc(dest) && cycles == 16
                } else {
                    *final(self) == c1 && cycles == 12
                }
            }),
    {
        let dest = self.next_word(bus);
        if cond {
            self.pc = dest;
            16
        } else {
            12
        }
    }

    fn call_cond(&mut self, bus: &mut Motherboard, cond: bool) -> (cycles: u8)
        requires
            old(bus)@.wf(),
        ensures
            4 <= cycles <= 24,
            ({
                let (c1, dest) = fetch16(*old(self), old(bus)@);
                if cond {
                    let (c2, m2) = push(c1, old(bus)@, c1.pc);
                    *final(self) == c2.with_pc(dest) && final(bus)@ == m2 && cycles == 24
                } else {
                    *final(self) == c1 && final(bus)@ == old(bus)@ && cycles == 12
                }
            }),
            final(bus)@.wf(),
    {
        let dest = self.next_word(bus);
        if cond {
            self.push_word(bus, self.pc);
            self.pc = dest;
            24
        } else {
            12
        }
    }

    fn ret_cond(&mut self, bus: &Motherboard, cond: bool) -> (cycles: u8)
        requires
            bus@.wf(),
        ensures
            4 <= cycles <= 24,
            ({
                let (c1, v) = pop(*old(self), bus@);
                if cond {
                    *final(self) == c1.with_pc(v) && cycles == 20
                } else {
                    *final(self) == *old(self) && cycles == 8
                }
            }),
    {
        if cond {
            self.pc = self.pop_word(bus);
            20
        } else {
            8
        }
    }

    /// SP plus the signed byte after the opcode, with the flags ADD SP,e
    /// and LD HL,SP+e set.
    fn sp_plus_offset(&self, offset: u8) -> (r: (u16, u8))
        ensures
            r == sp_offset(*self, offset),
    {
        let result = Self::offset_pc(self.sp, offset);
        let sp = self.sp;
        proof {
            lemma_word(sp, 0, offset as u16);
            lemma_nibble(offset);
        }
        let f = make_flags(
            false,
            false,
            (sp & 0x0F) + (offset as u16 & 0x0F) > 0x0F,
            (sp & 0xFF) + (offset as u16) > 0xFF,
        );
        (result, f)
    }
}

impl Cpu {
    fn exec_misc0(&mut self, op: u8, bus: &Motherboard) -> (cycles: u8)
        requires
            bus@.wf(),
            op < 0x40,
            op % 8 == 0,
        ensures
            4 <= cycles <= 24,
            (*final(self), bus@, cycles) == exec_misc0(*old(self), bus@, op),
    {
        match op {
            // STOP — treated as a 2-byte NOP (CGB speed switch is not modelled).
            0x10 => {
                let _ = self.next_byte(bus);
                4
            },
            0x18 => self.jr_cond(bus, true),
            0x20 => {
                let c = !self.flag_z();
                self.jr_cond(bus, c)
            },
            0x28 => {
                let c = self.flag_z();
                self.jr_cond(bus, c)
            },
            0x30 => {
                let c = !self.flag_c();
                self.jr_cond(bus, c)
            },
            0x38 => {
                let c = self.flag_c();
                self.jr_cond(bus, c)
            },
            // NOP; 0x08 (LD (a16), SP) is not implemented and acts as a NOP.
            _ => 4,
        }
    }

    fn exec_ld_rr_imm(&mut self, op: u8, bus: &Motherboard) -> (cycles: u8)
        requires
            bus@.wf(),
            op == 0x01 || op == 0x11 || op == 0x21 || op == 0x31,
        ensures
            4 <= cycles <= 24,
            (*final(self), bus@, cycles) == exec_rr_imm_add(*old(self), bus@, op),
    {
        let v = self.next_word(bus);
        if op == 0x01 {
            self.set_bc(v);
        } else if op == 0x11 {
            self.set_de(v);
        } else if op == 0x21 {
            self.set_hl(v);
        } else {
            self.sp = v;
        }
        12
    }

    fn exec_add_hl_rr(&mut self, op: u8) -> (cycles: u8)
        requires
            op == 0x09 || op == 0x19 || op == 0x29 || op == 0x39,
        ensures
            4 <= cycles <= 24,
            forall|m: BusView| #![auto] (*final(self), m, cycles) == exec_rr_imm_add(*old(self), m, op),
    {
        let v = if op == 0x09 {
            self.get_bc()
        } else if op == 0x19 {
            self.get_de()
        } else if op == 0x29 {
            self.get_hl()
        } else {
            self.sp
        };
        self.add_hl(v);
        8
    }

    /// LD rr, n16 and ADD HL, rr.
    fn exec_rr_imm_add(&mut self, op: u8, bus: &Motherboard) -> (cycles: u8)
        requires
            bus@.wf(),
            op < 0x40,
            op % 8 == 1,
        ensures
            4 <= cycles <= 24,
            (*final(self), bus@, cycles) == exec_rr_imm_add(*old(self), bus@, op),
    {
        if op == 0x01 || op == 0x11 || op == 0x21 || op == 0x31 {
            self.exec_ld_rr_imm(op, bus)
        } else {
            self.exec_add_hl_rr(op)
        }
    }

    fn exec_store_indirect(&mut self, op: u8, bus: &mut Motherboard) -> (cycles: u8)
        requires
            old(bus)@.wf(),
            op == 0x02 || op == 0x12 || op == 0x22 || op == 0x32,
        ensures
            4 <= cycles <= 24,
            (*final(self), final(bus)@, cycles) == exec_indirect(*old(self), old(bus)@, op),
            final(bus)@.wf(),
    {
        if op == 0x02 {
            bus.write_byte(self.get_bc(), self.a);
        } else if op == 0x12 {
            bus.write_byte(self.get_de(), self.a);
        } else if op == 0x22 {
            bus.write_byte(self.get_hl(), self.a);
            self.set_hl(inc16(self.get_hl()));
        } else {
            bus.write_byte(self.get_hl(), self.a);
            self.set_hl(dec16(self.get_hl()));
        }
        8
    }

    fn exec_load_indirect(&mut self, op: u8, bus: &Motherboard) -> (cycles: u8)
        requires
            bus@.wf(),
            op == 0x0A || op == 0x1A || op == 0x2A || op == 0x3A,
        ensures
            4 <= cycles <= 24,
            (*final(self), bus@, cycles) == exec_indirect(*old(self), bus@, op),
    {
        if op == 0x0A {
            self.a = bus.read_byte(self.get_bc());
        } else if op == 0x1A {
            self.a = bus.read_byte(self.get_de());
        } else if op == 0x2A {
            self.a = bus.read_byte(self.get_hl());
            self.set_hl(inc16(self.get_hl()));
        } else {
            self.a = bus.read_byte(self.get_hl());
            self.set_hl(dec16(self.get_hl()));
        }
        8
    }

    /// LD (rr), A / LD A, (rr), with HL post-increment/decrement.
    fn exec_indirect(&mut self, op: u8, bus: &mut Motherboard) -> (cycles: u8)
        requires
            old(bus)@.wf(),
            op < 0x40,
            op % 8 == 2,
        ensures
            4 <= cycles <= 24,
            (*final(self), final(bus)@, cycles) == exec_indirect(*old(self), old(bus)@, op),
            final(bus)@.wf(),
    {
        if op == 0x02 || op == 0x12 || op == 0x22 || op == 0x32 {
            self.exec_store_indirect(op, bus)
        } else {
            self.exec_load_indirect(op, bus)
        }
    }

    fn exec_inc_dec16(&mut self, op: u8) -> (cycles: u8)
        requires
            op < 0x40,
            op % 8 == 3,
        ensures
            4 <= cycles <= 24,
            forall|m: BusView| #![auto] (*final(self), m, cycles) == exec_inc_dec16(*old(self), m, op),
    {
        match op {
            0x03 => {
                let v = inc16(self.get_bc());
                self.set_bc(v);
                8
            },
            0x13 => {
                let v = inc16(self.get_de());
                self.set_de(v);
                8
            },
            0x23 => {
                let v = inc16(self.get_hl());
                self.set_hl(v);
                8
            },
            0x33 => {
                self.sp = inc16(self.sp);
                8
            },
            0x0B => {
                let v = dec16(self.get_bc());
                self.set_bc(v);
                8
            },
            0x1B => {
                let v = dec16(self.get_de());
                self.set_de(v);
                8
            },
            0x2B => {
                let v = dec16(self.get_hl());
                self.set_hl(v);
                8
            },
            _ => {
                self.sp = dec16(self.sp);
                8
            },
        }
    }

    fn exec_acc(&mut self, op: u8) -> (cycles: u8)
        requires
            op < 0x40,
            op % 8 == 7,
        ensures
            4 <= cycles <= 24,
            forall|m: BusView| #![auto] (*final(self), m, cycles) == exec_acc(*old(self), m, op),
    {
        let a = self.a;
        proof {
            lemma_byte(a);
        }
        match op {
            // Rotations on A (do not set Z).
            0x07 => {
                let c = self.a >> 7;
                self.a = (self.a << 1) | c;
                self.f = make_flags(false, false, false, c != 0);
                4
            },
            0x0F => {
                let c = self.a & 1;
                self.a = (self.a >> 1) | (c << 7);
                self.f = make_flags(false, false, false, c != 0);
                4
            },
            0x17 => {
                let c = self.a >> 7;
                let carry_in: u8 = if self.flag_c() {
                    1
                } else {
                    0
                };
                self.a = (self.a << 1) | carry_in;
                self.f = make_flags(false, false, false, c != 0);
                4
            },
            0x1F => {
                let c = self.a & 1;
                let carry_in: u8 = if self.flag_c() {
                    0x80
                } else {
                    0
                };
                self.a = (self.a >> 1) | carry_in;
                self.f = make_flags(false, false, false, c != 0);
                4
            },
            0x27 => {
                self.daa();
                4
            },
            0x2F => {
                self.a = !self.a;
                self.set_flag(FLAG_N, true);
                self.set_flag(FLAG_H, true);
                4
            },
            0x37 => {
                self.set_flag(FLAG_C, true);
                self.set_flag(FLAG_N, false);
                self.set_flag(FLAG_H, false);
                4
            },
            _ => {
                let c = !self.flag_c();
                self.set_flag(FLAG_C, c);
                self.set_flag(FLAG_N, false);
                self.set_flag(FLAG_H, false);
                4
            },
        }
    }

    /// Opcodes `0x00-0x3F`: loads, 16-bit arithmetic, INC/DEC, relative
    /// jumps and the accumulator rotations.
    fn execute_block0(&mut self, op: u8, bus: &mut Motherboard) -> (cycles: u8)
        requires
            old(bus)@.wf(),
            op < 0x40,
        ensures
            4 <= cycles <= 24,
            (*final(self), final(bus)@, cycles) == exec_block0(*old(self), old(bus)@, op),
            final(bus)@.wf(),
    {
        proof {
            lemma_decode(op);
        }
        match op & 7 {
            0 => self.exec_misc0(op, bus),
            1 => self.exec_rr_imm_add(op, bus),
            2 => self.exec_indirect(op, bus),
            3 => self.exec_inc_dec16(op),
            4 | 5 => self.exec_inc_dec(op, bus),
            6 => {
                // LD r, n8 / LD (HL), n8
                let v = self.next_byte(bus);
                self.set_r((op >> 3) & 7, v, bus);
                if op == 0x36 {
                    12
                } else {
                    8
                }
            },
            _ => self.exec_acc(op),
        }
    }
}

impl Cpu {
    fn exec_ret_ldh(&mut self, op: u8, bus: &mut Motherboard) -> (cycles: u8)
        requires
            old(bus)@.wf(),
            0xC0 <= op,
            op % 8 == 0,
        ensures
            4 <= cycles <= 24,
            (*final(self), final(bus)@, cycles) == exec_ret_ldh(*old(self), old(bus)@, op),
            final(bus)@.wf(),
    {
        match op {
            0xC0 => {
                let c = !self.flag_z();
                self.ret_cond(bus, c)
            },
            0xC8 => {
                let c = self.flag_z();
                self.ret_cond(bus, c)
            },
            0xD0 => {
                let c = !self.flag_c();
                self.ret_cond(bus, c)
            },
            0xD8 => {
                let c = self.flag_c();
                self.ret_cond(bus, c)
            },
            // LDH (n), A
            0xE0 => {
                let v = self.next_byte(bus);
                bus.write_byte(0xFF00 + v as u16, self.a);
                12
            },
            // LDH A, (n)
            0xF0 => {
                let v = self.next_byte(bus);
                self.a = bus.read_byte(0xFF00 + v as u16);
                12
            },
            // ADD SP, e8
            0xE8 => {
                let offset = self.next_byte(bus);
                let (result, f) = self.sp_plus_offset(offset);
                self.f = f;
                self.sp = result;
                16
            },
            // LD HL, SP+e8
            _ => {
                let offset = self.next_byte(bus);
                let (result, f) = self.sp_plus_offset(offset);
                self.f = f;
                self.set_hl(result);
                12
            },
        }
    }

    fn exec_pop_ret(&mut self, op: u8, bus: &Motherboard) -> (cycles: u8)
        requires
            bus@.wf(),
            0xC0 <= op,
            op % 8 == 1,
        ensures
            4 <= cycles <= 24,
            (*final(self), bus@, cycles) == exec_pop_ret(*old(self), bus@, op),
    {
        match op {
            0xC1 => {
                let v = self.pop_word(bus);
                self.set_bc(v);
                12
            },
            0xD1 => {
                let v = self.pop_word(bus);
                self.set_de(v);
                12
            },
            0xE1 => {
                let v = self.pop_word(bus);
                self.set_hl(v);
                12
            },
            // POP AF: bottom nibble of F is hard-wired to zero.
            0xF1 => {
                let v = self.pop_word(bus);
                proof {
                    lemma_split_word(v);
                }
                self.a = (v >> 8) as u8;
                self.f = (v as u8) & 0xF0;
                12
            },
            0xC9 => {
                self.pc = self.pop_word(bus);
                16
            },
            0xD9 => {
                self.pc = self.pop_word(bus);
                self.ime = true;
                16
            },
            0xE9 => {
                self.pc = self.get_hl();
                4
            },
            _ => {
                self.sp = self.get_hl();
                8
            },
        }
    }

    fn exec_jp_cc_ld(&mut self, op: u8, bus: &mut Motherboard) -> (cycles: u8)
        requires
            old(bus)@.wf(),
            0xC0 <= op,
            op % 8 == 2,
        ensures
            4 <= cycles <= 24,
            (*final(self), final(bus)@, cycles) == exec_jp_cc_ld(*old(self), old(bus)@, op),
            final(bus)@.wf(),
    {
        match op {
            0xC2 => {
                let c = !self.flag_z();
                self.jp_cond(bus, c)
            },
            0xCA => {
                let c = self.flag_z();
                self.jp_cond(bus, c)
            },
            0xD2 => {
                let c = !self.flag_c();
                self.jp_cond(bus, c)
            },
            0xDA => {
                let c = self.flag_c();
                self.jp_cond(bus, c)
            },
            // LD (C), A
            0xE2 => {
                bus.write_byte(0xFF00 + self.c as u16, self.a);
                8
            },
            // LD (a16), A
            0xEA => {
                let a = self.next_word(bus);
                bus.write_byte(a, self.a);
                16
            },
            // LD A, (C)
            0xF2 => {
                self.a = bus.read_byte(0xFF00 + self.c as u16);
                8
            },
            // LD A, (a16)
            _ => {
                let a = self.next_word(bus);
                self.a = bus.read_byte(a);
                16
            },
        }
    }

    fn exec_jp_prefix(&mut self, op: u8, bus: &mut Motherboard) -> (cycles: u8)
        requires
            old(bus)@.wf(),
            0xC0 <= op,
            op % 8 == 3,
        ensures
            4 <= cycles <= 24,
            (*final(self), final(bus)@, cycles) == exec_jp_prefix(*old(self), old(bus)@, op),
            final(bus)@.wf(),
    {
        match op {
            0xC3 => {
                self.pc = self.next_word(bus);
                16
            },
            // CB-prefixed instructions
            0xCB => {
                let cb_op = self.next_byte(bus);
                self.execute_cb(cb_op, bus)
            },
            // DI
            0xF3 => {
                self.ime = false;
                4
            },
            // EI
            0xFB => {
                self.ei_pending = true;
                4
            },
            // Undefined opcodes behave as a NOP.
            _ => 4,
        }
    }

    #[verifier::spinoff_prover]
    fn exec_call_cc(&mut self, op: u8, bus: &mut Motherboard) -> (cycles: u8)
        requires
            old(bus)@.wf(),
            0xC0 <= op,
            op % 8 == 4,
        ensures
            4 <= cycles <= 24,
            (*final(self), final(bus)@, cycles) == exec_call_cc(*old(self), old(bus)@, op),
            final(bus)@.wf(),
    {
        match op {
            0xC4 => {
                let c = !self.flag_z();
                self.call_cond(bus, c)
            },
            0xCC => {
                let c = self.flag_z();
                self.call_cond(bus, c)
            },
            0xD4 => {
                let c = !self.flag_c();
                self.call_cond(bus, c)
            },
            0xDC => {
                let c = self.flag_c();
                self.call_cond(bus, c)
            },
            // Undefined opcodes behave as a NOP.
            _ => 4,
        }
    }

    fn exec_push_call(&mut self, op: u8, bus: &mut Motherboard) -> (cycles: u8)
        requires
            old(bus)@.wf(),
            0xC0 <= op,
            op % 8 == 5,
        ensures
            4 <= cycles <= 24,
            (*final(self), final(bus)@, cycles) == exec_push_call(*old(self), old(bus)@, op),
            final(bus)@.wf(),
    {
        match op {
            0xC5 => {
                self.push_word(bus, self.get_bc());
                16
            },
            0xD5 => {
                self.push_word(bus, self.get_de());
                16
            },
            0xE5 => {
                self.push_word(bus, self.get_hl());
                16
            },
            0xF5 => {
                proof {
                    lemma_word_parts(self.a, self.f);
                }
                self.push_word(bus, (self.a as u16) << 8 | self.f as u16);
                16
            },
            0xCD => {
                let d = self.next_word(bus);
                self.push_word(bus, self.pc);
                self.pc = d;
                24
            },
            // Undefined opcodes behave as a NOP.
            _ => 4,
        }
    }

    /// Opcodes `0xC0-0xFF`: control flow, stack, high-page loads, ALU with
    /// an immediate, the CB prefix.
    fn execute_block3(&mut self, op: u8, bus: &mut Motherboard) -> (cycles: u8)
        requires
            old(bus)@.wf(),
            0xC0 <= op,
        ensures
            4 <= cycles <= 24,
            (*final(self), final(bus)@, cycles) == exec_block3(*old(self), old(bus)@, op),
            final(bus)@.wf(),
    {
        proof {
            lemma_decode(op);
        }
        match op & 7 {
            0 => self.exec_ret_ldh(op, bus),
            1 => self.exec_pop_ret(op, bus),
            2 => self.exec_jp_cc_ld(op, bus),
            3 => self.exec_jp_prefix(op, bus),
            4 => self.exec_call_cc(op, bus),
            5 => self.exec_push_call(op, bus),
            6 => {
                // ALU A, n8
                let v = self.next_byte(bus);
                self.alu_op(op, v);
                8
            },
            _ => {
                // RST n
                self.push_word(bus, self.pc);
                self.pc = (op - 0xC7) as u16;
                16
            },
        }
    }

    /// Decode and execute a single opcode (already fetched).
    fn execute(&mut self, op: u8, bus: &mut Motherboard) -> (cycles: u8)
        requires
            old(bus)@.wf(),
        ensures
            4 <= cycles <= 24,
            (*final(self), final(bus)@, cycles) == execute(*old(self), old(bus)@, op),
            final(bus)@.wf(),
    {
        proof {
            reveal(execute);
        }
        if op < 0x40 {
            self.execute_block0(op, bus)
        } else if op < 0x80 {
            if op == 0x76 {
                // HALT
                self.halted = true;
                4
            } else {
                self.exec_ld_r_r(op, bus)
            }
        } else if op < 0xC0 {
            // ALU A, r
            proof {
                lemma_decode(op);
            }
            let v = self.get_r(op & 7, bus);
            self.alu_op(op, v);
            4
        } else {
            self.execute_block3(op, bus)
        }
    }

    /// The lowest set bit of a non-zero 5-bit interrupt mask.
    fn lowest_interrupt(pending: u8) -> (bit: u8)
        ensures
            bit == lowest_interrupt(pending),
            bit <= 4,
    {
        if pending & 0x01 != 0 {
            0
        } else if pending & 0x02 != 0 {
            1
        } else if pending & 0x04 != 0 {
            2
        } else if pending & 0x08 != 0 {
            3
        } else {
            4
        }
    }

    /// Service the lowest-numbered pending interrupt: acknowledge it in
    /// `IF`, push `PC` and jump to the corresponding vector.
    fn service_interrupt(&mut self, bus: &mut Motherboard, pending: u8, if_reg: u8) -> (cycles: u8)
        requires
            old(bus)@.wf(),
        ensures
            4 <= cycles <= 24,
            (*final(self), final(bus)@, cycles) == service_interrupt(
                *old(self),
                old(bus)@,
                pending,
                if_reg,
            ),
            final(bus)@.wf(),
    {
        self.ime = false;
        let bit = Self::lowest_interrupt(pending);
        bus.write_byte(0xFF0F, if_reg & !(1 << bit));
        self.push_word(bus, self.pc);
        self.pc = 0x40 + (bit as u16) * 8;
        20
    }

    /// Execute one CPU step. Returns the number of T-cycles consumed.
    /// Handles interrupt dispatch, `HALT` wake-up and the deferred `EI`.
    pub fn step(&mut self, bus: &mut Motherboard) -> (cycles: u8)
        requires
            old(bus)@.wf(),
        ensures
            4 <= cycles <= 24,
            (*final(self), final(bus)@, cycles) == step(*old(self), old(bus)@),
            final(bus)@.wf(),
    {
        proof {
            reveal(step);
        }
        let ie = bus.read_byte(0xFFFF);
        let if_reg = bus.read_byte(0xFF0F);
        let pending = ie & if_reg & 0x1F;
        if self.halted {
            if pending != 0 {
                self.halted = false;
            } else {
                return 4;
            }
        }
        if self.ime && pending != 0 {
            return self.service_interrupt(bus, pending, if_reg);
        }
        if self.ei_pending {
            self.ime = true;
            self.ei_pending = false;
        }
        let op = self.next_byte(bus);
        self.execute(op, bus)
    }
}

impl Default for Cpu {
    fn default() -> (c: Self)
        ensures
            c == zeroed(),
    {
        Self::new()
    }
}

} // verus!
