//! Semantics of the Sharp SM83 instruction set, as spec functions over the
//! CPU registers and the bus model.
//!
//! Opcodes are decoded the standard way: `x = op / 64`, `y = (op / 8) % 8`,
//! `z = op % 8`, `p = y / 2`, `q = y % 2`. Register index `r` numbers
//! B, C, D, E, H, L, (HL), A; pair index `p` numbers BC, DE, HL, SP (or AF
//! for PUSH/POP); condition index `cc` numbers NZ, Z, NC, C.
use vstd::prelude::*;
use crate::bus::BusView;
use crate::cpu::Cpu;

verus! {

pub const FLAG_Z: u8 = 0x80;

pub const FLAG_N: u8 = 0x40;

pub const FLAG_H: u8 = 0x20;

pub const FLAG_C: u8 = 0x10;

/// The flag register with the four flags set as given (low nibble 0).
pub open spec fn flags(z: bool, n: bool, h: bool, c: bool) -> u8 {
    (if z {
        FLAG_Z
    } else {
        0u8
    }) | (if n {
        FLAG_N
    } else {
        0u8
    }) | (if h {
        FLAG_H
    } else {
        0u8
    }) | (if c {
        FLAG_C
    } else {
        0u8
    })
}

pub open spec fn set_flag(f: u8, flag: u8, on: bool) -> u8 {
    if on {
        f | flag
    } else {
        f & !flag
    }
}

pub open spec fn wrap8(x: int) -> u8 {
    (x % 256) as u8
}

pub open spec fn wrap16(x: int) -> u16 {
    (x % 65536) as u16
}

/// A byte read as a two's-complement offset.
pub open spec fn signed8(b: u8) -> int {
    if b < 128 {
        b as int
    } else {
        b - 256
    }
}

pub open spec fn word(hi: u8, lo: u8) -> u16 {
    (hi * 256 + lo) as u16
}

impl Cpu {
    pub open spec fn zf(self) -> bool {
        (self.f & FLAG_Z) != 0
    }

    pub open spec fn nf(self) -> bool {
        (self.f & FLAG_N) != 0
    }

    pub open spec fn hf(self) -> bool {
        (self.f & FLAG_H) != 0
    }

    pub open spec fn cf(self) -> bool {
        (self.f & FLAG_C) != 0
    }

    pub open spec fn bc(self) -> u16 {
        word(self.b, self.c)
    }

    pub open spec fn de(self) -> u16 {
        word(self.d, self.e)
    }

    pub open spec fn hl(self) -> u16 {
        word(self.h, self.l)
    }

    pub open spec fn with_bc(self, v: u16) -> Cpu {
        Cpu { b: (v / 256) as u8, c: (v % 256) as u8, ..self }
    }

    pub open spec fn with_de(self, v: u16) -> Cpu {
        Cpu { d: (v / 256) as u8, e: (v % 256) as u8, ..self }
    }

    pub open spec fn with_hl(self, v: u16) -> Cpu {
        Cpu { h: (v / 256) as u8, l: (v % 256) as u8, ..self }
    }

    pub open spec fn with_pc(self, pc: u16) -> Cpu {
        Cpu { pc, ..self }
    }

    /// Register pair `p`: BC, DE, HL, SP.
    pub open spec fn rr(self, p: int) -> u16 {
        if p == 0 {
            self.bc()
        } else if p == 1 {
            self.de()
        } else if p == 2 {
            self.hl()
        } else {
            self.sp
        }
    }

    pub open spec fn with_rr(self, p: int, v: u16) -> Cpu {
        if p == 0 {
            self.with_bc(v)
        } else if p == 1 {
            self.with_de(v)
        } else if p == 2 {
            self.with_hl(v)
        } else {
            Cpu { sp: v, ..self }
        }
    }

    /// Register pair `p` for PUSH/POP: BC, DE, HL, AF.
    pub open spec fn rr_stack(self, p: int) -> u16 {
        if p == 3 {
            word(self.a, self.f)
        } else {
            self.rr(p)
        }
    }

    /// POP into pair `p`; the low nibble of F is hard-wired to zero.
    pub open spec fn with_rr_stack(self, p: int, v: u16) -> Cpu {
        if p == 3 {
            Cpu { a: (v / 256) as u8, f: ((v % 256) as u8) & 0xF0, ..self }
        } else {
            self.with_rr(p, v)
        }
    }

    /// Condition `cc`: NZ, Z, NC, C.
    pub open spec fn cond(self, cc: int) -> bool {
        if cc == 0 {
            !self.zf()
        } else if cc == 1 {
            self.zf()
        } else if cc == 2 {
            !self.cf()
        } else {
            self.cf()
        }
    }
}

// ----- Operand access --------------------------------------------------------
/// Read the byte at PC and step PC.
pub open spec fn fetch8(c: Cpu, m: BusView) -> (Cpu, u8) {
    (c.with_pc(wrap16(c.pc + 1)), m.read(c.pc))
}

/// Read the little-endian word at PC and step PC twice.
pub open spec fn fetch16(c: Cpu, m: BusView) -> (Cpu, u16) {
    let (c1, lo) = fetch8(c, m);
    let (c2, hi) = fetch8(c1, m);
    (c2, word(hi, lo))
}

/// Register `r` (6 reads the byte at HL).
pub open spec fn get_r(c: Cpu, m: BusView, r: int) -> u8 {
    if r == 0 {
        c.b
    } else if r == 1 {
        c.c
    } else if r == 2 {
        c.d
    } else if r == 3 {
        c.e
    } else if r == 4 {
        c.h
    } else if r == 5 {
        c.l
    } else if r == 6 {
        m.read(c.hl())
    } else {
        c.a
    }
}

/// Store into register `r` (6 writes the byte at HL).
pub open spec fn set_r(c: Cpu, m: BusView, r: int, v: u8) -> (Cpu, BusView) {
    if r == 0 {
        (Cpu { b: v, ..c }, m)
    } else if r == 1 {
        (Cpu { c: v, ..c }, m)
    } else if r == 2 {
        (Cpu { d: v, ..c }, m)
    } else if r == 3 {
        (Cpu { e: v, ..c }, m)
    } else if r == 4 {
        (Cpu { h: v, ..c }, m)
    } else if r == 5 {
        (Cpu { l: v, ..c }, m)
    } else if r == 6 {
        (c, m.write(c.hl(), v))
    } else {
        (Cpu { a: v, ..c }, m)
    }
}

/// Push a word: SP drops by two, then the word is stored there.
pub open spec fn push(c: Cpu, m: BusView, v: u16) -> (Cpu, BusView) {
    let sp = wrap16(c.sp - 2);
    (Cpu { sp, ..c }, m.write_word(sp, v))
}

/// Pop a word from SP, then SP rises by two.
pub open spec fn pop(c: Cpu, m: BusView) -> (Cpu, u16) {
    (Cpu { sp: wrap16(c.sp + 2), ..c }, m.read_word(c.sp))
}

// ----- Arithmetic and logic ------------------------------------------------------
/// The eight accumulator operations: ADD, ADC, SUB, SBC, AND, XOR, OR, CP.
pub open spec fn alu(c: Cpu, op: int, v: u8) -> Cpu {
    let a = c.a as int;
    let cy: int = if c.cf() {
        1
    } else {
        0
    };
    if op == 0 {
        let r = wrap8(a + v);
        Cpu { a: r, f: flags(r == 0, false, a % 16 + v % 16 > 15, a + v > 255), ..c }
    } else if op == 1 {
        let r = wrap8(a + v + cy);
        Cpu { a: r, f: flags(r == 0, false, a % 16 + v % 16 + cy > 15, a + v + cy > 255), ..c }
    } else if op == 2 {
        let r = wrap8(a - v);
        Cpu { a: r, f: flags(r == 0, true, a % 16 < v % 16, a < v), ..c }
    } else if op == 3 {
        let r = wrap8(a - v - cy);
        Cpu { a: r, f: flags(r == 0, true, a % 16 < v % 16 + cy, a < v + cy), ..c }
    } else if op == 4 {
        let r = c.a & v;
        Cpu { a: r, f: flags(r == 0, false, true, false), ..c }
    } else if op == 5 {
        let r = c.a ^ v;
        Cpu { a: r, f: flags(r == 0, false, false, false), ..c }
    } else if op == 6 {
        let r = c.a | v;
        Cpu { a: r, f: flags(r == 0, false, false, false), ..c }
    } else {
        Cpu { f: flags(a == v, true, a % 16 < v % 16, a < v), ..c }
    }
}

/// INC r / DEC r: the carry flag is kept.
pub open spec fn inc_dec(c: Cpu, m: BusView, r: int, dec: bool) -> (Cpu, BusView) {
    let v = get_r(c, m, r);
    let res = if dec {
        wrap8(v - 1)
    } else {
        wrap8(v + 1)
    };
    let h = if dec {
        v % 16 == 0
    } else {
        v % 16 == 15
    };
    set_r(Cpu { f: (c.f & FLAG_C) | flags(res == 0, dec, h, false), ..c }, m, r, res)
}

/// ADD HL, rr: Z is kept.
pub open spec fn add_hl(c: Cpu, v: u16) -> Cpu {
    let hl = c.hl() as int;
    Cpu {
        f: (c.f & FLAG_Z) | flags(false, false, hl % 4096 + v % 4096 > 4095, hl + v > 65535),
        ..c
    }.with_hl(wrap16(hl + v))
}

/// SP plus a signed byte, with H and C from the low-byte addition (used
/// by ADD SP,e and LD HL,SP+e).
pub open spec fn sp_offset(c: Cpu, b: u8) -> (u16, u8) {
    let sp = c.sp as int;
    (wrap16(sp + signed8(b)), flags(false, false, sp % 16 + b % 16 > 15, sp % 256 + b > 255))
}

/// Decimal adjust of A after a BCD addition or subtraction.
pub open spec fn daa(c: Cpu) -> Cpu {
    let a = c.a as int;
    let low = c.hf() || (!c.nf() && a % 16 > 9);
    let high = c.cf() || (!c.nf() && a > 0x99);
    let adj: int = (if low {
        6int
    } else {
        0int
    }) + (if high {
        0x60int
    } else {
        0int
    });
    let r = if c.nf() {
        wrap8(a - adj)
    } else {
        wrap8(a + adj)
    };
    Cpu { a: r, f: flags(r == 0, c.nf(), false, high), ..c }
}

/// The eight rotate/shift operations of the CB page (RLC, RRC, RL, RR,
/// SLA, SRA, SWAP, SRL): the result and the carry out.
pub open spec fn shift_rotate(op: int, v: u8, carry_in: bool) -> (u8, bool) {
    let cin: u8 = if carry_in {
        1
    } else {
        0
    };
    if op == 0 {
        ((v << 1u8) | (v >> 7u8), v >= 128)
    } else if op == 1 {
        ((v >> 1u8) | ((v & 1) << 7u8), v % 2 == 1)
    } else if op == 2 {
        ((v << 1u8) | cin, v >= 128)
    } else if op == 3 {
        ((v >> 1u8) | (cin << 7u8), v % 2 == 1)
    } else if op == 4 {
        (v << 1u8, v >= 128)
    } else if op == 5 {
        ((v >> 1u8) | (v & 0x80), v % 2 == 1)
    } else if op == 6 {
        ((v << 4u8) | (v >> 4u8), false)
    } else {
        (v >> 1u8, v % 2 == 1)
    }
}

// ----- Instructions ----------------------------------------------------------
/// A `0xCB`-prefixed opcode: rotate/shift, BIT, RES or SET on register `z`.
pub open spec fn exec_cb(c: Cpu, m: BusView, op: u8) -> (Cpu, BusView, u8) {
    let x = op / 64;
    let y = (op / 8) % 8;
    let z = op % 8;
    let v = get_r(c, m, z as int);
    if x == 0 {
        let (r, carry) = shift_rotate(y as int, v, c.cf());
        let (c1, m1) = set_r(Cpu { f: flags(r == 0, false, false, carry), ..c }, m, z as int, r);
        (c1, m1, if z == 6 { 16 } else { 8 })
    } else if x == 1 {
        let bit_clear = (v & (1u8 << y)) == 0;
        (
            Cpu { f: (c.f & FLAG_C) | flags(bit_clear, false, true, false), ..c },
            m,
            if z == 6 {
                12
            } else {
                8
            },
        )
    } else {
        let r = if x == 2 {
            v & !(1u8 << y)
        } else {
            v | (1u8 << y)
        };
        let (c1, m1) = set_r(c, m, z as int, r);
        (c1, m1, if z == 6 { 16 } else { 8 })
    }
}

/// Jump relative by the signed byte after the opcode, when `taken`.
pub open spec fn jr(c: Cpu, m: BusView, taken: bool) -> (Cpu, BusView, u8) {
    let (c1, b) = fetch8(c, m);
    if taken {
        (c1.with_pc(wrap16(c1.pc + signed8(b))), m, 12)
    } else {
        (c1, m, 8)
    }
}

/// Opcodes `0x00-0x3F` with `z == 0`: NOP, STOP, JR, JR cc (and the
/// unimplemented `0x08`, a NOP here).
pub open spec fn exec_misc0(c: Cpu, m: BusView, op: u8) -> (Cpu, BusView, u8) {
    let y = (op / 8) % 8;
    if y == 0 || y == 1 {
        (c, m, 4)
    } else if y == 2 {
        (fetch8(c, m).0, m, 4)
    } else if y == 3 {
        jr(c, m, true)
    } else {
        jr(c, m, c.cond(y - 4))
    }
}

/// `z == 1`: LD rr, n16 and ADD HL, rr.
pub open spec fn exec_rr_imm_add(c: Cpu, m: BusView, op: u8) -> (Cpu, BusView, u8) {
    let y = (op / 8) % 8;
    let p = (y / 2) as int;
    if y % 2 == 0 {
        let (c1, v) = fetch16(c, m);
        (c1.with_rr(p, v), m, 12)
    } else {
        (add_hl(c, c.rr(p)), m, 8)
    }
}

/// `z == 2`: LD (BC/DE/HL+/HL-), A and LD A, (BC/DE/HL+/HL-).
pub open spec fn exec_indirect(c: Cpu, m: BusView, op: u8) -> (Cpu, BusView, u8) {
    let y = (op / 8) % 8;
    let p = (y / 2) as int;
    let addr = if p == 0 {
        c.bc()
    } else if p == 1 {
        c.de()
    } else {
        c.hl()
    };
    let c1 = if p == 2 {
        c.with_hl(wrap16(c.hl() + 1))
    } else if p == 3 {
        c.with_hl(wrap16(c.hl() - 1))
    } else {
        c
    };
    if y % 2 == 0 {
        (c1, m.write(addr, c.a), 8)
    } else {
        (Cpu { a: m.read(addr), ..c1 }, m, 8)
    }
}

/// `z == 3`: INC rr and DEC rr.
pub open spec fn exec_inc_dec16(c: Cpu, m: BusView, op: u8) -> (Cpu, BusView, u8) {
    let y = (op / 8) % 8;
    let p = (y / 2) as int;
    let v = if y % 2 == 0 {
        wrap16(c.rr(p) + 1)
    } else {
        wrap16(c.rr(p) - 1)
    };
    (c.with_rr(p, v), m, 8)
}

/// `z == 7`: RLCA, RRCA, RLA, RRA, DAA, CPL, SCF, CCF.
pub open spec fn exec_acc(c: Cpu, m: BusView, op: u8) -> (Cpu, BusView, u8) {
    let y = (op / 8) % 8;
    if y == 0 {
        (Cpu { a: (c.a << 1u8) | (c.a >> 7u8), f: flags(false, false, false, c.a >= 128), ..c }, m, 4)
    } else if y == 1 {
        (Cpu { a: (c.a >> 1u8) | ((c.a & 1) << 7u8), f: flags(false, false, false, c.a % 2 == 1), ..c }, m, 4)
    } else if y == 2 {
        let cin: u8 = if c.cf() {
            1
        } else {
            0
        };
        (Cpu { a: (c.a << 1u8) | cin, f: flags(false, false, false, c.a >= 128), ..c }, m, 4)
    } else if y == 3 {
        let cin: u8 = if c.cf() {
            0x80
        } else {
            0
        };
        (Cpu { a: (c.a >> 1u8) | cin, f: flags(false, false, false, c.a % 2 == 1), ..c }, m, 4)
    } else if y == 4 {
        (daa(c), m, 4)
    } else if y == 5 {
        (Cpu { a: (255 - c.a) as u8, f: set_flag(set_flag(c.f, FLAG_N, true), FLAG_H, true), ..c }, m, 4)
    } else if y == 6 {
        (Cpu { f: set_flag(set_flag(set_flag(c.f, FLAG_C, true), FLAG_N, false), FLAG_H, false), ..c }, m, 4)
    } else {
        (
            Cpu {
                f: set_flag(set_flag(set_flag(c.f, FLAG_C, !c.cf()), FLAG_N, false), FLAG_H, false),
                ..c
            },
            m,
            4,
        )
    }
}

/// Opcodes `0x00-0x3F`.
pub open spec fn exec_block0(c: Cpu, m: BusView, op: u8) -> (Cpu, BusView, u8) {
    let y = (op / 8) % 8;
    let z = op % 8;
    if z == 0 {
        exec_misc0(c, m, op)
    } else if z == 1 {
        exec_rr_imm_add(c, m, op)
    } else if z == 2 {
        exec_indirect(c, m, op)
    } else if z == 3 {
        exec_inc_dec16(c, m, op)
    } else if z == 4 || z == 5 {
        let (c1, m1) = inc_dec(c, m, y as int, z == 5);
        (c1, m1, if y == 6 { 12 } else { 4 })
    } else if z == 6 {
        let (c1, v) = fetch8(c, m);
        let (c2, m2) = set_r(c1, m, y as int, v);
        (c2, m2, if y == 6 { 12 } else { 8 })
    } else {
        exec_acc(c, m, op)
    }
}

/// Opcodes `0x40-0x7F`: LD r, r' (and HALT at `0x76`).
pub open spec fn exec_block1(c: Cpu, m: BusView, op: u8) -> (Cpu, BusView, u8) {
    if op == 0x76 {
        (Cpu { halted: true, ..c }, m, 4)
    } else {
        let y = (op / 8) % 8;
        let z = op % 8;
        let (c1, m1) = set_r(c, m, y as int, get_r(c, m, z as int));
        (c1, m1, if y == 6 || z == 6 { 8 } else { 4 })
    }
}

/// Opcodes `0x80-0xBF`: ALU A, r.
pub open spec fn exec_block2(c: Cpu, m: BusView, op: u8) -> (Cpu, BusView, u8) {
    (alu(c, ((op / 8) % 8) as int, get_r(c, m, (op % 8) as int)), m, 4)
}

/// Opcodes `0xC0-0xFF` with `z == 0`: RET cc, LDH (n),A, ADD SP,e,
/// LDH A,(n), LD HL,SP+e.
pub open spec fn exec_ret_ldh(c: Cpu, m: BusView, op: u8) -> (Cpu, BusView, u8) {
    let y = (op / 8) % 8;
    if y <= 3 {
        if c.cond(y as int) {
            let (c1, v) = pop(c, m);
            (c1.with_pc(v), m, 20)
        } else {
            (c, m, 8)
        }
    } else if y == 4 {
        let (c1, n) = fetch8(c, m);
        (c1, m.write((0xFF00 + n) as u16, c.a), 12)
    } else if y == 6 {
        let (c1, n) = fetch8(c, m);
        (Cpu { a: m.read((0xFF00 + n) as u16), ..c1 }, m, 12)
    } else {
        let (c1, b) = fetch8(c, m);
        let (v, f) = sp_offset(c, b);
        if y == 5 {
            (Cpu { sp: v, f, ..c1 }, m, 16)
        } else {
            (Cpu { f, ..c1 }.with_hl(v), m, 12)
        }
    }
}

/// `z == 1`: POP rr, RET, RETI, JP HL, LD SP,HL.
pub open spec fn exec_pop_ret(c: Cpu, m: BusView, op: u8) -> (Cpu, BusView, u8) {
    let y = (op / 8) % 8;
    let p = (y / 2) as int;
    if y % 2 == 0 {
        let (c1, v) = pop(c, m);
        (c1.with_rr_stack(p, v), m, 12)
    } else if p == 0 {
        let (c1, v) = pop(c, m);
        (c1.with_pc(v), m, 16)
    } else if p == 1 {
        let (c1, v) = pop(c, m);
        (Cpu { ime: true, ..c1.with_pc(v) }, m, 16)
    } else if p == 2 {
        (c.with_pc(c.hl()), m, 4)
    } else {
        (Cpu { sp: c.hl(), ..c }, m, 8)
    }
}

/// `z == 2`: JP cc, LD (C),A, LD (a16),A, LD A,(C), LD A,(a16).
pub open spec fn exec_jp_cc_ld(c: Cpu, m: BusView, op: u8) -> (Cpu, BusView, u8) {
    let y = (op / 8) % 8;
    if y <= 3 {
        let (c1, dest) = fetch16(c, m);
        if c.cond(y as int) {
            (c1.with_pc(dest), m, 16)
        } else {
            (c1, m, 12)
        }
    } else if y == 4 {
        (c, m.write((0xFF00 + c.c) as u16, c.a), 8)
    } else if y == 5 {
        let (c1, addr) = fetch16(c, m);
        (c1, m.write(addr, c.a), 16)
    } else if y == 6 {
        (Cpu { a: m.read((0xFF00 + c.c) as u16), ..c }, m, 8)
    } else {
        let (c1, addr) = fetch16(c, m);
        (Cpu { a: m.read(addr), ..c1 }, m, 16)
    }
}

/// `z == 3`: JP a16, the CB prefix, DI, EI (the rest are NOPs).
pub open spec fn exec_jp_prefix(c: Cpu, m: BusView, op: u8) -> (Cpu, BusView, u8) {
    let y = (op / 8) % 8;
    if y == 0 {
        let (c1, dest) = fetch16(c, m);
        (c1.with_pc(dest), m, 16)
    } else if y == 1 {
        let (c1, cb) = fetch8(c, m);
        exec_cb(c1, m, cb)
    } else if y == 6 {
        (Cpu { ime: false, ..c }, m, 4)
    } else if y == 7 {
        (Cpu { ei_pending: true, ..c }, m, 4)
    } else {
        (c, m, 4)
    }
}

/// `z == 4`: CALL cc (the rest are NOPs).
pub open spec fn exec_call_cc(c: Cpu, m: BusView, op: u8) -> (Cpu, BusView, u8) {
    let y = (op / 8) % 8;
    if y <= 3 {
        let (c1, dest) = fetch16(c, m);
        if c.cond(y as int) {
            let (c2, m2) = push(c1, m, c1.pc);
            (c2.with_pc(dest), m2, 24)
        } else {
            (c1, m, 12)
        }
    } else {
        (c, m, 4)
    }
}

/// `z == 5`: PUSH rr and CALL a16 (the rest are NOPs).
pub open spec fn exec_push_call(c: Cpu, m: BusView, op: u8) -> (Cpu, BusView, u8) {
    let y = (op / 8) % 8;
    let p = (y / 2) as int;
    if y % 2 == 0 {
        let (c1, m1) = push(c, m, c.rr_stack(p));
        (c1, m1, 16)
    } else if p == 0 {
        let (c1, dest) = fetch16(c, m);
        let (c2, m2) = push(c1, m, c1.pc);
        (c2.with_pc(dest), m2, 24)
    } else {
        (c, m, 4)
    }
}

/// Opcodes `0xC0-0xFF`.
pub open spec fn exec_block3(c: Cpu, m: BusView, op: u8) -> (Cpu, BusView, u8) {
    let y = (op / 8) % 8;
    let z = op % 8;
    if z == 0 {
        exec_ret_ldh(c, m, op)
    } else if z == 1 {
        exec_pop_ret(c, m, op)
    } else if z == 2 {
        exec_jp_cc_ld(c, m, op)
    } else if z == 3 {
        exec_jp_prefix(c, m, op)
    } else if z == 4 {
        exec_call_cc(c, m, op)
    } else if z == 5 {
        exec_push_call(c, m, op)
    } else if z == 6 {
        let (c1, v) = fetch8(c, m);
        (alu(c1, y as int, v), m, 8)
    } else {
        let (c1, m1) = push(c, m, c.pc);
        (c1.with_pc((y * 8) as u16), m1, 16)
    }
}

#[verifier::opaque]
/// Execute opcode `op` (already fetched: PC points past it). Opcodes the
/// SM83 leaves undefined, and `0x08`, behave as a one-byte NOP.
pub open spec fn execute(c: Cpu, m: BusView, op: u8) -> (Cpu, BusView, u8) {
    if op < 0x40 {
        exec_block0(c, m, op)
    } else if op < 0x80 {
        exec_block1(c, m, op)
    } else if op < 0xC0 {
        exec_block2(c, m, op)
    } else {
        exec_block3(c, m, op)
    }
}

/// The lowest set bit among the five interrupt lines (`p` non-zero).
pub open spec fn lowest_interrupt(p: u8) -> u8 {
    if p & 0x01 != 0 {
        0
    } else if p & 0x02 != 0 {
        1
    } else if p & 0x04 != 0 {
        2
    } else if p & 0x08 != 0 {
        3
    } else {
        4
    }
}

/// Dispatch the lowest pending interrupt: IME off, its IF bit cleared, PC
/// pushed, jump to its vector `0x40 + 8 * bit`.
pub open spec fn service_interrupt(c: Cpu, m: BusView, pending: u8, if_reg: u8) -> (
    Cpu,
    BusView,
    u8,
) {
    let bit = lowest_interrupt(pending);
    let m1 = m.write(0xFF0F, if_reg & !(1u8 << bit));
    let (c1, m2) = push(Cpu { ime: false, ..c }, m1, c.pc);
    (c1.with_pc((0x40 + bit * 8) as u16), m2, 20)
}

#[verifier::opaque]
/// One CPU step: HALT wake-up, interrupt dispatch, the deferred EI, then
/// one instruction. Returns the T-cycles consumed.
pub open spec fn step(c: Cpu, m: BusView) -> (Cpu, BusView, u8) {
    let ie = m.read(0xFFFF);
    let if_reg = m.read(0xFF0F);
    let pending = ie & if_reg & 0x1F;
    if c.halted && pending == 0 {
        (c, m, 4)
    } else {
        let c1 = Cpu { halted: false, ..c };
        if c1.ime && pending != 0 {
            service_interrupt(c1, m, pending, if_reg)
        } else {
            let c2 = if c1.ei_pending {
                Cpu { ime: true, ei_pending: false, ..c1 }
            } else {
                c1
            };
            let (c3, op) = fetch8(c2, m);
            execute(c3, m, op)
        }
    }
}

// ----- Laws ----------------------------------------------------------------
/// Writing a register pair and reading it back gives the written word.
pub proof fn lemma_pair_roundtrip(c: Cpu, p: int, v: u16)
    requires
        0 <= p <= 3,
    ensures
        c.with_rr(p, v).rr(p) == v,
        p != 3 ==> c.with_rr_stack(p, v).rr_stack(p) == v,
        c.with_rr_stack(3, v).rr_stack(3) == (v / 256) * 256 + ((v % 256) as u8 & 0xF0),
{
}

/// PUSH then POP with the stack in work RAM restores the pushed word and
/// the stack pointer.
pub proof fn lemma_push_pop_roundtrip(c: Cpu, m: BusView, v: u16)
    requires
        m.wf(),
        0xC002 <= c.sp <= 0xDFFF,
    ensures
        ({
            let (c1, m1) = push(c, m, v);
            let (c2, w) = pop(c1, m1);
            &&& w == v
            &&& c2.sp == c.sp
        }),
{
    let (c1, m1) = push(c, m, v);
    crate::bus::lemma_word_write_read_roundtrip(m, c1.sp, v);
}

/// While halted with no interrupt both requested and enabled, a step
/// changes nothing and takes 4 T-cycles.
pub proof fn lemma_halt_idles(c: Cpu, m: BusView)
    requires
        c.halted,
        m.read(0xFFFF) & m.read(0xFF0F) & 0x1F == 0,
    ensures
        step(c, m) == (c, m, 4u8),
{
    reveal(step);
}

/// With IME set and an interrupt both requested and enabled, a step
/// dispatches it: IME is cleared, the old PC is pushed, PC jumps to one of
/// the five vectors `0x40, 0x48, 0x50, 0x58, 0x60`, and it takes 20
/// T-cycles.
pub proof fn lemma_interrupt_dispatch(c: Cpu, m: BusView)
    requires
        c.ime,
        m.read(0xFFFF) & m.read(0xFF0F) & 0x1F != 0,
    ensures
        ({
            let (c1, m1, n) = step(c, m);
            &&& !c1.ime
            &&& !c1.halted
            &&& n == 20
            &&& c1.sp == wrap16(c.sp - 2)
            &&& (c1.pc == 0x40 || c1.pc == 0x48 || c1.pc == 0x50 || c1.pc == 0x58 || c1.pc == 0x60)
        }),
{
    reveal(step);
}

/// EI takes effect one instruction late: executing EI leaves IME as it
/// was and only marks it pending; the next step (with no interrupt to
/// dispatch) sets IME before running its instruction.
pub proof fn lemma_ei_delay(c: Cpu, m: BusView)
    requires
        !c.halted,
        !c.ime,
        !c.ei_pending,
        m.read(c.pc) == 0xFB,
    ensures
        ({
            let (c1, m1, n) = step(c, m);
            &&& !c1.ime
            &&& c1.ei_pending
            &&& n == 4
        }),
        ({
            let c2 = Cpu { ei_pending: true, ..c };
            m.read(c.pc) == 0x00 ==> step(c2, m).0.ime && !step(c2, m).0.ei_pending
        }),
{
    reveal(step);
    reveal(execute);
}

/// What the bit masks of a byte mean in numbers: each single bit, the
/// low bit fields, the high nibble, and the paired NR51 routing bits.
pub proof fn lemma_byte_bits(x: u8)
    by (bit_vector)
    ensures
        (x & 0x01 != 0) <==> (x % 2 == 1),
        (x & 0x02 != 0) <==> ((x / 2) % 2 == 1),
        (x & 0x04 != 0) <==> ((x / 4) % 2 == 1),
        (x & 0x08 != 0) <==> ((x / 8) % 2 == 1),
        (x & 0x10 != 0) <==> ((x / 16) % 2 == 1),
        (x & 0x20 != 0) <==> ((x / 32) % 2 == 1),
        (x & 0x40 != 0) <==> ((x / 64) % 2 == 1),
        (x & 0x80 != 0) <==> (x >= 128),
        (x & 0x80 != 0) <==> ((x / 128) % 2 == 1),
        x & 0xFE == x - x % 2,
        x & 3 == x % 4,
        x & 7 == x % 8,
        x & 0x0F == x % 16,
        x & 0x1F == x % 32,
        x & 0x3F == x % 64,
        x & 0x7F == x % 128,
        x >> 4 == x / 16,
        (x & 0x11 != 0) <==> (x % 2 == 1 || (x / 16) % 2 == 1),
        (x & 0x22 != 0) <==> ((x / 2) % 2 == 1 || (x / 32) % 2 == 1),
        (x & 0x88 != 0) <==> ((x / 8) % 2 == 1 || (x / 128) % 2 == 1),
{
}

/// Bit facts behind the flag register's always-zero low nibble.
proof fn lemma_flag_bits(f: u8, x: u8, z: bool, n: bool, h: bool, cy: bool)
    by (bit_vector)
    ensures
        flags(z, n, h, cy) & 0x0F == 0,
        f & 0x0F == 0 ==> ((f & FLAG_C) | flags(z, n, h, cy)) & 0x0F == 0,
        f & 0x0F == 0 ==> ((f & FLAG_Z) | flags(z, n, h, cy)) & 0x0F == 0,
        f & 0x0F == 0 ==> set_flag(f, FLAG_C, cy) & 0x0F == 0,
        f & 0x0F == 0 ==> set_flag(f, FLAG_N, n) & 0x0F == 0,
        f & 0x0F == 0 ==> set_flag(f, FLAG_H, h) & 0x0F == 0,
        (x & 0xF0) & 0x0F == 0,
{
}

proof fn lemma_low_nibble_alu(c: Cpu, op: int, v: u8)
    ensures
        alu(c, op, v).f & 0x0F == 0,
{
    let a = c.a as int;
    lemma_flag_bits(0, 0, false, false, false, false);
    lemma_flag_bits(0, 0, wrap8(a + v) == 0, false, a % 16 + v % 16 > 15, a + v > 255);
    let cy: int = if c.cf() { 1 } else { 0 };
    lemma_flag_bits(0, 0, wrap8(a + v + cy) == 0, false, a % 16 + v % 16 + cy > 15, a + v + cy > 255);
    lemma_flag_bits(0, 0, wrap8(a - v) == 0, true, a % 16 < v % 16, a < v);
    lemma_flag_bits(0, 0, wrap8(a - v - cy) == 0, true, a % 16 < v % 16 + cy, a < v + cy);
    lemma_flag_bits(0, 0, c.a & v == 0, false, true, false);
    lemma_flag_bits(0, 0, c.a ^ v == 0, false, false, false);
    lemma_flag_bits(0, 0, c.a | v == 0, false, false, false);
    lemma_flag_bits(0, 0, a == v, true, a % 16 < v % 16, a < v);
}

proof fn lemma_low_nibble_block0(c: Cpu, m: BusView, op: u8)
    requires
        c.f & 0x0F == 0,
        op < 0x40,
    ensures
        exec_block0(c, m, op).0.f & 0x0F == 0,
{
    let y = (op / 8) % 8;
    let z = op % 8;
    if z == 1 && y % 2 == 1 {
        let hl = c.hl() as int;
        let v = c.rr((y / 2) as int);
        lemma_flag_bits(c.f, 0, false, false, hl % 4096 + v % 4096 > 4095, hl + v > 65535);
    } else if z == 4 || z == 5 {
        let v = get_r(c, m, y as int);
        let dec = z == 5;
        let res = if dec {
            wrap8(v - 1)
        } else {
            wrap8(v + 1)
        };
        let h = if dec {
            v % 16 == 0
        } else {
            v % 16 == 15
        };
        lemma_flag_bits(c.f, 0, res == 0, dec, h, false);
    } else if z == 7 {
        lemma_flag_bits(c.f, 0, false, false, false, c.a >= 128);
        lemma_flag_bits(c.f, 0, false, false, false, c.a % 2 == 1);
        let d = daa(c);
        lemma_flag_bits(c.f, 0, d.a == 0, c.nf(), false, c.cf() || (!c.nf() && c.a > 0x99));
        lemma_flag_bits(c.f, 0, false, true, true, true);
        lemma_flag_bits(set_flag(c.f, FLAG_N, true), 0, false, true, true, true);
        lemma_flag_bits(set_flag(c.f, FLAG_C, true), 0, false, false, false, true);
        lemma_flag_bits(set_flag(set_flag(c.f, FLAG_C, true), FLAG_N, false), 0, false, false, false, true);
        lemma_flag_bits(c.f, 0, false, false, false, !c.cf());
        lemma_flag_bits(set_flag(c.f, FLAG_C, !c.cf()), 0, false, false, false, true);
        lemma_flag_bits(set_flag(set_flag(c.f, FLAG_C, !c.cf()), FLAG_N, false), 0, false, false, false, true);
    }
}

proof fn lemma_low_nibble_cb(c: Cpu, m: BusView, op: u8)
    requires
        c.f & 0x0F == 0,
    ensures
        exec_cb(c, m, op).0.f & 0x0F == 0,
{
    let y = (op / 8) % 8;
    let z = op % 8;
    let v = get_r(c, m, z as int);
    let (r, carry) = shift_rotate(y as int, v, c.cf());
    lemma_flag_bits(c.f, 0, r == 0, false, false, carry);
    lemma_flag_bits(c.f, 0, (v & (1u8 << y)) == 0, false, true, false);
}

proof fn lemma_low_nibble_block3(c: Cpu, m: BusView, op: u8)
    requires
        c.f & 0x0F == 0,
        op >= 0xC0,
    ensures
        exec_block3(c, m, op).0.f & 0x0F == 0,
{
    let y = (op / 8) % 8;
    let z = op % 8;
    if z == 0 && y >= 5 && y != 6 {
        let (c1, b) = fetch8(c, m);
        let sp = c.sp as int;
        lemma_flag_bits(0, 0, false, false, sp % 16 + b % 16 > 15, sp % 256 + b > 255);
    } else if z == 1 && y == 6 {
        let (c1, v) = pop(c, m);
        lemma_flag_bits(0, (v % 256) as u8, false, false, false, false);
    } else if z == 3 && y == 1 {
        let (c1, cb) = fetch8(c, m);
        lemma_low_nibble_cb(c1, m, cb);
    } else if z == 6 {
        let (c1, v) = fetch8(c, m);
        lemma_low_nibble_alu(c1, y as int, v);
    }
}

/// The low nibble of F is hard-wired to zero: a step from a state with it
/// zero leaves it zero, whatever instruction or interrupt runs.
pub proof fn lemma_flags_low_nibble_zero(c: Cpu, m: BusView)
    requires
        c.f & 0x0F == 0,
    ensures
        step(c, m).0.f & 0x0F == 0,
{
    reveal(step);
    reveal(execute);
    let ie = m.read(0xFFFF);
    let if_reg = m.read(0xFF0F);
    let pending = ie & if_reg & 0x1F;
    if !(c.halted && pending == 0) {
        let c1 = Cpu { halted: false, ..c };
        if !(c1.ime && pending != 0) {
            let c2 = if c1.ei_pending {
                Cpu { ime: true, ei_pending: false, ..c1 }
            } else {
                c1
            };
            let (c3, op) = fetch8(c2, m);
            if op < 0x40 {
                lemma_low_nibble_block0(c3, m, op);
            } else if op < 0x80 {
            } else if op < 0xC0 {
                lemma_low_nibble_alu(c3, ((op / 8) % 8) as int, get_r(c3, m, (op % 8) as int));
            } else {
                lemma_low_nibble_block3(c3, m, op);
            }
        }
    }
}


/// Every step takes a whole number of machine cycles: a multiple of four
/// T-cycles, from one machine cycle (4) up to six (24).
pub proof fn lemma_step_whole_machine_cycles(c: Cpu, m: BusView)
    ensures
        step(c, m).2 % 4 == 0,
        4 <= step(c, m).2 <= 24,
{
    reveal(step);
    reveal(execute);
}

/// CALL then RET: `CALL a16` pushes the address just past its operand and
/// jumps to the operand; a later `RET` that finds those two stack bytes as
/// CALL left them, with SP back where CALL put it, returns right after the
/// CALL and restores SP.
#[verifier::rlimit(60)]
#[verifier::spinoff_prover]
pub proof fn lemma_call_then_ret(c: Cpu, m: BusView, c2: Cpu, m2: BusView)
    requires
        m.wf(),
        0xC002 <= c.sp <= 0xE000,
        c2.sp == c.sp - 2,
        m2.read((c.sp - 2) as u16) == execute(c, m, 0xCD).1.read((c.sp - 2) as u16),
        m2.read((c.sp - 1) as u16) == execute(c, m, 0xCD).1.read((c.sp - 1) as u16),
    ensures
        ({
            let (c1, m1, n1) = execute(c, m, 0xCD);
            &&& n1 == 24
            &&& c1.sp == c.sp - 2
            &&& c1.pc == m.read_word(c.pc)
            &&& m1.read_word(c1.sp) == wrap16(c.pc + 2)
        }),
        ({
            let (c3, m3, n3) = execute(c2, m2, 0xC9);
            &&& n3 == 16
            &&& c3.pc == wrap16(c.pc + 2)
            &&& c3.sp == c.sp
        }),
{
    assert(execute(c, m, 0xCD) == exec_push_call(c, m, 0xCD)) by {
        reveal(execute);
    }
    assert(execute(c2, m2, 0xC9) == exec_pop_ret(c2, m2, 0xC9)) by {
        reveal(execute);
    }
    let (c1, dest) = fetch16(c, m);
    assert(c1.pc == wrap16(c.pc + 2));
    let sp = (c.sp - 2) as u16;
    crate::bus::lemma_word_write_read_roundtrip(m, sp, c1.pc);
    let m1 = m.write_word(sp, c1.pc);
    assert(m1.read_word(sp) == c1.pc);
    assert(m2.read_word(sp) == m1.read_word(sp));
}

/// RRC undoes RLC and RLC undoes RRC; SWAP undoes itself.
pub proof fn lemma_rotate_and_swap_undo(v: u8, c1: bool, c2: bool)
    ensures
        shift_rotate(1, shift_rotate(0, v, c1).0, c2).0 == v,
        shift_rotate(0, shift_rotate(1, v, c1).0, c2).0 == v,
        shift_rotate(6, shift_rotate(6, v, c1).0, c2).0 == v,
{
    let l = shift_rotate(0, v, c1).0;
    let r = shift_rotate(1, v, c1).0;
    let w = shift_rotate(6, v, c1).0;
    lemma_rotate_bits(v, l, r, w);
}

proof fn lemma_rotate_bits(v: u8, l: u8, r: u8, w: u8)
    by (bit_vector)
    requires
        l == (v << 1u8) | (v >> 7u8),
        r == (v >> 1u8) | ((v & 1) << 7u8),
        w == (v << 4u8) | (v >> 4u8),
    ensures
        ((l >> 1u8) | ((l & 1) << 7u8)) == v,
        ((r << 1u8) | (r >> 7u8)) == v,
        ((w << 4u8) | (w >> 4u8)) == v,
{
}

/// CP sets the flags exactly as SUB does, but leaves A (and every other
/// register) as it was.
pub proof fn lemma_cp_is_sub_without_store(c: Cpu, v: u8)
    ensures
        alu(c, 7, v) == (Cpu { f: alu(c, 2, v).f, ..c }),
{
    let a = c.a as int;
    assert((wrap8(a - v) == 0) == (a == v));
}

/// Interrupt priority and vectors: of the interrupts both requested (IF)
/// and enabled (IE), V-Blank (bit 0) goes first, then STAT (bit 1), timer
/// (bit 2), serial (bit 3) and joypad (bit 4), jumping to 0x40, 0x48,
/// 0x50, 0x58 and 0x60; the dispatched request is cleared from IF and the
/// others stay.
#[verifier::spinoff_prover]
pub proof fn lemma_interrupt_vectors(c: Cpu, m: BusView)
    requires
        m.wf(),
        c.ime,
        m.read(0xFFFF) & m.read(0xFF0F) & 0x1F != 0,
        0xC002 <= c.sp <= 0xE000,
    ensures
        ({
            let p = m.read(0xFFFF) & m.read(0xFF0F) & 0x1F;
            let (c1, m1, n) = step(c, m);
            let b: u8 = if p % 2 == 1 {
                0
            } else if (p / 2) % 2 == 1 {
                1
            } else if (p / 4) % 2 == 1 {
                2
            } else if (p / 8) % 2 == 1 {
                3
            } else {
                4
            };
            &&& c1.pc == 0x40 + 8 * b
            &&& m1.if_reg == (m.if_reg & !(1u8 << b)) | 0xE0
        }),
{
    reveal(step);
    let p = m.read(0xFFFF) & m.read(0xFF0F) & 0x1F;
    lemma_byte_bits(p);
    let b = lowest_interrupt(p);
    let f = m.read(0xFF0F);
    assert(f == m.if_reg | 0xE0);
    let g = m.if_reg;
    assert(b <= 4 ==> ((g | 0xE0) & !(1u8 << b)) | 0xE0 == (g & !(1u8 << b)) | 0xE0)
        by (bit_vector);
    let m1 = m.write(0xFF0F, f & !(1u8 << b));
    let (c1, m2) = push(Cpu { ime: false, halted: false, ..c }, m1, c.pc);
    assert(m2.if_reg == m1.if_reg);
}

/// The flag register's layout: Z is bit 7, N bit 6, H bit 5, C bit 4, and
/// the low nibble is zero; the conditions NZ, Z, NC, C read Z and C.
pub proof fn lemma_flag_layout(z: bool, n: bool, h: bool, cy: bool, c: Cpu)
    ensures
        flags(z, n, h, cy) == (if z { 128int } else { 0 }) + (if n { 64int } else { 0 }) + (if h {
            32int
        } else {
            0
        }) + (if cy { 16int } else { 0 }),
        c.zf() == ((c.f / 128) % 2 == 1),
        c.nf() == ((c.f / 64) % 2 == 1),
        c.hf() == ((c.f / 32) % 2 == 1),
        c.cf() == ((c.f / 16) % 2 == 1),
        c.cond(0) == !c.zf(),
        c.cond(1) == c.zf(),
        c.cond(2) == !c.cf(),
        c.cond(3) == c.cf(),
{
    let f = c.f;
    lemma_byte_bits(f);
    lemma_flags_value(z, n, h, cy);
}

proof fn lemma_flags_value(z: bool, n: bool, h: bool, cy: bool)
    by (bit_vector)
    ensures
        flags(z, n, h, cy) == (if z { 128u8 } else { 0u8 }) + (if n { 64u8 } else { 0u8 }) + (if h {
            32u8
        } else {
            0u8
        }) + (if cy { 16u8 } else { 0u8 }),
{
}

/// The eight accumulator operations on A and an operand `v`, in numbers:
/// ADD/ADC/SUB/SBC compute the sum or difference modulo 256 with the
/// half-carry from bit 3 and the carry from bit 7 (borrows for SUB/SBC),
/// AND/XOR/OR combine bitwise (AND sets H), CP compares like SUB without
/// storing; every other register is kept.
#[verifier::rlimit(60)]
#[verifier::spinoff_prover]
pub proof fn lemma_alu_arithmetic(c: Cpu, v: u8)
    ensures
        ({
            let a = c.a as int;
            let cy: int = if c.cf() { 1 } else { 0 };
            &&& alu(c, 0, v) == Cpu { a: ((a + v) % 256) as u8, f: flags((a + v) % 256 == 0, false, a % 16 + v % 16 > 15, a + v > 255), ..c }
            &&& alu(c, 1, v) == Cpu { a: ((a + v + cy) % 256) as u8, f: flags((a + v + cy) % 256 == 0, false, a % 16 + v % 16 + cy > 15, a + v + cy > 255), ..c }
            &&& alu(c, 2, v) == Cpu { a: ((a - v + 256) % 256) as u8, f: flags(a == v, true, a % 16 < v % 16, a < v), ..c }
            &&& alu(c, 3, v) == Cpu { a: ((a - v - cy + 512) % 256) as u8, f: flags((a - v - cy + 512) % 256 == 0, true, a % 16 < v % 16 + cy, a < v + cy), ..c }
            &&& alu(c, 4, v) == Cpu { a: c.a & v, f: flags(c.a & v == 0, false, true, false), ..c }
            &&& alu(c, 5, v) == Cpu { a: c.a ^ v, f: flags(c.a ^ v == 0, false, false, false), ..c }
            &&& alu(c, 6, v) == Cpu { a: c.a | v, f: flags(c.a | v == 0, false, false, false), ..c }
            &&& alu(c, 7, v) == Cpu { f: flags(a == v, true, a % 16 < v % 16, a < v), ..c }
        }),
{
}

/// Register operand numbering: 0 B, 1 C, 2 D, 3 E, 4 H, 5 L, 6 the byte at
/// HL, 7 A.
pub proof fn lemma_register_operands(c: Cpu, m: BusView, v: u8)
    ensures
        get_r(c, m, 0) == c.b && set_r(c, m, 0, v) == (Cpu { b: v, ..c }, m),
        get_r(c, m, 1) == c.c && set_r(c, m, 1, v) == (Cpu { c: v, ..c }, m),
        get_r(c, m, 2) == c.d && set_r(c, m, 2, v) == (Cpu { d: v, ..c }, m),
        get_r(c, m, 3) == c.e && set_r(c, m, 3, v) == (Cpu { e: v, ..c }, m),
        get_r(c, m, 4) == c.h && set_r(c, m, 4, v) == (Cpu { h: v, ..c }, m),
        get_r(c, m, 5) == c.l && set_r(c, m, 5, v) == (Cpu { l: v, ..c }, m),
        get_r(c, m, 6) == m.read((c.h * 256 + c.l) as u16) && set_r(c, m, 6, v) == (c, m.write(
            (c.h * 256 + c.l) as u16,
            v,
        )),
        get_r(c, m, 7) == c.a && set_r(c, m, 7, v) == (Cpu { a: v, ..c }, m),
{
}

/// Decoding of 0x40-0xBF: `0x40 + 8·d + s` loads register `d` from
/// register `s` (4 T-cycles, 8 when either is the byte at HL), except 0x76,
/// HALT; `0x80 + 8·k + s` applies accumulator operation `k` (ADD, ADC, SUB,
/// SBC, AND, XOR, OR, CP) to register `s` in 4 T-cycles.
#[verifier::rlimit(60)]
pub proof fn lemma_decode_load_and_alu(c: Cpu, m: BusView, op: u8)
    requires
        0x40 <= op < 0xC0,
    ensures
        op == 0x76 ==> execute(c, m, op) == (Cpu { halted: true, ..c }, m, 4u8),
        op < 0x80 && op != 0x76 ==> ({
            let d = (op - 0x40) / 8;
            let src = op % 8;
            let (c1, m1) = set_r(c, m, d, get_r(c, m, src as int));
            execute(c, m, op) == (c1, m1, if d == 6 || src == 6 { 8u8 } else { 4u8 })
        }),
        op >= 0x80 ==> execute(c, m, op) == (alu(c, (op - 0x80) / 8, get_r(c, m, (op % 8) as int)), m, 4u8),
{
    reveal(execute);
}

proof fn lemma_shift_bits(v: u8, cin: u8)
    by (bit_vector)
    requires
        cin <= 1,
    ensures
        v < 128 ==> (v << 1u8) | (v >> 7u8) == 2 * v,
        v >= 128 ==> ((v << 1u8) | (v >> 7u8)) + 255 == 2 * v,
        (v >> 1u8) | ((v & 1) << 7u8) == v / 2 + 128 * (v % 2),
        v < 128 ==> (v << 1u8) | cin == 2 * v + cin,
        v >= 128 ==> ((v << 1u8) | cin) + 256 == 2 * v + cin,
        (v >> 1u8) | (cin << 7u8) == v / 2 + 128 * cin,
        v < 128 ==> v << 1u8 == 2 * v,
        v >= 128 ==> (v << 1u8) + 256 == 2 * v,
        (v >> 1u8) | (v & 0x80) == v / 2 + 128 * (v / 128),
        (v << 4u8) | (v >> 4u8) == 16 * (v % 16) + v / 16,
        v >> 1u8 == v / 2,
{
}

/// The CB-page rotates and shifts in numbers: RLC, RRC, RL, RR (through
/// the carry), SLA, SRA (keeping bit 7), SWAP (exchanging the nibbles) and
/// SRL, each with the bit shifted out as the new carry (none for SWAP).
#[verifier::spinoff_prover]
pub proof fn lemma_shift_rotate_arithmetic(v: u8, carry_in: bool)
    ensures
        ({
            let cin: int = if carry_in { 1 } else { 0 };
            &&& shift_rotate(0, v, carry_in) == (((2 * v + v / 128) % 256) as u8, v >= 128)
            &&& shift_rotate(1, v, carry_in) == ((v / 2 + 128 * (v % 2)) as u8, v % 2 == 1)
            &&& shift_rotate(2, v, carry_in) == (((2 * v + cin) % 256) as u8, v >= 128)
            &&& shift_rotate(3, v, carry_in) == ((v / 2 + 128 * cin) as u8, v % 2 == 1)
            &&& shift_rotate(4, v, carry_in) == (((2 * v) % 256) as u8, v >= 128)
            &&& shift_rotate(5, v, carry_in) == ((v / 2 + 128 * (v / 128)) as u8, v % 2 == 1)
            &&& shift_rotate(6, v, carry_in) == ((16 * (v % 16) + v / 16) as u8, false)
            &&& shift_rotate(7, v, carry_in) == ((v / 2) as u8, v % 2 == 1)
        }),
{
    let cin: u8 = if carry_in { 1 } else { 0 };
    lemma_shift_bits(v, cin);
}

/// Decoding of the CB page: `8·y + z` with the top two bits 0 rotates or
/// shifts register `z` by operation `y` (Z from the result, N and H clear,
/// C the bit shifted out); 1 tests bit `y` (Z set when it is clear, H set,
/// N clear, C kept); 2 clears bit `y`; 3 sets it. Registers take 8
/// T-cycles; the byte at HL takes 16 (12 for a bit test).
#[verifier::spinoff_prover]
pub proof fn lemma_cb_decode(c: Cpu, m: BusView, op: u8)
    ensures
        ({
            let y = (op / 8) % 8;
            let z = op % 8;
            let v = get_r(c, m, z as int);
            let slow = z == 6;
            &&& op < 0x40 ==> ({
                let (r, carry) = shift_rotate(y as int, v, c.cf());
                let (c1, m1) = set_r(Cpu { f: flags(r == 0, false, false, carry), ..c }, m, z as int, r);
                exec_cb(c, m, op) == (c1, m1, if slow { 16u8 } else { 8u8 })
            })
            &&& 0x40 <= op < 0x80 ==> exec_cb(c, m, op) == (
                Cpu { f: flags((v >> y) % 2 == 0, false, true, c.cf()), ..c },
                m,
                if slow { 12u8 } else { 8u8 },
            )
            &&& 0x80 <= op < 0xC0 ==> ({
                let (c1, m1) = set_r(c, m, z as int, (v - ((v >> y) % 2) * (1u8 << y)) as u8);
                exec_cb(c, m, op) == (c1, m1, if slow { 16u8 } else { 8u8 })
            })
            &&& 0xC0 <= op ==> ({
                let (c1, m1) = set_r(c, m, z as int, (v + (1u8 << y) - ((v >> y) % 2) * (1u8 << y)) as u8);
                exec_cb(c, m, op) == (c1, m1, if slow { 16u8 } else { 8u8 })
            })
        }),
{
    let y = (op / 8) % 8;
    let v = get_r(c, m, (op % 8) as int);
    let f = c.f;
    lemma_cb_bits(v, y, f, (v & (1u8 << y)) == 0);
}

proof fn lemma_cb_bits(v: u8, y: u8, f: u8, b: bool)
    by (bit_vector)
    requires
        y < 8,
    ensures
        ((v & (1u8 << y)) == 0) == ((v >> y) % 2 == 0),
        (v & !(1u8 << y)) + ((v >> y) % 2) * (1u8 << y) == v,
        (v | (1u8 << y)) + ((v >> y) % 2) * (1u8 << y) == v + (1u8 << y),
        (f & 0x10) | flags(b, false, true, false) == flags(b, false, true, (f & 0x10) != 0),
{
}

proof fn lemma_keep_flag_bits(f: u8, z: bool, n: bool, h: bool, cy: bool)
    by (bit_vector)
    ensures
        (f & 0x10) | flags(z, n, h, false) == flags(z, n, h, (f & 0x10) != 0),
        (f & 0x80) | flags(false, n, h, cy) == flags((f & 0x80) != 0, n, h, cy),
        set_flag(set_flag(f, 0x40, true), 0x20, true) == flags((f & 0x80) != 0, true, true, (f
            & 0x10) != 0) | (f & 0x0F),
        set_flag(set_flag(set_flag(f, 0x10, cy), 0x40, false), 0x20, false) == flags((f & 0x80)
            != 0, false, false, cy) | (f & 0x0F),
{
}

/// INC r and DEC r in numbers: the register moves by one modulo 256; Z
/// from the result, N set for DEC, H for a carry out of (borrow into) the
/// low nibble, C kept. Register operands take 4 T-cycles.
#[verifier::rlimit(60)]
#[verifier::spinoff_prover]
pub proof fn lemma_inc_dec_arithmetic(c: Cpu, m: BusView, y: u8)
    requires
        y < 8,
        y != 6,
    ensures
        ({
            let v = get_r(c, m, y as int);
            let inc = execute(c, m, (8 * y + 4) as u8);
            let dec = execute(c, m, (8 * y + 5) as u8);
            let up = ((v + 1) % 256) as u8;
            let down = ((v + 255) % 256) as u8;
            &&& inc == (set_r(Cpu { f: flags(up == 0, false, v % 16 == 15, c.cf()), ..c }, m, y as int, up).0, m, 4u8)
            &&& dec == (set_r(Cpu { f: flags(down == 0, true, v % 16 == 0, c.cf()), ..c }, m, y as int, down).0, m, 4u8)
        }),
{
    reveal(execute);
    let v = get_r(c, m, y as int);
    lemma_keep_flag_bits(c.f, ((v + 1) % 256) as u8 == 0, false, v % 16 == 15, false);
    lemma_keep_flag_bits(c.f, ((v + 255) % 256) as u8 == 0, true, v % 16 == 0, false);
    assert(wrap8(v - 1) == ((v + 255) % 256) as u8);
}

/// ADD HL,rr in numbers: HL becomes HL + rr modulo 65536, H is the carry
/// out of bit 11, C out of bit 15, N clear, Z kept; 8 T-cycles.
#[verifier::spinoff_prover]
pub proof fn lemma_add_hl_arithmetic(c: Cpu, m: BusView, p: u8)
    requires
        p < 4,
    ensures
        ({
            let hl = c.h * 256 + c.l;
            let v = c.rr(p as int);
            let (c1, m1, n) = execute(c, m, (16 * p + 9) as u8);
            &&& c1.h * 256 + c1.l == (hl + v) % 65536
            &&& c1.f == flags(c.zf(), false, hl % 4096 + v % 4096 > 4095, hl + v > 65535)
            &&& c1.a == c.a && c1.sp == c.sp && c1.pc == c.pc
            &&& n == 8
        }),
{
    reveal(execute);
    let hl = c.hl() as int;
    let v = c.rr(p as int);
    lemma_keep_flag_bits(c.f, false, false, hl % 4096 + v % 4096 > 4095, hl + v > 65535);
}

/// ADD SP,e and LD HL,SP+e: the signed byte `e` (−128..127) is added to
/// SP modulo 65536; H and C come from the unsigned addition of the low
/// nibble and low byte, Z and N are clear.
pub proof fn lemma_sp_offset_arithmetic(c: Cpu, b: u8)
    ensures
        sp_offset(c, b).0 == (c.sp + (if b < 128 { b as int } else { b - 256 }) + 65536) % 65536,
        sp_offset(c, b).1 == flags(false, false, c.sp % 16 + b % 16 > 15, c.sp % 256 + b > 255),
{
}

/// Relative jumps: JR (0x18) and JR NZ/Z/NC/C (opcode `0x20 + 8·cc`) add
/// the signed byte after the opcode to the address after it, the
/// conditional forms exactly when their condition holds.
#[verifier::spinoff_prover]
pub proof fn lemma_relative_jumps(c: Cpu, m: BusView, cc: u8)
    requires
        cc < 4,
    ensures
        ({
            let b = m.read(c.pc);
            let after = wrap16(c.pc + 1);
            let target = wrap16(after + (if b < 128 { b as int } else { b - 256 }));
            &&& execute(c, m, 0x18).0.pc == target
            &&& execute(c, m, (0x20 + 8 * cc) as u8).0.pc == (if c.cond(cc as int) { target } else { after })
        }),
{
    let op = (0x20 + 8 * cc) as u8;
    assert(execute(c, m, 0x18) == exec_misc0(c, m, 0x18)) by {
        reveal(execute);
    }
    assert(execute(c, m, op) == exec_misc0(c, m, op)) by {
        reveal(execute);
    }
}

/// Absolute jumps and calls: JP a16 (0xC3) goes to the word after the
/// opcode; JP cc and CALL cc (`0xC2 + 8·cc`, `0xC4 + 8·cc`) go there
/// exactly when the condition holds, else step over the operand.
#[verifier::rlimit(60)]
#[verifier::spinoff_prover]
pub proof fn lemma_jumps_and_calls(c: Cpu, m: BusView, cc: u8)
    requires
        cc < 4,
    ensures
        execute(c, m, 0xC3).0.pc == m.read_word(c.pc),
        execute(c, m, (0xC2 + 8 * cc) as u8).0.pc == (if c.cond(cc as int) {
            m.read_word(c.pc)
        } else {
            wrap16(c.pc + 2)
        }),
        execute(c, m, (0xC4 + 8 * cc) as u8).0.pc == (if c.cond(cc as int) {
            m.read_word(c.pc)
        } else {
            wrap16(c.pc + 2)
        }),
{
    let j = (0xC2 + 8 * cc) as u8;
    let k = (0xC4 + 8 * cc) as u8;
    assert(execute(c, m, 0xC3) == exec_jp_prefix(c, m, 0xC3)) by {
        reveal(execute);
    }
    assert(execute(c, m, j) == exec_jp_cc_ld(c, m, j)) by {
        reveal(execute);
    }
    assert(execute(c, m, k) == exec_call_cc(c, m, k)) by {
        reveal(execute);
    }
}

/// Returns: RET (0xC9) and RET cc (`0xC0 + 8·cc`, when the condition
/// holds) take PC from the stack; RET cc otherwise falls through.
#[verifier::rlimit(60)]
#[verifier::spinoff_prover]
pub proof fn lemma_returns(c: Cpu, m: BusView, cc: u8)
    requires
        cc < 4,
    ensures
        execute(c, m, 0xC9).0.pc == m.read_word(c.sp),
        execute(c, m, (0xC0 + 8 * cc) as u8).0.pc == (if c.cond(cc as int) {
            m.read_word(c.sp)
        } else {
            c.pc
        }),
{
    let r = (0xC0 + 8 * cc) as u8;
    assert(execute(c, m, 0xC9) == exec_pop_ret(c, m, 0xC9)) by {
        reveal(execute);
    }
    assert(execute(c, m, r) == exec_ret_ldh(c, m, r)) by {
        reveal(execute);
    }
}

/// Restarts: RST (`0xC7 + 8·k`) pushes the return address and jumps to
/// `8·k` in 16 T-cycles.
#[verifier::rlimit(60)]
#[verifier::spinoff_prover]
pub proof fn lemma_restarts(c: Cpu, m: BusView, k: u8)
    requires
        k < 8,
    ensures
        execute(c, m, (0xC7 + 8 * k) as u8).0.pc == 8 * k,
        execute(c, m, (0xC7 + 8 * k) as u8).0.sp == wrap16(c.sp - 2),
        execute(c, m, (0xC7 + 8 * k) as u8).2 == 16,
{
    let t = (0xC7 + 8 * k) as u8;
    assert(t % 8 == 7 && (t / 8) % 8 == k && t >= 0xC0);
    assert(execute(c, m, t) == exec_block3(c, m, t)) by {
        reveal(execute);
    }
    let (c1, m1) = push(c, m, c.pc);
    assert(exec_block3(c, m, t) == (c1.with_pc((k * 8) as u16), m1, 16u8));
}

/// The accumulator operations of 0x07-0x3F: RLCA, RRCA, RLA, RRA rotate A
/// like their CB forms but always clear Z; CPL complements A and sets N and
/// H; SCF sets C; CCF flips C (both clear N and H, and keep Z).
#[verifier::spinoff_prover]
pub proof fn lemma_accumulator_ops(c: Cpu, m: BusView)
    requires
        c.f % 16 == 0,
    ensures
        execute(c, m, 0x07).0 == (Cpu { a: shift_rotate(0, c.a, c.cf()).0, f: flags(false, false, false, shift_rotate(0, c.a, c.cf()).1), ..c }),
        execute(c, m, 0x0F).0 == (Cpu { a: shift_rotate(1, c.a, c.cf()).0, f: flags(false, false, false, shift_rotate(1, c.a, c.cf()).1), ..c }),
        execute(c, m, 0x17).0 == (Cpu { a: shift_rotate(2, c.a, c.cf()).0, f: flags(false, false, false, shift_rotate(2, c.a, c.cf()).1), ..c }),
        execute(c, m, 0x1F).0 == (Cpu { a: shift_rotate(3, c.a, c.cf()).0, f: flags(false, false, false, shift_rotate(3, c.a, c.cf()).1), ..c }),
        execute(c, m, 0x2F).0 == (Cpu { a: (255 - c.a) as u8, f: flags(c.zf(), true, true, c.cf()), ..c }),
        execute(c, m, 0x37).0 == (Cpu { f: flags(c.zf(), false, false, true), ..c }),
        execute(c, m, 0x3F).0 == (Cpu { f: flags(c.zf(), false, false, !c.cf()), ..c }),
{
    reveal(execute);
    let f = c.f;
    lemma_keep_flag_bits(f, false, false, false, true);
    lemma_keep_flag_bits(f, false, false, false, !c.cf());
    lemma_byte_bits(f);
    let a = c.a;
    let cin: u8 = if c.cf() { 1 } else { 0 };
    let cin7: u8 = if c.cf() { 0x80 } else { 0 };
    assert(cin <= 1 ==> (cin << 7u8) == (if cin == 1 { 0x80u8 } else { 0u8 })) by (bit_vector);
    assert(f & 0x0F == 0 ==> (flags((f & 0x80) != 0, true, true, (f & 0x10) != 0) | (f & 0x0F))
        == flags((f & 0x80) != 0, true, true, (f & 0x10) != 0) && (flags((f & 0x80) != 0, false,
        false, true) | (f & 0x0F)) == flags((f & 0x80) != 0, false, false, true) && (flags((f
        & 0x80) != 0, false, false, (f & 0x10) == 0) | (f & 0x0F)) == flags((f & 0x80) != 0, false,
        false, (f & 0x10) == 0)) by (bit_vector);
}

/// A byte holding two decimal digits, one per nibble (packed BCD).
pub open spec fn is_bcd(b: u8) -> bool {
    b / 16 <= 9 && b % 16 <= 9
}

/// The number a packed-BCD byte stands for.
pub open spec fn bcd_value(b: u8) -> int {
    (b / 16) * 10 + b % 16
}

/// Bit facts behind reading one flag back from the flag register.
proof fn lemma_flags_read(z: bool, n: bool, h: bool, cy: bool)
    by (bit_vector)
    ensures
        (flags(z, n, h, cy) & FLAG_Z != 0) <==> z,
        (flags(z, n, h, cy) & FLAG_N != 0) <==> n,
        (flags(z, n, h, cy) & FLAG_H != 0) <==> h,
        (flags(z, n, h, cy) & FLAG_C != 0) <==> cy,
{
}

proof fn lemma_wrap8_cases(t: int)
    requires
        -256 <= t < 512,
    ensures
        t < 0 ==> wrap8(t) == t + 256,
        0 <= t <= 255 ==> wrap8(t) == t,
        t > 255 ==> wrap8(t) + 256 == t,
{
}

proof fn lemma_mod_100(s: int, b: int)
    requires
        -100 < s < 200,
        s < 0 ==> b == s + 100,
        0 <= s < 100 ==> b == s,
        s >= 100 ==> b + 100 == s,
    ensures
        b == s % 100,
{
}

/// The decimal adjustment after a binary sum of two packed-BCD bytes, as
/// bare arithmetic on the bytes.
proof fn lemma_bcd_add_adjust(x: u8, y: u8, r: u8, adj: u8, res: u8, low: bool, high: bool)
    by (bit_vector)
    requires
        x / 16 <= 9,
        x % 16 <= 9,
        y / 16 <= 9,
        y % 16 <= 9,
        x + y <= 255 ==> r == x + y,
        x + y > 255 ==> r + 256 == x + y,
        low == (x % 16 + y % 16 > 15 || r % 16 > 9),
        high == (x + y > 255 || r > 0x99),
        low && high ==> adj == 0x66,
        low && !high ==> adj == 0x06,
        !low && high ==> adj == 0x60,
        !low && !high ==> adj == 0,
        r + adj <= 255 ==> res == r + adj,
        r + adj > 255 ==> res + 256 == r + adj,
    ensures
        res / 16 <= 9,
        res % 16 <= 9,
        (x / 16) * 10 + x % 16 + (y / 16) * 10 + y % 16 < 100 ==> (res / 16) * 10 + res % 16
            == (x / 16) * 10 + x % 16 + (y / 16) * 10 + y % 16,
        (x / 16) * 10 + x % 16 + (y / 16) * 10 + y % 16 >= 100 ==> (res / 16) * 10 + res % 16
            + 100 == (x / 16) * 10 + x % 16 + (y / 16) * 10 + y % 16,
        high == ((x / 16) * 10 + x % 16 + (y / 16) * 10 + y % 16 >= 100),
{
}

/// DAA corrects a binary ADD of two packed-BCD bytes into their decimal
/// sum: the result holds the two low decimal digits of the sum, the carry
/// flag says whether the sum reached 100, and Z whether those digits are
/// zero.
pub proof fn lemma_daa_after_add(c: Cpu, v: u8)
    requires
        is_bcd(c.a),
        is_bcd(v),
    ensures
        ({
            let d = daa(alu(c, 0, v));
            let s = bcd_value(c.a) + bcd_value(v);
            &&& is_bcd(d.a)
            &&& bcd_value(d.a) == s % 100
            &&& d.cf() == (s >= 100)
            &&& d.zf() == (s % 100 == 0)
            &&& !d.nf()
        }),
{
    let a = c.a as int;
    let r = wrap8(a + v);
    let h = a % 16 + v % 16 > 15;
    let cy = a + v > 255;
    lemma_flags_read(r == 0, false, h, cy);
    let c1 = alu(c, 0, v);
    assert(c1.a == r && c1.hf() == h && c1.cf() == cy && !c1.nf());
    let low = h || r % 16 > 9;
    let high = cy || r > 0x99;
    let adj: u8 = ((if low { 6u8 } else { 0u8 }) + (if high { 0x60u8 } else { 0u8 })) as u8;
    let res = wrap8(r + adj);
    lemma_wrap8_cases(a + v);
    lemma_wrap8_cases(r + adj);
    lemma_bcd_add_adjust(c.a, v, r, adj, res, low, high);
    lemma_flags_read(res == 0, false, false, high);
    let d = daa(c1);
    assert(d.a == res && d.f == flags(res == 0, false, false, high));
    let s = bcd_value(c.a) + bcd_value(v);
    lemma_mod_100(s, bcd_value(res));
}

/// The decimal adjustment after a binary difference of two packed-BCD
/// bytes, as bare arithmetic on the bytes.
proof fn lemma_bcd_sub_adjust(x: u8, y: u8, r: u8, adj: u8, res: u8, low: bool, high: bool)
    by (bit_vector)
    requires
        x / 16 <= 9,
        x % 16 <= 9,
        y / 16 <= 9,
        y % 16 <= 9,
        x >= y ==> r + y == x,
        x < y ==> r + y == x + 256,
        low == (x % 16 < y % 16),
        high == (x < y),
        low && high ==> adj == 0x66,
        low && !high ==> adj == 0x06,
        !low && high ==> adj == 0x60,
        !low && !high ==> adj == 0,
        r >= adj ==> res + adj == r,
        r < adj ==> res + adj == r + 256,
    ensures
        res / 16 <= 9,
        res % 16 <= 9,
        (x / 16) * 10 + x % 16 >= (y / 16) * 10 + y % 16 ==> (res / 16) * 10 + res % 16 + (y / 16)
            * 10 + y % 16 == (x / 16) * 10 + x % 16,
        (x / 16) * 10 + x % 16 < (y / 16) * 10 + y % 16 ==> (res / 16) * 10 + res % 16 + (y / 16)
            * 10 + y % 16 == (x / 16) * 10 + x % 16 + 100,
        high == ((x / 16) * 10 + x % 16 < (y / 16) * 10 + y % 16),
{
}

/// DAA corrects a binary SUB of two packed-BCD bytes into their decimal
/// difference: the result holds the difference modulo 100 in packed BCD,
/// the carry flag says whether a borrow was needed, and Z whether the two
/// numbers were equal.
pub proof fn lemma_daa_after_sub(c: Cpu, v: u8)
    requires
        is_bcd(c.a),
        is_bcd(v),
    ensures
        ({
            let d = daa(alu(c, 2, v));
            let s = bcd_value(c.a) - bcd_value(v);
            &&& is_bcd(d.a)
            &&& bcd_value(d.a) == s % 100
            &&& d.cf() == (s < 0)
            &&& d.zf() == (s == 0)
            &&& d.nf()
        }),
{
    let a = c.a as int;
    let r = wrap8(a - v);
    let h = a % 16 < v % 16;
    let cy = a < v;
    lemma_flags_read(r == 0, true, h, cy);
    let c1 = alu(c, 2, v);
    assert(c1.a == r && c1.hf() == h && c1.cf() == cy && c1.nf());
    let adj: u8 = ((if h { 6u8 } else { 0u8 }) + (if cy { 0x60u8 } else { 0u8 })) as u8;
    let res = wrap8(r - adj);
    lemma_wrap8_cases(a - v);
    lemma_wrap8_cases(r - adj);
    lemma_bcd_sub_adjust(c.a, v, r, adj, res, h, cy);
    lemma_flags_read(res == 0, true, false, cy);
    let d = daa(c1);
    assert(d.a == res && d.f == flags(res == 0, true, false, cy));
    let s = bcd_value(c.a) - bcd_value(v);
    lemma_mod_100(s, bcd_value(res));
}

} // verus!
