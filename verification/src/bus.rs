//! System bus / "motherboard".
//!
//! Owns every peripheral attached to the SM83 CPU (cartridge, PPU, APU,
//! timer, joypad, internal RAM) and routes every memory access through the
//! DMG memory map:
//!
//! | Range             | Target                       |
//! |-------------------|------------------------------|
//! | `0x0000-0x7FFF`   | Cartridge ROM (banked)       |
//! | `0x8000-0x9FFF`   | PPU VRAM                     |
//! | `0xA000-0xBFFF`   | Cartridge external RAM       |
//! | `0xC000-0xDFFF`   | Work RAM                     |
//! | `0xE000-0xFDFF`   | Echo RAM (mirror of WRAM)    |
//! | `0xFE00-0xFE9F`   | OAM                          |
//! | `0xFF00`          | Joypad                       |
//! | `0xFF01-0xFF02`   | Serial (stubbed)             |
//! | `0xFF04-0xFF07`   | Timer                        |
//! | `0xFF0F`          | Interrupt flag (IF)          |
//! | `0xFF10-0xFF3F`   | APU                          |
//! | `0xFF40-0xFF4B`   | PPU registers + DMA          |
//! | `0xFF80-0xFFFE`   | High RAM                     |
//! | `0xFFFF`          | Interrupt enable (IE)        |
use vstd::prelude::*;
use crate::apu::{Apu, MixLevels};
use crate::cartridge::{AnyCartridge, CartView, Cartridge};
use crate::joypad::Joypad;
use crate::ppu::{Ppu, PpuView};
use crate::timer::Timer;

verus! {

pub const WRAM_SIZE: usize = 8192;

pub const HRAM_SIZE: usize = 127;

/// Mathematical model of the whole machine apart from the CPU.
pub struct BusView {
    pub cart: CartView,
    pub ppu: PpuView,
    pub apu: Apu,
    pub timer: Timer,
    pub joypad: Joypad,
    pub wram: Seq<u8>,
    pub hram: Seq<u8>,
    pub ie: u8,
    pub if_reg: u8,
    pub serial_sb: u8,
    pub serial_sc: u8,
}

impl BusView {
    /// The machine at power-on around the cartridge `cart`: every
    /// peripheral in its power-on state, RAM cleared, no interrupt enabled
    /// and IF holding the V-Blank request the boot ROM leaves behind.
    pub open spec fn power_on(cart: CartView) -> BusView {
        BusView {
            cart,
            ppu: PpuView::power_on(),
            apu: Apu::power_on(),
            timer: Timer::new_spec(),
            joypad: Joypad::new_spec(),
            wram: Seq::new(8192, |i: int| 0u8),
            hram: Seq::new(127, |i: int| 0u8),
            ie: 0,
            if_reg: 0xE1,
            serial_sb: 0,
            serial_sc: 0,
        }
    }

    pub open spec fn wf(self) -> bool {
        &&& self.cart.wf()
        &&& self.ppu.wf()
        &&& self.apu.wf()
        &&& self.wram.len() == WRAM_SIZE
        &&& self.hram.len() == HRAM_SIZE
    }

    /// The byte the CPU reads at `addr`. Unmapped addresses read as
    /// open bus (`0xFF`).
    pub open spec fn read(self, addr: u16) -> u8 {
        if addr <= 0x7FFF {
            self.cart.read(addr)
        } else if addr <= 0x9FFF {
            self.ppu.read(addr)
        } else if addr <= 0xBFFF {
            self.cart.read(addr)
        } else if addr <= 0xDFFF {
            self.wram[addr - 0xC000]
        } else if addr <= 0xFDFF {
            self.wram[addr - 0xE000]
        } else if addr <= 0xFE9F {
            self.ppu.read(addr)
        } else if addr == 0xFF00 {
            self.joypad.read_spec()
        } else if addr == 0xFF01 {
            self.serial_sb
        } else if addr == 0xFF02 {
            self.serial_sc | 0x7E
        } else if 0xFF04 <= addr <= 0xFF07 {
            self.timer.read_spec(addr)
        } else if addr == 0xFF0F {
            self.if_reg | 0xE0
        } else if 0xFF10 <= addr <= 0xFF3F {
            self.apu.read_spec(addr)
        } else if 0xFF40 <= addr <= 0xFF4B {
            self.ppu.read(addr)
        } else if 0xFF80 <= addr <= 0xFFFE {
            self.hram[addr - 0xFF80]
        } else if addr == 0xFFFF {
            self.ie
        } else {
            0xFF
        }
    }

    /// OAM after a DMA transfer from page `val`: the 160 bytes at
    /// `val << 8` as the CPU would read them.
    pub open spec fn dma_oam(self, val: u8) -> Seq<u8> {
        Seq::new(160, |i: int| self.read((val as int * 256 + i) as u16))
    }

    /// The machine after the CPU writes `val` at `addr`. Writes to
    /// unmapped regions are dropped.
    pub open spec fn write(self, addr: u16, val: u8) -> BusView {
        if addr <= 0x7FFF {
            BusView { cart: self.cart.write(addr, val), ..self }
        } else if addr <= 0x9FFF {
            BusView { ppu: self.ppu.write(addr, val), ..self }
        } else if addr <= 0xBFFF {
            BusView { cart: self.cart.write(addr, val), ..self }
        } else if addr <= 0xDFFF {
            BusView { wram: self.wram.update(addr - 0xC000, val), ..self }
        } else if addr <= 0xFDFF {
            BusView { wram: self.wram.update(addr - 0xE000, val), ..self }
        } else if addr <= 0xFE9F {
            BusView { ppu: self.ppu.write(addr, val), ..self }
        } else if addr == 0xFF00 {
            BusView { joypad: self.joypad.write_spec(val), ..self }
        } else if addr == 0xFF01 {
            BusView { serial_sb: val, ..self }
        } else if addr == 0xFF02 {
            BusView { serial_sc: val, ..self }
        } else if 0xFF04 <= addr <= 0xFF07 {
            BusView { timer: self.timer.write_spec(addr, val), ..self }
        } else if addr == 0xFF0F {
            BusView { if_reg: val | 0xE0, ..self }
        } else if 0xFF10 <= addr <= 0xFF3F {
            BusView { apu: self.apu.write_spec(addr, val), ..self }
        } else if addr == 0xFF46 {
            BusView { ppu: PpuView { oam: self.dma_oam(val), ..self.ppu }, ..self }
        } else if 0xFF40 <= addr <= 0xFF4B {
            BusView { ppu: self.ppu.write(addr, val), ..self }
        } else if 0xFF80 <= addr <= 0xFFFE {
            BusView { hram: self.hram.update(addr - 0xFF80, val), ..self }
        } else if addr == 0xFFFF {
            BusView { ie: val, ..self }
        } else {
            self
        }
    }

    /// Little-endian 16-bit read (the high byte's address wraps).
    pub open spec fn read_word(self, addr: u16) -> u16 {
        (self.read(((addr + 1) % 0x10000) as u16) as int * 256 + self.read(addr) as int) as u16
    }

    /// Little-endian 16-bit write: low byte first, then the high byte at
    /// the (wrapping) next address.
    pub open spec fn write_word(self, addr: u16, val: u16) -> BusView {
        self.write(addr, (val % 256) as u8).write(((addr + 1) % 0x10000) as u16, (val / 256) as u8)
    }

    /// The machine after `cycles` T-cycles, and the mixer input the APU
    /// produced.
    pub open spec fn tick(self, cycles: u8) -> (BusView, Option<MixLevels>) {
        let (timer, if1) = self.timer.tick_spec(cycles as nat, self.if_reg);
        let (ppu, if2) = self.ppu.tick(cycles, if1);
        let (apu, mix) = self.apu.tick_spec(cycles);
        let (sc, if3) = if (self.serial_sc & 0x80) != 0 {
            (self.serial_sc & 0x7F, if2 | 0x08)
        } else {
            (self.serial_sc, if2)
        };
        let (joypad, if4) = if self.joypad.spec_interrupt() {
            (self.joypad.clear_interrupt_spec(), if3 | 0x10)
        } else {
            (self.joypad, if3)
        };
        (BusView { timer, ppu, apu, serial_sc: sc, joypad, if_reg: if4, ..self }, mix)
    }
}

/// Top-level emulated machine. Holds every peripheral and arbitrates the
/// CPU's memory traffic.
pub struct Motherboard {
    cartridge: AnyCartridge,
    pub ppu: Ppu,
    pub apu: Apu,
    pub timer: Timer,
    pub joypad: Joypad,
    wram: [u8; 8192],
    hram: [u8; 127],
    ie: u8,
    if_reg: u8,
    serial_sb: u8,
    serial_sc: u8,
}

impl View for Motherboard {
    type V = BusView;

    closed spec fn view(&self) -> BusView {
        BusView {
            cart: self.cartridge.cart_view(),
            ppu: self.ppu@,
            apu: self.apu,
            timer: self.timer,
            joypad: self.joypad,
            wram: self.wram@,
            hram: self.hram@,
            ie: self.ie,
            if_reg: self.if_reg,
            serial_sb: self.serial_sb,
            serial_sc: self.serial_sc,
        }
    }
}

impl Motherboard {
    /// Build a fresh motherboard around the provided cartridge.
    pub fn new(cartridge: AnyCartridge) -> (m: Self)
        requires
            cartridge.cart_view().wf(),
        ensures
            m@ == BusView::power_on(cartridge.cart_view()),
            m@.wf(),
    {
        let m = Motherboard {
            cartridge,
            ppu: Ppu::new(),
            apu: Apu::new(),
            timer: Timer::new(),
            joypad: Joypad::new(),
            wram: [0; 8192],
            hram: [0; 127],
            ie: 0,
            // Bits 5-7 of IF are always high on real hardware.
            if_reg: 0xE1,
            serial_sb: 0,
            serial_sc: 0,
        };
        proof {
            assert(m@.wram =~= Seq::new(8192, |i: int| 0u8));
            assert(m@.hram =~= Seq::new(127, |i: int| 0u8));
        }
        m
    }

    /// Advance every peripheral by `cycles` T-cycles. Returns the mixer
    /// input the APU produced (`None` while it is powered off).
    pub fn tick(&mut self, cycles: u8) -> (mix: Option<MixLevels>)
        requires
            old(self)@.wf(),
        ensures
            (final(self)@, mix) == old(self)@.tick(cycles),
            final(self)@.wf(),
    {
        self.timer.tick(cycles, &mut self.if_reg);
        self.ppu.tick(cycles, &mut self.if_reg);
        let mix = self.apu.tick(cycles);
        // Serial port stub: many titles wait for the transfer-complete flag
        // (SC bit 7) to clear before proceeding. Simulate an instantaneous
        // transfer and raise the serial IRQ.
        if (self.serial_sc & 0x80) != 0 {
            self.serial_sc = self.serial_sc & 0x7F;
            self.if_reg = self.if_reg | 0x08;
        }
        if self.joypad.take_interrupt() {
            self.if_reg = self.if_reg | 0x10;
        }
        mix
    }

    /// Borrow the PPU's RGBA frame buffer.
    pub fn frame(&self) -> (f: &[u8])
        ensures
            f@ == self@.ppu.buffer,
    {
        self.ppu.frame()
    }

    /// Set the pressed/released state of a single button.
    pub fn set_button(&mut self, button: crate::joypad::Button, pressed: bool)
        ensures
            final(self)@ == (BusView {
                joypad: old(self)@.joypad.set_button_spec(button, pressed),
                ..old(self)@
            }),
    {
        self.joypad.set_button(button, pressed);
    }

    /// Battery-backed cartridge RAM to persist, if the program has written
    /// it since power-on or the last `mark_saved`.
    pub fn save_data(&self) -> (r: Option<&[u8]>)
        ensures
            match r {
                Some(s) => self@.cart.save_data() == Some(s@),
                None => self@.cart.save_data() is None,
            },
    {
        self.cartridge.save_data()
    }

    /// Record that the battery-backed RAM has been persisted: `save_data`
    /// gives `None` until the program next writes the RAM.
    pub fn mark_saved(&mut self)
        requires
            old(self)@.wf(),
        ensures
            final(self)@ == (BusView { cart: old(self)@.cart.saved(), ..old(self)@ }),
            final(self)@.wf(),
    {
        self.cartridge.mark_saved();
    }

    /// CPU-side byte read. Unmapped addresses return open-bus (`0xFF`).
    pub fn read_byte(&self, addr: u16) -> (r: u8)
        requires
            self@.wf(),
        ensures
            r == self@.read(addr),
    {
        if addr <= 0x7FFF {
            self.cartridge.read(addr)
        } else if addr <= 0x9FFF {
            self.ppu.read(addr)
        } else if addr <= 0xBFFF {
            self.cartridge.read(addr)
        } else if addr <= 0xDFFF {
            self.wram[(addr - 0xC000) as usize]
        } else if addr <= 0xFDFF {
            self.wram[(addr - 0xE000) as usize]
        } else if addr <= 0xFE9F {
            self.ppu.read(addr)
        } else if addr == 0xFF00 {
            self.joypad.read()
        } else if addr == 0xFF01 {
            self.serial_sb
        } else if addr == 0xFF02 {
            self.serial_sc | 0x7E
        } else if 0xFF04 <= addr && addr <= 0xFF07 {
            self.timer.read(addr)
        } else if addr == 0xFF0F {
            self.if_reg | 0xE0
        } else if 0xFF10 <= addr && addr <= 0xFF3F {
            self.apu.read(addr)
        } else if 0xFF40 <= addr && addr <= 0xFF4B {
            self.ppu.read(addr)
        } else if 0xFF80 <= addr && addr <= 0xFFFE {
            self.hram[(addr - 0xFF80) as usize]
        } else if addr == 0xFFFF {
            self.ie
        } else {
            0xFF
        }
    }

    /// CPU-side byte write. Writes to unmapped regions are silently dropped.
    pub fn write_byte(&mut self, addr: u16, val: u8)
        requires
            old(self)@.wf(),
        ensures
            final(self)@ == old(self)@.write(addr, val),
            final(self)@.wf(),
    {
        if addr <= 0x7FFF {
            self.cartridge.write(addr, val);
        } else if addr <= 0x9FFF {
            self.ppu.write(addr, val);
        } else if addr <= 0xBFFF {
            self.cartridge.write(addr, val);
        } else if addr <= 0xDFFF {
            self.wram[(addr - 0xC000) as usize] = val;
        } else if addr <= 0xFDFF {
            self.wram[(addr - 0xE000) as usize] = val;
        } else if addr <= 0xFE9F {
            self.ppu.write(addr, val);
        } else if addr == 0xFF00 {
            self.joypad.write(val);
        } else if addr == 0xFF01 {
            self.serial_sb = val;
        } else if addr == 0xFF02 {
            self.serial_sc = val;
        } else if 0xFF04 <= addr && addr <= 0xFF07 {
            self.timer.write(addr, val);
        } else if addr == 0xFF0F {
            // IF is only 5 bits wide; bits 5-7 always read back as 1.
            self.if_reg = val | 0xE0;
        } else if 0xFF10 <= addr && addr <= 0xFF3F {
            self.apu.write(addr, val);
        } else if addr == 0xFF46 {
            self.dma(val);
        } else if 0xFF40 <= addr && addr <= 0xFF4B {
            self.ppu.write(addr, val);
        } else if 0xFF80 <= addr && addr <= 0xFFFE {
            self.hram[(addr - 0xFF80) as usize] = val;
        } else if addr == 0xFFFF {
            self.ie = val;
        }
        proof {
            assert(self@.wram =~= old(self)@.write(addr, val).wram);
            assert(self@.hram =~= old(self)@.write(addr, val).hram);
        }
    }

    /// OAM DMA transfer: copy 160 bytes from `val << 8` to the PPU OAM.
    fn dma(&mut self, val: u8)
        requires
            old(self)@.wf(),
        ensures
            final(self)@ == (BusView {
                ppu: PpuView { oam: old(self)@.dma_oam(val), ..old(self)@.ppu },
                ..old(self)@
            }),
            final(self)@.wf(),
    {
        let ghost v = self@;
        let base: u16 = (val as u16) << 8;
        proof {
            let w = val as u16;
            assert(w << 8 == w * 256) by (bit_vector)
                requires
                    w <= 0xFF,
            ;
        }
        let mut i: u16 = 0;
        while i < 160
            invariant
                0 <= i <= 160,
                base == val as int * 256,
                v.wf(),
                self@.wf(),
                self@ == (BusView {
                    ppu: PpuView { oam: self@.ppu.oam, ..v.ppu },
                    ..v
                }),
                forall|j: int| 0 <= j < i ==> self@.ppu.oam[j] == v.read((val as int * 256 + j) as u16),
                forall|j: int| i <= j < 160 ==> self@.ppu.oam[j] == v.ppu.oam[j],
            decreases 160 - i,
        {
            let byte = self.read_byte(base + i);
            proof {
                let a = (base + i) as u16;
                if 0xFE00 <= a <= 0xFE9F {
                    assert(base == 0xFE00);
                }
                assert(byte == v.read(a));
            }
            self.ppu.write_oam(i as usize, byte);
            i = i + 1;
        }
        proof {
            assert(self@.ppu.oam =~= v.dma_oam(val));
        }
    }

    /// Little-endian 16-bit read.
    pub fn read_word(&self, addr: u16) -> (r: u16)
        requires
            self@.wf(),
        ensures
            r == self@.read_word(addr),
    {
        let hi = self.read_byte(addr.wrapping_add(1));
        let lo = self.read_byte(addr);
        proof {
            let h = hi as u16;
            let l = lo as u16;
            assert((h << 8) | l == h * 256 + l) by (bit_vector)
                requires
                    h <= 0xFF,
                    l <= 0xFF,
            ;
        }
        (hi as u16) << 8 | lo as u16
    }

    /// Little-endian 16-bit write.
    pub fn write_word(&mut self, addr: u16, val: u16)
        requires
            old(self)@.wf(),
        ensures
            final(self)@ == old(self)@.write_word(addr, val),
            final(self)@.wf(),
    {
        proof {
            assert(val as u8 == val % 256 && ((val >> 8) as u8) == val / 256) by (bit_vector);
        }
        self.write_byte(addr, val as u8);
        self.write_byte(addr.wrapping_add(1), (val >> 8) as u8);
    }
}

/// Work RAM, echo RAM, high RAM and IE read back the byte last written.
pub proof fn lemma_ram_write_read_roundtrip(b: BusView, addr: u16, val: u8)
    requires
        b.wf(),
        (0xC000 <= addr <= 0xFDFF) || (0xFF80 <= addr <= 0xFFFF),
    ensures
        b.write(addr, val).read(addr) == val,
{
}

/// Echo RAM mirrors work RAM in both directions: a write through either
/// window is seen through the other.
pub proof fn lemma_echo_ram_mirrors_wram(b: BusView, k: u16, val: u8)
    requires
        b.wf(),
        k < 0x1E00,
    ensures
        b.read((0xE000 + k) as u16) == b.read((0xC000 + k) as u16),
        b.write((0xC000 + k) as u16, val).read((0xE000 + k) as u16) == val,
        b.write((0xE000 + k) as u16, val).read((0xC000 + k) as u16) == val,
{
}

/// IF is five bits wide: bits 5-7 always read as 1.
pub proof fn lemma_if_upper_bits_read_high(b: BusView, val: u8)
    ensures
        b.read(0xFF0F) & 0xE0 == 0xE0,
        b.write(0xFF0F, val).read(0xFF0F) == val | 0xE0,
{
    let f = b.if_reg;
    assert((f | 0xE0) & 0xE0 == 0xE0 && (val | 0xE0) | 0xE0 == val | 0xE0) by (bit_vector);
}

/// Unmapped addresses read as open bus (0xFF) and ignore writes.
pub proof fn lemma_unmapped_open_bus(b: BusView, addr: u16, val: u8)
    requires
        (0xFEA0 <= addr <= 0xFEFF) || addr == 0xFF03 || (0xFF08 <= addr <= 0xFF0E) || (0xFF4C
            <= addr <= 0xFF7F),
    ensures
        b.read(addr) == 0xFF,
        b.write(addr, val) == b,
{
}

/// A 16-bit write to work RAM or high RAM reads back as the same word.
pub proof fn lemma_word_write_read_roundtrip(b: BusView, addr: u16, val: u16)
    requires
        b.wf(),
        (0xC000 <= addr < 0xDFFF) || (0xFF80 <= addr <= 0xFFFD),
    ensures
        b.write_word(addr, val).read_word(addr) == val,
{
    let b1 = b.write(addr, (val % 256) as u8);
    let b2 = b1.write((addr + 1) as u16, (val / 256) as u8);
    assert(b2.read(addr) == (val % 256) as u8);
    assert(b2.read((addr + 1) as u16) == (val / 256) as u8);
}

/// An OAM DMA copies the 160 bytes of the source page into OAM and
/// changes nothing else.
pub proof fn lemma_dma_copies_page(b: BusView, val: u8, i: int)
    requires
        0 <= i < 160,
    ensures
        b.write(0xFF46, val).ppu.oam[i] == b.read((val as int * 256 + i) as u16),
        b.write(0xFF46, val).wram == b.wram,
        b.write(0xFF46, val).ppu.vram == b.ppu.vram,
        b.write(0xFF46, val).cart == b.cart,
{
}

/// Time passing changes no memory: a tick leaves work RAM, high RAM, the
/// cartridge, IE, VRAM and OAM as they were.
pub proof fn lemma_tick_keeps_memory(b: BusView, cycles: u8)
    ensures
        b.tick(cycles).0.wram == b.wram,
        b.tick(cycles).0.hram == b.hram,
        b.tick(cycles).0.cart == b.cart,
        b.tick(cycles).0.ie == b.ie,
        b.tick(cycles).0.ppu.vram == b.ppu.vram,
        b.tick(cycles).0.ppu.oam == b.ppu.oam,
{
}

/// The memory map, region by region: ROM and external RAM go to the
/// cartridge, VRAM, OAM and 0xFF40-0xFF4B to the PPU, 0xFF00 to the
/// joypad, 0xFF04-0xFF07 to the timer, 0xFF10-0xFF3F to the APU; SB reads
/// back, SC reads with bits 1-6 set, and 0xFFFF is IE.
pub proof fn lemma_memory_map(b: BusView, addr: u16)
    ensures
        addr <= 0x7FFF || (0xA000 <= addr <= 0xBFFF) ==> b.read(addr) == b.cart.read(addr),
        (0x8000 <= addr <= 0x9FFF) || (0xFE00 <= addr <= 0xFE9F) || (0xFF40 <= addr <= 0xFF4B)
            ==> b.read(addr) == b.ppu.read(addr),
        addr == 0xFF00 ==> b.read(addr) == b.joypad.read_spec(),
        0xFF04 <= addr <= 0xFF07 ==> b.read(addr) == b.timer.read_spec(addr),
        0xFF10 <= addr <= 0xFF3F ==> b.read(addr) == b.apu.read_spec(addr),
        addr == 0xFF01 ==> b.read(addr) == b.serial_sb,
        addr == 0xFF02 ==> b.read(addr) == b.serial_sc | 0x7E,
        addr == 0xFFFF ==> b.read(addr) == b.ie,
{
}

proof fn lemma_request_bits(f: u8, g: u8, sc: u8)
    by (bit_vector)
    ensures
        (f | 0x08) & 0x08 == 0x08,
        (f | 0x10) & 0x10 == 0x10,
        ((f | 0x08) | 0x10) & 0x08 == 0x08,
        (sc & 0x80) != 0 ==> sc & 0x7F == sc - 128,
        ((sc & 0x80) != 0) == (sc >= 128),
{
}

/// Each tick completes a pending serial transfer (SC bit 7 set): SC bit 7
/// clears and the serial interrupt (IF bit 3) is requested; a latched
/// joypad press requests the joypad interrupt (IF bit 4) and the latch
/// clears.
pub proof fn lemma_tick_serial_and_joypad(b: BusView, cycles: u8)
    ensures
        b.serial_sc >= 128 ==> b.tick(cycles).0.serial_sc == b.serial_sc - 128 && b.tick(
            cycles,
        ).0.if_reg & 0x08 == 0x08,
        b.serial_sc < 128 ==> b.tick(cycles).0.serial_sc == b.serial_sc,
        b.joypad.interrupt ==> b.tick(cycles).0.if_reg & 0x10 == 0x10 && !b.tick(
            cycles,
        ).0.joypad.interrupt,
{
    let (timer, if1) = b.timer.tick_spec(cycles as nat, b.if_reg);
    let (ppu, if2) = b.ppu.tick(cycles, if1);
    lemma_request_bits(if2, 0, b.serial_sc);
    lemma_request_bits(if2 | 0x08, 0, b.serial_sc);
}

} // verus!
