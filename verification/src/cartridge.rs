//! Cartridge models (memory-bank controllers).
//!
//! Supported mappers:
//!
//! | Header byte `0x147` | Implementation |
//! |---------------------|----------------|
//! | `0x00`              | [`RomOnly`]    |
//! | `0x01..=0x03`       | [`Mbc1`]       |
//! | `0x0F..=0x13`       | [`Mbc3`] (no RTC) |
//! | `0x19..=0x1E`       | [`Mbc5`]       |
//!
//! Battery-backed SRAM is a raw dump of the cartridge RAM; the library
//! hands it out through [`Cartridge::save_data`] and the host decides where
//! to store it.
use vstd::prelude::*;

verus! {

/// The memory-bank controller a cartridge uses.
#[derive(Clone, Copy, Debug, PartialEq, Eq, Structural)]
pub enum MapperKind {
    RomOnly,
    Mbc1,
    Mbc3,
    Mbc5,
}

/// Mathematical model of a cartridge: its kind, ROM and RAM contents and
/// the mapper registers. Registers a mapper does not have stay zero.
pub struct CartView {
    pub kind: MapperKind,
    pub rom: Seq<u8>,
    pub ram: Seq<u8>,
    /// ROM-bank register (MBC1: lower 5 bits; MBC3: 7 bits; MBC5: 9 bits).
    pub rom_bank: usize,
    /// RAM-bank register (MBC1: the 2 upper bits; MBC3/MBC5: RAM bank).
    pub ram_bank: usize,
    pub ram_on: bool,
    /// MBC1 banking mode.
    pub mode: u8,
    /// Set once the RAM has been written.
    pub dirty: bool,
    pub rom_mask: usize,
    pub ram_mask: usize,
}

/// Why a ROM image cannot be turned into a cartridge.
#[derive(Clone, Copy, Debug, PartialEq, Eq, Structural)]
pub enum CartridgeError {
    /// The image is shorter than a full header (0x150 bytes).
    RomTooSmall,
    /// Header byte `0x147` names a mapper that is not supported.
    UnsupportedMapper(u8),
}

/// `Some(seq[i])` inside bounds, else the open-bus value.
pub open spec fn byte_or_ff(s: Seq<u8>, i: int) -> u8 {
    if 0 <= i < s.len() {
        s[i]
    } else {
        0xFF
    }
}

/// Whether a write of `val` to the RAM-enable range turns RAM on.
pub open spec fn enables_ram(val: u8) -> bool {
    (val & 0x0F) == 0x0A
}

/// The index of the ROM byte that a banked access reaches: the offset
/// folded into the image with `len - 1` as a mask.
pub open spec fn rom_index(bank: usize, addr_in_bank: int, len: nat) -> int {
    ((bank * 0x4000 + addr_in_bank) as usize & ((len - 1) as usize)) as int
}

/// The bank MBC1 maps at `0x4000-0x7FFF`: the two register fields joined,
/// a zero lower field forced to 1, then masked to the image.
pub open spec fn mbc1_high_bank(rb: usize, ab: usize, rom_mask: usize) -> usize {
    let bank = rb | (ab << 5);
    let bank = if (rb & 0x1F) == 0 {
        bank | 1
    } else {
        bank
    };
    bank & rom_mask
}

/// The bank MBC1 maps at `0x0000-0x3FFF`: bank 0, or in mode 1 the upper
/// register field shifted into place.
pub open spec fn mbc1_low_bank(ab: usize, mode: u8, rom_mask: usize) -> usize {
    if mode == 1 {
        (ab << 5) & rom_mask
    } else {
        0
    }
}

/// The RAM bank MBC1 maps at `0xA000-0xBFFF`.
pub open spec fn mbc1_ram_bank(ab: usize, mode: u8, ram_mask: usize) -> usize {
    if mode == 1 {
        ab & ram_mask
    } else {
        0
    }
}

impl CartView {
    /// Invariant of a cartridge model.
    pub open spec fn wf(self) -> bool {
        &&& self.rom.len() >= 1
        &&& self.rom.len() <= usize::MAX
        &&& self.ram.len() <= usize::MAX
        &&& self.rom_mask * 0x4000 <= self.rom.len()
        &&& self.ram_mask <= 0x0F
        &&& match self.kind {
            MapperKind::RomOnly => true,
            MapperKind::Mbc1 => self.rom_bank <= 0x1F && self.ram_bank <= 3 && self.mode <= 1,
            MapperKind::Mbc3 => self.rom_bank <= 0x7F
                && self.ram_bank <= 0x0C,
            MapperKind::Mbc5 => self.rom_bank <= 0x1FF
                && self.ram_bank <= 0x0F,
        }
    }

    /// The byte the CPU reads at `addr` (cartridge ranges `0x0000-0x7FFF`
    /// and `0xA000-0xBFFF`; anything else is open bus).
    pub open spec fn read(self, addr: u16) -> u8 {
        let a = addr as int;
        match self.kind {
            MapperKind::RomOnly => byte_or_ff(self.rom, a),
            MapperKind::Mbc1 => {
                if a <= 0x3FFF {
                    self.rom[rom_index(
                        mbc1_low_bank(self.ram_bank, self.mode, self.rom_mask),
                        a,
                        self.rom.len(),
                    )]
                } else if a <= 0x7FFF {
                    self.rom[rom_index(
                        mbc1_high_bank(self.rom_bank, self.ram_bank, self.rom_mask),
                        a - 0x4000,
                        self.rom.len(),
                    )]
                } else if 0xA000 <= a <= 0xBFFF {
                    if !self.ram_on || self.ram.len() == 0 {
                        0xFF
                    } else {
                        byte_or_ff(
                            self.ram,
                            mbc1_ram_bank(self.ram_bank, self.mode, self.ram_mask) * 0x2000 + (a
                                - 0xA000),
                        )
                    }
                } else {
                    0xFF
                }
            },
            MapperKind::Mbc3 => {
                if a <= 0x3FFF {
                    byte_or_ff(self.rom, a)
                } else if a <= 0x7FFF {
                    let bank: usize = if self.rom_bank == 0 {
                        1
                    } else {
                        self.rom_bank
                    };
                    self.rom[rom_index(bank & self.rom_mask, a - 0x4000, self.rom.len())]
                } else if 0xA000 <= a <= 0xBFFF {
                    if !self.ram_on {
                        0xFF
                    } else if self.ram_bank <= 3 {
                        byte_or_ff(self.ram, self.ram_bank * 0x2000 + (a - 0xA000))
                    } else {
                        0x00
                    }
                } else {
                    0xFF
                }
            },
            MapperKind::Mbc5 => {
                if a <= 0x3FFF {
                    byte_or_ff(self.rom, a)
                } else if a <= 0x7FFF {
                    self.rom[rom_index(self.rom_bank & self.rom_mask, a - 0x4000, self.rom.len())]
                } else if 0xA000 <= a <= 0xBFFF {
                    if self.ram_on && self.ram.len() != 0 {
                        byte_or_ff(self.ram, self.ram_bank * 0x2000 + (a - 0xA000))
                    } else {
                        0xFF
                    }
                } else {
                    0xFF
                }
            },
        }
    }

    /// The RAM offset that a write at `addr` stores to, if the mapper lets
    /// it through (RAM enabled, a RAM bank selected, offset inside RAM).
    pub open spec fn ram_write_offset(self, addr: u16) -> Option<int> {
        let a = addr as int;
        let off = match self.kind {
            MapperKind::RomOnly => -1,
            MapperKind::Mbc1 => if self.ram_on && self.ram.len() != 0 {
                mbc1_ram_bank(self.ram_bank, self.mode, self.ram_mask) * 0x2000 + (a - 0xA000)
            } else {
                -1
            },
            MapperKind::Mbc3 => if self.ram_on && self.ram_bank <= 3 {
                self.ram_bank * 0x2000 + (a - 0xA000)
            } else {
                -1
            },
            MapperKind::Mbc5 => if self.ram_on && self.ram.len() != 0 {
                self.ram_bank * 0x2000 + (a - 0xA000)
            } else {
                -1
            },
        };
        if 0xA000 <= a <= 0xBFFF && 0 <= off < self.ram.len() {
            Some(off)
        } else {
            None
        }
    }

    /// The cartridge after the CPU writes `val` at `addr`.
    pub open spec fn write(self, addr: u16, val: u8) -> CartView {
        let a = addr as int;
        if 0xA000 <= a <= 0xBFFF {
            match self.ram_write_offset(addr) {
                Some(off) => CartView { ram: self.ram.update(off, val), dirty: true, ..self },
                None => self,
            }
        } else {
            match self.kind {
                MapperKind::RomOnly => self,
                MapperKind::Mbc1 => if a <= 0x1FFF {
                    CartView { ram_on: enables_ram(val), ..self }
                } else if a <= 0x3FFF {
                    CartView { rom_bank: (val & 0x1F) as usize, ..self }
                } else if a <= 0x5FFF {
                    CartView { ram_bank: (val & 0x03) as usize, ..self }
                } else if a <= 0x7FFF {
                    CartView { mode: val & 1, ..self }
                } else {
                    self
                },
                MapperKind::Mbc3 => if a <= 0x1FFF {
                    CartView { ram_on: enables_ram(val), ..self }
                } else if a <= 0x3FFF {
                    let bank = (val & 0x7F) as usize;
                    CartView {
                        rom_bank: if bank == 0 {
                            1
                        } else {
                            bank
                        },
                        ..self
                    }
                } else if a <= 0x5FFF {
                    if val <= 0x03 || (0x08 <= val <= 0x0C) {
                        CartView { ram_bank: val as usize, ..self }
                    } else {
                        self
                    }
                } else {
                    self
                },
                MapperKind::Mbc5 => if a <= 0x1FFF {
                    CartView { ram_on: enables_ram(val), ..self }
                } else if a <= 0x2FFF {
                    CartView { rom_bank: (self.rom_bank & 0x100) | (val as usize), ..self }
                } else if a <= 0x3FFF {
                    CartView {
                        rom_bank: (self.rom_bank & 0xFF) | (((val as usize) & 1) << 8),
                        ..self
                    }
                } else if a <= 0x5FFF {
                    CartView { ram_bank: (val & 0x0F) as usize, ..self }
                } else {
                    self
                },
            }
        }
    }

    /// The cartridge once its RAM has been persisted.
    pub open spec fn saved(self) -> CartView {
        CartView { dirty: false, ..self }
    }

    /// What a battery save should hold: the RAM, once it has been written
    /// since power-on or the last save.
    pub open spec fn save_data(self) -> Option<Seq<u8>> {
        if self.kind != MapperKind::RomOnly && self.dirty && self.ram.len() != 0 {
            Some(self.ram)
        } else {
            None
        }
    }
}

/// Generic interface implemented by every cartridge model. The bus talks
/// to the cartridge exclusively through this trait.
pub trait Cartridge {
    /// The model of this cartridge.
    spec fn cart_view(&self) -> CartView;

    /// Read a byte from the cartridge address space.
    fn read(&self, addr: u16) -> (r: u8)
        requires
            self.cart_view().wf(),
        ensures
            r == self.cart_view().read(addr),
    ;

    /// Write a byte to the cartridge address space (mapper registers + RAM).
    fn write(&mut self, addr: u16, val: u8)
        requires
            old(self).cart_view().wf(),
        ensures
            final(self).cart_view() == old(self).cart_view().write(addr, val),
            final(self).cart_view().wf(),
    ;

    /// Battery-backed RAM to persist: `None` when the cartridge has no RAM
    /// or no RAM write has happened since power-on or the last save.
    fn save_data(&self) -> (r: Option<&[u8]>)
        ensures
            match r {
                Some(s) => self.cart_view().save_data() == Some(s@),
                None => self.cart_view().save_data() is None,
            },
    ;

    /// Record that the RAM has been persisted: `save_data` gives `None`
    /// until the next write to the RAM.
    fn mark_saved(&mut self)
        requires
            old(self).cart_view().wf(),
        ensures
            final(self).cart_view() == old(self).cart_view().saved(),
            final(self).cart_view().wf(),
    ;
}

proof fn lemma_and_le(x: usize, m: usize)
    ensures
        x & m <= m,
{
    lemma_cart_bits(0, x, m, 0, 0);
}

proof fn lemma_u8_usize_mask(val: u8)
    ensures
        ((val as usize) & 0x7F) == ((val & 0x7F) as usize),
{
    let v = val as usize;
    assert(v <= 0xFF);
    assert((v & 0x7F) == ((val & 0x7F) as usize)) by (bit_vector)
        requires
            v == val as usize,
    ;
}

/// Bit facts behind the mapper registers' bounds.
proof fn lemma_cart_bits(val: u8, x: usize, m: usize, rb: usize, v: usize)
    by (bit_vector)
    requires
        v <= 0xFF,
    ensures
        x & m <= m,
        val & 0x1F <= 0x1F,
        val & 0x03 <= 3,
        val & 1 <= 1,
        val & 0x0F <= 0x0F,
        v & 0x7F <= 0x7F,
        rb <= 0x1FF ==> (rb & 0x100) | v <= 0x1FF,
        (rb & 0xFF) | ((v & 1) << 8) <= 0x1FF,
        m % 2 == 1 ==> (((0usize | (0usize << 5)) | 1usize) & m) == 1usize,
        0usize & 0x1F == 0,
{
}

proof fn lemma_rom_index_in_bounds(bank: usize, addr_in_bank: int, len: nat)
    requires
        1 <= len <= usize::MAX,
        0 <= addr_in_bank <= 0x3FFF,
        bank * 0x4000 <= len,
    ensures
        0 <= rom_index(bank, addr_in_bank, len) < len,
{
    let x = (bank * 0x4000 + addr_in_bank) as usize;
    let m = (len - 1) as usize;
    lemma_and_le(x, m);
}

/// Reads `rom[(bank * 0x4000 + in_bank) & (len - 1)]`.
fn read_banked(rom: &Vec<u8>, bank: usize, in_bank: usize) -> (r: u8)
    requires
        1 <= rom.len(),
        in_bank <= 0x3FFF,
        bank * 0x4000 <= rom.len(),
    ensures
        r == rom@[rom_index(bank, in_bank as int, rom.len() as nat)],
{
    proof {
        lemma_rom_index_in_bounds(bank, in_bank as int, rom.len() as nat);
    }
    let offset = bank * 0x4000 + in_bank;
    rom[offset & (rom.len() - 1)]
}

/// Reads `bytes[offset]`, or the open-bus value past its end (a short
/// ROM image or RAM).
fn read_or_ff(bytes: &Vec<u8>, offset: usize) -> (r: u8)
    ensures
        r == byte_or_ff(bytes@, offset as int),
{
    if offset < bytes.len() {
        bytes[offset]
    } else {
        0xFF
    }
}

// ---------------------------------------------------------------------------
// ROM-only cartridges (32 KiB, no banking, no RAM).
// ---------------------------------------------------------------------------
pub struct RomOnly {
    rom: Vec<u8>,
}

impl Cartridge for RomOnly {
    closed spec fn cart_view(&self) -> CartView {
        CartView {
            kind: MapperKind::RomOnly,
            rom: self.rom@,
            ram: Seq::empty(),
            rom_bank: 0,
            ram_bank: 0,
            ram_on: false,
            mode: 0,
            dirty: false,
            rom_mask: 0,
            ram_mask: 0,
        }
    }

    fn read(&self, addr: u16) -> (r: u8) {
        read_or_ff(&self.rom, addr as usize)
    }

    fn write(&mut self, addr: u16, val: u8) {
    }

    fn save_data(&self) -> (r: Option<&[u8]>) {
        None
    }

    fn mark_saved(&mut self) {
    }
}

// ---------------------------------------------------------------------------
// MBC1.
// ---------------------------------------------------------------------------
pub struct Mbc1 {
    rom: Vec<u8>,
    ram: Vec<u8>,
    /// Lower ROM-bank register (5 bits).
    rb: usize,
    /// Upper bits — RAM bank in mode 1, or ROM bank bits 5-6 in mode 0.
    ab: usize,
    ram_on: bool,
    mode: u8,
    dirty: bool,
    rom_mask: usize,
    ram_mask: usize,
}

impl Cartridge for Mbc1 {
    closed spec fn cart_view(&self) -> CartView {
        CartView {
            kind: MapperKind::Mbc1,
            rom: self.rom@,
            ram: self.ram@,
            rom_bank: self.rb,
            ram_bank: self.ab,
            ram_on: self.ram_on,
            mode: self.mode,
            dirty: self.dirty,
            rom_mask: self.rom_mask,
            ram_mask: self.ram_mask,
        }
    }

    fn read(&self, addr: u16) -> (r: u8) {
        if addr <= 0x3FFF {
            // In banking mode 1 the upper bits also affect the 0x0000-0x3FFF
            // window, which lets large carts expose an alternate bank 0.
            let bank = if self.mode == 1 {
                (self.ab << 5) & self.rom_mask
            } else {
                0
            };
            proof {
                lemma_and_le(self.ab << 5, self.rom_mask);
            }
            read_banked(&self.rom, bank, addr as usize)
        } else if addr <= 0x7FFF {
            let mut bank = self.rb | (self.ab << 5);
            // MBC1 quirk: when the lower 5 bits are zero the controller
            // forces a 1 in the resulting bank number.
            if (self.rb & 0x1F) == 0 {
                bank |= 1;
            }
            proof {
                lemma_and_le(bank, self.rom_mask);
            }
            bank &= self.rom_mask;
            read_banked(&self.rom, bank, addr as usize - 0x4000)
        } else if 0xA000 <= addr && addr <= 0xBFFF {
            if !self.ram_on || self.ram.len() == 0 {
                return 0xFF;
            }
            let bank = if self.mode == 1 {
                self.ab & self.ram_mask
            } else {
                0
            };
            proof {
                lemma_and_le(self.ab, self.ram_mask);
            }
            read_or_ff(&self.ram, bank * 0x2000 + (addr as usize - 0xA000))
        } else {
            0xFF
        }
    }

    fn write(&mut self, addr: u16, val: u8) {
        if addr <= 0x1FFF {
            self.ram_on = (val & 0x0F) == 0x0A;
        } else if addr <= 0x3FFF {
            self.rb = (val & 0x1F) as usize;
            proof {
                lemma_cart_bits(val, 0, 0, 0, 0);
            }
        } else if addr <= 0x5FFF {
            self.ab = (val & 0x03) as usize;
            proof {
                lemma_cart_bits(val, 0, 0, 0, 0);
            }
        } else if addr <= 0x7FFF {
            self.mode = val & 1;
            proof {
                lemma_cart_bits(val, 0, 0, 0, 0);
            }
        } else if 0xA000 <= addr && addr <= 0xBFFF {
            if !self.ram_on || self.ram.len() == 0 {
                return;
            }
            let bank = if self.mode == 1 {
                self.ab & self.ram_mask
            } else {
                0
            };
            proof {
                lemma_and_le(self.ab, self.ram_mask);
            }
            let offset = bank * 0x2000 + (addr as usize - 0xA000);
            if offset < self.ram.len() {
                self.ram.set(offset, val);
                self.dirty = true;
            }
        }
    }

    fn save_data(&self) -> (r: Option<&[u8]>) {
        if self.dirty && self.ram.len() != 0 {
            Some(self.ram.as_slice())
        } else {
            None
        }
    }

    fn mark_saved(&mut self) {
        self.dirty = false;
    }
}

// ---------------------------------------------------------------------------
// MBC3 (RTC registers are accepted but not emulated).
// ---------------------------------------------------------------------------
pub struct Mbc3 {
    rom: Vec<u8>,
    ram: Vec<u8>,
    rom_bank: usize,
    ram_bank: usize,
    ram_on: bool,
    dirty: bool,
    rom_mask: usize,
}

impl Cartridge for Mbc3 {
    closed spec fn cart_view(&self) -> CartView {
        CartView {
            kind: MapperKind::Mbc3,
            rom: self.rom@,
            ram: self.ram@,
            rom_bank: self.rom_bank,
            ram_bank: self.ram_bank,
            ram_on: self.ram_on,
            mode: 0,
            dirty: self.dirty,
            rom_mask: self.rom_mask,
            ram_mask: 0,
        }
    }

    fn read(&self, addr: u16) -> (r: u8) {
        if addr <= 0x3FFF {
            read_or_ff(&self.rom, addr as usize)
        } else if addr <= 0x7FFF {
            let bank = if self.rom_bank == 0 {
                1
            } else {
                self.rom_bank
            };
            proof {
                lemma_and_le(bank, self.rom_mask);
            }
            read_banked(&self.rom, bank & self.rom_mask, addr as usize - 0x4000)
        } else if 0xA000 <= addr && addr <= 0xBFFF {
            if !self.ram_on {
                return 0xFF;
            }
            if self.ram_bank <= 0x03 {
                read_or_ff(&self.ram, self.ram_bank * 0x2000 + (addr as usize - 0xA000))
            } else {
                // RTC register read — the RTC is not emulated.
                0x00
            }
        } else {
            0xFF
        }
    }

    fn write(&mut self, addr: u16, val: u8) {
        if addr <= 0x1FFF {
            self.ram_on = (val & 0x0F) == 0x0A;
        } else if addr <= 0x3FFF {
            let bank = val as usize & 0x7F;
            proof {
                let v = val as usize;
                lemma_cart_bits(val, 0, 0, 0, v);
                assert((v & 0x7F) == ((val & 0x7F) as usize)) by {
                    lemma_u8_usize_mask(val);
                }
            }
            self.rom_bank = if bank == 0 {
                1
            } else {
                bank
            };
        } else if addr <= 0x5FFF {
            if val <= 0x03 || (0x08 <= val && val <= 0x0C) {
                self.ram_bank = val as usize;
            }
        } else if addr <= 0x7FFF {
            // RTC latch — accepted to keep games happy, not implemented.
        } else if 0xA000 <= addr && addr <= 0xBFFF {
            if self.ram_on && self.ram_bank <= 0x03 {
                let offset = self.ram_bank * 0x2000 + (addr as usize - 0xA000);
                if offset < self.ram.len() {
                    self.ram.set(offset, val);
                    self.dirty = true;
                }
            }
        }
    }

    fn save_data(&self) -> (r: Option<&[u8]>) {
        if self.dirty && self.ram.len() != 0 {
            Some(self.ram.as_slice())
        } else {
            None
        }
    }

    fn mark_saved(&mut self) {
        self.dirty = false;
    }
}

// ---------------------------------------------------------------------------
// MBC5.
// ---------------------------------------------------------------------------
pub struct Mbc5 {
    rom: Vec<u8>,
    ram: Vec<u8>,
    rb: usize,
    ab: usize,
    ram_on: bool,
    dirty: bool,
    rom_mask: usize,
}

impl Cartridge for Mbc5 {
    closed spec fn cart_view(&self) -> CartView {
        CartView {
            kind: MapperKind::Mbc5,
            rom: self.rom@,
            ram: self.ram@,
            rom_bank: self.rb,
            ram_bank: self.ab,
            ram_on: self.ram_on,
            mode: 0,
            dirty: self.dirty,
            rom_mask: self.rom_mask,
            ram_mask: 0,
        }
    }

    fn read(&self, addr: u16) -> (r: u8) {
        if addr <= 0x3FFF {
            read_or_ff(&self.rom, addr as usize)
        } else if addr <= 0x7FFF {
            proof {
                lemma_and_le(self.rb, self.rom_mask);
            }
            read_banked(&self.rom, self.rb & self.rom_mask, addr as usize - 0x4000)
        } else if 0xA000 <= addr && addr <= 0xBFFF {
            if self.ram_on && self.ram.len() != 0 {
                read_or_ff(&self.ram, self.ab * 0x2000 + (addr as usize - 0xA000))
            } else {
                0xFF
            }
        } else {
            0xFF
        }
    }

    fn write(&mut self, addr: u16, val: u8) {
        if addr <= 0x1FFF {
            self.ram_on = (val & 0x0F) == 0x0A;
        } else if addr <= 0x2FFF {
            let rb = self.rb;
            let v = val as usize;
            proof {
                lemma_cart_bits(0, 0, 0, rb, v);
            }
            self.rb = (self.rb & 0x100) | val as usize;
        } else if addr <= 0x3FFF {
            let rb = self.rb;
            let v = val as usize;
            proof {
                lemma_cart_bits(0, 0, 0, rb, v);
            }
            self.rb = (self.rb & 0xFF) | ((val as usize & 1) << 8);
        } else if addr <= 0x5FFF {
            self.ab = (val & 0x0F) as usize;
            proof {
                lemma_cart_bits(val, 0, 0, 0, 0);
            }
        } else if 0xA000 <= addr && addr <= 0xBFFF {
            if self.ram_on && self.ram.len() != 0 {
                let offset = self.ab * 0x2000 + (addr as usize - 0xA000);
                if offset < self.ram.len() {
                    self.ram.set(offset, val);
                    self.dirty = true;
                }
            }
        }
    }

    fn save_data(&self) -> (r: Option<&[u8]>) {
        if self.dirty && self.ram.len() != 0 {
            Some(self.ram.as_slice())
        } else {
            None
        }
    }

    fn mark_saved(&mut self) {
        self.dirty = false;
    }
}

// ---------------------------------------------------------------------------
// Any supported cartridge.
// ---------------------------------------------------------------------------
/// One cartridge of any supported mapper, as built by [`from_bytes`].
pub enum AnyCartridge {
    RomOnly(RomOnly),
    Mbc1(Mbc1),
    Mbc3(Mbc3),
    Mbc5(Mbc5),
}

impl Cartridge for AnyCartridge {
    open spec fn cart_view(&self) -> CartView {
        match self {
            AnyCartridge::RomOnly(c) => c.cart_view(),
            AnyCartridge::Mbc1(c) => c.cart_view(),
            AnyCartridge::Mbc3(c) => c.cart_view(),
            AnyCartridge::Mbc5(c) => c.cart_view(),
        }
    }

    fn read(&self, addr: u16) -> (r: u8) {
        match self {
            AnyCartridge::RomOnly(c) => c.read(addr),
            AnyCartridge::Mbc1(c) => c.read(addr),
            AnyCartridge::Mbc3(c) => c.read(addr),
            AnyCartridge::Mbc5(c) => c.read(addr),
        }
    }

    fn write(&mut self, addr: u16, val: u8) {
        match self {
            AnyCartridge::RomOnly(c) => c.write(addr, val),
            AnyCartridge::Mbc1(c) => c.write(addr, val),
            AnyCartridge::Mbc3(c) => c.write(addr, val),
            AnyCartridge::Mbc5(c) => c.write(addr, val),
        }
    }

    fn save_data(&self) -> (r: Option<&[u8]>) {
        match self {
            AnyCartridge::RomOnly(c) => c.save_data(),
            AnyCartridge::Mbc1(c) => c.save_data(),
            AnyCartridge::Mbc3(c) => c.save_data(),
            AnyCartridge::Mbc5(c) => c.save_data(),
        }
    }

    fn mark_saved(&mut self) {
        match self {
            AnyCartridge::RomOnly(c) => c.mark_saved(),
            AnyCartridge::Mbc1(c) => c.mark_saved(),
            AnyCartridge::Mbc3(c) => c.mark_saved(),
            AnyCartridge::Mbc5(c) => c.mark_saved(),
        }
    }
}

// ---------------------------------------------------------------------------
// Construction helpers.
// ---------------------------------------------------------------------------
/// Map the header RAM-size byte (offset `0x149`) to the actual RAM size
/// in bytes. Unknown values default to 8 KiB to match common emulators.
pub open spec fn ram_size_spec(byte: u8) -> usize {
    if byte == 0x00 {
        0
    } else if byte == 0x01 {
        0x800
    } else if byte == 0x02 {
        0x2000
    } else if byte == 0x03 {
        0x8000
    } else if byte == 0x04 {
        0x20000
    } else if byte == 0x05 {
        0x10000
    } else {
        0x2000
    }
}

/// The mapper a header byte `0x147` selects, if it is supported.
pub open spec fn mapper_kind(byte: u8) -> Option<MapperKind> {
    if byte == 0x00 {
        Some(MapperKind::RomOnly)
    } else if 0x01 <= byte <= 0x03 {
        Some(MapperKind::Mbc1)
    } else if 0x0F <= byte <= 0x13 {
        Some(MapperKind::Mbc3)
    } else if 0x19 <= byte <= 0x1E {
        Some(MapperKind::Mbc5)
    } else {
        None
    }
}

/// `n - 1`, or 0 for `n == 0`.
pub open spec fn mask_for(n: int) -> usize {
    if n == 0 {
        0
    } else {
        (n - 1) as usize
    }
}

/// The cartridge RAM at power-on: the saved image when it has exactly the
/// header's size, else zeroes.
pub open spec fn initial_ram(ram_size: usize, saved: Option<Seq<u8>>) -> Seq<u8> {
    match saved {
        Some(b) if b.len() == ram_size => b,
        _ => Seq::new(ram_size as nat, |i: int| 0u8),
    }
}

/// The cartridge that a ROM image (at least 0x150 bytes, supported mapper)
/// and an optional saved RAM image describe.
pub open spec fn initial_cart(rom: Seq<u8>, saved: Option<Seq<u8>>) -> CartView {
    let kind = mapper_kind(rom[0x147]).unwrap();
    let ram_size = ram_size_spec(rom[0x149]);
    CartView {
        kind,
        rom,
        ram: if kind == MapperKind::RomOnly {
            Seq::empty()
        } else {
            initial_ram(ram_size, saved)
        },
        rom_bank: if kind == MapperKind::RomOnly {
            0
        } else {
            1
        },
        ram_bank: 0,
        ram_on: false,
        mode: 0,
        dirty: false,
        rom_mask: if kind == MapperKind::RomOnly {
            0
        } else {
            mask_for((rom.len() / 0x4000) as int)
        },
        ram_mask: if kind == MapperKind::Mbc1 {
            mask_for((ram_size / 0x2000) as int)
        } else {
            0
        },
    }
}

/// The model of an optional saved RAM image.
pub open spec fn saved_view(saved: Option<Vec<u8>>) -> Option<Seq<u8>> {
    match saved {
        Some(v) => Some(v@),
        None => None,
    }
}

fn ram_size_from_header(byte: u8) -> (n: usize)
    ensures
        n == ram_size_spec(byte),
{
    match byte {
        0x00 => 0,
        0x01 => 0x800,
        0x02 => 0x2000,
        0x03 => 0x8000,
        0x04 => 0x20000,
        0x05 => 0x10000,
        _ => 0x2000,
    }
}

/// Build a cartridge from a raw ROM image and optional previously-saved RAM.
///
/// Pass `Some(bytes)` in `saved_ram` to restore battery-backed saves,
/// otherwise the RAM is zero-initialised.
pub fn from_bytes(rom: Vec<u8>, saved_ram: Option<Vec<u8>>) -> (res: Result<
    AnyCartridge,
    CartridgeError,
>)
    ensures
        rom@.len() < 0x150 ==> res == Err::<AnyCartridge, CartridgeError>(
            CartridgeError::RomTooSmall,
        ),
        rom@.len() >= 0x150 && mapper_kind(rom@[0x147]) is None ==> res == Err::<
            AnyCartridge,
            CartridgeError,
        >(CartridgeError::UnsupportedMapper(rom@[0x147])),
        rom@.len() >= 0x150 && mapper_kind(rom@[0x147]) is Some ==> (res matches Ok(c)
            && c.cart_view() == initial_cart(rom@, saved_view(saved_ram))),
        res matches Ok(c) ==> c.cart_view().wf(),
{
    if rom.len() < 0x150 {
        return Err(CartridgeError::RomTooSmall);
    }
    let rom_banks = rom.len() / 0x4000;
    let rom_mask = rom_banks.saturating_sub(1);
    let ram_size = ram_size_from_header(rom[0x149]);
    let ram_banks = ram_size / 0x2000;
    let ram_mask = ram_banks.saturating_sub(1);
    let ghost saved = saved_view(saved_ram);
    let ram = match saved_ram {
        Some(bytes) if bytes.len() == ram_size => bytes,
        _ => vec![0; ram_size],
    };
    proof {
        assert(ram@ =~= initial_ram(ram_size, saved));
    }
    let mapper = rom[0x147];
    if mapper == 0x00 {
        Ok(AnyCartridge::RomOnly(RomOnly { rom }))
    } else if 0x01 <= mapper && mapper <= 0x03 {
        Ok(
            AnyCartridge::Mbc1(
                Mbc1 {
                    rom,
                    ram,
                    rb: 1,
                    ab: 0,
                    ram_on: false,
                    mode: 0,
                    dirty: false,
                    rom_mask,
                    ram_mask,
                },
            ),
        )
    } else if 0x0F <= mapper && mapper <= 0x13 {
        Ok(
            AnyCartridge::Mbc3(
                Mbc3 { rom, ram, rom_bank: 1, ram_bank: 0, ram_on: false, dirty: false, rom_mask },
            ),
        )
    } else if 0x19 <= mapper && mapper <= 0x1E {
        Ok(
            AnyCartridge::Mbc5(
                Mbc5 { rom, ram, rb: 1, ab: 0, ram_on: false, dirty: false, rom_mask },
            ),
        )
    } else {
        Err(CartridgeError::UnsupportedMapper(mapper))
    }
}

/// Writes never change the ROM image.
pub proof fn lemma_rom_is_read_only(c: CartView, addr: u16, val: u8)
    ensures
        c.write(addr, val).rom == c.rom,
        c.write(addr, val).kind == c.kind,
{
}

/// A byte stored into enabled cartridge RAM reads back unchanged.
pub proof fn lemma_ram_write_read_roundtrip(c: CartView, addr: u16, val: u8)
    requires
        c.wf(),
        c.ram_write_offset(addr) is Some,
    ensures
        c.write(addr, val).read(addr) == val,
        c.write(addr, val).save_data() == Some(c.write(addr, val).ram),
{
}

/// While RAM is disabled the RAM window reads as open bus (0xFF), and
/// writes to it change nothing.
pub proof fn lemma_disabled_ram_reads_open_bus(c: CartView, addr: u16, val: u8)
    requires
        c.kind != MapperKind::RomOnly,
        !c.ram_on,
        0xA000 <= addr <= 0xBFFF,
    ensures
        c.read(addr) == 0xFF,
        c.write(addr, val) == c,
{
}

/// MBC1 never maps bank 0 at `0x4000-0x7FFF` through a zero lower
/// register: writing 0 there selects bank 1 (for an image whose bank count
/// is a power of two, i.e. an odd mask).
pub proof fn lemma_mbc1_zero_bank_selects_one(c: CartView, val: u8)
    requires
        c.kind == MapperKind::Mbc1,
        val & 0x1F == 0,
        c.ram_bank == 0,
        c.rom_mask % 2 == 1,
    ensures
        mbc1_high_bank(c.write(0x2000, val).rom_bank, c.ram_bank, c.rom_mask) == 1,
{
    let m = c.rom_mask;
    assert(((val & 0x1F) as usize) == 0usize);
    lemma_cart_bits(0, 0, m, 0, 0);
}

/// The cartridge after the CPU writes each `(address, value)` pair in
/// order.
pub open spec fn apply_writes(c: CartView, writes: Seq<(u16, u8)>) -> CartView
    decreases writes.len(),
{
    if writes.len() == 0 {
        c
    } else {
        apply_writes(c.write(writes[0].0, writes[0].1), writes.drop_first())
    }
}

/// Writes keep the ROM image, the mapper and the size of the RAM.
pub proof fn lemma_writes_keep_shape(c: CartView, writes: Seq<(u16, u8)>)
    ensures
        apply_writes(c, writes).rom == c.rom,
        apply_writes(c, writes).kind == c.kind,
        apply_writes(c, writes).ram.len() == c.ram.len(),
    decreases writes.len(),
{
    if writes.len() != 0 {
        lemma_writes_keep_shape(c.write(writes[0].0, writes[0].1), writes.drop_first());
    }
}

/// A battery save loaded back with the same ROM restores the RAM exactly:
/// whatever the program wrote since power-on, the save image has the size
/// the header asks for, so building the cartridge again from the ROM and
/// that image gives back the same RAM.
pub proof fn lemma_save_restores_ram(rom: Seq<u8>, saved: Option<Seq<u8>>, writes: Seq<(u16, u8)>)
    requires
        rom.len() >= 0x150,
        mapper_kind(rom[0x147]) is Some,
    ensures
        ({
            let c = apply_writes(initial_cart(rom, saved), writes);
            c.save_data() is Some ==> initial_cart(rom, c.save_data()).ram == c.ram
                && c.save_data() == Some(c.ram)
        }),
{
    lemma_writes_keep_shape(initial_cart(rom, saved), writes);
}

/// A write sets the save-pending mark exactly when it lands in the RAM;
/// any other write leaves the mark as it was.
pub proof fn lemma_write_marks_ram_dirty(c: CartView, addr: u16, val: u8)
    ensures
        c.write(addr, val).dirty == (c.dirty || c.ram_write_offset(addr) is Some),
{
}

/// After a save, nothing is pending: `save_data` is `None`, and stays so
/// through any write that does not land in the RAM.
pub proof fn lemma_saved_until_next_ram_write(c: CartView, addr: u16, val: u8)
    requires
        c.ram_write_offset(addr) is None,
    ensures
        c.saved().save_data() is None,
        c.saved().write(addr, val).save_data() is None,
{
}

/// The header's cartridge-type byte (0x147), as a table: 0x00 ROM only;
/// 0x01-0x03 MBC1; 0x0F-0x13 MBC3 (0x0F/0x10 with the RTC, 0x10/0x12/0x13
/// with RAM); 0x19-0x1E MBC5; anything else is not supported.
pub proof fn lemma_mapper_table(b: u8)
    ensures
        b == 0x00 ==> mapper_kind(b) == Some(MapperKind::RomOnly),
        b == 0x01 || b == 0x02 || b == 0x03 ==> mapper_kind(b) == Some(MapperKind::Mbc1),
        b == 0x0F || b == 0x10 || b == 0x11 || b == 0x12 || b == 0x13 ==> mapper_kind(b) == Some(
            MapperKind::Mbc3,
        ),
        b == 0x19 || b == 0x1A || b == 0x1B || b == 0x1C || b == 0x1D || b == 0x1E ==> mapper_kind(
            b,
        ) == Some(MapperKind::Mbc5),
        (0x04 <= b <= 0x0E) || (0x14 <= b <= 0x18) || b >= 0x1F ==> mapper_kind(b) is None,
{
}

/// The header's RAM-size byte (0x149), as a table: none, 2 KiB, 8 KiB,
/// 32 KiB, 128 KiB, 64 KiB; unknown values give 8 KiB.
pub proof fn lemma_ram_size_table(b: u8)
    ensures
        b == 0 ==> ram_size_spec(b) == 0,
        b == 1 ==> ram_size_spec(b) == 2048,
        b == 2 ==> ram_size_spec(b) == 8192,
        b == 3 ==> ram_size_spec(b) == 32768,
        b == 4 ==> ram_size_spec(b) == 131072,
        b == 5 ==> ram_size_spec(b) == 65536,
        b > 5 ==> ram_size_spec(b) == 8192,
{
}

/// RAM is enabled by writing a value whose low nibble is 0xA anywhere in
/// `0x0000-0x1FFF`, and disabled by any other value there.
pub proof fn lemma_ram_enable(c: CartView, addr: u16, val: u8)
    requires
        c.kind != MapperKind::RomOnly,
        addr <= 0x1FFF,
    ensures
        c.write(addr, val).ram_on == (val % 16 == 10),
{
    crate::isa::lemma_byte_bits(val);
}

/// ROM bank switching at `0x4000-0x7FFF`, per mapper. MBC1 takes the
/// low five bits written to `0x2000-0x3FFF` (0 means 1); MBC3 takes seven
/// bits (0 means 1); MBC5 takes all eight written to `0x2000-0x2FFF` as the
/// low byte and bit 0 of a write to `0x3000-0x3FFF` as the ninth bit. The
/// bank is then folded into the image.
pub proof fn lemma_rom_bank_switch(c: CartView, val: u8, k: int)
    requires
        c.wf(),
        0 <= k <= 0x3FFF,
    ensures
        c.kind == MapperKind::Mbc1 && c.ram_bank == 0 ==> c.write(0x2000, val).read(
            (0x4000 + k) as u16,
        ) == c.rom[rom_index(
            ((if val % 32 == 0 { 1 } else { val % 32 }) as usize) & c.rom_mask,
            k,
            c.rom.len(),
        )],
        c.kind == MapperKind::Mbc3 ==> c.write(0x2000, val).read((0x4000 + k) as u16)
            == c.rom[rom_index(
            ((if val % 128 == 0 { 1 } else { val % 128 }) as usize) & c.rom_mask,
            k,
            c.rom.len(),
        )],
        c.kind == MapperKind::Mbc5 ==> c.write(0x2000, val).read((0x4000 + k) as u16)
            == c.rom[rom_index(
            ((if c.rom_bank >= 256 { 256 + val } else { val as int }) as usize) & c.rom_mask,
            k,
            c.rom.len(),
        )],
        c.kind == MapperKind::Mbc5 ==> c.write(0x3000, val).rom_bank == c.rom_bank % 256 + 256 * (
        val % 2),
{
    let rb = c.rom_bank;
    let m = c.rom_mask;
    let v = val;
    crate::isa::lemma_byte_bits(v);
    let x = (v % 32) as usize;
    assert(x < 32 ==> (x | (0usize << 5usize)) == x && x & 0x1F == x && (x == 0 ==> (x | 1) == 1))
        by (bit_vector);
    assert(rb <= 0x1FF ==> (rb & 0x100) | (v as usize) == (if rb >= 256 { 256 + v } else {
        v as int
    }) as usize) by (bit_vector);
    assert(rb <= 0x1FF ==> (rb & 0xFF) | (((v as usize) & 1) << 8usize) == (rb % 256 + 256 * (v
        % 2)) as usize) by (bit_vector);
}

} // verus!
