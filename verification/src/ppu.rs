//! Pixel Processing Unit (PPU).
//!
//! Scanline-based renderer for the DMG: each scanline is drawn in
//! one pass (background → window → sprites) at the start of mode 0
//! (H-Blank). STAT interrupts, V-Blank cadence, sprite priority and window
//! tracking are modelled; sub-scanline timing tricks are not.
use vstd::prelude::*;

verus! {

/// Visible display width in pixels.
pub const SCREEN_WIDTH: usize = 160;

/// Visible display height in pixels.
pub const SCREEN_HEIGHT: usize = 144;

/// Total dot cycles per scanline (visible + H-Blank).
pub const DOTS_PER_LINE: u32 = 456;

/// First scanline of V-Blank.
pub const VBLANK_START_LINE: u8 = 144;

/// Last virtual scanline before wrapping back to 0.
pub const LAST_LINE: u8 = 153;

/// Bytes in one RGBA frame.
pub const FRAME_BYTES: usize = 92160;

/// Bytes in one RGBA scanline.
pub const LINE_BYTES: usize = 640;

/// The PPU's registers and timing state.
#[derive(Clone, Copy)]
pub struct PpuRegs {
    pub lcdc: u8,
    pub stat: u8,
    pub scy: u8,
    pub scx: u8,
    pub ly: u8,
    pub lyc: u8,
    pub wy: u8,
    pub wx: u8,
    pub bgp: u8,
    pub obp0: u8,
    pub obp1: u8,
    pub dots: u32,
    pub window_line: u8,
    pub mode: u8,
}

/// Mathematical model of the PPU.
pub struct PpuView {
    pub buffer: Seq<u8>,
    pub vram: Seq<u8>,
    pub oam: Seq<u8>,
    pub regs: PpuRegs,
}

/// Pixel Processing Unit. The output frame is stored in `buffer` as
/// 160×144 RGBA bytes ready to be uploaded to a texture.
pub struct Ppu {
    /// Front buffer in RGBA8 format (`SCREEN_WIDTH * SCREEN_HEIGHT * 4`).
    pub buffer: Vec<u8>,
    vram: [u8; 8192],
    oam: [u8; 160],
    regs: PpuRegs,
}

// ----- Colours -------------------------------------------------------------
/// The shade (0-3) a 2-bit colour index takes through a palette register.
pub open spec fn shade(color_idx: u8, palette: u8) -> u8 {
    (palette >> (color_idx * 2)) & 3
}

/// One of the four canonical "DMG green" RGBA colours.
pub open spec fn rgba(s: u8) -> Seq<u8> {
    if s == 0 {
        seq![224u8, 248, 208, 255]
    } else if s == 1 {
        seq![136u8, 192, 112, 255]
    } else if s == 2 {
        seq![52u8, 104, 86, 255]
    } else {
        seq![8u8, 24, 32, 255]
    }
}

/// The colour index (0-3) that bit `bit` of a tile row's two bytes gives.
pub open spec fn tile_pixel(b1: u8, b2: u8, bit: u8) -> u8 {
    ((b1 >> bit) & 1) | (((b2 >> bit) & 1) << 1)
}

// ----- Background and window ----------------------------------------------
impl PpuRegs {
    pub open spec fn lcd_on(self) -> bool {
        (self.lcdc & 0x80) != 0
    }

    pub open spec fn bg_enabled(self) -> bool {
        (self.lcdc & 0x01) != 0
    }

    pub open spec fn sprites_enabled(self) -> bool {
        (self.lcdc & 0x02) != 0
    }

    /// The window covers part of the current line.
    pub open spec fn window_active(self) -> bool {
        (self.lcdc & 0x20) != 0 && self.wx <= 166 && self.ly >= self.wy
    }

    /// Pixel `x` of the current line comes from the window.
    pub open spec fn uses_window(self, x: int) -> bool {
        self.window_active() && x + 7 >= self.wx
    }

    /// The tile map (as a VRAM offset) that pixel `x` reads.
    pub open spec fn tile_map_base(self, x: int) -> int {
        let bit = if self.uses_window(x) {
            0x40u8
        } else {
            0x08u8
        };
        if (self.lcdc & bit) != 0 {
            0x1C00
        } else {
            0x1800
        }
    }

    /// The line inside the background (or window) that pixel `x` shows.
    pub open spec fn map_y(self, x: int) -> int {
        if self.uses_window(x) {
            self.window_line as int
        } else {
            (self.ly + self.scy) % 256
        }
    }

    /// The column inside the background (or window) that pixel `x` shows.
    pub open spec fn map_x(self, x: int) -> int {
        if self.uses_window(x) {
            (x + 7 - self.wx) % 256
        } else {
            (x + self.scx) % 256
        }
    }

    /// The VRAM offset of the first byte of tile `tid`.
    pub open spec fn tile_data_base(self, tid: u8) -> int {
        if (self.lcdc & 0x10) != 0 {
            tid * 16
        } else if tid < 128 {
            0x1000 + tid * 16
        } else {
            0x1000 - (256 - tid) * 16
        }
    }
}

impl PpuView {
    /// The power-on state: a blank frame, cleared VRAM and OAM, the LCD on
    /// with the background enabled, and the identity palettes.
    pub open spec fn power_on() -> PpuView {
        PpuView {
            buffer: Seq::new(FRAME_BYTES as nat, |i: int| 0u8),
            vram: Seq::new(8192, |i: int| 0u8),
            oam: Seq::new(160, |i: int| 0u8),
            regs: PpuRegs {
                lcdc: 0x91,
                stat: 0x85,
                scy: 0,
                scx: 0,
                ly: 0,
                lyc: 0,
                wy: 0,
                wx: 0,
                bgp: 0xE4,
                obp0: 0xE4,
                obp1: 0xE4,
                dots: 0,
                window_line: 0,
                mode: 0,
            },
        }
    }

    /// The background/window colour index of pixel `x` on the current line.
    pub open spec fn bg_color_index(self, x: int) -> u8 {
        let r = self.regs;
        let my = r.map_y(x);
        let mx = r.map_x(x);
        let tid = self.vram[r.tile_map_base(x) + (my / 8) * 32 + mx / 8];
        let base = r.tile_data_base(tid);
        let line = my % 8;
        tile_pixel(self.vram[base + line * 2], self.vram[base + line * 2 + 1], (7 - mx % 8) as u8)
    }

    /// Whether pixel `x` shows a non-zero background colour (which hides
    /// sprites that sit behind the background).
    pub open spec fn bg_opaque(self, x: int) -> bool {
        self.regs.bg_enabled() && self.bg_color_index(x) != 0
    }

    /// The background shade of pixel `x`.
    pub open spec fn bg_shade(self, x: int) -> u8 {
        shade(
            if self.regs.bg_enabled() {
                self.bg_color_index(x)
            } else {
                0
            },
            self.regs.bgp,
        )
    }

    // ----- Sprites ---------------------------------------------------------
    pub open spec fn sprite_height(self) -> int {
        if (self.regs.lcdc & 0x04) != 0 {
            16
        } else {
            8
        }
    }

    /// The shade sprite `i` draws at pixel `x` of the current line, if any.
    pub open spec fn sprite_shade(self, i: int, x: int) -> Option<u8> {
        let h = self.sprite_height();
        let sy = self.oam[i * 4] - 16;
        let sx = self.oam[i * 4 + 1] - 8;
        let tile = self.oam[i * 4 + 2];
        let flags = self.oam[i * 4 + 3];
        let ly = self.regs.ly as int;
        if ly < sy || ly >= sy + h || x < sx || x >= sx + 8 || x < 0 || x >= 160 {
            None
        } else {
            let line = ly - sy;
            let row = if (flags & 0x40) != 0 {
                h - 1 - line
            } else {
                line
            };
            let tile_idx = if h == 16 {
                tile & 0xFE
            } else {
                tile
            };
            let addr = tile_idx * 16 + row * 2;
            let px = x - sx;
            let bit = if (flags & 0x20) != 0 {
                px
            } else {
                7 - px
            };
            let ci = tile_pixel(self.vram[addr], self.vram[addr + 1], bit as u8);
            let palette = if (flags & 0x10) != 0 {
                self.regs.obp1
            } else {
                self.regs.obp0
            };
            if ci == 0 || ((flags & 0x80) != 0 && self.bg_opaque(x)) {
                None
            } else {
                Some(shade(ci, palette))
            }
        }
    }

    /// The lowest-numbered sprite at or after `i` that draws at pixel `x`.
    pub open spec fn first_sprite_from(self, x: int, i: int) -> Option<u8>
        decreases 40 - i,
    {
        if i >= 40 || i < 0 {
            None
        } else {
            match self.sprite_shade(i, x) {
                Some(s) => Some(s),
                None => self.first_sprite_from(x, i + 1),
            }
        }
    }

    /// The shade pixel `x` of the current line ends up with, with sprites
    /// `i..40` drawn over the background (lower indices win).
    pub open spec fn shade_from(self, x: int, i: int) -> u8 {
        if self.regs.sprites_enabled() {
            match self.first_sprite_from(x, i) {
                Some(s) => s,
                None => self.bg_shade(x),
            }
        } else {
            self.bg_shade(x)
        }
    }

    /// The final shade of pixel `x` of the current line.
    pub open spec fn line_shade(self, x: int) -> u8 {
        self.shade_from(x, 0)
    }

    /// The frame buffer after the current line is drawn.
    pub open spec fn rendered_buffer(self) -> Seq<u8> {
        let base = self.regs.ly * 640;
        Seq::new(
            self.buffer.len(),
            |i: int|
                if base <= i < base + 640 {
                    rgba(self.line_shade((i - base) / 4))[(i - base) % 4]
                } else {
                    self.buffer[i]
                },
        )
    }

    /// The state after the current line is drawn: the buffer, and the
    /// window's internal line counter.
    pub open spec fn render(self) -> PpuView {
        PpuView {
            buffer: self.rendered_buffer(),
            regs: PpuRegs {
                window_line: if self.regs.window_active() {
                    (self.regs.window_line + 1) as u8
                } else {
                    self.regs.window_line
                },
                ..self.regs
            },
            ..self
        }
    }

    // ----- Timing ----------------------------------------------------------
    /// Invariant of the PPU model.
    pub open spec fn wf(self) -> bool {
        let r = self.regs;
        &&& self.buffer.len() == FRAME_BYTES
        &&& self.vram.len() == 8192
        &&& self.oam.len() == 160
        &&& r.ly <= LAST_LINE
        &&& r.dots < DOTS_PER_LINE
        &&& r.mode <= 3
        &&& r.ly >= VBLANK_START_LINE ==> r.window_line == 0
        &&& r.window_line <= r.ly + 1
        &&& r.window_line == r.ly + 1 ==> (r.mode == 0 && r.dots > 252 && r.ly
            < VBLANK_START_LINE)
    }

    /// Mode transitions inside a visible line (and the render at H-Blank).
    pub open spec fn update_visible_mode(self, if_reg: u8) -> (PpuView, u8) {
        let r = self.regs;
        if r.dots <= 80 {
            if r.mode != 2 {
                let stat = (r.stat & 0xFC) | 2;
                (
                    PpuView { regs: PpuRegs { mode: 2, stat, ..r }, ..self },
                    if (stat & 0x20) != 0 {
                        if_reg | 0x02
                    } else {
                        if_reg
                    },
                )
            } else {
                (self, if_reg)
            }
        } else if r.dots <= 252 {
            if r.mode != 3 {
                (PpuView { regs: PpuRegs { mode: 3, stat: (r.stat & 0xFC) | 3, ..r }, ..self }, if_reg)
            } else {
                (self, if_reg)
            }
        } else if r.mode != 0 {
            let stat = r.stat & 0xFC;
            (
                PpuView { regs: PpuRegs { mode: 0, stat, ..r }, ..self }.render(),
                if (stat & 0x08) != 0 {
                    if_reg | 0x02
                } else {
                    if_reg
                },
            )
        } else {
            (self, if_reg)
        }
    }

    /// The state after a whole line has elapsed: LY moves on, the
    /// coincidence flag follows LYC, and line 144 starts V-Blank.
    pub open spec fn next_line(self, if_reg: u8) -> (PpuView, u8) {
        let r = self.regs;
        let ly = (r.ly + 1) as u8;
        let (stat1, if1) = if ly == r.lyc {
            (
                r.stat | 0x04,
                if ((r.stat | 0x04) & 0x40) != 0 {
                    if_reg | 0x02
                } else {
                    if_reg
                },
            )
        } else {
            (r.stat & !0x04u8, if_reg)
        };
        let dots = (r.dots - DOTS_PER_LINE) as u32;
        if ly == VBLANK_START_LINE {
            let stat2 = (stat1 & 0xFC) | 1;
            (
                PpuView {
                    regs: PpuRegs { ly, dots, mode: 1, stat: stat2, window_line: 0, ..r },
                    ..self
                },
                if (stat2 & 0x10) != 0 {
                    (if1 | 0x01) | 0x02
                } else {
                    if1 | 0x01
                },
            )
        } else {
            (PpuView { regs: PpuRegs { ly, dots, stat: stat1, ..r }, ..self }, if1)
        }
    }

    /// State and interrupt-flag register after a tick of `cycles` T-cycles.
    pub open spec fn tick(self, cycles: u8, if_reg: u8) -> (PpuView, u8) {
        if !self.regs.lcd_on() {
            (self, if_reg)
        } else {
            let v0 = PpuView { regs: PpuRegs { dots: (self.regs.dots + cycles) as u32, ..self.regs }, ..self };
            let (v1, if1) = if v0.regs.dots >= DOTS_PER_LINE {
                v0.next_line(if_reg)
            } else {
                (v0, if_reg)
            };
            let (v2, if2) = if v1.regs.ly > LAST_LINE {
                let stat = (v1.regs.stat & 0xFC) | 2;
                (
                    PpuView { regs: PpuRegs { ly: 0, dots: 0, mode: 2, stat, ..v1.regs }, ..v1 },
                    if (stat & 0x20) != 0 {
                        if1 | 0x02
                    } else {
                        if1
                    },
                )
            } else {
                (v1, if1)
            };
            if v2.regs.ly < VBLANK_START_LINE {
                v2.update_visible_mode(if2)
            } else {
                (v2, if2)
            }
        }
    }

    // ----- Memory-mapped access --------------------------------------------
    /// A byte of VRAM, OAM or a register as the CPU reads it.
    pub open spec fn read(self, addr: u16) -> u8 {
        let r = self.regs;
        if 0x8000 <= addr <= 0x9FFF {
            self.vram[addr - 0x8000]
        } else if 0xFE00 <= addr <= 0xFE9F {
            self.oam[addr - 0xFE00]
        } else if addr == 0xFF40 {
            r.lcdc
        } else if addr == 0xFF41 {
            r.stat | 0x80
        } else if addr == 0xFF42 {
            r.scy
        } else if addr == 0xFF43 {
            r.scx
        } else if addr == 0xFF44 {
            r.ly
        } else if addr == 0xFF45 {
            r.lyc
        } else if addr == 0xFF47 {
            r.bgp
        } else if addr == 0xFF48 {
            r.obp0
        } else if addr == 0xFF49 {
            r.obp1
        } else if addr == 0xFF4A {
            r.wy
        } else if addr == 0xFF4B {
            r.wx
        } else {
            0xFF
        }
    }

    /// The registers after the CPU writes `val` at `addr` (a register).
    pub open spec fn write_reg(r: PpuRegs, addr: u16, val: u8) -> PpuRegs {
        if addr == 0xFF40 {
            if (r.lcdc & 0x80) != 0 && (val & 0x80) == 0 {
                PpuRegs { lcdc: val, ly: 0, dots: 0, mode: 0, stat: r.stat & 0xFC, window_line: 0, ..r }
            } else {
                PpuRegs { lcdc: val, ..r }
            }
        } else if addr == 0xFF41 {
            PpuRegs { stat: (r.stat & 0x07) | (val & 0x78), ..r }
        } else if addr == 0xFF42 {
            PpuRegs { scy: val, ..r }
        } else if addr == 0xFF43 {
            PpuRegs { scx: val, ..r }
        } else if addr == 0xFF45 {
            PpuRegs { lyc: val, ..r }
        } else if addr == 0xFF47 {
            PpuRegs { bgp: val, ..r }
        } else if addr == 0xFF48 {
            PpuRegs { obp0: val, ..r }
        } else if addr == 0xFF49 {
            PpuRegs { obp1: val, ..r }
        } else if addr == 0xFF4A {
            PpuRegs { wy: val, ..r }
        } else if addr == 0xFF4B {
            PpuRegs { wx: val, ..r }
        } else {
            r
        }
    }

    /// The state after the CPU writes `val` at `addr`.
    pub open spec fn write(self, addr: u16, val: u8) -> PpuView {
        if 0x8000 <= addr <= 0x9FFF {
            PpuView { vram: self.vram.update(addr - 0x8000, val), ..self }
        } else if 0xFE00 <= addr <= 0xFE9F {
            PpuView { oam: self.oam.update(addr - 0xFE00, val), ..self }
        } else {
            PpuView { regs: Self::write_reg(self.regs, addr, val), ..self }
        }
    }
}

impl View for Ppu {
    type V = PpuView;

    closed spec fn view(&self) -> PpuView {
        PpuView { buffer: self.buffer@, vram: self.vram@, oam: self.oam@, regs: self.regs }
    }
}

/// The pixel at `x` of the line starting at byte `base` has shade `s`.
pub open spec fn pixel_has_shade(buf: Seq<u8>, base: int, x: int, s: u8) -> bool {
    forall|k: int| 0 <= k < 4 ==> #[trigger] buf[base + 4 * x + k] == rgba(s)[k]
}

impl Ppu {
    pub fn new() -> (p: Self)
        ensures
            p@ == PpuView::power_on(),
            p@.wf(),
    {
        let p = Ppu {
            buffer: vec![0; FRAME_BYTES],
            vram: [0; 8192],
            oam: [0; 160],
            regs: PpuRegs {
                lcdc: 0x91,
                stat: 0x85,
                scy: 0,
                scx: 0,
                ly: 0,
                lyc: 0,
                wy: 0,
                wx: 0,
                bgp: 0xE4,
                obp0: 0xE4,
                obp1: 0xE4,
                dots: 0,
                window_line: 0,
                mode: 0,
            },
        };
        proof {
            assert(p@.buffer =~= Seq::new(FRAME_BYTES as nat, |i: int| 0u8));
            assert(p@.vram =~= Seq::new(8192, |i: int| 0u8));
            assert(p@.oam =~= Seq::new(160, |i: int| 0u8));
        }
        p
    }

    /// Memory-mapped read of VRAM/OAM/registers.
    pub fn read(&self, addr: u16) -> (r: u8)
        ensures
            r == self@.read(addr),
    {
        let r = &self.regs;
        if 0x8000 <= addr && addr <= 0x9FFF {
            self.vram[(addr - 0x8000) as usize]
        } else if 0xFE00 <= addr && addr <= 0xFE9F {
            self.oam[(addr - 0xFE00) as usize]
        } else {
            match addr {
                0xFF40 => r.lcdc,
                0xFF41 => r.stat | 0x80,
                0xFF42 => r.scy,
                0xFF43 => r.scx,
                0xFF44 => r.ly,
                0xFF45 => r.lyc,
                0xFF47 => r.bgp,
                0xFF48 => r.obp0,
                0xFF49 => r.obp1,
                0xFF4A => r.wy,
                0xFF4B => r.wx,
                _ => 0xFF,
            }
        }
    }

    /// Memory-mapped write of VRAM/OAM/registers. Turning the LCD off
    /// resets the scanline counter and clears the active mode.
    pub fn write(&mut self, addr: u16, val: u8)
        ensures
            final(self)@ == old(self)@.write(addr, val),
            old(self)@.wf() ==> final(self)@.wf(),
    {
        if 0x8000 <= addr && addr <= 0x9FFF {
            self.vram[(addr - 0x8000) as usize] = val;
        } else if 0xFE00 <= addr && addr <= 0xFE9F {
            self.oam[(addr - 0xFE00) as usize] = val;
        } else {
            match addr {
                0xFF40 => {
                    let was_on = (self.regs.lcdc & 0x80) != 0;
                    self.regs.lcdc = val;
                    if was_on && (val & 0x80) == 0 {
                        self.regs.ly = 0;
                        self.regs.dots = 0;
                        self.regs.mode = 0;
                        self.regs.stat = self.regs.stat & 0xFC;
                        self.regs.window_line = 0;
                    }
                },
                // Bits 0-2 of STAT are read-only.
                0xFF41 => self.regs.stat = (self.regs.stat & 0x07) | (val & 0x78),
                0xFF42 => self.regs.scy = val,
                0xFF43 => self.regs.scx = val,
                0xFF45 => self.regs.lyc = val,
                0xFF47 => self.regs.bgp = val,
                0xFF48 => self.regs.obp0 = val,
                0xFF49 => self.regs.obp1 = val,
                0xFF4A => self.regs.wy = val,
                0xFF4B => self.regs.wx = val,
                _ => {},
            }
        }
        proof {
            assert(self@.vram =~= old(self)@.write(addr, val).vram);
            assert(self@.oam =~= old(self)@.write(addr, val).oam);
        }
    }

    /// Borrow the RGBA frame buffer.
    pub fn frame(&self) -> (f: &[u8])
        ensures
            f@ == self@.buffer,
    {
        self.buffer.as_slice()
    }

    /// Direct OAM write used by the DMA controller in the bus.
    pub fn write_oam(&mut self, index: usize, val: u8)
        requires
            index < 160,
        ensures
            final(self)@ == (PpuView { oam: old(self)@.oam.update(index as int, val), ..old(self)@ }),
    {
        self.oam[index] = val;
        proof {
            assert(self@.oam =~= old(self)@.oam.update(index as int, val));
        }
    }
}


impl PpuView {
    /// The sprite-or-background shade of pixel `x` once sprites `i..40`
    /// are drawn.
    pub open spec fn sprite_or_bg(self, x: int, i: int) -> u8 {
        match self.first_sprite_from(x, i) {
            Some(s) => s,
            None => self.bg_shade(x),
        }
    }

    /// Pixel `x` while sprite `idx` (at column `sx`) is being drawn: its
    /// first `drawn` columns already show it.
    pub open spec fn sprite_progress(self, x: int, idx: int, sx: int, drawn: int) -> u8 {
        if sx <= x < sx + drawn {
            self.sprite_or_bg(x, idx)
        } else {
            self.sprite_or_bg(x, idx + 1)
        }
    }
}

/// Two views with the same VRAM, OAM and registers draw the same line.
proof fn lemma_same_picture(a: PpuView, b: PpuView)
    requires
        a.vram == b.vram,
        a.oam == b.oam,
        a.regs == b.regs,
    ensures
        forall|x: int| #[trigger] a.bg_opaque(x) == b.bg_opaque(x),
        forall|x: int| #[trigger] a.bg_shade(x) == b.bg_shade(x),
        forall|i: int, x: int| #[trigger] a.sprite_shade(i, x) == b.sprite_shade(i, x),
        forall|x: int, i: int| #[trigger] a.sprite_or_bg(x, i) == b.sprite_or_bg(x, i),
        forall|x: int| #[trigger] a.line_shade(x) == b.line_shade(x),
{
    assert forall|x: int, i: int| #[trigger] a.first_sprite_from(x, i) == b.first_sprite_from(x, i) by {
        lemma_same_sprites_from(a, b, x, i);
    }
    assert forall|x: int, i: int| #[trigger] a.sprite_or_bg(x, i) == b.sprite_or_bg(x, i) by {
        lemma_same_sprites_from(a, b, x, i);
    }
    assert forall|x: int| #[trigger] a.line_shade(x) == b.line_shade(x) by {
        lemma_same_sprites_from(a, b, x, 0);
    }
}

proof fn lemma_same_sprites_from(a: PpuView, b: PpuView, x: int, i: int)
    requires
        a.vram == b.vram,
        a.oam == b.oam,
        a.regs == b.regs,
    ensures
        a.first_sprite_from(x, i) == b.first_sprite_from(x, i),
    decreases 40 - i,
{
    if 0 <= i < 40 {
        assert(a.sprite_shade(i, x) == b.sprite_shade(i, x));
        lemma_same_sprites_from(a, b, x, i + 1);
    }
}

proof fn lemma_pixel_offset(y: u8, x: u8)
    requires
        y < 144,
        x < 160,
    ensures
        (y as int * 160 + x as int) * 4 == y as int * 640 + 4 * x as int,
        y as int * 640 + 4 * x as int + 4 <= FRAME_BYTES,
{
    assert((y as int * 160 + x as int) * 4 == y as int * 640 + 4 * x as int) by (nonlinear_arith);
    assert(y as int * 640 <= 143 * 640) by (nonlinear_arith)
        requires
            y < 144,
    ;
}

/// The RGBA colour of a shade.
fn shade_color(s: u8) -> (c: [u8; 4])
    ensures
        c@ == rgba(s),
{
    let c = if s == 0 {
        [224, 248, 208, 255]
    } else if s == 1 {
        [136, 192, 112, 255]
    } else if s == 2 {
        [52, 104, 86, 255]
    } else {
        [8, 24, 32, 255]
    };
    proof {
        assert(c@ =~= rgba(s));
    }
    c
}

/// The shade a colour index takes through a palette register.
fn shade_of(color_idx: u8, palette: u8) -> (s: u8)
    requires
        color_idx <= 3,
    ensures
        s == shade(color_idx, palette),
        s <= 3,
{
    let s = (palette >> (color_idx * 2)) & 3;
    proof {
        let t = palette >> (color_idx * 2);
        assert(t & 3 <= 3) by (bit_vector);
    }
    s
}

/// The colour index bit `bit` of a tile row encodes.
fn tile_pixel_exec(b1: u8, b2: u8, bit: u8) -> (ci: u8)
    requires
        bit <= 7,
    ensures
        ci == tile_pixel(b1, b2, bit),
        ci <= 3,
{
    let ci = ((b1 >> bit) & 1) | (((b2 >> bit) & 1) << 1);
    proof {
        let p = b1 >> bit;
        let q = b2 >> bit;
        assert(((p & 1) | ((q & 1) << 1)) <= 3) by (bit_vector);
    }
    ci
}

impl Ppu {
    /// Translate a 2-bit colour index through a palette register to one of
    /// the four canonical "DMG green" RGBA colours.
    fn pal(&self, color_idx: u8, palette: u8) -> (c: [u8; 4])
        requires
            color_idx <= 3,
        ensures
            c@ == rgba(shade(color_idx, palette)),
    {
        shade_color(shade_of(color_idx, palette))
    }

    fn plot(&mut self, x: u8, y: u8, color: [u8; 4])
        requires
            old(self)@.buffer.len() == FRAME_BYTES,
            x < 160,
            y < 144,
        ensures
            final(self)@.vram == old(self)@.vram,
            final(self)@.oam == old(self)@.oam,
            final(self)@.regs == old(self)@.regs,
            final(self)@.buffer.len() == FRAME_BYTES,
            forall|i: int|
                0 <= i < FRAME_BYTES ==> #[trigger] final(self)@.buffer[i] == if y * 640 + 4 * x
                    <= i < y * 640 + 4 * x + 4 {
                    color@[i - (y * 640 + 4 * x)]
                } else {
                    old(self)@.buffer[i]
                },
    {
        proof {
            lemma_pixel_offset(y, x);
        }
        let offset = (y as usize * SCREEN_WIDTH + x as usize) * 4;
        self.buffer.set(offset, color[0]);
        self.buffer.set(offset + 1, color[1]);
        self.buffer.set(offset + 2, color[2]);
        self.buffer.set(offset + 3, color[3]);
    }

    /// Whether pixel `x` comes from the window, and the map coordinates
    /// (row, column) it shows.
    fn map_coords(&self, x: u8) -> (res: (bool, u8, u8))
        requires
            x < 160,
        ensures
            res.0 == self@.regs.uses_window(x as int),
            res.1 as int == self@.regs.map_y(x as int),
            res.2 as int == self@.regs.map_x(x as int),
    {
        let r = self.regs;
        let window_active = (r.lcdc & 0x20) != 0 && r.wx <= 166 && r.ly >= r.wy;
        let using_window = window_active && (x + 7) >= r.wx;
        let y_pos = if using_window {
            r.window_line
        } else {
            r.ly.wrapping_add(r.scy)
        };
        let x_pos = if using_window {
            (x + 7).wrapping_sub(r.wx)
        } else {
            x.wrapping_add(r.scx)
        };
        (using_window, y_pos, x_pos)
    }

    /// The VRAM offset of the first byte of tile `tid`.
    fn tile_data_offset(&self, tid: u8) -> (off: usize)
        ensures
            off as int == self@.regs.tile_data_base(tid),
            off <= 0x17F0,
    {
        if (self.regs.lcdc & 0x10) != 0 {
            (tid as usize) * 16
        } else if tid < 128 {
            0x1000 + (tid as usize) * 16
        } else {
            0x1000 - (256 - tid as usize) * 16
        }
    }

    /// The background/window colour index of pixel `x` of the current line.
    fn bg_color_index(&self, x: u8) -> (ci: u8)
        requires
            x < 160,
        ensures
            ci == self@.bg_color_index(x as int),
            ci <= 3,
    {
        let (using_window, y_pos, x_pos) = self.map_coords(x);
        let bit_sel: u8 = if using_window {
            0x40
        } else {
            0x08
        };
        let tile_map: usize = if (self.regs.lcdc & bit_sel) != 0 {
            0x1C00
        } else {
            0x1800
        };
        let tile_row = (y_pos / 8) as usize;
        let tile_col = (x_pos / 8) as usize;
        let tid = self.vram[tile_map + tile_row * 32 + tile_col];
        let data = self.tile_data_offset(tid);
        let line_in_tile = (y_pos % 8) as usize;
        let b1 = self.vram[data + line_in_tile * 2];
        let b2 = self.vram[data + line_in_tile * 2 + 1];
        let bit = 7 - (x_pos % 8);
        tile_pixel_exec(b1, b2, bit)
    }

    /// The shade sprite `idx` draws at pixel `x` of the current line.
    fn sprite_pixel(&self, idx: usize, x: i16, bg_opaque: &Vec<bool>) -> (r: Option<u8>)
        requires
            idx < 40,
            0 <= x < 160,
            bg_opaque@.len() == 160,
            forall|j: int| 0 <= j < 160 ==> bg_opaque@[j] == self@.bg_opaque(j),
        ensures
            r == self@.sprite_shade(idx as int, x as int),
    {
        let height: i16 = if (self.regs.lcdc & 0x04) != 0 {
            16
        } else {
            8
        };
        let sy = self.oam[idx * 4] as i16 - 16;
        let sx = self.oam[idx * 4 + 1] as i16 - 8;
        let tile = self.oam[idx * 4 + 2];
        let flags = self.oam[idx * 4 + 3];
        let ly = self.regs.ly as i16;
        if ly < sy || ly >= sy + height || x < sx || x >= sx + 8 {
            return None;
        }
        let line = ly - sy;
        let row = if (flags & 0x40) != 0 {
            height - 1 - line
        } else {
            line
        };
        let tile_idx = if height == 16 {
            tile & 0xFE
        } else {
            tile
        };
        let addr = (tile_idx as usize) * 16 + (row as usize) * 2;
        let b1 = self.vram[addr];
        let b2 = self.vram[addr + 1];
        let px = x - sx;
        let bit: u8 = if (flags & 0x20) != 0 {
            px as u8
        } else {
            7 - px as u8
        };
        let color_idx = tile_pixel_exec(b1, b2, bit);
        if color_idx == 0 {
            return None;
        }
        if (flags & 0x80) != 0 && bg_opaque[x as usize] {
            return None;
        }
        let palette = if (flags & 0x10) != 0 {
            self.regs.obp1
        } else {
            self.regs.obp0
        };
        Some(shade_of(color_idx, palette))
    }

    /// Sprite (OBJ) pass. Iterates OAM in reverse so lower indices win on
    /// X-collision. Honours the BG-priority flag, 8×16 mode, X/Y mirroring
    /// and per-sprite palette selection.
    fn render_sprites(&mut self, bg_opaque: &Vec<bool>)
        requires
            old(self)@.buffer.len() == FRAME_BYTES,
            old(self)@.regs.ly < 144,
            bg_opaque@.len() == 160,
            forall|j: int| 0 <= j < 160 ==> bg_opaque@[j] == old(self)@.bg_opaque(j),
            forall|x: int|
                0 <= x < 160 ==> #[trigger] pixel_has_shade(
                    old(self)@.buffer,
                    old(self)@.regs.ly * 640,
                    x,
                    old(self)@.bg_shade(x),
                ),
        ensures
            final(self)@.vram == old(self)@.vram,
            final(self)@.oam == old(self)@.oam,
            final(self)@.regs == old(self)@.regs,
            final(self)@.buffer.len() == FRAME_BYTES,
            forall|x: int|
                0 <= x < 160 ==> #[trigger] pixel_has_shade(
                    final(self)@.buffer,
                    old(self)@.regs.ly * 640,
                    x,
                    old(self)@.sprite_or_bg(x, 0),
                ),
            forall|i: int|
                0 <= i < FRAME_BYTES && !(old(self)@.regs.ly * 640 <= i < old(self)@.regs.ly * 640
                    + 640) ==> #[trigger] final(self)@.buffer[i] == old(self)@.buffer[i],
    {
        let ghost v = self@;
        let ghost base = v.regs.ly * 640;
        let ly = self.regs.ly;
        let mut i: usize = 0;
        while i < 40
            invariant
                0 <= i <= 40,
                ly == v.regs.ly,
                ly < 144,
                base == v.regs.ly * 640,
                self@.vram == v.vram,
                self@.oam == v.oam,
                self@.regs == v.regs,
                self@.buffer.len() == FRAME_BYTES,
                bg_opaque@.len() == 160,
                forall|j: int| 0 <= j < 160 ==> bg_opaque@[j] == v.bg_opaque(j),
                forall|x: int|
                    0 <= x < 160 ==> #[trigger] pixel_has_shade(
                        self@.buffer,
                        base,
                        x,
                        v.sprite_or_bg(x, 40 - i),
                    ),
                forall|k: int|
                    0 <= k < FRAME_BYTES && !(base <= k < base + 640) ==> #[trigger] self@.buffer[k]
                        == v.buffer[k],
            decreases 40 - i,
        {
            let idx = 39 - i;
            let sx = self.oam[idx * 4 + 1] as i16 - 8;
            let mut px: i16 = 0;
            while px < 8
                invariant
                    0 <= px <= 8,
                    idx < 40,
                    idx == 39 - i,
                    ly == v.regs.ly,
                    ly < 144,
                    base == v.regs.ly * 640,
                    sx == v.oam[idx * 4 + 1] - 8,
                    self@.vram == v.vram,
                    self@.oam == v.oam,
                    self@.regs == v.regs,
                    self@.buffer.len() == FRAME_BYTES,
                    bg_opaque@.len() == 160,
                    forall|j: int| 0 <= j < 160 ==> bg_opaque@[j] == v.bg_opaque(j),
                    forall|x: int|
                        0 <= x < 160 ==> #[trigger] pixel_has_shade(
                            self@.buffer,
                            base,
                            x,
                            v.sprite_progress(x, idx as int, sx as int, (px) as int),
                        ),
                    forall|k: int|
                        0 <= k < FRAME_BYTES && !(base <= k < base + 640) ==> #[trigger] self@.buffer[k]
                            == v.buffer[k],
                decreases 8 - px,
            {
                let pixel_x = sx + px;
                proof {
                    lemma_same_picture(self@, v);
                }
                if 0 <= pixel_x && pixel_x < 160 {
                    let drawn = self.sprite_pixel(idx, pixel_x, bg_opaque);
                    match drawn {
                        Some(s) => {
                            let color = shade_color(s);
                            let ghost before = self@.buffer;
                            self.plot(pixel_x as u8, ly, color);
                            proof {
                                assert forall|x: int|
                                    0 <= x < 160 implies #[trigger] pixel_has_shade(
                                    self@.buffer,
                                    base,
                                    x,
                                    v.sprite_progress(x, idx as int, sx as int, (px + 1) as int),
                                ) by {
                                    if x == pixel_x {
                                        assert(v.first_sprite_from(x, idx as int) == Some(s));
                                        assert forall|k: int| 0 <= k < 4 implies #[trigger] self@.buffer[base
                                            + 4 * x + k] == rgba(s)[k] by {
                                            assert(self@.buffer[base + 4 * x + k] == color@[k]);
                                        }
                                    } else {
                                        assert(pixel_has_shade(
                                            before,
                                            base,
                                            x,
                                            v.sprite_progress(x, idx as int, sx as int, px as int),
                                        ));
                                        assert forall|k: int| 0 <= k < 4 implies #[trigger] self@.buffer[base
                                            + 4 * x + k] == before[base + 4 * x + k] by {}
                                    }
                                }
                            }
                        },
                        None => {
                            proof {
                                assert forall|x: int|
                                    0 <= x < 160 implies #[trigger] pixel_has_shade(
                                    self@.buffer,
                                    base,
                                    x,
                                    v.sprite_progress(x, idx as int, sx as int, (px + 1) as int),
                                ) by {
                                    assert(pixel_has_shade(
                                        self@.buffer,
                                        base,
                                        x,
                                        v.sprite_progress(x, idx as int, sx as int, px as int),
                                    ));
                                    if x == pixel_x {
                                        assert(v.first_sprite_from(x, idx as int)
                                            == v.first_sprite_from(x, idx + 1));
                                    }
                                }
                            }
                        },
                    }
                } else {
                    proof {
                        assert forall|x: int|
                            0 <= x < 160 implies #[trigger] pixel_has_shade(
                            self@.buffer,
                            base,
                            x,
                            v.sprite_progress(x, idx as int, sx as int, (px + 1) as int),
                        ) by {
                            assert(pixel_has_shade(
                                self@.buffer,
                                base,
                                x,
                                v.sprite_progress(x, idx as int, sx as int, px as int),
                            ));
                            if x == pixel_x {
                                assert(v.sprite_shade(idx as int, x) is None);
                                assert(v.first_sprite_from(x, idx as int) == v.first_sprite_from(
                                    x,
                                    idx + 1,
                                ));
                            }
                        }
                    }
                }
                px = px + 1;
            }
            proof {
                assert forall|x: int|
                    0 <= x < 160 implies #[trigger] pixel_has_shade(
                    self@.buffer,
                    base,
                    x,
                    v.sprite_or_bg(x, 40 - (i + 1)),
                ) by {
                    assert(pixel_has_shade(
                        self@.buffer,
                        base,
                        x,
                        v.sprite_progress(x, idx as int, sx as int, 8),
                    ));
                    if !(sx <= x < sx + 8) {
                        assert(v.sprite_shade(idx as int, x) is None);
                        assert(v.first_sprite_from(x, idx as int) == v.first_sprite_from(x, idx + 1));
                    }
                }
            }
            i = i + 1;
        }
        proof {
            assert forall|x: int|
                0 <= x < 160 implies #[trigger] pixel_has_shade(
                self@.buffer,
                base,
                x,
                v.sprite_or_bg(x, 0),
            ) by {
                assert(pixel_has_shade(self@.buffer, base, x, v.sprite_or_bg(x, 40 - i)));
            }
        }
    }

    /// Render the current scanline to `buffer`. Background and window are
    /// drawn first, then sprites are overlaid using the priority bit.
    fn render_scanline(&mut self)
        requires
            old(self)@.buffer.len() == FRAME_BYTES,
            old(self)@.regs.ly < 144,
            old(self)@.regs.window_line <= old(self)@.regs.ly,
        ensures
            final(self)@ == old(self)@.render(),
    {
        let ghost v = self@;
        let ghost base = v.regs.ly * 640;
        let r = self.regs;
        let bg_enable = (r.lcdc & 0x01) != 0;
        let win_enable = (r.lcdc & 0x20) != 0;
        let sprite_enable = (r.lcdc & 0x02) != 0;
        let window_active = win_enable && r.wx <= 166 && r.ly >= r.wy;
        let mut bg_opaque: Vec<bool> = Vec::new();
        let mut x: u8 = 0;
        while x < 160
            invariant
                0 <= x <= 160,
                r == v.regs,
                r.ly < 144,
                base == v.regs.ly * 640,
                bg_enable == v.regs.bg_enabled(),
                self@.vram == v.vram,
                self@.oam == v.oam,
                self@.regs == v.regs,
                self@.buffer.len() == FRAME_BYTES,
                bg_opaque@.len() == x,
                forall|j: int| 0 <= j < x ==> bg_opaque@[j] == v.bg_opaque(j),
                forall|j: int|
                    0 <= j < x ==> #[trigger] pixel_has_shade(self@.buffer, base, j, v.bg_shade(j)),
                forall|k: int|
                    0 <= k < FRAME_BYTES && !(base <= k < base + 4 * x) ==> #[trigger] self@.buffer[k]
                        == v.buffer[k],
            decreases 160 - x,
        {
            let color_idx = self.bg_color_index(x);
            bg_opaque.push(bg_enable && color_idx != 0);
            let palette_idx = if bg_enable {
                color_idx
            } else {
                0
            };
            let color = self.pal(palette_idx, r.bgp);
            let ghost before = self@.buffer;
            self.plot(x, r.ly, color);
            proof {
                assert forall|j: int|
                    0 <= j < x + 1 implies #[trigger] pixel_has_shade(
                    self@.buffer,
                    base,
                    j,
                    v.bg_shade(j),
                ) by {
                    if j == x {
                        assert forall|k: int| 0 <= k < 4 implies #[trigger] self@.buffer[base + 4 * j
                            + k] == rgba(v.bg_shade(j))[k] by {
                            assert(self@.buffer[base + 4 * j + k] == color@[k]);
                        }
                    } else {
                        assert(pixel_has_shade(before, base, j, v.bg_shade(j)));
                        assert forall|k: int| 0 <= k < 4 implies #[trigger] self@.buffer[base + 4 * j
                            + k] == before[base + 4 * j + k] by {}
                    }
                }
            }
            x = x + 1;
        }
        let ghost after_bg = self@;
        proof {
            lemma_same_picture(self@, v);
        }
        if sprite_enable {
            self.render_sprites(&bg_opaque);
        }
        let ghost after_sprites = self@.buffer;
        if window_active {
            self.regs.window_line = self.regs.window_line + 1;
        }
        proof {
            let rb = v.rendered_buffer();
            assert forall|i: int| 0 <= i < FRAME_BYTES implies #[trigger] self@.buffer[i] == rb[i] by {
                if base <= i < base + 640 {
                    let xx = (i - base) / 4;
                    let kk = (i - base) % 4;
                    assert(i == base + 4 * xx + kk);
                    if sprite_enable {
                        assert(pixel_has_shade(after_sprites, base, xx, after_bg.sprite_or_bg(xx, 0)));
                    } else {
                        assert(pixel_has_shade(after_sprites, base, xx, v.bg_shade(xx)));
                    }
                    assert(pixel_has_shade(self@.buffer, base, xx, v.line_shade(xx)));
                }
            }
            assert(self@.buffer =~= rb);
        }
    }
}

impl Ppu {
    fn update_visible_mode(&mut self, if_reg: &mut u8)
        requires
            old(self)@.wf(),
            old(self)@.regs.ly < VBLANK_START_LINE,
        ensures
            (final(self)@, *final(if_reg)) == old(self)@.update_visible_mode(*old(if_reg)),
            final(self)@.wf(),
    {
        if self.regs.dots <= 80 {
            if self.regs.mode != 2 {
                self.regs.mode = 2;
                self.regs.stat = (self.regs.stat & 0xFC) | 2;
                if (self.regs.stat & 0x20) != 0 {
                    *if_reg |= 0x02;
                }
            }
        } else if self.regs.dots <= 252 {
            if self.regs.mode != 3 {
                self.regs.mode = 3;
                self.regs.stat = (self.regs.stat & 0xFC) | 3;
            }
        } else if self.regs.mode != 0 {
            self.regs.mode = 0;
            self.regs.stat = self.regs.stat & 0xFC;
            if (self.regs.stat & 0x08) != 0 {
                *if_reg |= 0x02;
            }
            self.render_scanline();
        }
    }

    /// Advance the PPU by `cycles` T-cycles. Sets the appropriate bits in
    /// `if_reg` for the V-Blank and STAT interrupts.
    pub fn tick(&mut self, cycles: u8, if_reg: &mut u8)
        requires
            old(self)@.wf(),
        ensures
            (final(self)@, *final(if_reg)) == old(self)@.tick(cycles, *old(if_reg)),
            final(self)@.wf(),
    {
        if (self.regs.lcdc & 0x80) == 0 {
            return;
        }
        self.regs.dots = self.regs.dots + cycles as u32;
        if self.regs.dots >= DOTS_PER_LINE {
            self.regs.dots = self.regs.dots - DOTS_PER_LINE;
            self.regs.ly = self.regs.ly + 1;
            if self.regs.ly == self.regs.lyc {
                self.regs.stat = self.regs.stat | 0x04;
                if (self.regs.stat & 0x40) != 0 {
                    *if_reg |= 0x02;
                }
            } else {
                self.regs.stat = self.regs.stat & !0x04u8;
            }
            if self.regs.ly == VBLANK_START_LINE {
                self.regs.mode = 1;
                self.regs.stat = (self.regs.stat & 0xFC) | 1;
                *if_reg |= 0x01;
                if (self.regs.stat & 0x10) != 0 {
                    *if_reg |= 0x02;
                }
                self.regs.window_line = 0;
            }
        }
        if self.regs.ly > LAST_LINE {
            self.regs.ly = 0;
            self.regs.dots = 0;
            self.regs.mode = 2;
            self.regs.stat = (self.regs.stat & 0xFC) | 2;
            if (self.regs.stat & 0x20) != 0 {
                *if_reg |= 0x02;
            }
        }
        if self.regs.ly < VBLANK_START_LINE {
            self.update_visible_mode(if_reg);
        }
    }
}

impl Default for Ppu {
    fn default() -> (p: Self)
        ensures
            p@ == PpuView::power_on(),
            p@.wf(),
    {
        Self::new()
    }
}

/// VRAM and OAM read back what was written.
pub proof fn lemma_memory_write_read_roundtrip(v: PpuView, addr: u16, val: u8)
    requires
        v.wf(),
        (0x8000 <= addr <= 0x9FFF) || (0xFE00 <= addr <= 0xFE9F),
    ensures
        v.write(addr, val).read(addr) == val,
{
}

/// STAT bit 7 always reads as 1, and its low three bits cannot be written.
pub proof fn lemma_stat_bits(v: PpuView, val: u8)
    ensures
        v.read(0xFF41) & 0x80 == 0x80,
        v.write(0xFF41, val).regs.stat & 0x07 == v.regs.stat & 0x07,
{
    let st = v.regs.stat;
    assert((st | 0x80) & 0x80 == 0x80 && ((st & 0x07) | (val & 0x78)) & 0x07 == st & 0x07)
        by (bit_vector);
}

/// LY is read-only: a write to it changes nothing.
pub proof fn lemma_ly_read_only(v: PpuView, val: u8)
    ensures
        v.write(0xFF44, val) == v,
{
    assert(v.write(0xFF44, val).vram =~= v.vram);
}

/// Switching the LCD off resets the line counter, the dot counter and the
/// mode; while it is off, ticks change nothing.
pub proof fn lemma_lcd_off(v: PpuView, val: u8, cycles: u8, if_reg: u8)
    requires
        v.regs.lcd_on(),
        (val & 0x80) == 0,
    ensures
        v.write(0xFF40, val).regs.ly == 0,
        v.write(0xFF40, val).regs.dots == 0,
        v.write(0xFF40, val).regs.mode == 0,
        v.write(0xFF40, val).tick(cycles, if_reg) == (v.write(0xFF40, val), if_reg),
{
}

/// V-Blank starts exactly when LY reaches 144: the tick that moves LY from
/// 143 to 144 requests the V-Blank interrupt (IF bit 0).
pub proof fn lemma_vblank_interrupt(v: PpuView, cycles: u8, if_reg: u8)
    requires
        v.wf(),
        v.regs.lcd_on(),
        v.regs.ly == 143,
        v.regs.dots + cycles >= DOTS_PER_LINE,
    ensures
        v.tick(cycles, if_reg).0.regs.ly == 144,
        v.tick(cycles, if_reg).0.regs.mode == 1,
        v.tick(cycles, if_reg).1 & 0x01 == 0x01,
{
    let r = v.regs;
    let (v1, if1) = PpuView { regs: PpuRegs { dots: (r.dots + cycles) as u32, ..r }, ..v }.next_line(
        if_reg,
    );
    assert(forall|a: u8| #![auto] (a | 0x01) & 0x01 == 0x01 && ((a | 0x01) | 0x02) & 0x01 == 0x01)
        by (bit_vector);
}

/// `after` keeps every bit of `before` and differs from it at most in the
/// two PPU interrupt bits (V-Blank and STAT).
pub open spec fn raises_only_ppu_bits(before: u8, after: u8) -> bool {
    after & !3u8 == before & !3u8 && after & before == before
}

proof fn lemma_raise_bits(a: u8, b: u8, c: u8)
    by (bit_vector)
    ensures
        raises_only_ppu_bits(a, a),
        raises_only_ppu_bits(a, a | 1),
        raises_only_ppu_bits(a, a | 2),
        raises_only_ppu_bits(a, b) && raises_only_ppu_bits(b, c) ==> raises_only_ppu_bits(a, c),
{
}

proof fn lemma_visible_mode_raises(v: PpuView, f: u8)
    ensures
        raises_only_ppu_bits(f, v.update_visible_mode(f).1),
{
    lemma_raise_bits(f, f, f);
}

proof fn lemma_next_line_raises(v: PpuView, f: u8)
    ensures
        raises_only_ppu_bits(f, v.next_line(f).1),
{
    lemma_raise_bits(f, f | 2, f);
    let if1 = if (v.regs.ly + 1) as u8 == v.regs.lyc && ((v.regs.stat | 0x04) & 0x40) != 0 {
        f | 0x02
    } else {
        f
    };
    lemma_raise_bits(f, if1, if1 | 1);
    lemma_raise_bits(if1, if1 | 1, (if1 | 1) | 2);
    lemma_raise_bits(if1 | 1, if1 | 1, if1 | 1);
    lemma_raise_bits(f, if1 | 1, (if1 | 1) | 2);
}

/// A PPU tick only ever raises the V-Blank and STAT request bits (IF bits
/// 0-1): it clears no bit of IF and touches no other.
#[verifier::spinoff_prover]
pub proof fn lemma_tick_raises_only_ppu_bits(v: PpuView, cycles: u8, f: u8)
    ensures
        v.tick(cycles, f).1 & !3u8 == f & !3u8,
        v.tick(cycles, f).1 & f == f,
{
    lemma_raise_bits(f, f, f);
    if v.regs.lcd_on() {
        let v0 = PpuView { regs: PpuRegs { dots: (v.regs.dots + cycles) as u32, ..v.regs }, ..v };
        let (v1, if1) = if v0.regs.dots >= DOTS_PER_LINE {
            v0.next_line(f)
        } else {
            (v0, f)
        };
        lemma_next_line_raises(v0, f);
        let if2 = if v1.regs.ly > LAST_LINE && (((v1.regs.stat & 0xFC) | 2) & 0x20) != 0 {
            if1 | 0x02
        } else {
            if1
        };
        lemma_raise_bits(if1, if1, if1);
        lemma_raise_bits(f, if1, if2);
        lemma_raise_bits(if1, if1 | 2, if1);
        let v2 = v.tick(cycles, f);
        lemma_visible_mode_raises(
            if v1.regs.ly > LAST_LINE {
                PpuView {
                    regs: PpuRegs {
                        ly: 0,
                        dots: 0,
                        mode: 2,
                        stat: (v1.regs.stat & 0xFC) | 2,
                        ..v1.regs
                    },
                    ..v1
                }
            } else {
                v1
            },
            if2,
        );
        lemma_raise_bits(f, if2, v2.1);
    }
}

proof fn lemma_stat_bit_facts(st: u8, f: u8)
    by (bit_vector)
    ensures
        ((st & 0xFC) | 2) & 3 == 2,
        ((st & 0xFC) | 3) & 3 == 3,
        (st & 0xFC) & 3 == 0,
        ((((st & 0xFC) | 2) & 0x20) != 0) == ((st / 32) % 2 == 1),
        (((st & 0xFC) & 0x08) != 0) == ((st / 8) % 2 == 1),
        (st | 0x04) & 3 == st & 3,
        (st & !0x04u8) & 3 == st & 3,
        ((st | 0x04) / 4) % 2 == 1,
        ((st & !0x04u8) / 4) % 2 == 0,
        (((st | 0x04) & 0x40) != 0) == ((st / 64) % 2 == 1),
        (f | 2) & 2 == 2,
        ((f | 2) | 1) & 2 == 2,
        ((f | 1) | 2) & 2 == 2,
        ((((st & 0xFC) | 2) / 4) % 2) == ((st / 4) % 2),
        ((((st & 0xFC) | 3) / 4) % 2) == ((st / 4) % 2),
        (((st & 0xFC) / 4) % 2) == ((st / 4) % 2),
        (((st & 0xFC) | 1) / 4) % 2 == ((st / 4) % 2),
        f & 2 == 2 ==> (f | 1) & 2 == 2,
{
}

/// The modes of a visible line, by dot: OAM scan (mode 2) up to dot 80,
/// pixel transfer (mode 3) up to dot 252, then H-Blank (mode 0). STAT's low
/// bits follow the mode. Entering H-Blank with STAT bit 3 set, or the OAM
/// scan with STAT bit 5 set, requests the STAT interrupt (IF bit 1); no
/// other change inside a line requests anything.
#[verifier::spinoff_prover]
pub proof fn lemma_visible_line_modes(v: PpuView, cycles: u8, f: u8)
    requires
        v.wf(),
        v.regs.lcd_on(),
        v.regs.ly < VBLANK_START_LINE,
        v.regs.dots + cycles < DOTS_PER_LINE,
    ensures
        ({
            let d = v.regs.dots + cycles;
            let (w, g) = v.tick(cycles, f);
            &&& w.regs.ly == v.regs.ly
            &&& w.regs.dots == d
            &&& d <= 80 ==> w.regs.mode == 2
            &&& d <= 80 && v.regs.mode != 2 ==> w.regs.stat % 4 == 2
            &&& 80 < d <= 252 ==> w.regs.mode == 3 && g == f
            &&& 80 < d <= 252 && v.regs.mode != 3 ==> w.regs.stat % 4 == 3
            &&& d > 252 ==> w.regs.mode == 0
            &&& d > 252 && v.regs.mode != 0 ==> w.regs.stat % 4 == 0
            &&& d > 252 && v.regs.mode != 0 && (v.regs.stat / 8) % 2 == 1 ==> g & 2 == 2
            &&& d > 252 && (v.regs.mode == 0 || (v.regs.stat / 8) % 2 == 0) ==> g == f
            &&& d <= 80 && v.regs.mode != 2 && (v.regs.stat / 32) % 2 == 1 ==> g & 2 == 2
            &&& d <= 80 && (v.regs.mode == 2 || (v.regs.stat / 32) % 2 == 0) ==> g == f
        }),
{
    let st = v.regs.stat;
    lemma_stat_bit_facts(st, f);
    crate::isa::lemma_byte_bits(st);
    crate::isa::lemma_byte_bits((st & 0xFC) | 2);
    crate::isa::lemma_byte_bits((st & 0xFC) | 3);
    crate::isa::lemma_byte_bits(st & 0xFC);
}

/// A new line starts when the dots pass 456: LY moves on, STAT bit 2
/// reports whether LY now equals LYC, and a match with STAT bit 6 set
/// requests the STAT interrupt (IF bit 1).
#[verifier::spinoff_prover]
pub proof fn lemma_line_change_lyc(v: PpuView, cycles: u8, f: u8)
    requires
        v.wf(),
        v.regs.lcd_on(),
        v.regs.ly + 1 < VBLANK_START_LINE,
        v.regs.dots + cycles >= DOTS_PER_LINE,
    ensures
        ({
            let (w, g) = v.tick(cycles, f);
            &&& w.regs.ly == v.regs.ly + 1
            &&& w.regs.dots == v.regs.dots + cycles - DOTS_PER_LINE
            &&& ((w.regs.stat / 4) % 2 == 1) == (v.regs.ly + 1 == v.regs.lyc)
            &&& v.regs.ly + 1 == v.regs.lyc && (v.regs.stat / 64) % 2 == 1 ==> g & 2 == 2
        }),
{
    let st = v.regs.stat;
    lemma_stat_bit_facts(st, f);
    let s1 = if (v.regs.ly + 1) as u8 == v.regs.lyc {
        st | 0x04
    } else {
        st & !0x04u8
    };
    lemma_stat_bit_facts(s1, f);
    let f1 = if (v.regs.ly + 1) as u8 == v.regs.lyc && ((st | 0x04) & 0x40) != 0 {
        f | 0x02
    } else {
        f
    };
    lemma_stat_bit_facts(s1, f1);
}

/// The colour index bit `bit` of a tile row selects: bit 0 of the index
/// from the first byte, bit 1 from the second; bit 7 is the leftmost pixel
/// of an unflipped tile, bit 0 the rightmost.
pub proof fn lemma_tile_pixel_bits(b1: u8, b2: u8)
    ensures
        tile_pixel(b1, b2, 7) == (if b1 >= 128 { 1u8 } else { 0u8 }) + (if b2 >= 128 { 2u8 } else { 0u8 }),
        tile_pixel(b1, b2, 0) == b1 % 2 + 2 * (b2 % 2),
{
    assert(((b1 >> 7u8) & 1) | (((b2 >> 7u8) & 1) << 1u8) == (if b1 >= 128 { 1u8 } else { 0u8 })
        + (if b2 >= 128 { 2u8 } else { 0u8 }) && ((b1 >> 0u8) & 1) | (((b2 >> 0u8) & 1) << 1u8)
        == b1 % 2 + 2 * (b2 % 2)) by (bit_vector);
}

/// What the OAM attribute byte of a sprite means, for a pixel the sprite
/// covers: bit 5 mirrors it horizontally (screen column `sx + px` takes
/// bit `px` of the tile row instead of bit `7 - px`), bit 6 mirrors it
/// vertically, bit 4 picks OBP1 over OBP0, bit 7 puts it behind a
/// non-zero background pixel; colour 0 is transparent. In 8×16 mode the
/// tile number's low bit is ignored.
#[verifier::spinoff_prover]
pub proof fn lemma_sprite_attributes(v: PpuView, i: int, x: int)
    requires
        v.wf(),
        0 <= i < 40,
        0 <= x < 160,
        v.oam[i * 4 + 1] - 8 <= x < v.oam[i * 4 + 1],
        v.oam[i * 4] - 16 <= v.regs.ly < v.oam[i * 4] - 16 + v.sprite_height(),
    ensures
        ({
            let h = if (v.regs.lcdc / 4) % 2 == 1 { 16int } else { 8int };
            let flags = v.oam[i * 4 + 3];
            let line = v.regs.ly - (v.oam[i * 4] - 16);
            let row = if (flags / 64) % 2 == 1 { h - 1 - line } else { line };
            let tile = v.oam[i * 4 + 2];
            let t = if h == 16 { tile - tile % 2 } else { tile as int };
            let px = x - (v.oam[i * 4 + 1] - 8);
            let bit = if (flags / 32) % 2 == 1 { px } else { 7 - px };
            let ci = tile_pixel(v.vram[t * 16 + row * 2], v.vram[t * 16 + row * 2 + 1], bit as u8);
            let pal = if (flags / 16) % 2 == 1 { v.regs.obp1 } else { v.regs.obp0 };
            &&& v.sprite_height() == h
            &&& v.sprite_shade(i, x) == if ci == 0 || ((flags / 128) % 2 == 1 && v.bg_opaque(x)) {
                None::<u8>
            } else {
                Some(shade(ci, pal))
            }
        }),
{
    let flags = v.oam[i * 4 + 3];
    let tile = v.oam[i * 4 + 2];
    let lc = v.regs.lcdc;
    crate::isa::lemma_byte_bits(flags);
    crate::isa::lemma_byte_bits(tile);
    crate::isa::lemma_byte_bits(lc);
}

/// Sprites are drawn over the background and a lower OAM index wins: when
/// sprites are on and sprite 0 draws a pixel, the line shows it; with
/// sprites off, every pixel is the background's. With the background off,
/// the background shade is colour 0 through BGP.
pub proof fn lemma_sprite_priority(v: PpuView, x: int)
    ensures
        v.regs.sprites_enabled() && v.sprite_shade(0, x) is Some ==> v.line_shade(x)
            == v.sprite_shade(0, x).unwrap(),
        !v.regs.sprites_enabled() ==> v.line_shade(x) == v.bg_shade(x),
        (v.regs.lcdc % 2 == 0) ==> v.bg_shade(x) == shade(0, v.regs.bgp),
        (v.regs.lcdc % 2 == 0) ==> !v.bg_opaque(x),
{
    let lc = v.regs.lcdc;
    crate::isa::lemma_byte_bits(lc);
}

/// The four DMG greens, lightest first, and how a palette register maps a
/// colour index to one of them: index n takes bits 2n+1..2n of the
/// palette.
pub proof fn lemma_palette_and_colours(ci: u8, p: u8)
    ensures
        rgba(0) == seq![224u8, 248, 208, 255],
        rgba(1) == seq![136u8, 192, 112, 255],
        rgba(2) == seq![52u8, 104, 86, 255],
        rgba(3) == seq![8u8, 24, 32, 255],
        shade(0, p) == p % 4,
        shade(1, p) == (p / 4) % 4,
        shade(2, p) == (p / 16) % 4,
        shade(3, p) == p / 64,
{
    assert((p >> 0u8) & 3 == p % 4 && (p >> 2u8) & 3 == (p / 4) % 4 && (p >> 4u8) & 3 == (p / 16)
        % 4 && (p >> 6u8) & 3 == p / 64) by (bit_vector);
    assert(0u8 * 2 == 0u8 && 1u8 * 2 == 2u8 && 2u8 * 2 == 4u8 && 3u8 * 2 == 6u8);
}

/// Background addressing for a pixel outside the window: the map at
/// 0x9800 (0x9C00 with LCDC bit 3) is read at the scrolled position, the
/// tile data is at 0x8000 + 16·n with LCDC bit 4, else at 0x9000 plus the
/// tile number taken as signed, and the leftmost pixel of a tile row is
/// bit 7.
pub proof fn lemma_background_addressing(v: PpuView, x: int)
    requires
        0 <= x < 160,
        !v.regs.uses_window(x),
    ensures
        ({
            let r = v.regs;
            let my = (r.ly + r.scy) % 256;
            let mx = (x + r.scx) % 256;
            let map = if (r.lcdc / 8) % 2 == 1 { 0x1C00int } else { 0x1800int };
            let tid = v.vram[map + (my / 8) * 32 + mx / 8];
            let base = if (r.lcdc / 16) % 2 == 1 {
                tid * 16
            } else if tid < 128 {
                0x1000 + tid * 16
            } else {
                0x1000 + (tid - 256) * 16
            };
            v.bg_color_index(x) == tile_pixel(
                v.vram[base + (my % 8) * 2],
                v.vram[base + (my % 8) * 2 + 1],
                (7 - mx % 8) as u8,
            )
        }),
{
    let lc = v.regs.lcdc;
    crate::isa::lemma_byte_bits(lc);
}

/// Entering H-Blank draws the current line: each of its 160 pixels takes
/// the colour of its final shade, and the rest of the frame is untouched.
#[verifier::spinoff_prover]
pub proof fn lemma_hblank_draws_line(v: PpuView, cycles: u8, f: u8, x: int, k: int, j: int)
    requires
        v.wf(),
        v.regs.lcd_on(),
        v.regs.ly < VBLANK_START_LINE,
        v.regs.dots + cycles < DOTS_PER_LINE,
        v.regs.dots + cycles > 252,
        v.regs.mode != 0,
        0 <= x < 160,
        0 <= k < 4,
        0 <= j < FRAME_BYTES,
    ensures
        v.tick(cycles, f).0.buffer[v.regs.ly * 640 + 4 * x + k] == rgba(v.line_shade(x))[k],
        (j < v.regs.ly * 640 || j >= v.regs.ly * 640 + 640) ==> v.tick(cycles, f).0.buffer[j]
            == v.buffer[j],
{
    let r = v.regs;
    let w = PpuView {
        regs: PpuRegs { mode: 0, stat: r.stat & 0xFC, dots: (r.dots + cycles) as u32, ..r },
        ..v
    };
    assert(w.line_shade(x) == v.line_shade(x)) by {
        assert(w.shade_from(x, 0) == v.shade_from(x, 0)) by {
            lemma_shade_from_ignores_mode(v, w, x, 0);
        }
    }
    let i = v.regs.ly * 640 + 4 * x + k;
    assert((i - v.regs.ly * 640) / 4 == x && (i - v.regs.ly * 640) % 4 == k);
}

proof fn lemma_shade_from_ignores_mode(v: PpuView, w: PpuView, x: int, i: int)
    requires
        w.vram == v.vram,
        w.oam == v.oam,
        w.regs.lcdc == v.regs.lcdc,
        w.regs.ly == v.regs.ly,
        w.regs.scx == v.regs.scx,
        w.regs.scy == v.regs.scy,
        w.regs.wx == v.regs.wx,
        w.regs.wy == v.regs.wy,
        w.regs.window_line == v.regs.window_line,
        w.regs.bgp == v.regs.bgp,
        w.regs.obp0 == v.regs.obp0,
        w.regs.obp1 == v.regs.obp1,
    ensures
        w.first_sprite_from(x, i) == v.first_sprite_from(x, i),
        w.shade_from(x, i) == v.shade_from(x, i),
    decreases 40 - i,
{
    if 0 <= i < 40 {
        lemma_shade_from_ignores_mode(v, w, x, i + 1);
        assert(w.bg_opaque(x) == v.bg_opaque(x));
        assert(w.sprite_shade(i, x) == v.sprite_shade(i, x));
    }
    assert(w.bg_shade(x) == v.bg_shade(x));
}

/// The window: it is shown on a line when LCDC bit 5 is set, WX is at
/// most 166 and LY has reached WY, from screen column WX − 7 on. Its map
/// is at 0x9800 (0x9C00 with LCDC bit 6), read at the window's own line
/// counter, which counts the lines it has been drawn on.
pub proof fn lemma_window_addressing(v: PpuView, x: int)
    requires
        0 <= x < 160,
    ensures
        v.regs.window_active() == ((v.regs.lcdc / 32) % 2 == 1 && v.regs.wx <= 166 && v.regs.ly
            >= v.regs.wy),
        v.regs.uses_window(x) == (v.regs.window_active() && x + 7 >= v.regs.wx),
        v.regs.uses_window(x) ==> v.regs.tile_map_base(x) == (if (v.regs.lcdc / 64) % 2 == 1 {
            0x1C00int
        } else {
            0x1800int
        }) && v.regs.map_y(x) == v.regs.window_line && v.regs.map_x(x) == x + 7 - v.regs.wx,
        v.render().regs.window_line == (if v.regs.window_active() {
            (v.regs.window_line + 1) as u8
        } else {
            v.regs.window_line
        }),
{
    crate::isa::lemma_byte_bits(v.regs.lcdc);
}

} // verus!
