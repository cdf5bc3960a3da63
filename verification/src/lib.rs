//! # RustyGB
//!
//! A Game Boy (DMG) emulator core: SM83 CPU, memory bus, picture and audio
//! units, timer, joypad and cartridge mappers.
//!
//! The core is pull-based: the host calls [`GameBoy::run_frame`] at its
//! preferred cadence, then reads [`GameBoy::frame`] (160×144 RGBA) and turns
//! the returned audio ticks into samples at its own output rate.
pub mod apu;
pub mod bus;
pub mod cartridge;
pub mod cpu;
pub mod isa;
pub mod joypad;
pub mod ppu;
pub mod timer;

pub use joypad::Button;
pub use ppu::{SCREEN_HEIGHT, SCREEN_WIDTH};

use vstd::prelude::*;
use crate::apu::MixLevels;
use crate::bus::{BusView, Motherboard};
use crate::cartridge::{
    AnyCartridge, Cartridge, CartridgeError, from_bytes, initial_cart, mapper_kind,
    saved_view,
};
use crate::cpu::{Cpu, after_boot};
use crate::joypad::Joypad;

verus! {

/// Number of T-cycles in one full DMG frame (≈ 59.73 Hz refresh).
pub const CYCLES_PER_FRAME: u32 = 70224;

/// One bus tick while the APU is powered: how many T-cycles it lasted and
/// what the mixer saw.
#[derive(Clone, Copy, Debug, PartialEq, Eq, Structural)]
pub struct AudioTick {
    pub cycles: u8,
    pub mix: MixLevels,
}

/// Audio ticks a bus tick contributes: one while the APU is powered.
pub open spec fn audio_of(cycles: u8, mix: Option<MixLevels>) -> Seq<AudioTick> {
    match mix {
        Some(m) => seq![AudioTick { cycles, mix: m }],
        None => seq![],
    }
}

/// Running the machine from `done` elapsed T-cycles to the end of the
/// frame: one CPU step, then the peripherals advance by the step's
/// cycles, until a whole frame's worth has elapsed.
pub open spec fn run_from(c: Cpu, m: BusView, done: nat) -> (Cpu, BusView, Seq<AudioTick>)
    decreases (if done < CYCLES_PER_FRAME {
        CYCLES_PER_FRAME - done
    } else {
        0
    }),
{
    if done >= CYCLES_PER_FRAME {
        (c, m, seq![])
    } else {
        let (c1, m1, n) = crate::isa::step(c, m);
        let (m2, mix) = m1.tick(n);
        if n == 0 {
            (c1, m2, audio_of(n, mix))
        } else {
            let (c3, m3, rest) = run_from(c1, m2, (done + n) as nat);
            (c3, m3, audio_of(n, mix) + rest)
        }
    }
}

/// High-level emulator wrapper that ties a [`Cpu`] to its [`Motherboard`].
pub struct GameBoy {
    cpu: Cpu,
    bus: Motherboard,
}

impl GameBoy {
    pub closed spec fn spec_cpu(self) -> Cpu {
        self.cpu
    }

    pub closed spec fn spec_bus(self) -> BusView {
        self.bus@
    }

    pub open spec fn wf(self) -> bool {
        self.spec_bus().wf()
    }

    /// Build an emulator from a raw ROM image.
    pub fn from_rom(rom: Vec<u8>) -> (res: Result<Self, CartridgeError>)
        ensures
            match from_rom_outcome(rom@, None) {
                Ok(cart) => res matches Ok(gb) && gb.wf() && gb.spec_bus() == BusView::power_on(cart)
                    && gb.spec_cpu() == after_boot(),
                Err(e) => res == Err::<GameBoy, CartridgeError>(e),
            },
    {
        Self::from_rom_with_save(rom, None)
    }

    /// Build an emulator from a ROM and a previously saved SRAM image.
    pub fn from_rom_with_save(rom: Vec<u8>, saved_ram: Option<Vec<u8>>) -> (res: Result<
        Self,
        CartridgeError,
    >)
        ensures
            match from_rom_outcome(rom@, saved_view(saved_ram)) {
                Ok(cart) => res matches Ok(gb) && gb.wf() && gb.spec_bus() == BusView::power_on(cart)
                    && gb.spec_cpu() == after_boot(),
                Err(e) => res == Err::<GameBoy, CartridgeError>(e),
            },
    {
        match from_bytes(rom, saved_ram) {
            Ok(cart) => Ok(Self::with_cartridge(cart)),
            Err(e) => Err(e),
        }
    }

    fn with_cartridge(cart: AnyCartridge) -> (gb: Self)
        requires
            cart.cart_view().wf(),
        ensures
            gb.wf(),
            gb.spec_bus() == BusView::power_on(cart.cart_view()),
            gb.spec_cpu() == after_boot(),
    {
        let bus = Motherboard::new(cart);
        let mut cpu = Cpu::new();
        cpu.reset_to_boot();
        GameBoy { cpu, bus }
    }

    /// Run the CPU for one full frame's worth of T-cycles. Returns, in
    /// order, the audio ticks of the frame (one per bus tick while the APU
    /// is powered).
    pub fn run_frame(&mut self) -> (audio: Vec<AudioTick>)
        requires
            old(self).wf(),
        ensures
            final(self).wf(),
            (final(self).spec_cpu(), final(self).spec_bus(), audio@) == run_from(
                old(self).spec_cpu(),
                old(self).spec_bus(),
                0,
            ),
    {
        let mut audio: Vec<AudioTick> = Vec::new();
        let mut cycles: u32 = 0;
        while cycles < CYCLES_PER_FRAME
            invariant
                self.bus@.wf(),
                cycles <= CYCLES_PER_FRAME + 24,
                run_from(old(self).cpu, old(self).bus@, 0) == ({
                    let (c, m, rest) = run_from(self.cpu, self.bus@, cycles as nat);
                    (c, m, audio@ + rest)
                }),
            decreases (if cycles < CYCLES_PER_FRAME {
                CYCLES_PER_FRAME - cycles
            } else {
                0
            }),
        {
            let ghost c0 = self.cpu;
            let ghost m0 = self.bus@;
            let ghost a0 = audio@;
            let step = self.cpu.step(&mut self.bus);
            let mix = self.bus.tick(step);
            match mix {
                Some(m) => audio.push(AudioTick { cycles: step, mix: m }),
                None => {},
            }
            proof {
                assert(audio@ == a0 + audio_of(step, mix));
                let (c3, m3, rest) = run_from(self.cpu, self.bus@, (cycles + step) as nat);
                assert(run_from(c0, m0, cycles as nat) == (c3, m3, audio_of(step, mix) + rest));
                assert(a0 + (audio_of(step, mix) + rest) == audio@ + rest);
            }
            cycles = cycles + step as u32;
        }
        proof {
            assert(audio@ + Seq::<AudioTick>::empty() == audio@);
        }
        audio
    }

    /// Borrow the current 160×144 RGBA frame buffer.
    pub fn frame(&self) -> (f: &[u8])
        ensures
            f@ == self.spec_bus().ppu.buffer,
    {
        self.bus.frame()
    }

    /// Set the pressed/released state of a single button.
    pub fn set_button(&mut self, button: Button, pressed: bool)
        ensures
            final(self).spec_bus() == (BusView {
                joypad: old(self).spec_bus().joypad.set_button_spec(button, pressed),
                ..old(self).spec_bus()
            }),
            final(self).spec_cpu() == old(self).spec_cpu(),
    {
        self.bus.set_button(button, pressed);
    }

    /// Battery-backed cartridge RAM to persist, if the program has written
    /// it since power-on or the last `mark_saved`.
    pub fn save_data(&self) -> (r: Option<&[u8]>)
        ensures
            match r {
                Some(s) => self.spec_bus().cart.save_data() == Some(s@),
                None => self.spec_bus().cart.save_data() is None,
            },
    {
        self.bus.save_data()
    }

    /// Record that the battery-backed RAM returned by [`GameBoy::save_data`]
    /// has been persisted: `save_data` gives `None` until the program next
    /// writes the RAM.
    pub fn mark_saved(&mut self)
        requires
            old(self).wf(),
        ensures
            final(self).wf(),
            final(self).spec_bus() == (BusView { cart: old(self).spec_bus().cart.saved(), ..old(self).spec_bus() }),
            final(self).spec_cpu() == old(self).spec_cpu(),
            final(self).spec_bus().cart.save_data() is None,
    {
        self.bus.mark_saved();
    }

    /// Direct access to the underlying motherboard (advanced use).
    pub fn bus(&mut self) -> (b: &mut Motherboard)
        ensures
            b@ == old(self).spec_bus(),
            final(self).spec_bus() == final(b)@,
            final(self).spec_cpu() == old(self).spec_cpu(),
    {
        &mut self.bus
    }

    /// Direct access to the underlying CPU (advanced use).
    pub fn cpu(&mut self) -> (c: &mut Cpu)
        ensures
            *c == old(self).spec_cpu(),
            final(self).spec_cpu() == *final(c),
            final(self).spec_bus() == old(self).spec_bus(),
    {
        &mut self.cpu
    }
}

/// What building an emulator from a ROM image and an optional saved RAM
/// image gives: the cartridge model, or the error.
pub open spec fn from_rom_outcome(rom: Seq<u8>, saved: Option<Seq<u8>>) -> Result<
    crate::cartridge::CartView,
    CartridgeError,
> {
    if rom.len() < 0x150 {
        Err(CartridgeError::RomTooSmall)
    } else if mapper_kind(rom[0x147]) is None {
        Err(CartridgeError::UnsupportedMapper(rom[0x147]))
    } else {
        Ok(initial_cart(rom, saved))
    }
}

} // verus!
