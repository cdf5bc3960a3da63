# rusty_gb

A Game Boy (DMG) emulator core whose behaviour is specified and proved with
Verus: the SM83 CPU, the memory bus, the picture unit, the integer core of the
audio unit, the timer, the joypad and the MBC1/MBC3/MBC5 cartridge mappers.

## Layout

- `src/` — the verified library.
  - `isa.rs` — the SM83 instruction semantics as spec functions, with the
    laws of the instruction set (push/pop, interrupt dispatch, `EI` delay,
    `HALT`, the flag register's low nibble, `DAA` on packed BCD).
  - `cpu.rs` — the executable CPU; `Cpu::step` is proved equal to
    `isa::step`.
  - `bus.rs` — the memory map (`BusView` is its model), OAM DMA and the
    per-tick wiring of the peripherals.
  - `ppu.rs`, `apu.rs`, `timer.rs`, `joypad.rs`, `cartridge.rs` — the
    peripherals, each with a model, an exact contract per operation and the
    laws that hold across operations. The timer is modelled one T-cycle at
    a time, so TIMA counts every falling edge of its DIV bit.
  - `lib.rs` — `GameBoy`, whose `run_frame` is proved to run the machine for
    one frame as `run_from` describes and to return the frame's audio ticks.
- `tests/` — tests on concrete programs and register traffic.
- `app/` — the desktop front-end (window, input, `cpal` audio), the browser
  bindings, ROM and save files, and the floating-point resampling of the
  audio ticks into host-rate samples.
