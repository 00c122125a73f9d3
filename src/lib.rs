//! A small simulated quantum processor: a fixed-capacity slot allocator with
//! per-slot coherence bookkeeping, a fixed-point qubit model driven by a
//! seeded xorshift generator, a text-frame renderer and the per-tick control
//! logic that couples them.
pub mod kernel;
pub mod physics;
pub mod quantum;
pub mod control;
pub mod vga;
pub mod display;
