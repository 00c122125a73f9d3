//! Tuning constants of the physical model. The environment takes the entropy
//! ceiling, the cooling rate and the generator seed as configuration; these
//! are the defaults and the fixed parameters of the auxiliary cell model.
use vstd::prelude::*;

verus! {

/// A cell above this level is unstable and emits entropy when scanned.
pub const INSTABILITY_THRESHOLD: u8 = 0x80;

/// Entropy emitted by an unstable cell when it is scanned.
pub const DECOHERENCE_PENALTY: u64 = 5;

/// Scale of the noise draw: noise strikes with probability `entropy / scale`.
pub const NOISE_PROBABILITY_SCALE: u64 = 10000;

/// Every this many ticks a window of cells relaxes by one level.
pub const DECAY_INTERVAL: u64 = 10;

/// Width of the window of cells that relaxes.
pub const RELAX_WINDOW: usize = 64;

/// Default entropy dissipated per tick.
pub const COOLING_RATE: u64 = 12;

/// Entropy emitted per unit of an interference value.
pub const INTERFERENCE_MULTIPLIER: u64 = 2;

/// Default entropy ceiling.
pub const MAX_ENTROPY: u64 = 10000;

/// Chance, in percent, that an unstable cell spreads to its neighbour.
pub const PROPAGATION_PROBABILITY: u64 = 20;

/// Default non-zero seed of the generator.
pub const DEFAULT_SEED: u64 = 0xACE1;

/// Number of auxiliary cells of the environment.
pub const CELL_COUNT: usize = 1024;

/// Number of qubits, index-aligned with the resource manager's slots.
pub const QUBIT_COUNT: usize = 8;

/// Fixed-point encoding of 1.0.
pub const FIXED_ONE: i16 = 256;

/// Fixed-point encoding of 1/sqrt(2), rounded to the nearest unit.
pub const FIXED_HALF_SQRT2: i16 = 181;

} // verus!
