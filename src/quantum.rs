//! The physical environment: fixed-point qubit amplitudes, a seeded xorshift
//! generator, an entropy level, and an auxiliary grid of noisy cells.
use vstd::prelude::*;
use crate::physics::{
    CELL_COUNT, COOLING_RATE, DECAY_INTERVAL, DECOHERENCE_PENALTY, DEFAULT_SEED,
    FIXED_HALF_SQRT2, FIXED_ONE, INSTABILITY_THRESHOLD, INTERFERENCE_MULTIPLIER, MAX_ENTROPY,
    NOISE_PROBABILITY_SCALE, PROPAGATION_PROBABILITY, QUBIT_COUNT, RELAX_WINDOW,
};

verus! {

/// A complex amplitude in fixed point: 256 stands for 1.0.
#[derive(Copy, Clone, Debug, PartialEq, Eq, Structural)]
pub struct Amplitude {
    pub re: i16,
    pub im: i16,
}

/// `a|0> + b|1>`.
#[derive(Copy, Clone, Debug, PartialEq, Eq, Structural)]
pub struct QubitState {
    pub a: Amplitude,
    pub b: Amplitude,
}

impl Amplitude {
    /// Squared magnitude in unscaled units.
    pub open spec fn norm_sq_spec(self) -> int {
        self.re as int * self.re as int + self.im as int * self.im as int
    }

    /// Squared magnitude `re^2 + im^2`, in unscaled units.
    pub fn norm_sq(&self) -> (r: u64)
        ensures
            r == self.norm_sq_spec(),
            r <= 0x8000_0000,
    {
        proof {
            lemma_square_bound(self.re as int);
            lemma_square_bound(self.im as int);
        }
        let re = self.re as i64;
        let im = self.im as i64;
        (re * re + im * im) as u64
    }
}

proof fn lemma_square_bound(x: int)
    requires
        -0x8000 <= x < 0x8000,
    ensures
        0 <= x * x <= 0x4000_0000,
{
    assert(0 <= x * x <= 0x4000_0000) by (nonlinear_arith)
        requires
            -0x8000 <= x < 0x8000,
    ;
}

/// The definite state `|0>`.
pub open spec fn basis_zero() -> QubitState {
    QubitState { a: Amplitude { re: 256, im: 0 }, b: Amplitude { re: 0, im: 0 } }
}

/// The definite state `|1>`.
pub open spec fn basis_one() -> QubitState {
    QubitState { a: Amplitude { re: 0, im: 0 }, b: Amplitude { re: 256, im: 0 } }
}

/// The equal-magnitude superposition set by `reset_qubit`.
pub open spec fn superposition() -> QubitState {
    QubitState { a: Amplitude { re: 181, im: 0 }, b: Amplitude { re: 181, im: 0 } }
}

/// A qubit is definite when one of its amplitudes is the real 1.0.
pub open spec fn is_definite(q: QubitState) -> bool {
    q.a.re == 256 || q.b.re == 256
}

/// Weight of outcome 0.
pub open spec fn weight_zero(q: QubitState) -> int {
    q.a.norm_sq_spec()
}

/// Weight of outcome 1.
pub open spec fn weight_one(q: QubitState) -> int {
    q.b.norm_sq_spec()
}

/// Outcome and collapsed state of measuring `q` with generator output
/// `draw`; a qubit of zero total weight reads 0 and is left unchanged.
pub open spec fn measure_outcome(q: QubitState, draw: u64) -> (u8, QubitState) {
    let total = weight_zero(q) + weight_one(q);
    if total == 0 {
        (0, q)
    } else if (draw as int) % total < weight_zero(q) {
        (0, basis_zero())
    } else {
        (1, basis_one())
    }
}

/// One step of the 64-bit xorshift generator (shifts 13, 7, 17).
pub open spec fn xorshift(x: u64) -> u64 {
    let s1 = x ^ ((x << 13u64) as u64);
    let s2 = s1 ^ (s1 >> 7u64);
    s2 ^ ((s2 << 17u64) as u64)
}

/// `x - y`, floored at zero.
pub open spec fn sat_sub(x: u64, y: u64) -> u64 {
    if x >= y {
        (x - y) as u64
    } else {
        0
    }
}

/// `c + 1`, capped at 255.
pub open spec fn sat_inc(c: u8) -> u8 {
    if c < 255 {
        (c + 1) as u8
    } else {
        255
    }
}

/// The single bit of a cell that noise with draw `d` flips.
pub open spec fn flip_mask(d: u64) -> u8 {
    (1u8 << ((d % 8) as u8)) as u8
}

/// `cells` with each non-zero cell among the `n` from `start`, wrapping
/// round, lowered by one.
pub open spec fn relax_window(cells: Seq<u8>, start: int, n: int) -> Seq<u8> {
    Seq::new(
        cells.len(),
        |k: int|
            if (k - start) % (CELL_COUNT as int) < n && cells[k] > 0 {
                (cells[k] - 1) as u8
            } else {
                cells[k]
            },
    )
}

proof fn lemma_window_grows(
    cells: Seq<u8>,
    before: Seq<u8>,
    after: Seq<u8>,
    start: int,
    i: int,
    idx: int,
)
    requires
        cells.len() == CELL_COUNT,
        0 <= start < CELL_COUNT,
        0 <= i < RELAX_WINDOW,
        idx == (start + i) % (CELL_COUNT as int),
        before == relax_window(cells, start, i),
        after == if before[idx] > 0 {
            before.update(idx, (before[idx] - 1) as u8)
        } else {
            before
        },
    ensures
        after == relax_window(cells, start, i + 1),
{
    assert forall|k: int| 0 <= k < CELL_COUNT implies #[trigger] after[k] == relax_window(
        cells,
        start,
        i + 1,
    )[k] by {
        if k >= start {
            assert((k - start) % 1024 == k - start);
        } else {
            assert((k - start) % 1024 == k - start + 1024);
        }
    }
    assert(after =~= relax_window(cells, start, i + 1));
}

/// The abstract state of an environment.
pub struct EnvModel {
    pub entropy: u64,
    pub max_entropy: u64,
    pub cooling_rate: u64,
    pub tick: u64,
    pub rng_state: u64,
    pub qubits: Seq<QubitState>,
    pub cells: Seq<u8>,
}

impl EnvModel {
    /// Entropy after emitting `amount`, capped at the ceiling.
    pub open spec fn heated(self, amount: int) -> u64 {
        if self.entropy + amount <= self.max_entropy {
            (self.entropy + amount) as u64
        } else {
            self.max_entropy
        }
    }

    /// The tick counter advanced by one, wrapping.
    pub open spec fn ticked(self) -> EnvModel {
        EnvModel { tick: if self.tick == u64::MAX { 0 } else { (self.tick + 1) as u64 }, ..self }
    }

    /// Scan of cell `tick mod 1024`: an unstable cell emits the penalty, and
    /// one draw decides whether it spreads one level to the next cell.
    pub open spec fn scanned(self) -> EnvModel {
        let idx = (self.tick as int) % (CELL_COUNT as int);
        if self.cells[idx] > INSTABILITY_THRESHOLD {
            let draw = xorshift(self.rng_state);
            let next = (idx + 1) % (CELL_COUNT as int);
            EnvModel {
                entropy: self.heated(DECOHERENCE_PENALTY as int),
                rng_state: draw,
                cells: if draw % 100 < PROPAGATION_PROBABILITY {
                    self.cells.update(next, sat_inc(self.cells[next]))
                } else {
                    self.cells
                },
                ..self
            }
        } else {
            self
        }
    }

    /// Noise: one draw strikes with odds of `entropy` in the probability
    /// scale; a strike takes two more draws, picking a cell and a bit of it to
    /// flip.
    pub open spec fn noised(self) -> EnvModel {
        let d1 = xorshift(self.rng_state);
        if d1 % NOISE_PROBABILITY_SCALE > sat_sub(NOISE_PROBABILITY_SCALE, self.entropy) {
            let d2 = xorshift(d1);
            let d3 = xorshift(d2);
            let target = (d2 % (CELL_COUNT as u64)) as int;
            EnvModel {
                rng_state: d3,
                cells: self.cells.update(target, self.cells[target] ^ flip_mask(d3)),
                ..self
            }
        } else {
            EnvModel { rng_state: d1, ..self }
        }
    }

    /// On every tenth tick one draw picks the start of a window of cells,
    /// wrapping round, whose non-zero cells each drop one level.
    pub open spec fn relaxed(self) -> EnvModel {
        if self.tick % DECAY_INTERVAL == 0 {
            let d = xorshift(self.rng_state);
            EnvModel {
                rng_state: d,
                cells: relax_window(self.cells, (d % (CELL_COUNT as u64)) as int, RELAX_WINDOW as int),
                ..self
            }
        } else {
            self
        }
    }

    /// Entropy after dissipating the cooling rate.
    pub open spec fn cooled(self) -> EnvModel {
        EnvModel { entropy: sat_sub(self.entropy, self.cooling_rate), ..self }
    }

    /// The state after one `step`.
    pub open spec fn stepped(self) -> EnvModel {
        self.ticked().scanned().noised().relaxed().cooled()
    }

    /// State after `reset_qubit(id)`.
    pub open spec fn reset(self, id: int) -> EnvModel {
        if 0 <= id < QUBIT_COUNT {
            EnvModel { qubits: self.qubits.update(id, superposition()), ..self }
        } else {
            self
        }
    }

    /// Result and state after `measure(id)`: out-of-range ids and qubits of
    /// zero weight read 0 and change nothing; otherwise one generator value is
    /// drawn and the qubit collapses.
    pub open spec fn measured(self, id: int) -> (u8, EnvModel) {
        if id < 0 || id >= QUBIT_COUNT || weight_zero(self.qubits[id]) + weight_one(
            self.qubits[id],
        ) == 0 {
            (0, self)
        } else {
            let draw = xorshift(self.rng_state);
            let (out, q) = measure_outcome(self.qubits[id], draw);
            (out, EnvModel { rng_state: draw, qubits: self.qubits.update(id, q), ..self })
        }
    }
}

/// The simulated processor: eight independent qubits, an entropy level with a
/// configurable ceiling and cooling rate, a private generator, and a grid of
/// auxiliary cells through which noise and interference act.
pub struct VirtualQuantumHAL {
    cells: [u8; 1024],
    entropy: u64,
    tick: u64,
    rng_state: u64,
    qubits: [QubitState; 8],
    max_entropy: u64,
    cooling_rate: u64,
}

impl View for VirtualQuantumHAL {
    type V = EnvModel;

    closed spec fn view(&self) -> EnvModel {
        EnvModel {
            entropy: self.entropy,
            max_entropy: self.max_entropy,
            cooling_rate: self.cooling_rate,
            tick: self.tick,
            rng_state: self.rng_state,
            qubits: self.qubits@,
            cells: self.cells@,
        }
    }
}

impl VirtualQuantumHAL {
    /// The environment's invariant: entropy never exceeds the ceiling.
    pub open spec fn wf(&self) -> bool {
        &&& self@.entropy <= self@.max_entropy
        &&& self@.qubits.len() == QUBIT_COUNT
        &&& self@.cells.len() == CELL_COUNT
    }

    /// A cold environment with the default ceiling, cooling rate and seed.
    pub fn new() -> (r: Self)
        ensures
            r.wf(),
            r@.entropy == 0,
            r@.tick == 0,
            r@.max_entropy == MAX_ENTROPY,
            r@.cooling_rate == COOLING_RATE,
            r@.rng_state == DEFAULT_SEED,
            r@.qubits == Seq::new(8, |i: int| basis_zero()),
            r@.cells == Seq::new(1024, |i: int| 0u8),
    {
        Self::with_config(MAX_ENTROPY, COOLING_RATE, DEFAULT_SEED)
    }

    /// A cold environment with every qubit in `|0>`, quiet cells, and the
    /// given entropy ceiling, cooling rate and generator seed.
    pub fn with_config(max_entropy: u64, cooling_rate: u64, seed: u64) -> (r: Self)
        ensures
            r.wf(),
            r@.entropy == 0,
            r@.tick == 0,
            r@.max_entropy == max_entropy,
            r@.cooling_rate == cooling_rate,
            r@.rng_state == seed,
            r@.qubits == Seq::new(8, |i: int| basis_zero()),
            r@.cells == Seq::new(1024, |i: int| 0u8),
    {
        let zero = QubitState {
            a: Amplitude { re: FIXED_ONE, im: 0 },
            b: Amplitude { re: 0, im: 0 },
        };
        let r = Self {
            cells: [0u8; 1024],
            entropy: 0,
            tick: 0,
            rng_state: seed,
            qubits: [zero; 8],
            max_entropy,
            cooling_rate,
        };
        assert(r@.qubits =~= Seq::new(8, |i: int| basis_zero()));
        assert(r@.cells =~= Seq::new(1024, |i: int| 0u8));
        r
    }

    /// Advances the generator one xorshift step and returns its new state.
    fn next_rng(&mut self) -> (r: u64)
        ensures
            r == xorshift(old(self)@.rng_state),
            final(self)@ == (EnvModel { rng_state: r, ..old(self)@ }),
    {
        let mut x = self.rng_state;
        x = x ^ (x << 13u64);
        x = x ^ (x >> 7u64);
        x = x ^ (x << 17u64);
        self.rng_state = x;
        x
    }

    /// Emits `amount` of entropy, capped at the ceiling.
    fn add_entropy(&mut self, amount: u64)
        requires
            old(self).wf(),
        ensures
            final(self).wf(),
            final(self)@ == (EnvModel { entropy: old(self)@.heated(amount as int), ..old(self)@ }),
    {
        let sum = self.entropy.saturating_add(amount);
        self.entropy = if sum < self.max_entropy { sum } else { self.max_entropy };
    }
    /// The scan phase of a tick.
    fn scan_cell(&mut self)
        requires
            old(self).wf(),
        ensures
            final(self).wf(),
            final(self)@ == old(self)@.scanned(),
    {
        let idx: usize = (self.tick % (CELL_COUNT as u64)) as usize;
        if self.cells[idx] > INSTABILITY_THRESHOLD {
            self.add_entropy(DECOHERENCE_PENALTY);
            if self.next_rng() % 100 < PROPAGATION_PROBABILITY {
                let next: usize = (idx + 1) % CELL_COUNT;
                self.cells[next] = self.cells[next].saturating_add(1);
            }
        }
    }

    /// The noise phase of a tick.
    fn inject_noise(&mut self)
        requires
            old(self).wf(),
        ensures
            final(self).wf(),
            final(self)@ == old(self)@.noised(),
    {
        let threshold = NOISE_PROBABILITY_SCALE.saturating_sub(self.entropy);
        if self.next_rng() % NOISE_PROBABILITY_SCALE > threshold {
            let target: usize = (self.next_rng() % (CELL_COUNT as u64)) as usize;
            let bit: u8 = (self.next_rng() % 8) as u8;
            self.cells[target] = self.cells[target] ^ (1u8 << bit);
        }
    }

    /// The relaxation phase of a tick.
    fn relax_cells(&mut self)
        requires
            old(self).wf(),
        ensures
            final(self).wf(),
            final(self)@ == old(self)@.relaxed(),
    {
        if self.tick % DECAY_INTERVAL == 0 {
            let start: usize = (self.next_rng() % (CELL_COUNT as u64)) as usize;
            let ghost drawn = self@;
            assert(relax_window(drawn.cells, start as int, 0) =~= drawn.cells);
            let mut i: usize = 0;
            while i < RELAX_WINDOW
                invariant
                    self.wf(),
                    i <= RELAX_WINDOW,
                    start < CELL_COUNT,
                    self@ == (EnvModel {
                        cells: relax_window(drawn.cells, start as int, i as int),
                        ..drawn
                    }),
                decreases RELAX_WINDOW - i,
            {
                let idx: usize = (start + i) % CELL_COUNT;
                let ghost before = self@.cells;
                if self.cells[idx] > 0 {
                    self.cells[idx] = self.cells[idx] - 1;
                }
                proof {
                    lemma_window_grows(drawn.cells, before, self@.cells, start as int, i as int, idx as int);
                }
                i += 1;
            }
        }
    }

    /// Advances one tick: the tick counter moves on, the scanned cell may
    /// emit entropy and spread, noise may flip a cell bit with odds that grow
    /// with entropy, every tenth tick a window of cells relaxes, and finally
    /// the cooling rate is dissipated. Qubits and configuration are untouched
    /// and entropy stays within the ceiling.
    pub fn step(&mut self)
        requires
            old(self).wf(),
        ensures
            final(self).wf(),
            final(self)@ == old(self)@.stepped(),
    {
        self.tick = self.tick.wrapping_add(1);
        self.scan_cell();
        self.inject_noise();
        self.relax_cells();
        self.entropy = self.entropy.saturating_sub(self.cooling_rate);
    }

    /// Injects `val` into cell `addr`: the cell is xor-ed with `val` and
    /// `2 * val` of entropy is emitted. Returns false, changing nothing, when
    /// `addr` is not a cell.
    pub fn interfere(&mut self, addr: usize, val: u8) -> (r: bool)
        requires
            old(self).wf(),
        ensures
            final(self).wf(),
            r == (addr < CELL_COUNT),
            !r ==> final(self)@ == old(self)@,
            r ==> final(self)@ == (EnvModel {
                entropy: old(self)@.heated(INTERFERENCE_MULTIPLIER * val),
                cells: old(self)@.cells.update(addr as int, old(self)@.cells[addr as int] ^ val),
                ..old(self)@
            }),
    {
        if addr >= CELL_COUNT {
            return false;
        }
        let impact: u64 = (val as u64) * INTERFERENCE_MULTIPLIER;
        self.add_entropy(impact);
        self.cells[addr] = self.cells[addr] ^ val;
        true
    }

    /// The entropy level.
    pub fn get_entropy(&self) -> (r: u64)
        ensures
            r == self@.entropy,
    {
        self.entropy
    }

    /// Cell `addr`, or 0 when `addr` is not a cell.
    pub fn get_cell(&self, addr: usize) -> (r: u8)
        requires
            self.wf(),
        ensures
            r == if addr < CELL_COUNT { self@.cells[addr as int] } else { 0 },
    {
        if addr < CELL_COUNT {
            self.cells[addr]
        } else {
            0
        }
    }

    /// Puts qubit `id` into the equal-magnitude superposition; ids outside
    /// `0..8` are ignored.
    pub fn reset_qubit(&mut self, id: usize)
        requires
            old(self).wf(),
        ensures
            final(self).wf(),
            final(self)@ == old(self)@.reset(id as int),
    {
        if id < QUBIT_COUNT {
            self.qubits[id] = QubitState {
                a: Amplitude { re: FIXED_HALF_SQRT2, im: 0 },
                b: Amplitude { re: FIXED_HALF_SQRT2, im: 0 },
            };
        }
    }

    /// Measures qubit `id`: with `w0` and `w1` the squared magnitudes of its
    /// amplitudes, one generator value `d` is drawn and the qubit collapses to
    /// `|0>` (returning 0) when `d mod (w0 + w1) < w0`, else to `|1>`
    /// (returning 1). Ids outside `0..8` and qubits with `w0 + w1 == 0` read 0
    /// and change nothing.
    pub fn measure(&mut self, id: usize) -> (r: u8)
        requires
            old(self).wf(),
        ensures
            final(self).wf(),
            (r, final(self)@) == old(self)@.measured(id as int),
            r <= 1,
    {
        if id >= QUBIT_COUNT {
            return 0;
        }
        let q = self.qubits[id];
        let w0 = q.a.norm_sq();
        let w1 = q.b.norm_sq();
        let total = w0 + w1;
        if total == 0 {
            return 0;
        }
        let draw = self.next_rng();
        if draw % total < w0 {
            self.qubits[id] = QubitState {
                a: Amplitude { re: FIXED_ONE, im: 0 },
                b: Amplitude { re: 0, im: 0 },
            };
            0
        } else {
            self.qubits[id] = QubitState {
                a: Amplitude { re: 0, im: 0 },
                b: Amplitude { re: FIXED_ONE, im: 0 },
            };
            1
        }
    }

    /// Qubit `id`, or `|0>` when `id` is outside `0..8`.
    pub fn get_qubit(&self, id: usize) -> (r: QubitState)
        requires
            self.wf(),
        ensures
            r == if id < QUBIT_COUNT { self@.qubits[id as int] } else { basis_zero() },
    {
        if id < QUBIT_COUNT {
            self.qubits[id]
        } else {
            QubitState { a: Amplitude { re: FIXED_ONE, im: 0 }, b: Amplitude { re: 0, im: 0 } }
        }
    }
}

/// The interface through which the control loop drives a physical
/// environment.
pub trait QuantumEnv {
    /// The environment's invariant.
    spec fn env_wf(&self) -> bool;

    /// The current entropy level.
    spec fn entropy_level(&self) -> u64;

    /// The entropy ceiling.
    spec fn entropy_ceiling(&self) -> u64;

    /// Qubit `id`.
    spec fn qubit_at(&self, id: int) -> QubitState;

    /// Advances one tick, keeping entropy within the ceiling.
    fn step(&mut self)
        requires
            old(self).env_wf(),
        ensures
            final(self).env_wf(),
            final(self).entropy_ceiling() == old(self).entropy_ceiling(),
            final(self).entropy_level() <= final(self).entropy_ceiling(),
    ;

    /// Injects `val` at `addr`; false when `addr` is not a valid address.
    fn interfere(&mut self, addr: usize, val: u8) -> (r: bool)
        requires
            old(self).env_wf(),
        ensures
            final(self).env_wf(),
            final(self).entropy_ceiling() == old(self).entropy_ceiling(),
            final(self).entropy_level() <= final(self).entropy_ceiling(),
    ;

    /// The entropy level.
    fn get_entropy(&self) -> (r: u64)
        ensures
            r == self.entropy_level(),
    ;

    /// Auxiliary cell `addr`.
    fn get_cell(&self, addr: usize) -> (r: u8)
        requires
            self.env_wf(),
    ;

    /// Puts qubit `id` into the equal superposition; other ids are ignored.
    fn reset_qubit(&mut self, id: usize)
        requires
            old(self).env_wf(),
        ensures
            final(self).env_wf(),
            final(self).entropy_level() == old(self).entropy_level(),
            id < QUBIT_COUNT ==> final(self).qubit_at(id as int) == superposition(),
    ;

    /// Measures qubit `id`, returning 0 or 1; a measured qubit is definite.
    fn measure(&mut self, id: usize) -> (r: u8)
        requires
            old(self).env_wf(),
        ensures
            final(self).env_wf(),
            final(self).entropy_level() == old(self).entropy_level(),
            r <= 1,
            id < QUBIT_COUNT && weight_zero(old(self).qubit_at(id as int)) + weight_one(
                old(self).qubit_at(id as int),
            ) != 0 ==> final(self).qubit_at(id as int) == if r == 0 {
                basis_zero()
            } else {
                basis_one()
            },
    ;

    /// Qubit `id`.
    fn get_qubit(&self, id: usize) -> (r: QubitState)
        requires
            self.env_wf(),
        ensures
            id < QUBIT_COUNT ==> r == self.qubit_at(id as int),
    ;
}

impl QuantumEnv for VirtualQuantumHAL {
    open spec fn env_wf(&self) -> bool {
        self.wf()
    }

    open spec fn entropy_level(&self) -> u64 {
        self@.entropy
    }

    open spec fn entropy_ceiling(&self) -> u64 {
        self@.max_entropy
    }

    open spec fn qubit_at(&self, id: int) -> QubitState {
        self@.qubits[id]
    }

    fn step(&mut self) {
        VirtualQuantumHAL::step(self)
    }

    fn interfere(&mut self, addr: usize, val: u8) -> (r: bool) {
        VirtualQuantumHAL::interfere(self, addr, val)
    }

    fn get_entropy(&self) -> (r: u64) {
        VirtualQuantumHAL::get_entropy(self)
    }

    fn get_cell(&self, addr: usize) -> (r: u8) {
        VirtualQuantumHAL::get_cell(self, addr)
    }

    fn reset_qubit(&mut self, id: usize) {
        VirtualQuantumHAL::reset_qubit(self, id)
    }

    fn measure(&mut self, id: usize) -> (r: u8) {
        VirtualQuantumHAL::measure(self, id)
    }

    fn get_qubit(&self, id: usize) -> (r: QubitState) {
        VirtualQuantumHAL::get_qubit(self, id)
    }
}

/// An operation on the qubits of an environment.
pub enum QubitOp {
    Reset(int),
    Measure(int),
}

/// Outcomes of the measurements of `ops`, run in order from `m`.
pub open spec fn run_outcomes(m: EnvModel, ops: Seq<QubitOp>) -> Seq<u8>
    decreases ops.len(),
{
    if ops.len() == 0 {
        Seq::empty()
    } else {
        match ops[0] {
            QubitOp::Reset(id) => run_outcomes(m.reset(id), ops.drop_first()),
            QubitOp::Measure(id) => seq![m.measured(id).0] + run_outcomes(
                m.measured(id).1,
                ops.drop_first(),
            ),
        }
    }
}

/// Draws that collapse `q` to `|1>`.
pub open spec fn draws_giving_one(q: QubitState) -> Set<int> {
    Set::new(
        |d: int|
            0 <= d < weight_zero(q) + weight_one(q) && measure_outcome(q, d as u64).0 == 1,
    )
}

/// Draws that collapse `q` to `|0>`.
pub open spec fn draws_giving_zero(q: QubitState) -> Set<int> {
    Set::new(
        |d: int|
            0 <= d < weight_zero(q) + weight_one(q) && measure_outcome(q, d as u64).0 == 0,
    )
}

/// Measurement follows the squared magnitudes: of the `w0 + w1` residues of a
/// generator value, exactly `w1` collapse the qubit to `|1>` and exactly `w0`
/// to `|0>`. The superposition set by a reset weighs both outcomes equally.
pub proof fn lemma_outcome_weights(q: QubitState)
    requires
        weight_zero(q) + weight_one(q) > 0,
    ensures
        draws_giving_one(q).finite(),
        draws_giving_one(q).len() == weight_one(q),
        draws_giving_zero(q).finite(),
        draws_giving_zero(q).len() == weight_zero(q),
        weight_zero(superposition()) == weight_one(superposition()),
{
    let w0 = weight_zero(q);
    let total = w0 + weight_one(q);
    lemma_square_bound(q.a.re as int);
    lemma_square_bound(q.a.im as int);
    lemma_square_bound(q.b.re as int);
    lemma_square_bound(q.b.im as int);
    assert forall|d: int| 0 <= d < total implies #[trigger] measure_outcome(q, d as u64).0 == (
    if d < w0 {
        0u8
    } else {
        1u8
    }) by {
        vstd::arithmetic::div_mod::lemma_small_mod(d as nat, total as nat);
    }
    assert(draws_giving_one(q) =~= vstd::set_lib::set_int_range(w0, total));
    assert(draws_giving_zero(q) =~= vstd::set_lib::set_int_range(0, w0));
    vstd::set_lib::lemma_int_range(w0, total);
    vstd::set_lib::lemma_int_range(0, w0);
}

/// Measurement outcomes depend on the generator state and the qubits alone:
/// two environments that agree on both give the same outcomes for any script
/// of resets and measurements, whatever their entropy, cells or tick.
pub proof fn lemma_replay_deterministic(m1: EnvModel, m2: EnvModel, ops: Seq<QubitOp>)
    requires
        m1.rng_state == m2.rng_state,
        m1.qubits == m2.qubits,
    ensures
        run_outcomes(m1, ops) == run_outcomes(m2, ops),
    decreases ops.len(),
{
    if ops.len() > 0 {
        match ops[0] {
            QubitOp::Reset(id) => {
                lemma_replay_deterministic(m1.reset(id), m2.reset(id), ops.drop_first());
            },
            QubitOp::Measure(id) => {
                lemma_replay_deterministic(m1.measured(id).1, m2.measured(id).1, ops.drop_first());
            },
        }
    }
}

/// A non-zero generator state never reaches the all-zero fixed point, so a
/// seeded stream never degenerates.
pub proof fn lemma_xorshift_nonzero(x: u64)
    requires
        x != 0,
    ensures
        xorshift(x) != 0,
{
    let s1 = x ^ ((x << 13u64) as u64);
    let s2 = s1 ^ (s1 >> 7u64);
    assert(s1 != 0) by (bit_vector)
        requires
            x != 0,
            s1 == x ^ ((x << 13u64) as u64),
    ;
    assert(s2 != 0) by (bit_vector)
        requires
            s1 != 0,
            s2 == s1 ^ (s1 >> 7u64),
    ;
    assert(s2 ^ ((s2 << 17u64) as u64) != 0) by (bit_vector)
        requires
            s2 != 0,
    ;
}

/// The first `n` outputs of the generator whose state is `seed`.
pub open spec fn rng_stream(seed: u64, n: nat) -> Seq<u64>
    decreases n,
{
    if n == 0 {
        Seq::empty()
    } else {
        seq![xorshift(seed)] + rng_stream(xorshift(seed), (n - 1) as nat)
    }
}

/// `n` rounds of resetting qubit `id` and measuring it.
pub open spec fn reset_measure_rounds(id: int, n: nat) -> Seq<QubitOp>
    decreases n,
{
    if n == 0 {
        Seq::empty()
    } else {
        seq![QubitOp::Reset(id), QubitOp::Measure(id)] + reset_measure_rounds(id, (n - 1) as nat)
    }
}

/// Outcomes are fixed by the seed: `n` rounds of reset and measurement of
/// one qubit read, in order, the outcome of the superposition for each of the
/// first `n` generator outputs.
pub proof fn lemma_outcomes_follow_stream(m: EnvModel, id: int, n: nat)
    requires
        0 <= id < QUBIT_COUNT,
        m.qubits.len() == QUBIT_COUNT,
    ensures
        run_outcomes(m, reset_measure_rounds(id, n)) == rng_stream(m.rng_state, n).map_values(
            |d: u64| measure_outcome(superposition(), d).0,
        ),
    decreases n,
{
    let f = |d: u64| measure_outcome(superposition(), d).0;
    if n == 0 {
        assert(rng_stream(m.rng_state, 0).map_values(f) =~= Seq::empty());
    } else {
        let rest = reset_measure_rounds(id, (n - 1) as nat);
        let ops = reset_measure_rounds(id, n);
        let r = m.reset(id);
        let after = r.measured(id).1;
        assert(ops.drop_first() =~= seq![QubitOp::Measure(id)] + rest);
        assert((seq![QubitOp::Measure(id)] + rest).drop_first() =~= rest);
        assert(181int * 181 + 0 * 0 == 32761) by (nonlinear_arith);
        assert(weight_zero(superposition()) + weight_one(superposition()) == 65522);
        assert(r.qubits[id] == superposition());
        assert(after.rng_state == xorshift(m.rng_state));
        assert(after.qubits.len() == QUBIT_COUNT);
        lemma_outcomes_follow_stream(after, id, (n - 1) as nat);
        assert(run_outcomes(m, ops) == run_outcomes(r, ops.drop_first()));
        assert(run_outcomes(r, ops.drop_first()) == seq![r.measured(id).0] + run_outcomes(
            after,
            rest,
        ));
        assert(r.measured(id).0 == f(xorshift(m.rng_state)));
        let stream = rng_stream(m.rng_state, n);
        assert(stream == seq![xorshift(m.rng_state)] + rng_stream(after.rng_state, (n - 1) as nat));
        assert(stream.map_values(f) =~= seq![f(xorshift(m.rng_state))] + rng_stream(
            after.rng_state,
            (n - 1) as nat,
        ).map_values(f));
    }
}

} // verus!
