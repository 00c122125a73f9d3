use quantum_core::kernel::QuantumResourceManager;
use quantum_core::physics::{COOLING_RATE, DEFAULT_SEED, MAX_ENTROPY};
use quantum_core::quantum::{Amplitude, QuantumEnv, QubitState, VirtualQuantumHAL};

fn zero_state() -> QubitState {
    QubitState { a: Amplitude { re: 256, im: 0 }, b: Amplitude { re: 0, im: 0 } }
}

fn one_state() -> QubitState {
    QubitState { a: Amplitude { re: 0, im: 0 }, b: Amplitude { re: 256, im: 0 } }
}

#[test]
fn norm_squared_values() {
    assert_eq!(Amplitude { re: 256, im: 0 }.norm_sq(), 65536);
    assert_eq!(Amplitude { re: 3, im: -4 }.norm_sq(), 25);
    assert_eq!(Amplitude { re: -32768, im: -32768 }.norm_sq(), 2_147_483_648);
}

#[test]
fn new_environment_is_cold_and_definite() {
    let env = VirtualQuantumHAL::new();
    assert_eq!(env.get_entropy(), 0);
    for i in 0..8 {
        assert_eq!(env.get_qubit(i), zero_state());
    }
    assert_eq!(env.get_qubit(8), zero_state());
    assert_eq!(env.get_cell(0), 0);
    assert_eq!(env.get_cell(5000), 0);
}

#[test]
fn reset_sets_equal_superposition() {
    let mut env = VirtualQuantumHAL::new();
    env.reset_qubit(2);
    let q = env.get_qubit(2);
    assert_eq!(q.a, Amplitude { re: 181, im: 0 });
    assert_eq!(q.b, Amplitude { re: 181, im: 0 });
    assert_eq!(q.a.norm_sq(), q.b.norm_sq());
    let total = q.a.norm_sq() + q.b.norm_sq();
    assert!(total > 65000 && total <= 65536);
    assert_eq!(env.get_qubit(1), zero_state());
}

#[test]
fn reset_out_of_range_is_ignored() {
    let mut env = VirtualQuantumHAL::new();
    env.reset_qubit(8);
    env.reset_qubit(usize::MAX);
    for i in 0..8 {
        assert_eq!(env.get_qubit(i), zero_state());
    }
}

#[test]
fn measure_first_draw_from_default_seed() {
    // The first xorshift output from 0xACE1 is 0x2b6f7e47b5f8, which is
    // 57606 modulo 65522: at least 32761, so the outcome is 1.
    let mut env = VirtualQuantumHAL::new();
    env.reset_qubit(0);
    assert_eq!(env.measure(0), 1);
    assert_eq!(env.get_qubit(0), one_state());
}

#[test]
fn measure_draw_sequence_from_default_seed() {
    let mut env = VirtualQuantumHAL::new();
    let mut outcomes = Vec::new();
    for _ in 0..5 {
        env.reset_qubit(4);
        outcomes.push(env.measure(4));
    }
    assert_eq!(outcomes, vec![1, 1, 0, 1, 1]);
}

#[test]
fn measure_definite_state_is_certain() {
    let mut env = VirtualQuantumHAL::new();
    for _ in 0..100 {
        assert_eq!(env.measure(3), 0);
        assert_eq!(env.get_qubit(3), zero_state());
    }
}

#[test]
fn measure_out_of_range_reads_zero() {
    let mut env = VirtualQuantumHAL::new();
    assert_eq!(env.measure(8), 0);
    // No draw was consumed: the next measurement sees the first output.
    env.reset_qubit(0);
    assert_eq!(env.measure(0), 1);
}

#[test]
fn measure_frequency_converges_to_half() {
    let mut env = VirtualQuantumHAL::new();
    let trials = 10_000;
    let mut ones = 0;
    for _ in 0..trials {
        env.reset_qubit(0);
        ones += env.measure(0) as u32;
    }
    let freq = ones as f64 / trials as f64;
    assert!((freq - 0.5).abs() < 0.03, "frequency {}", freq);
}

#[test]
fn measure_frequency_over_reseeded_generators() {
    let mut ones = 0;
    let trials = 10_000u64;
    for seed in 1..=trials {
        let mut env = VirtualQuantumHAL::with_config(MAX_ENTROPY, COOLING_RATE, seed);
        env.reset_qubit(0);
        ones += env.measure(0) as u64;
    }
    let freq = ones as f64 / trials as f64;
    assert!((freq - 0.5).abs() < 0.03, "frequency {}", freq);
}

#[test]
fn same_seed_same_outcomes() {
    let run = |seed: u64| {
        let mut env = VirtualQuantumHAL::with_config(MAX_ENTROPY, COOLING_RATE, seed);
        let mut out = Vec::new();
        for t in 0..200usize {
            env.step();
            env.reset_qubit(t % 8);
            out.push(env.measure(t % 8));
            out.push((env.get_entropy() % 251) as u8);
        }
        out
    };
    assert_eq!(run(DEFAULT_SEED), run(DEFAULT_SEED));
    assert_eq!(run(77), run(77));
    assert_ne!(run(DEFAULT_SEED), run(77));
}

#[test]
fn step_cools_and_never_goes_negative() {
    let mut env = VirtualQuantumHAL::new();
    env.step();
    assert_eq!(env.get_entropy(), 0);
    assert!(env.interfere(10, 100));
    assert_eq!(env.get_entropy(), 200);
    assert_eq!(env.get_cell(10), 100);
    env.step();
    assert_eq!(env.get_entropy(), 200 - COOLING_RATE);
}

#[test]
fn interfere_caps_at_max_entropy() {
    let mut env = VirtualQuantumHAL::with_config(300, 5, DEFAULT_SEED);
    assert!(env.interfere(0, 255));
    assert_eq!(env.get_entropy(), 300);
    assert_eq!(env.get_cell(0), 255);
    assert!(env.interfere(0, 15));
    assert_eq!(env.get_cell(0), 240);
    assert_eq!(env.get_entropy(), 300);
}

#[test]
fn interfere_out_of_range_changes_nothing() {
    let mut env = VirtualQuantumHAL::new();
    assert!(!env.interfere(1024, 9));
    assert_eq!(env.get_entropy(), 0);
}

#[test]
fn unstable_scanned_cell_emits_penalty() {
    let mut env = VirtualQuantumHAL::new();
    // Tick 1 scans cell 1.
    assert!(env.interfere(1, 0xFF));
    assert_eq!(env.get_entropy(), 510);
    env.step();
    assert_eq!(env.get_entropy(), 510 + 5 - 12);
}

#[test]
fn trait_interface_matches_inherent() {
    fn drive(env: &mut impl QuantumEnv) -> (u64, u8) {
        env.reset_qubit(0);
        let r = env.measure(0);
        env.step();
        (env.get_entropy(), r)
    }
    let mut env = VirtualQuantumHAL::new();
    assert_eq!(drive(&mut env), (0, 1));
}

#[test]
fn full_cycle_scenario() {
    let mut m = QuantumResourceManager::new();
    let mut env = VirtualQuantumHAL::new();
    assert_eq!(m.allocate(), Ok(0));
    assert_eq!(m.slots[0].coherence, 100);
    env.reset_qubit(0);
    m.decay_all(1000);
    assert_eq!(m.slots[0].coherence, 98);
    let r = env.measure(0);
    assert_eq!(r, 1);
    assert_eq!(env.get_qubit(0), one_state());
    assert_eq!(m.release(0), Ok(()));
    assert!(!m.slots[0].is_busy);
    assert_eq!(m.total_allocated, 0);
}

#[test]
fn hundred_steps_of_a_hot_grid() {
    let mut env = VirtualQuantumHAL::with_config(MAX_ENTROPY, 3, DEFAULT_SEED);
    for a in 1..=40usize {
        assert!(env.interfere(a, 200 + a as u8));
    }
    assert_eq!(env.get_entropy(), MAX_ENTROPY);
    for _ in 0..100 {
        env.step();
    }
    assert_eq!(env.get_entropy(), 9817);
    let total: u32 = (0..1024).map(|i| env.get_cell(i) as u32).sum();
    assert_eq!(total, 11638);
    assert_eq!(
        [env.get_cell(1), env.get_cell(2), env.get_cell(3), env.get_cell(4)],
        [201, 202, 203, 205]
    );
    assert_eq!(env.get_cell(23), 95);
    assert_eq!(env.get_cell(45), 32);
    assert_eq!(env.get_cell(79), 128);
    assert_eq!(env.get_cell(41), 0);
}
