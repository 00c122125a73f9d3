use quantum_core::control::{advance, decode_scancode, dispatch, Command, Dispatched};
use quantum_core::kernel::{QuantumError, QuantumResourceManager};
use quantum_core::quantum::{Amplitude, QubitState, VirtualQuantumHAL};

fn superposed() -> QubitState {
    QubitState { a: Amplitude { re: 181, im: 0 }, b: Amplitude { re: 181, im: 0 } }
}

#[test]
fn scancodes_map_to_commands() {
    assert_eq!(decode_scancode(0x1E), Command::Allocate);
    assert_eq!(decode_scancode(0x13), Command::ReleaseAll);
    assert_eq!(decode_scancode(0x39), Command::Measure);
    assert_eq!(decode_scancode(0x00), Command::NoInput);
    assert_eq!(decode_scancode(0x9E), Command::NoInput);
}

#[test]
fn allocate_command_resets_qubit() {
    let mut m = QuantumResourceManager::new();
    let mut env = VirtualQuantumHAL::new();
    assert_eq!(dispatch(&mut m, &mut env, Command::Allocate), Dispatched::Allocated(0));
    assert_eq!(dispatch(&mut m, &mut env, Command::Allocate), Dispatched::Allocated(1));
    assert!(m.slots[1].is_busy);
    assert_eq!(env.get_qubit(0), superposed());
    assert_eq!(env.get_qubit(1), superposed());
    assert_ne!(env.get_qubit(2), superposed());
}

#[test]
fn allocate_command_reports_exhaustion() {
    let mut m = QuantumResourceManager::new();
    let mut env = VirtualQuantumHAL::new();
    for i in 0..8 {
        assert_eq!(dispatch(&mut m, &mut env, Command::Allocate), Dispatched::Allocated(i));
    }
    assert_eq!(dispatch(&mut m, &mut env, Command::Allocate), Dispatched::Exhausted);
    assert_eq!(m.total_allocated, 8);
}

#[test]
fn release_all_command_frees_everything() {
    let mut m = QuantumResourceManager::new();
    let mut env = VirtualQuantumHAL::new();
    for _ in 0..5 {
        dispatch(&mut m, &mut env, Command::Allocate);
    }
    m.decay_all(1500);
    assert_eq!(dispatch(&mut m, &mut env, Command::ReleaseAll), Dispatched::ReleasedAll);
    assert_eq!(m.total_allocated, 0);
    for s in m.slots.iter() {
        assert!(!s.is_busy);
    }
    assert_eq!(m.slots[0].coherence, 97);
    assert_eq!(m.slots[7].coherence, 100);
}

#[test]
fn measure_command_picks_lowest_undetermined() {
    let mut m = QuantumResourceManager::new();
    let mut env = VirtualQuantumHAL::new();
    dispatch(&mut m, &mut env, Command::Allocate);
    dispatch(&mut m, &mut env, Command::Allocate);
    // First draw from the default seed gives 1.
    assert_eq!(dispatch(&mut m, &mut env, Command::Measure), Dispatched::Measured(0, 1));
    // Unit 0 is definite now, so unit 1 is next; the second draw gives 1 too.
    assert_eq!(dispatch(&mut m, &mut env, Command::Measure), Dispatched::Measured(1, 1));
    assert_eq!(dispatch(&mut m, &mut env, Command::Measure), Dispatched::NothingToMeasure);
}

#[test]
fn measure_command_skips_idle_units() {
    let mut m = QuantumResourceManager::new();
    let mut env = VirtualQuantumHAL::new();
    env.reset_qubit(0);
    assert_eq!(dispatch(&mut m, &mut env, Command::Measure), Dispatched::NothingToMeasure);
    assert_eq!(env.get_qubit(0), superposed());
}

#[test]
fn no_input_does_nothing() {
    let mut m = QuantumResourceManager::new();
    let mut env = VirtualQuantumHAL::new();
    assert_eq!(dispatch(&mut m, &mut env, Command::NoInput), Dispatched::Idle);
    assert_eq!(m.total_allocated, 0);
}

#[test]
fn advance_decays_and_checks() {
    let mut m = QuantumResourceManager::new();
    let mut env = VirtualQuantumHAL::new();
    dispatch(&mut m, &mut env, Command::Allocate);
    assert!(env.interfere(500, 250));
    assert!(env.interfere(501, 250));
    assert_eq!(env.get_entropy(), 1000);
    assert_eq!(advance(&mut m, &mut env), Ok(()));
    assert_eq!(env.get_entropy(), 988);
    assert_eq!(m.slots[0].coherence, 99);
    assert_eq!(m.slots[1].coherence, 100);
}

#[test]
fn advance_reports_collapse() {
    let mut m = QuantumResourceManager::with_config(100, 500);
    let mut env = VirtualQuantumHAL::new();
    assert!(env.interfere(500, 60));
    assert_eq!(env.get_entropy(), 120);
    assert_eq!(advance(&mut m, &mut env), Err(QuantumError::DecoherenceCollapse));
    assert_eq!(env.get_entropy(), 108);
}

#[test]
fn advance_at_threshold_is_stable() {
    let mut m = QuantumResourceManager::with_config(108, 500);
    let mut env = VirtualQuantumHAL::new();
    assert!(env.interfere(500, 60));
    assert_eq!(advance(&mut m, &mut env), Ok(()));
}
