use quantum_core::kernel::{
    QuantumError, QuantumResourceManager, DEFAULT_DECAY_DIVISOR, DEFAULT_STABILITY_THRESHOLD,
};

fn busy_count(m: &QuantumResourceManager) -> usize {
    m.slots.iter().filter(|s| s.is_busy).count()
}

#[test]
fn new_manager_is_empty() {
    let m = QuantumResourceManager::new();
    assert_eq!(m.total_allocated, 0);
    for (i, s) in m.slots.iter().enumerate() {
        assert_eq!(s.id as usize, i);
        assert!(!s.is_busy);
        assert_eq!(s.coherence, 100);
    }
    assert_eq!(m.stability_threshold, DEFAULT_STABILITY_THRESHOLD);
    assert_eq!(m.decay_divisor, DEFAULT_DECAY_DIVISOR);
}

#[test]
fn capacity_eight_then_exhausted() {
    let mut m = QuantumResourceManager::new();
    for expected in 0u8..8 {
        assert_eq!(m.allocate(), Ok(expected));
        assert_eq!(m.total_allocated, expected + 1);
    }
    assert_eq!(m.allocate(), Err(QuantumError::ResourceExhausted));
    assert_eq!(m.total_allocated, 8);
    assert_eq!(busy_count(&m), 8);
}

#[test]
fn allocate_resets_coherence() {
    let mut m = QuantumResourceManager::new();
    assert_eq!(m.allocate(), Ok(0));
    m.decay_all(5000);
    assert_eq!(m.slots[0].coherence, 90);
    assert_eq!(m.release(0), Ok(()));
    assert_eq!(m.slots[0].coherence, 90);
    assert_eq!(m.allocate(), Ok(0));
    assert_eq!(m.slots[0].coherence, 100);
}

#[test]
fn release_idle_slot_is_noop() {
    let mut m = QuantumResourceManager::new();
    assert_eq!(m.allocate(), Ok(0));
    assert_eq!(m.release(5), Ok(()));
    assert_eq!(m.total_allocated, 1);
    assert!(!m.slots[5].is_busy);
    assert_eq!(m.release(0), Ok(()));
    assert_eq!(m.release(0), Ok(()));
    assert_eq!(m.total_allocated, 0);
}

#[test]
fn release_out_of_range_is_rejected() {
    let mut m = QuantumResourceManager::new();
    assert_eq!(m.allocate(), Ok(0));
    assert_eq!(m.release(8), Err(QuantumError::InvalidSlotAccess));
    assert_eq!(m.release(255), Err(QuantumError::InvalidSlotAccess));
    assert_eq!(m.total_allocated, 1);
    assert!(m.slots[0].is_busy);
}

#[test]
fn decay_hits_busy_slots_only() {
    let mut m = QuantumResourceManager::new();
    assert_eq!(m.allocate(), Ok(0));
    assert_eq!(m.allocate(), Ok(1));
    assert_eq!(m.release(1), Ok(()));
    m.decay_all(1999);
    assert_eq!(m.slots[0].coherence, 97);
    assert_eq!(m.slots[1].coherence, 100);
    assert_eq!(m.slots[2].coherence, 100);
    m.decay_all(499);
    assert_eq!(m.slots[0].coherence, 97);
}

#[test]
fn decay_floors_at_zero() {
    let mut m = QuantumResourceManager::new();
    assert_eq!(m.allocate(), Ok(0));
    m.decay_all(49_000);
    assert_eq!(m.slots[0].coherence, 2);
    m.decay_all(10_000);
    assert_eq!(m.slots[0].coherence, 0);
    m.decay_all(u64::MAX);
    assert_eq!(m.slots[0].coherence, 0);
}

#[test]
fn decay_with_huge_entropy_saturates() {
    let mut m = QuantumResourceManager::new();
    assert_eq!(m.allocate(), Ok(0));
    // 128_000 / 500 = 256: a full loss, not a wrapped one.
    m.decay_all(128_000);
    assert_eq!(m.slots[0].coherence, 0);
}

#[test]
fn decay_uses_configured_divisor() {
    let mut m = QuantumResourceManager::with_config(9000, 250);
    assert_eq!(m.allocate(), Ok(0));
    m.decay_all(1000);
    assert_eq!(m.slots[0].coherence, 96);
}

#[test]
fn stability_boundary_default() {
    let m = QuantumResourceManager::new();
    assert_eq!(m.check_stability(0), Ok(()));
    assert_eq!(m.check_stability(5000), Ok(()));
    assert_eq!(m.check_stability(5001), Err(QuantumError::DecoherenceCollapse));
}

#[test]
fn stability_boundary_configured() {
    let m = QuantumResourceManager::with_config(9000, 500);
    assert_eq!(m.check_stability(9000), Ok(()));
    assert_eq!(m.check_stability(9001), Err(QuantumError::DecoherenceCollapse));
}

#[test]
fn exhaustion_release_reuse() {
    let mut m = QuantumResourceManager::new();
    for expected in 0u8..8 {
        assert_eq!(m.allocate(), Ok(expected));
    }
    assert_eq!(m.allocate(), Err(QuantumError::ResourceExhausted));
    assert_eq!(m.release(3), Ok(()));
    assert_eq!(m.total_allocated, 7);
    assert_eq!(m.allocate(), Ok(3));
    assert_eq!(m.total_allocated, 8);
    assert_eq!(m.allocate(), Err(QuantumError::ResourceExhausted));
}
