//! The decisions of the control loop: what one tick does to the resource
//! manager and the environment, and how a discrete command is dispatched.
//! Rendering, input polling and halting are left to the caller.
use vstd::prelude::*;
use crate::kernel::{
    is_stable, slot_after_decay, slots_after_alloc, alloc_result, QuantumError,
    QuantumResource, QuantumResourceManager, SLOT_COUNT,
};
use crate::quantum::{is_definite, QubitState, VirtualQuantumHAL};

verus! {

/// Scan code of the key that allocates a unit.
pub const KEY_ALLOCATE: u8 = 0x1E;

/// Scan code of the key that releases every unit.
pub const KEY_RELEASE_ALL: u8 = 0x13;

/// Scan code of the key that measures a unit.
pub const KEY_MEASURE: u8 = 0x39;

/// A discrete input command; at most one arrives per tick.
#[derive(Copy, Clone, Debug, PartialEq, Eq, Structural)]
pub enum Command {
    /// Allocate the lowest free unit and put its qubit into superposition.
    Allocate,
    /// Release every unit.
    ReleaseAll,
    /// Measure the lowest busy unit whose qubit is not yet definite.
    Measure,
    /// No input this tick.
    NoInput,
}

/// What dispatching a command did. Exhaustion and an empty measurement are
/// reported here instead of being dropped silently.
#[derive(Copy, Clone, Debug, PartialEq, Eq, Structural)]
pub enum Dispatched {
    /// Unit `id` was allocated and its qubit reset.
    Allocated(u8),
    /// Allocation failed: every unit was busy. Nothing changed.
    Exhausted,
    /// Every unit was released.
    ReleasedAll,
    /// Unit `id` was measured with the given outcome.
    Measured(u8, u8),
    /// No busy unit held an undetermined qubit. Nothing changed.
    NothingToMeasure,
    /// No command. Nothing changed.
    Idle,
}

/// The command bound to a scan code.
pub open spec fn command_of(scancode: u8) -> Command {
    if scancode == KEY_ALLOCATE {
        Command::Allocate
    } else if scancode == KEY_RELEASE_ALL {
        Command::ReleaseAll
    } else if scancode == KEY_MEASURE {
        Command::Measure
    } else {
        Command::NoInput
    }
}

/// Maps a keyboard scan code to its command; unbound codes give `NoInput`.
pub fn decode_scancode(scancode: u8) -> (r: Command)
    ensures
        r == command_of(scancode),
{
    if scancode == KEY_ALLOCATE {
        Command::Allocate
    } else if scancode == KEY_RELEASE_ALL {
        Command::ReleaseAll
    } else if scancode == KEY_MEASURE {
        Command::Measure
    } else {
        Command::NoInput
    }
}

/// Runs the fixed part of a tick: the environment steps, busy slots decay by
/// the resulting entropy, and the stability check is made on it. An `Err`
/// is fatal: the caller must stop ticking.
pub fn advance(mgr: &mut QuantumResourceManager, env: &mut VirtualQuantumHAL) -> (r: Result<
    (),
    QuantumError,
>)
    requires
        old(mgr).wf(),
        old(env).wf(),
    ensures
        final(mgr).wf(),
        final(env).wf(),
        final(env)@ == old(env)@.stepped(),
        final(mgr).same_config(old(mgr)),
        final(mgr).total_allocated == old(mgr).total_allocated,
        forall|i: int|
            0 <= i < 8 ==> (#[trigger] final(mgr).slots@[i]) == slot_after_decay(
                old(mgr).slots@[i],
                final(env)@.entropy as int / old(mgr).decay_divisor as int,
            ),
        r is Ok <==> is_stable(old(mgr).stability_threshold, final(env)@.entropy),
        r is Err ==> r == Err::<(), QuantumError>(QuantumError::DecoherenceCollapse),
{
    env.step();
    let entropy = env.get_entropy();
    mgr.decay_all(entropy);
    mgr.check_stability(entropy)
}

/// Unit `s` with qubit `q` is waiting to be measured.
pub open spec fn awaits_measurement(s: QuantumResource, q: QubitState) -> bool {
    s.is_busy && !is_definite(q)
}

/// The lowest index at or after `i` whose unit awaits measurement, or 8.
pub open spec fn measure_target_from(
    slots: Seq<QuantumResource>,
    qubits: Seq<QubitState>,
    i: int,
) -> int
    decreases 8 - i,
{
    if i < 0 || i >= 8 {
        8
    } else if awaits_measurement(slots[i], qubits[i]) {
        i
    } else {
        measure_target_from(slots, qubits, i + 1)
    }
}

/// The unit that a `Measure` command measures, or 8 when there is none.
pub open spec fn measure_target(slots: Seq<QuantumResource>, qubits: Seq<QubitState>) -> int {
    measure_target_from(slots, qubits, 0)
}

/// The slots after releasing every unit: all idle, coherence kept.
pub open spec fn all_released(s: Seq<QuantumResource>) -> Seq<QuantumResource> {
    Seq::new(s.len(), |i: int| QuantumResource { is_busy: false, ..s[i] })
}

proof fn lemma_measure_target_is(
    slots: Seq<QuantumResource>,
    qubits: Seq<QubitState>,
    i: int,
    k: int,
)
    requires
        0 <= i <= k <= 8,
        forall|j: int| i <= j < k ==> !awaits_measurement(#[trigger] slots[j], qubits[j]),
        k < 8 ==> awaits_measurement(slots[k], qubits[k]),
    ensures
        measure_target_from(slots, qubits, i) == k,
    decreases k - i,
{
    if i < k {
        lemma_measure_target_is(slots, qubits, i + 1, k);
    }
}

/// Releases every unit. Each id is in range, so no release can fail.
fn release_all(mgr: &mut QuantumResourceManager)
    requires
        old(mgr).wf(),
    ensures
        final(mgr).wf(),
        final(mgr).same_config(old(mgr)),
        final(mgr).slots@ == all_released(old(mgr).slots@),
        final(mgr).total_allocated == 0,
{
    let mut i: u8 = 0;
    while i < 8
        invariant
            i <= 8,
            mgr.wf(),
            mgr.same_config(old(mgr)),
            forall|j: int|
                0 <= j < 8 ==> (#[trigger] mgr.slots@[j]) == if j < i {
                    QuantumResource { is_busy: false, ..old(mgr).slots@[j] }
                } else {
                    old(mgr).slots@[j]
                },
        decreases 8 - i,
    {
        let released = mgr.release(i);
        assert(released is Ok);
        i += 1;
    }
    assert(mgr.slots@ =~= all_released(old(mgr).slots@));
    proof {
        crate::kernel::lemma_busy_count_idle(mgr.slots@);
    }
}

/// Carries out one command. `Allocate` reserves the lowest free unit and
/// resets its qubit, or reports exhaustion; `ReleaseAll` frees every unit;
/// `Measure` measures the lowest busy unit whose qubit is not definite, if
/// any; `NoInput` does nothing.
pub fn dispatch(mgr: &mut QuantumResourceManager, env: &mut VirtualQuantumHAL, cmd: Command) -> (r:
    Dispatched)
    requires
        old(mgr).wf(),
        old(env).wf(),
    ensures
        final(mgr).wf(),
        final(env).wf(),
        final(mgr).same_config(old(mgr)),
        cmd == Command::Allocate ==> {
            &&& final(mgr).slots@ == slots_after_alloc(old(mgr).slots@)
            &&& match alloc_result(old(mgr).slots@) {
                Ok(id) => r == Dispatched::Allocated(id) && final(env)@ == old(env)@.reset(
                    id as int,
                ),
                Err(_) => r == Dispatched::Exhausted && final(env)@ == old(env)@,
            }
        },
        cmd == Command::ReleaseAll ==> {
            &&& r == Dispatched::ReleasedAll
            &&& final(mgr).slots@ == all_released(old(mgr).slots@)
            &&& final(mgr).total_allocated == 0
            &&& final(env)@ == old(env)@
        },
        cmd == Command::Measure ==> {
            let t = measure_target(old(mgr).slots@, old(env)@.qubits);
            &&& *final(mgr) == *old(mgr)
            &&& t < 8 ==> r == Dispatched::Measured(t as u8, old(env)@.measured(t).0)
                && final(env)@ == old(env)@.measured(t).1
            &&& t >= 8 ==> r == Dispatched::NothingToMeasure && final(env)@ == old(env)@
        },
        cmd == Command::NoInput ==> r == Dispatched::Idle && *final(mgr) == *old(mgr)
            && final(env)@ == old(env)@,
{
    match cmd {
        Command::Allocate => {
            match mgr.allocate() {
                Ok(id) => {
                    env.reset_qubit(id as usize);
                    Dispatched::Allocated(id)
                },
                Err(_) => Dispatched::Exhausted,
            }
        },
        Command::ReleaseAll => {
            release_all(mgr);
            Dispatched::ReleasedAll
        },
        Command::Measure => {
            let mut i: usize = 0;
            while i < SLOT_COUNT
                invariant
                    i <= 8,
                    cmd == Command::Measure,
                    *mgr == *old(mgr),
                    env@ == old(env)@,
                    env.wf(),
                    mgr.wf(),
                    forall|j: int|
                        0 <= j < i ==> !awaits_measurement(
                            #[trigger] mgr.slots@[j],
                            env@.qubits[j],
                        ),
                decreases 8 - i,
            {
                if mgr.slots[i].is_busy {
                    let q = env.get_qubit(i);
                    if q.a.re != 256 && q.b.re != 256 {
                        proof {
                            lemma_measure_target_is(mgr.slots@, env@.qubits, 0, i as int);
                        }
                        let outcome = env.measure(i);
                        return Dispatched::Measured(i as u8, outcome);
                    }
                }
                i += 1;
            }
            proof {
                lemma_measure_target_is(mgr.slots@, env@.qubits, 0, 8);
            }
            Dispatched::NothingToMeasure
        },
        Command::NoInput => Dispatched::Idle,
    }
}

} // verus!
