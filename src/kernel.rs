//! Resource management: admission control over eight fixed slots and their
//! coherence bookkeeping.
use vstd::prelude::*;

verus! {

/// Number of slots the manager owns.
pub const SLOT_COUNT: usize = 8;

/// Coherence of a freshly allocated slot.
pub const FULL_COHERENCE: u8 = 100;

/// Default entropy level above which the system is declared unstable.
pub const DEFAULT_STABILITY_THRESHOLD: u64 = 5000;

/// Default divisor turning an entropy level into a per-tick coherence loss.
pub const DEFAULT_DECAY_DIVISOR: u64 = 500;

/// The three failure kinds: exhaustion and invalid access are recoverable,
/// collapse is fatal.
#[derive(Copy, Clone, Debug, PartialEq, Eq, Structural)]
pub enum QuantumError {
    /// Every slot is busy.
    ResourceExhausted,
    /// A slot id outside `0..8` was used.
    InvalidSlotAccess,
    /// Entropy crossed the stability threshold; unrecoverable.
    DecoherenceCollapse,
}

/// One slot: its fixed id, whether it is reserved, and its coherence.
#[derive(Copy, Clone, Debug, PartialEq, Eq, Structural)]
pub struct QuantumResource {
    pub id: u8,
    pub is_busy: bool,
    pub coherence: u8,
}

/// Eight slots with a count of the busy ones, the entropy level above which
/// the system is unstable, and the divisor that turns entropy into coherence
/// loss.
pub struct QuantumResourceManager {
    pub slots: [QuantumResource; 8],
    pub total_allocated: u8,
    pub stability_threshold: u64,
    pub decay_divisor: u64,
}

/// Number of busy slots in `s`.
pub open spec fn busy_count(s: Seq<QuantumResource>) -> nat
    decreases s.len(),
{
    if s.len() == 0 {
        0
    } else {
        busy_count(s.drop_last()) + if s.last().is_busy { 1nat } else { 0nat }
    }
}

/// Coherence `c` after losing `loss` points, floored at zero.
pub open spec fn decayed(c: u8, loss: int) -> u8 {
    if c as int >= loss {
        (c as int - loss) as u8
    } else {
        0
    }
}

/// A slot's state after `decay_all` with the given loss.
pub open spec fn slot_after_decay(s: QuantumResource, loss: int) -> QuantumResource {
    if s.is_busy {
        QuantumResource { coherence: decayed(s.coherence, loss), ..s }
    } else {
        s
    }
}

/// Index of the first idle slot of `s` at or after `i`, or `s.len()` when
/// there is none.
pub open spec fn first_free_from(s: Seq<QuantumResource>, i: int) -> int
    decreases s.len() - i,
{
    if i < 0 || i >= s.len() {
        s.len() as int
    } else if !s[i].is_busy {
        i
    } else {
        first_free_from(s, i + 1)
    }
}

/// Index of the lowest idle slot of `s`, or `s.len()` when every slot is busy.
pub open spec fn first_free(s: Seq<QuantumResource>) -> int {
    first_free_from(s, 0)
}

/// The slot at `id` once it has been allocated.
pub open spec fn allocated_slot(id: int) -> QuantumResource {
    QuantumResource { id: id as u8, is_busy: true, coherence: FULL_COHERENCE }
}

/// What `allocate` returns on slots `s`.
pub open spec fn alloc_result(s: Seq<QuantumResource>) -> Result<u8, QuantumError> {
    if first_free(s) < s.len() {
        Ok(first_free(s) as u8)
    } else {
        Err(QuantumError::ResourceExhausted)
    }
}

/// The slots after `allocate` on slots `s`.
pub open spec fn slots_after_alloc(s: Seq<QuantumResource>) -> Seq<QuantumResource> {
    if first_free(s) < s.len() {
        s.update(first_free(s), allocated_slot(first_free(s)))
    } else {
        s
    }
}

/// The results of `n` consecutive calls of `allocate` starting on slots `s`.
pub open spec fn alloc_run(s: Seq<QuantumResource>, n: nat) -> Seq<Result<u8, QuantumError>>
    decreases n,
{
    if n == 0 {
        Seq::empty()
    } else {
        seq![alloc_result(s)] + alloc_run(slots_after_alloc(s), (n - 1) as nat)
    }
}

/// The slots after a successful `release(id)` on slots `s`.
pub open spec fn slots_after_release(s: Seq<QuantumResource>, id: int) -> Seq<QuantumResource> {
    s.update(id, QuantumResource { is_busy: false, ..s[id] })
}

/// The stability predicate: `entropy` does not exceed `threshold`.
pub open spec fn is_stable(threshold: u64, entropy: u64) -> bool {
    entropy <= threshold
}

proof fn lemma_first_free_is(s: Seq<QuantumResource>, i: int, k: int)
    requires
        0 <= i <= k <= s.len(),
        forall|j: int| i <= j < k ==> (#[trigger] s[j]).is_busy,
        k < s.len() ==> !s[k].is_busy,
    ensures
        first_free_from(s, i) == k,
    decreases k - i,
{
    if i < k {
        lemma_first_free_is(s, i + 1, k);
    }
}

proof fn lemma_first_free_facts(s: Seq<QuantumResource>, i: int)
    requires
        0 <= i <= s.len(),
    ensures
        i <= first_free_from(s, i) <= s.len(),
        forall|j: int| i <= j < first_free_from(s, i) ==> (#[trigger] s[j]).is_busy,
        first_free_from(s, i) < s.len() ==> !s[first_free_from(s, i)].is_busy,
    decreases s.len() - i,
{
    if i < s.len() && s[i].is_busy {
        lemma_first_free_facts(s, i + 1);
    }
}

proof fn lemma_busy_count_bound(s: Seq<QuantumResource>)
    ensures
        busy_count(s) <= s.len(),
    decreases s.len(),
{
    if s.len() > 0 {
        lemma_busy_count_bound(s.drop_last());
    }
}

proof fn lemma_busy_count_update(s: Seq<QuantumResource>, i: int, v: QuantumResource)
    requires
        0 <= i < s.len(),
    ensures
        busy_count(s.update(i, v)) + (if s[i].is_busy { 1int } else { 0int })
            == busy_count(s) + (if v.is_busy { 1int } else { 0int }),
    decreases s.len(),
{
    let t = s.update(i, v);
    if i == s.len() - 1 {
        assert(t.drop_last() =~= s.drop_last());
    } else {
        lemma_busy_count_update(s.drop_last(), i, v);
        assert(t.drop_last() =~= s.drop_last().update(i, v));
    }
}

proof fn lemma_busy_count_all_busy(s: Seq<QuantumResource>)
    requires
        forall|j: int| 0 <= j < s.len() ==> (#[trigger] s[j]).is_busy,
    ensures
        busy_count(s) == s.len(),
    decreases s.len(),
{
    if s.len() > 0 {
        lemma_busy_count_all_busy(s.drop_last());
    }
}

proof fn lemma_busy_count_same(s: Seq<QuantumResource>, t: Seq<QuantumResource>)
    requires
        s.len() == t.len(),
        forall|j: int| 0 <= j < s.len() ==> s[j].is_busy == t[j].is_busy,
    ensures
        busy_count(s) == busy_count(t),
    decreases s.len(),
{
    if s.len() > 0 {
        lemma_busy_count_same(s.drop_last(), t.drop_last());
    }
}

impl QuantumResourceManager {
    /// The manager's invariant: slot `i` carries id `i`, coherence stays in
    /// `0..=100`, the counter equals the number of busy slots and the decay
    /// divisor is positive.
    pub open spec fn wf(&self) -> bool {
        &&& forall|i: int|
            0 <= i < 8 ==> (#[trigger] self.slots@[i]).id == i && self.slots@[i].coherence
                <= FULL_COHERENCE
        &&& self.total_allocated as nat == busy_count(self.slots@)
        &&& self.decay_divisor > 0
    }

    /// Every slot is busy.
    pub open spec fn is_full(&self) -> bool {
        forall|i: int| 0 <= i < 8 ==> (#[trigger] self.slots@[i]).is_busy
    }

    /// The two configured constants are those of `other`.
    pub open spec fn same_config(&self, other: &Self) -> bool {
        self.stability_threshold == other.stability_threshold && self.decay_divisor
            == other.decay_divisor
    }

    /// An empty manager with the default constants.
    pub fn new() -> (r: Self)
        ensures
            r.wf(),
            r.total_allocated == 0,
            forall|i: int|
                0 <= i < 8 ==> (#[trigger] r.slots@[i]) == (QuantumResource {
                    id: i as u8,
                    is_busy: false,
                    coherence: FULL_COHERENCE,
                }),
            r.stability_threshold == DEFAULT_STABILITY_THRESHOLD,
            r.decay_divisor == DEFAULT_DECAY_DIVISOR,
    {
        Self::with_config(DEFAULT_STABILITY_THRESHOLD, DEFAULT_DECAY_DIVISOR)
    }

    /// An empty manager with the given stability threshold and decay divisor.
    pub fn with_config(stability_threshold: u64, decay_divisor: u64) -> (r: Self)
        requires
            decay_divisor > 0,
        ensures
            r.wf(),
            r.total_allocated == 0,
            forall|i: int|
                0 <= i < 8 ==> (#[trigger] r.slots@[i]) == (QuantumResource {
                    id: i as u8,
                    is_busy: false,
                    coherence: FULL_COHERENCE,
                }),
            r.stability_threshold == stability_threshold,
            r.decay_divisor == decay_divisor,
    {
        let mut slots = [QuantumResource { id: 0, is_busy: false, coherence: FULL_COHERENCE }; 8];
        let mut i: usize = 0;
        while i < SLOT_COUNT
            invariant
                i <= 8,
                forall|j: int|
                    0 <= j < 8 ==> (#[trigger] slots@[j]) == (QuantumResource {
                        id: if j < i { j as u8 } else { 0 },
                        is_busy: false,
                        coherence: FULL_COHERENCE,
                    }),
            decreases 8 - i,
        {
            slots[i] = QuantumResource { id: i as u8, is_busy: false, coherence: FULL_COHERENCE };
            i += 1;
        }
        proof {
            assert forall|j: int| 0 <= j < 8 implies !(#[trigger] slots@[j]).is_busy by {}
            lemma_busy_count_idle(slots@);
        }
        Self { slots, total_allocated: 0, stability_threshold, decay_divisor }
    }

    /// Reserves the lowest free slot: marks it busy with full coherence and
    /// returns its id; fails with `ResourceExhausted` exactly when every slot
    /// is busy, and then changes nothing.
    pub fn allocate(&mut self) -> (r: Result<u8, QuantumError>)
        requires
            old(self).wf(),
        ensures
            final(self).wf(),
            final(self).same_config(old(self)),
            r is Err <==> old(self).is_full(),
            r == alloc_result(old(self).slots@),
            final(self).slots@ == slots_after_alloc(old(self).slots@),
            match r {
                Ok(id) => {
                    &&& id < 8
                    &&& !old(self).slots@[id as int].is_busy
                    &&& forall|j: int| 0 <= j < id ==> (#[trigger] old(self).slots@[j]).is_busy
                    &&& final(self).slots@ == old(self).slots@.update(
                        id as int,
                        allocated_slot(id as int),
                    )
                    &&& final(self).total_allocated == old(self).total_allocated + 1
                },
                Err(e) => e == QuantumError::ResourceExhausted && *final(self) == *old(self),
            },
    {
        let mut i: usize = 0;
        while i < SLOT_COUNT
            invariant
                i <= 8,
                *self == *old(self),
                self.wf(),
                forall|j: int| 0 <= j < i ==> (#[trigger] self.slots@[j]).is_busy,
            decreases 8 - i,
        {
            if !self.slots[i].is_busy {
                let old_slots = Ghost(self.slots@);
                proof {
                    lemma_busy_count_update(self.slots@, i as int, allocated_slot(i as int));
                    lemma_busy_count_bound(self.slots@.update(i as int, allocated_slot(i as int)));
                }
                self.slots[i] = QuantumResource { id: i as u8, is_busy: true, coherence: FULL_COHERENCE };
                self.total_allocated = self.total_allocated + 1;
                proof {
                    lemma_first_free_is(old_slots@, 0, i as int);
                }
                assert(self.slots@ == old_slots@.update(i as int, allocated_slot(i as int)));
                return Ok(i as u8);
            }
            i += 1;
        }
        proof {
            lemma_first_free_is(self.slots@, 0, 8);
        }
        Err(QuantumError::ResourceExhausted)
    }

    /// Frees slot `id`. Fails with `InvalidSlotAccess`, changing nothing,
    /// exactly when `id >= 8`; freeing an already free slot succeeds and
    /// changes nothing. Coherence is left as it was.
    pub fn release(&mut self, id: u8) -> (r: Result<(), QuantumError>)
        requires
            old(self).wf(),
        ensures
            final(self).wf(),
            final(self).same_config(old(self)),
            r is Err <==> id >= 8,
            r is Err ==> r == Err::<(), QuantumError>(QuantumError::InvalidSlotAccess)
                && *final(self) == *old(self),
            r is Ok ==> final(self).slots@ == slots_after_release(old(self).slots@, id as int),
            r is Ok ==> final(self).total_allocated == old(self).total_allocated - (
            if old(self).slots@[id as int].is_busy {
                1int
            } else {
                0int
            }),
    {
        if id >= 8 {
            return Err(QuantumError::InvalidSlotAccess);
        }
        let k = id as usize;
        let s = self.slots[k];
        if s.is_busy {
            let freed = QuantumResource { is_busy: false, ..s };
            proof {
                lemma_busy_count_update(self.slots@, k as int, freed);
            }
            self.slots[k] = freed;
            self.total_allocated = self.total_allocated - 1;
        } else {
            assert(self.slots@ =~= self.slots@.update(k as int, QuantumResource { is_busy: false, ..s }));
        }
        Ok(())
    }

    /// Succeeds exactly when `entropy` does not exceed the configured
    /// threshold; otherwise reports `DecoherenceCollapse`.
    pub fn check_stability(&self, entropy: u64) -> (r: Result<(), QuantumError>)
        ensures
            r is Ok <==> is_stable(self.stability_threshold, entropy),
            r is Err ==> r == Err::<(), QuantumError>(QuantumError::DecoherenceCollapse),
    {
        if entropy > self.stability_threshold {
            return Err(QuantumError::DecoherenceCollapse);
        }
        Ok(())
    }

    /// Lowers the coherence of every busy slot by `entropy / decay_divisor`,
    /// floored at zero; idle slots are untouched.
    pub fn decay_all(&mut self, entropy: u64)
        requires
            old(self).wf(),
        ensures
            final(self).wf(),
            final(self).same_config(old(self)),
            final(self).total_allocated == old(self).total_allocated,
            forall|i: int|
                0 <= i < 8 ==> (#[trigger] final(self).slots@[i]) == slot_after_decay(
                    old(self).slots@[i],
                    entropy as int / old(self).decay_divisor as int,
                ),
    {
        let loss: u64 = entropy / self.decay_divisor;
        let mut i: usize = 0;
        while i < SLOT_COUNT
            invariant
                i <= 8,
                self.total_allocated == old(self).total_allocated,
                self.same_config(old(self)),
                loss == entropy as int / old(self).decay_divisor as int,
                forall|j: int|
                    0 <= j < 8 ==> (#[trigger] self.slots@[j]) == if j < i {
                        slot_after_decay(old(self).slots@[j], loss as int)
                    } else {
                        old(self).slots@[j]
                    },
            decreases 8 - i,
        {
            let s = self.slots[i];
            if s.is_busy {
                let c: u8 = if (s.coherence as u64) > loss {
                    s.coherence - (loss as u8)
                } else {
                    0
                };
                self.slots[i] = QuantumResource { coherence: c, ..s };
            }
            i += 1;
        }
        proof {
            lemma_busy_count_same(self.slots@, old(self).slots@);
        }
    }
}

/// A sequence of idle slots has no busy slot.
pub proof fn lemma_busy_count_idle(s: Seq<QuantumResource>)
    requires
        forall|j: int| 0 <= j < s.len() ==> !(#[trigger] s[j]).is_busy,
    ensures
        busy_count(s) == 0,
    decreases s.len(),
{
    if s.len() > 0 {
        lemma_busy_count_idle(s.drop_last());
    }
}

proof fn lemma_alloc_run_tail(s: Seq<QuantumResource>, k: int)
    requires
        s.len() == 8,
        0 <= k <= 8,
        forall|j: int| 0 <= j < k ==> (#[trigger] s[j]).is_busy,
        forall|j: int| k <= j < 8 ==> !(#[trigger] s[j]).is_busy,
    ensures
        alloc_run(s, (9 - k) as nat).len() == 9 - k,
        forall|t: int| 0 <= t < 8 - k ==> #[trigger] alloc_run(s, (9 - k) as nat)[t] == Ok::<u8, QuantumError>((k + t) as u8),
        alloc_run(s, (9 - k) as nat)[8 - k] == Err::<u8, QuantumError>(QuantumError::ResourceExhausted),
    decreases 8 - k,
{
    let r = alloc_run(s, (9 - k) as nat);
    if k == 8 {
        lemma_first_free_is(s, 0, 8);
        assert(alloc_run(s, 0) =~= Seq::empty());
    } else {
        lemma_first_free_is(s, 0, k);
        let next = slots_after_alloc(s);
        assert forall|j: int| 0 <= j < k + 1 implies (#[trigger] next[j]).is_busy by {}
        lemma_alloc_run_tail(next, k + 1);
        let rest = alloc_run(next, (9 - (k + 1)) as nat);
        assert(r == seq![alloc_result(s)] + rest);
        assert forall|t: int| 0 <= t < 8 - k implies #[trigger] r[t] == Ok::<u8, QuantumError>((k + t) as u8) by {
            if t > 0 {
                assert(r[t] == rest[t - 1]);
            }
        }
        assert(r[8 - k] == rest[8 - (k + 1)]);
    }
}

/// From a manager whose slots are all idle, eight consecutive allocations
/// return the ids `0` to `7` in ascending order and the ninth reports
/// `ResourceExhausted`.
pub proof fn lemma_capacity(m: QuantumResourceManager)
    requires
        m.wf(),
        forall|i: int| 0 <= i < 8 ==> !(#[trigger] m.slots@[i]).is_busy,
    ensures
        alloc_run(m.slots@, 9).len() == 9,
        forall|k: int| 0 <= k < 8 ==> #[trigger] alloc_run(m.slots@, 9)[k] == Ok::<u8, QuantumError>(k as u8),
        alloc_run(m.slots@, 9)[8] == Err::<u8, QuantumError>(QuantumError::ResourceExhausted),
{
    lemma_alloc_run_tail(m.slots@, 0);
}

/// Releasing a slot that is already idle leaves every slot, and so the
/// allocation count, as it was.
pub proof fn lemma_release_idle_is_noop(m: QuantumResourceManager, id: u8)
    requires
        m.wf(),
        id < 8,
        !m.slots@[id as int].is_busy,
    ensures
        slots_after_release(m.slots@, id as int) == m.slots@,
        busy_count(slots_after_release(m.slots@, id as int)) == m.total_allocated,
{
    assert(slots_after_release(m.slots@, id as int) =~= m.slots@);
}

/// The stability check passes at the threshold itself and fails one above it.
pub proof fn lemma_stability_boundary(threshold: u64)
    requires
        threshold < u64::MAX,
    ensures
        is_stable(threshold, threshold),
        !is_stable(threshold, (threshold + 1) as u64),
{
}

} // verus!
