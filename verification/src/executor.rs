//! The state machine executor.
//!
//! The executor owns every live state machine. Active and inactive records
//! live in distinct sets; active keys are pairwise distinct, an inactive
//! record is never removed or reactivated, and every insertion and
//! transition is published through the notifier.

use vstd::prelude::*;
use crate::errors::ClientError;
use crate::ids::OperationId;
use crate::notifier::Notifier;
use crate::sm::{dyn_state_eq, is_terminal, DynState, DynStateV};

verus! {

/// The mathematical values of a list of records.
pub open spec fn views_of(v: Seq<DynState>) -> Seq<DynStateV> {
    v.map_values(|s: DynState| s@)
}

/// Pairwise distinct values.
pub open spec fn distinct_seq(s: Seq<DynStateV>) -> bool {
    forall|i: int, j: int| 0 <= i < j < s.len() ==> s[i] != s[j]
}

/// No value in common.
pub open spec fn disjoint_seqs(a: Seq<DynStateV>, b: Seq<DynStateV>) -> bool {
    forall|i: int, j: int| 0 <= i < a.len() && 0 <= j < b.len() ==> a[i] != b[j]
}

pub proof fn lemma_views_remove(v: Seq<DynState>, i: int)
    requires
        0 <= i < v.len(),
    ensures
        views_of(v.remove(i)) =~= views_of(v).remove(i),
{
    v.remove_ensures(i);
    views_of(v).remove_ensures(i);
}

/// Whether `s` is one of the records of `v`.
pub fn contains_state(v: &Vec<DynState>, s: &DynState) -> (r: bool)
    ensures
        r == views_of(v@).contains(s@),
{
    let mut i: usize = 0;
    while i < v.len()
        invariant
            0 <= i <= v@.len(),
            forall|j: int| 0 <= j < i ==> views_of(v@)[j] != s@,
        decreases v@.len() - i,
    {
        if dyn_state_eq(&v[i], s) {
            proof {
                assert(views_of(v@)[i as int] == s@);
            }
            return true;
        }
        i = i + 1;
    }
    false
}

/// A batch insertion conflicts when one of its records already exists, in
/// the active or the inactive set, or occurs twice in the batch itself.
pub open spec fn batch_conflict(
    active: Seq<DynStateV>,
    inactive: Seq<DynStateV>,
    batch: Seq<DynStateV>,
) -> bool {
    exists|i: int|
        0 <= i < batch.len() && (active.contains(#[trigger] batch[i]) || inactive.contains(
            batch[i],
        ) || exists|j: int| 0 <= j < i && batch[j] == batch[i])
}

/// Owner of all live state machines.
pub struct Executor {
    /// Records whose transitions are still possible. Pairwise distinct.
    pub active: Vec<DynState>,
    /// Terminal records, retained indefinitely. Only ever appended to.
    pub inactive: Vec<DynState>,
    /// Broadcast surface; every insertion and transition is published.
    pub notifier: Notifier,
}

impl Executor {
    /// Values of the active records.
    pub open spec fn active_v(&self) -> Seq<DynStateV> {
        views_of(self.active@)
    }

    /// Values of the inactive records.
    pub open spec fn inactive_v(&self) -> Seq<DynStateV> {
        views_of(self.inactive@)
    }

    /// Well-formedness: active keys are pairwise distinct, inactive keys are
    /// pairwise distinct, no record is both active and inactive, and the
    /// notifier is consistent.
    pub open spec fn wf(&self) -> bool {
        &&& distinct_seq(self.active_v())
        &&& distinct_seq(self.inactive_v())
        &&& disjoint_seqs(self.active_v(), self.inactive_v())
        &&& self.notifier.wf()
    }

    /// Whether any record, active or inactive, belongs to the operation.
    pub open spec fn has_operation(&self, op: OperationId) -> bool {
        (exists|i: int| 0 <= i < self.active_v().len() && self.active_v()[i].operation_id == op)
            || (exists|i: int|
            0 <= i < self.inactive_v().len() && self.inactive_v()[i].operation_id == op)
    }

    /// An executor with no state machines.
    pub fn new(notifier: Notifier) -> (r: Executor)
        requires
            notifier.wf(),
        ensures
            r.wf(),
            r.active_v() == Seq::<DynStateV>::empty(),
            r.inactive_v() == Seq::<DynStateV>::empty(),
            r.notifier == notifier,
    {
        let r = Executor { active: Vec::new(), inactive: Vec::new(), notifier };
        proof {
            assert(r.active_v() =~= Seq::<DynStateV>::empty());
            assert(r.inactive_v() =~= Seq::<DynStateV>::empty());
        }
        r
    }

    /// Hydrates an executor from the persisted active and inactive records.
    pub fn from_records(active: Vec<DynState>, inactive: Vec<DynState>, notifier: Notifier) -> (r:
        Executor)
        requires
            notifier.wf(),
            distinct_seq(views_of(active@)),
            distinct_seq(views_of(inactive@)),
            disjoint_seqs(views_of(active@), views_of(inactive@)),
        ensures
            r.wf(),
            r.active_v() == views_of(active@),
            r.inactive_v() == views_of(inactive@),
            r.notifier == notifier,
    {
        Executor { active, inactive, notifier }
    }

    /// Inserts zero or more state machines as active, within the caller's
    /// storage transaction. A duplicate key, against either set or within
    /// the batch, is rejected with a conflict error and nothing is inserted.
    pub fn add_state_machines_dbtx(&mut self, states: Vec<DynState>) -> (r: Result<
        (),
        ClientError,
    >)
        requires
            old(self).wf(),
        ensures
            final(self).wf(),
            r is Err <==> batch_conflict(
                old(self).active_v(),
                old(self).inactive_v(),
                views_of(states@),
            ),
            r is Err ==> r == Err::<(), ClientError>(ClientError::StateAlreadyExists) && *final(self)
                == *old(self),
            r is Ok ==> final(self).active_v() == old(self).active_v() + views_of(states@),
            final(self).inactive == old(self).inactive,
            r is Ok ==> final(self).notifier.log@ == old(self).notifier.log@ + views_of(states@),
            old(self).inactive_v().is_prefix_of(final(self).inactive_v()),
    {
        let ghost batch = views_of(states@);
        let mut i: usize = 0;
        while i < states.len()
            invariant
                batch == views_of(states@),
                0 <= i <= states@.len(),
                old(self).wf(),
                self == old(self),
                forall|k: int|
                    0 <= k < i ==> !old(self).active_v().contains(#[trigger] batch[k]) && !old(
                        self,
                    ).inactive_v().contains(batch[k]) && (forall|j: int|
                        0 <= j < k ==> batch[j] != batch[k]),
            decreases states@.len() - i,
        {
            proof {
                assert(batch[i as int] == states@[i as int]@);
            }
            if contains_state(&self.active, &states[i]) {
                proof {
                    assert(old(self).active_v().contains(batch[i as int]));
                    assert(batch_conflict(old(self).active_v(), old(self).inactive_v(), batch));
                }
                return Err(ClientError::StateAlreadyExists);
            }
            if contains_state(&self.inactive, &states[i]) {
                proof {
                    assert(batch_conflict(old(self).active_v(), old(self).inactive_v(), batch));
                }
                return Err(ClientError::StateAlreadyExists);
            }
            let mut j: usize = 0;
            while j < i
                invariant
                    batch == views_of(states@),
                    0 <= j <= i < states@.len(),
                    old(self).wf(),
                    self == old(self),
                    forall|k: int| 0 <= k < j ==> batch[k] != batch[i as int],
                decreases i - j,
            {
                if dyn_state_eq(&states[j], &states[i]) {
                    proof {
                        assert(batch[j as int] == states@[j as int]@);
                        assert(batch[i as int] == states@[i as int]@);
                        assert(batch[j as int] == batch[i as int]);
                        assert(batch_conflict(old(self).active_v(), old(self).inactive_v(), batch));
                    }
                    return Err(ClientError::StateAlreadyExists);
                }
                j = j + 1;
            }
            i = i + 1;
        }
        proof {
            assert(!batch_conflict(old(self).active_v(), old(self).inactive_v(), batch));
        }
        let ghost old_active = self.active@;
        let ghost old_log = self.notifier.log@;
        let mut rest = states;
        let ghost done: int = 0;
        while rest.len() > 0
            invariant
                batch.len() == views_of(rest@).len() + done,
                0 <= done <= batch.len(),
                views_of(rest@) =~= batch.subrange(done, batch.len() as int),
                self.active@.len() == old_active.len() + done,
                views_of(self.active@) =~= views_of(old_active) + batch.take(done),
                self.notifier.log@ =~= old_log + batch.take(done),
                self.notifier.wf(),
                self.notifier.capacity == old(self).notifier.capacity,
                self.inactive == old(self).inactive,
                old(self).wf(),
                forall|k: int|
                    0 <= k < batch.len() ==> !old(self).active_v().contains(#[trigger] batch[k])
                        && !old(self).inactive_v().contains(batch[k]) && (forall|j: int|
                        0 <= j < k ==> batch[j] != batch[k]),
                old_active == old(self).active@,
            decreases rest@.len(),
        {
            let ghost prev_rest = rest@;
            let ghost prev_active = self.active@;
            let s = rest.remove(0);
            proof {
                assert(views_of(prev_rest)[0] == prev_rest[0]@);
                assert(s@ == batch[done]);
            }
            self.notifier.publish(&s);
            self.active.push(s);
            proof {
                assert(self.active@ =~= prev_active.push(s));
                assert forall|k: int| 0 <= k < self.active@.len() implies views_of(
                    self.active@,
                )[k] == (views_of(old_active) + batch.take(done + 1))[k] by {
                    assert(views_of(self.active@)[k] == self.active@[k]@);
                    if k < prev_active.len() {
                        assert(views_of(prev_active)[k] == prev_active[k]@);
                    }
                }
                assert(views_of(self.active@) =~= views_of(old_active) + batch.take(done + 1));
                assert forall|k: int| 0 <= k < rest@.len() implies views_of(rest@)[k]
                    == batch.subrange(done + 1, batch.len() as int)[k] by {
                    assert(views_of(rest@)[k] == rest@[k]@);
                    assert(rest@[k] == prev_rest[k + 1]);
                    assert(views_of(prev_rest)[k + 1] == prev_rest[k + 1]@);
                }
                assert(views_of(rest@) =~= batch.subrange(done + 1, batch.len() as int));
                done = done + 1;
            }
        }
        proof {
            assert(batch.take(batch.len() as int) =~= batch);
            assert(views_of(self.active@) =~= views_of(old_active) + batch);
            assert forall|i2: int, j2: int|
                0 <= i2 < j2 < self.active_v().len() implies self.active_v()[i2]
                != self.active_v()[j2] by {
                let n = old_active.len() as int;
                if j2 < n {
                } else if i2 < n {
                    assert(self.active_v()[j2] == batch[j2 - n]);
                    assert(old(self).active_v().contains(self.active_v()[i2]));
                } else {
                    assert(self.active_v()[i2] == batch[i2 - n]);
                    assert(self.active_v()[j2] == batch[j2 - n]);
                }
            }
            assert forall|i2: int, j2: int|
                0 <= i2 < self.active_v().len() && 0 <= j2 < self.inactive_v().len() implies self
                .active_v()[i2] != self.inactive_v()[j2] by {
                let n = old_active.len() as int;
                if i2 >= n {
                    assert(self.active_v()[i2] == batch[i2 - n]);
                }
            }
        }
        Ok(())
    }

    /// Advances one state machine: the old record must still be active; it
    /// is removed and replaced by the successor, in the active or the
    /// inactive set according to whether the successor is terminal. The
    /// transition is published.
    pub fn transition(&mut self, prev: &DynState, next: DynState) -> (r: Result<(), ClientError>)
        requires
            old(self).wf(),
        ensures
            final(self).wf(),
            !old(self).active_v().contains(prev@) ==> r == Err::<(), ClientError>(
                ClientError::StateNotFound,
            ) && *final(self) == *old(self),
            old(self).active_v().contains(prev@) && next@ != prev@ && (old(
                self,
            ).active_v().contains(next@) || old(self).inactive_v().contains(next@)) ==> r == Err::<
                (),
                ClientError,
            >(ClientError::StateAlreadyExists) && *final(self) == *old(self),
            r is Ok <==> old(self).active_v().contains(prev@) && (next@ == prev@ || (!old(
                self,
            ).active_v().contains(next@) && !old(self).inactive_v().contains(next@))),
            r is Ok && is_terminal(next@.state) ==> final(self).active_v() == old(
                self,
            ).active_v().remove_value(prev@) && final(self).inactive_v() == old(
                self,
            ).inactive_v().push(next@),
            r is Ok && !is_terminal(next@.state) ==> final(self).active_v() == old(
                self,
            ).active_v().remove_value(prev@).push(next@) && final(self).inactive == old(
                self,
            ).inactive,
            r is Ok ==> final(self).notifier.log@ == old(self).notifier.log@.push(next@),
            old(self).inactive_v().is_prefix_of(final(self).inactive_v()),
    {
        let ghost av = self.active_v();
        let mut idx: usize = 0;
        let mut found = false;
        while !found && idx < self.active.len()
            invariant
                av == self.active_v(),
                self == old(self),
                old(self).wf(),
                0 <= idx <= self.active@.len(),
                found ==> idx < self.active@.len() && av[idx as int] == prev@,
                forall|j: int| 0 <= j < idx ==> av[j] != prev@,
            decreases self.active@.len() - idx + (if found { 0int } else { 1int }),
        {
            if dyn_state_eq(&self.active[idx], prev) {
                proof {
                    assert(views_of(self.active@)[idx as int] == self.active@[idx as int]@);
                    assert(av[idx as int] == prev@);
                }
                found = true;
            } else {
                idx = idx + 1;
            }
        }
        if !found {
            proof {
                assert(forall|j: int| 0 <= j < av.len() ==> av[j] != prev@);
                assert(!av.contains(prev@));
            }
            return Err(ClientError::StateNotFound);
        }
        proof {
            av.index_of_first_ensures(prev@);
            assert(av.contains(prev@));
            assert(av.index_of_first(prev@) == Some(idx as int));
        }
        let same = dyn_state_eq(prev, &next);
        if !same {
            if contains_state(&self.active, &next) {
                return Err(ClientError::StateAlreadyExists);
            }
            if contains_state(&self.inactive, &next) {
                return Err(ClientError::StateAlreadyExists);
            }
        }
        proof {
            if same {
                assert(next@ == prev@);
                assert(!self.inactive_v().contains(next@));
            }
        }
        let removed = self.active.remove(idx);
        proof {
            lemma_views_remove(old(self).active@, idx as int);
            assert(self.active_v() =~= av.remove(idx as int));
            assert(av.remove_value(prev@) == av.remove(idx as int));
        }
        self.notifier.publish(&next);
        let terminal = match &next.state {
            crate::sm::SmState::Module(m) => m.terminal,
            crate::sm::SmState::TxSubmission(t) => !(matches!(t,
            crate::sm::TxSubmissionStates::Created { .. })),
        };
        proof {
            assert(terminal == is_terminal(next@.state));
        }
        if terminal {
            self.inactive.push(next);
            proof {
                assert(self.inactive_v() =~= old(self).inactive_v().push(next@));
                lemma_transition_wf_terminal(old(self).active_v(), old(self).inactive_v(), prev@,
                    next@, idx as int);
                assert(old(self).inactive_v().is_prefix_of(self.inactive_v()));
            }
        } else {
            self.active.push(next);
            proof {
                assert(self.active_v() =~= av.remove(idx as int).push(next@));
                lemma_transition_wf_active(old(self).active_v(), old(self).inactive_v(), prev@,
                    next@, idx as int);
            }
        }
        Ok(())
    }

    /// The operation ids that still have at least one active state machine,
    /// each listed once.
    pub fn get_active_operations(&self) -> (r: Vec<OperationId>)
        ensures
            forall|op: OperationId|
                r@.contains(op) <==> (exists|i: int|
                    0 <= i < self.active_v().len() && (#[trigger] self.active_v()[i]).operation_id
                        == op),
            forall|i: int, j: int| 0 <= i < j < r@.len() ==> r@[i] != r@[j],
    {
        let mut out: Vec<OperationId> = Vec::new();
        let mut i: usize = 0;
        while i < self.active.len()
            invariant
                0 <= i <= self.active@.len(),
                forall|op: OperationId|
                    out@.contains(op) <==> (exists|k: int|
                        0 <= k < i && (#[trigger] self.active_v()[k]).operation_id == op),
                forall|a: int, b: int| 0 <= a < b < out@.len() ==> out@[a] != out@[b],
            decreases self.active@.len() - i,
        {
            let op = self.active[i].operation_id;
            proof {
                assert(views_of(self.active@)[i as int] == self.active@[i as int]@);
                assert(self.active_v()[i as int].operation_id == op);
            }
            let mut seen = false;
            let mut j: usize = 0;
            while j < out.len()
                invariant
                    0 <= j <= out@.len(),
                    seen <==> (exists|k: int| 0 <= k < j && out@[k] == op),
                decreases out@.len() - j,
            {
                if out[j] == op {
                    seen = true;
                }
                j = j + 1;
            }
            let ghost prev_out = out@;
            if !seen {
                out.push(op);
            }
            proof {
                assert(seen <==> prev_out.contains(op));
                assert forall|op2: OperationId| out@.contains(op2) implies (exists|k: int|
                    0 <= k < i + 1 && (#[trigger] self.active_v()[k]).operation_id == op2) by {
                    let w = choose|w: int| 0 <= w < out@.len() && out@[w] == op2;
                    if w < prev_out.len() {
                        assert(prev_out[w] == op2);
                        assert(prev_out.contains(op2));
                    } else {
                        assert(op2 == op);
                        assert(self.active_v()[i as int].operation_id == op2);
                    }
                }
                assert forall|op2: OperationId|
                    (exists|k: int|
                        0 <= k < i + 1 && (#[trigger] self.active_v()[k]).operation_id
                            == op2) implies out@.contains(op2) by {
                    let k = choose|k: int|
                        0 <= k < i + 1 && (#[trigger] self.active_v()[k]).operation_id == op2;
                    if k < i {
                        assert(prev_out.contains(op2));
                        let w = choose|w: int| 0 <= w < prev_out.len() && prev_out[w] == op2;
                        assert(out@[w] == op2);
                    } else {
                        assert(op2 == op);
                        if seen {
                            let w = choose|w: int| 0 <= w < prev_out.len() && prev_out[w] == op;
                            assert(out@[w] == op2);
                        } else {
                            assert(out@[out@.len() - 1] == op2);
                        }
                    }
                }
            }
            i = i + 1;
        }
        out
    }

    /// Whether any record, active or inactive, belongs to the operation.
    pub fn operation_exists(&self, op: OperationId) -> (r: bool)
        ensures
            r == self.has_operation(op),
    {
        let mut i: usize = 0;
        while i < self.active.len()
            invariant
                0 <= i <= self.active@.len(),
                forall|j: int| 0 <= j < i ==> (#[trigger] self.active_v()[j]).operation_id != op,
            decreases self.active@.len() - i,
        {
            if self.active[i].operation_id == op {
                proof {
                    assert(self.active_v()[i as int].operation_id == op);
                }
                return true;
            }
            i = i + 1;
        }
        let mut k: usize = 0;
        while k < self.inactive.len()
            invariant
                0 <= k <= self.inactive@.len(),
                forall|j: int| 0 <= j < k ==> (#[trigger] self.inactive_v()[j]).operation_id != op,
            decreases self.inactive@.len() - k,
        {
            if self.inactive[k].operation_id == op {
                proof {
                    assert(self.inactive_v()[k as int].operation_id == op);
                }
                return true;
            }
            k = k + 1;
        }
        proof {
            assert forall|j: int|
                0 <= j < self.active_v().len() implies (#[trigger] self.active_v()[j]).operation_id
                != op by {}
        }
        false
    }

    /// The broadcast surface.
    pub fn notifier(&mut self) -> (r: &mut Notifier)
        ensures
            *r == old(self).notifier,
            *final(self) == (Executor { notifier: *final(r), ..*old(self) }),
    {
        &mut self.notifier
    }
}

/// Distinctness and disjointness survive a transition to a terminal state.
proof fn lemma_transition_wf_terminal(
    active: Seq<DynStateV>,
    inactive: Seq<DynStateV>,
    prev: DynStateV,
    next: DynStateV,
    idx: int,
)
    requires
        distinct_seq(active),
        distinct_seq(inactive),
        disjoint_seqs(active, inactive),
        0 <= idx < active.len(),
        active[idx] == prev,
        next == prev || (!active.contains(next) && !inactive.contains(next)),
    ensures
        distinct_seq(active.remove(idx)),
        distinct_seq(inactive.push(next)),
        disjoint_seqs(active.remove(idx), inactive.push(next)),
{
    active.remove_ensures(idx);
    assert forall|i: int, j: int|
        0 <= i < j < inactive.push(next).len() implies inactive.push(next)[i] != inactive.push(
        next,
    )[j] by {
        if j == inactive.len() {
            if inactive.contains(next) {
            } else {
                assert(inactive.push(next)[j] == next);
            }
            if next == prev {
                assert(!inactive.contains(prev));
            }
        }
    }
    assert forall|i: int, j: int|
        0 <= i < active.remove(idx).len() && 0 <= j < inactive.push(next).len() implies active
        .remove(idx)[i] != inactive.push(next)[j] by {
        assert(active.contains(active.remove(idx)[i]));
        let w = if i < idx { i } else { i + 1 };
        assert(active.remove(idx)[i] == active[w]);
        if j == inactive.len() {
            assert(inactive.push(next)[j] == next);
            if next == prev {
                assert(w != idx);
                assert(active[w] != active[idx]);
            }
        }
    }
}

/// Distinctness and disjointness survive a transition to an active state.
proof fn lemma_transition_wf_active(
    active: Seq<DynStateV>,
    inactive: Seq<DynStateV>,
    prev: DynStateV,
    next: DynStateV,
    idx: int,
)
    requires
        distinct_seq(active),
        distinct_seq(inactive),
        disjoint_seqs(active, inactive),
        0 <= idx < active.len(),
        active[idx] == prev,
        next == prev || (!active.contains(next) && !inactive.contains(next)),
    ensures
        distinct_seq(active.remove(idx).push(next)),
        disjoint_seqs(active.remove(idx).push(next), inactive),
{
    active.remove_ensures(idx);
    let removed = active.remove(idx);
    assert forall|i: int, j: int|
        0 <= i < j < removed.push(next).len() implies removed.push(next)[i] != removed.push(
        next,
    )[j] by {
        if j == removed.len() {
            assert(removed.push(next)[j] == next);
            let w = if i < idx { i } else { i + 1 };
            assert(removed[i] == active[w]);
            if next == prev {
                assert(w != idx);
                assert(active[w] != active[idx]);
            } else {
                assert(!active.contains(next));
            }
        }
    }
    assert forall|i: int, j: int|
        0 <= i < removed.push(next).len() && 0 <= j < inactive.len() implies removed.push(
        next,
    )[i] != inactive[j] by {
        if i == removed.len() {
            assert(removed.push(next)[i] == next);
            if next == prev {
            } else {
                assert(!inactive.contains(next));
            }
        } else {
            let w = if i < idx { i } else { i + 1 };
            assert(removed[i] == active[w]);
        }
    }
}

/// Every active key is distinct from every other: scanning the active set
/// never yields the same record twice.
pub proof fn lemma_active_states_distinct(e: &Executor, i: int, j: int)
    requires
        e.wf(),
        0 <= i < e.active_v().len(),
        0 <= j < e.active_v().len(),
        i != j,
    ensures
        e.active_v()[i] != e.active_v()[j],
{
}


/// Monotonic terminal: an inactive record stays inactive. The inactive set
/// only ever grows by appending, so membership is preserved by every
/// operation whose postcondition keeps the old set a prefix of the new one.
pub proof fn lemma_inactive_is_monotonic(before: Seq<DynStateV>, after: Seq<DynStateV>, s: DynStateV)
    requires
        before.is_prefix_of(after),
        before.contains(s),
    ensures
        after.contains(s),
{
    let i = choose|i: int| 0 <= i < before.len() && before[i] == s;
    assert(after[i] == s);
}

} // verus!
