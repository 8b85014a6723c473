//! State machines and the transaction-submission state machine.
//!
//! A state machine is a persisted record carrying the owning module
//! instance, the operation it belongs to, and an opaque state payload. The
//! record itself is the storage key: two records are the same state machine
//! exactly when all their fields coincide.
//!
//! The transaction-submission state machine is the core's own: it carries
//! the finalized transaction until the federation accepts or rejects it.
//! Its transition step is a pure function from state and observed event to
//! successor state.

use vstd::prelude::*;
use crate::ids::{ModuleInstanceId, OperationId, OutPoint, TransactionId,
    TRANSACTION_SUBMISSION_MODULE_INSTANCE};
use crate::transaction::{Transaction, TransactionV};

verus! {

/// Opaque state of a module-owned state machine: the module-decoded payload
/// and the outpoint it tracks.
#[derive(Clone, Copy, PartialEq, Eq, Structural, Debug)]
pub struct ModuleSmState {
    /// Module-decoded payload identifying the state and its data.
    pub payload: u64,
    /// Transaction this state machine tracks.
    pub txid: TransactionId,
    /// Index of the tracked input or output in that transaction.
    pub out_idx: u64,
    /// Whether the state is terminal: no further transitions are possible.
    pub terminal: bool,
}

/// States of the transaction-submission state machine.
pub enum TxSubmissionStates {
    /// The transaction was finalized but not yet definitively answered.
    Created {
        txid: TransactionId,
        /// The encoded transaction is owned by this record until accepted.
        tx: Transaction,
        /// Earliest time of the next submission attempt, in milliseconds.
        next_submission: u64,
        /// Number of submission attempts already made.
        attempt: u64,
    },
    /// The federation accepted the transaction. Terminal.
    Accepted { txid: TransactionId },
    /// The federation rejected the transaction. Terminal.
    Rejected { txid: TransactionId, error: String },
}

/// Mathematical value of [`TxSubmissionStates`].
#[verifier::ext_equal]
pub ghost enum TxSubmissionStatesV {
    Created { txid: TransactionId, tx: TransactionV, next_submission: u64, attempt: u64 },
    Accepted { txid: TransactionId },
    Rejected { txid: TransactionId, error: Seq<char> },
}

impl View for TxSubmissionStates {
    type V = TxSubmissionStatesV;

    open spec fn view(&self) -> TxSubmissionStatesV {
        match self {
            TxSubmissionStates::Created { txid, tx, next_submission, attempt } => (
            TxSubmissionStatesV::Created {
                txid: *txid,
                tx: tx@,
                next_submission: *next_submission,
                attempt: *attempt,
            }),
            TxSubmissionStates::Accepted { txid } => (TxSubmissionStatesV::Accepted {
                txid: *txid,
            }),
            TxSubmissionStates::Rejected { txid, error } => (TxSubmissionStatesV::Rejected {
                txid: *txid,
                error: error@,
            }),
        }
    }
}

/// The state payload of a persisted state machine: either an opaque
/// module-owned state or a transaction-submission state.
pub enum SmState {
    Module(ModuleSmState),
    TxSubmission(TxSubmissionStates),
}

/// Mathematical value of [`SmState`].
#[verifier::ext_equal]
pub ghost enum SmStateV {
    Module(ModuleSmState),
    TxSubmission(TxSubmissionStatesV),
}

impl View for SmState {
    type V = SmStateV;

    open spec fn view(&self) -> SmStateV {
        match self {
            SmState::Module(m) => SmStateV::Module(*m),
            SmState::TxSubmission(t) => SmStateV::TxSubmission(t@),
        }
    }
}

/// Whether a state payload is terminal: an inactive record never leaves the
/// inactive set once written.
pub open spec fn is_terminal(s: SmStateV) -> bool {
    match s {
        SmStateV::Module(m) => m.terminal,
        SmStateV::TxSubmission(t) => !(t is Created),
    }
}

/// A persisted state machine record. The triple of all fields is the storage
/// key under the active or inactive prefix.
pub struct DynState {
    pub module_instance_id: ModuleInstanceId,
    pub operation_id: OperationId,
    pub state: SmState,
}

/// Mathematical value of [`DynState`].
#[verifier::ext_equal]
pub ghost struct DynStateV {
    pub module_instance_id: ModuleInstanceId,
    pub operation_id: OperationId,
    pub state: SmStateV,
}

impl View for DynState {
    type V = DynStateV;

    open spec fn view(&self) -> DynStateV {
        DynStateV {
            module_instance_id: self.module_instance_id,
            operation_id: self.operation_id,
            state: self.state@,
        }
    }
}

/// Whether two byte vectors hold the same bytes.
pub fn bytes_eq(a: &Vec<u8>, b: &Vec<u8>) -> (r: bool)
    ensures
        r == (a@ == b@),
{
    if a.len() != b.len() {
        proof {
            assert(a@.len() != b@.len());
        }
        return false;
    }
    let mut i: usize = 0;
    while i < a.len()
        invariant
            a@.len() == b@.len(),
            0 <= i <= a@.len(),
            forall|j: int| 0 <= j < i ==> a@[j] == b@[j],
        decreases a@.len() - i,
    {
        if a[i] != b[i] {
            return false;
        }
        i = i + 1;
    }
    proof {
        assert(a@ =~= b@);
    }
    true
}

/// Whether two witness lists hold the same byte vectors.
fn witnesses_eq(a: &Vec<Vec<u8>>, b: &Vec<Vec<u8>>) -> (r: bool)
    ensures
        r == (a.deep_view() == b.deep_view()),
{
    if a.len() != b.len() {
        proof {
            assert(a.deep_view().len() != b.deep_view().len());
        }
        return false;
    }
    let mut i: usize = 0;
    while i < a.len()
        invariant
            a@.len() == b@.len(),
            a.deep_view().len() == a@.len(),
            b.deep_view().len() == b@.len(),
            0 <= i <= a@.len(),
            forall|j: int| 0 <= j < i ==> a.deep_view()[j] == b.deep_view()[j],
        decreases a@.len() - i,
    {
        if !bytes_eq(&a[i], &b[i]) {
            proof {
                assert(a.deep_view()[i as int] == a@[i as int]@);
                assert(b.deep_view()[i as int] == b@[i as int]@);
            }
            return false;
        }
        proof {
            assert(a.deep_view()[i as int] == a@[i as int]@);
            assert(b.deep_view()[i as int] == b@[i as int]@);
        }
        i = i + 1;
    }
    proof {
        assert(a.deep_view() =~= b.deep_view());
    }
    true
}

/// Whether two item lists hold the same items.
fn items_eq(a: &Vec<crate::transaction::TxItem>, b: &Vec<crate::transaction::TxItem>) -> (r: bool)
    ensures
        r == (a@ == b@),
{
    if a.len() != b.len() {
        proof {
            assert(a@.len() != b@.len());
        }
        return false;
    }
    let mut i: usize = 0;
    while i < a.len()
        invariant
            a@.len() == b@.len(),
            0 <= i <= a@.len(),
            forall|j: int| 0 <= j < i ==> a@[j] == b@[j],
        decreases a@.len() - i,
    {
        if a[i] != b[i] {
            return false;
        }
        i = i + 1;
    }
    proof {
        assert(a@ =~= b@);
    }
    true
}

/// Whether two transactions are equal in every field.
pub fn transaction_eq(a: &Transaction, b: &Transaction) -> (r: bool)
    ensures
        r == (a@ == b@),
{
    let r = items_eq(&a.inputs, &b.inputs) && items_eq(&a.outputs, &b.outputs) && witnesses_eq(
        &a.witnesses,
        &b.witnesses,
    );
    proof {
        if a.inputs@ == b.inputs@ && a.outputs@ == b.outputs@ && a.witnesses.deep_view()
            == b.witnesses.deep_view() {
            assert(a@ =~= b@);
        }
        if a@ == b@ {
            assert(a.inputs@ == b.inputs@);
            assert(a.outputs@ == b.outputs@);
            assert(a.witnesses.deep_view() == b.witnesses.deep_view());
        }
    }
    r
}

/// Whether two submission states are equal in every field.
pub fn tx_submission_state_eq(a: &TxSubmissionStates, b: &TxSubmissionStates) -> (r: bool)
    ensures
        r == (a@ == b@),
{
    match (a, b) {
        (
            TxSubmissionStates::Created { txid: ta, tx: xa, next_submission: na, attempt: aa },
            TxSubmissionStates::Created { txid: tb, tx: xb, next_submission: nb, attempt: ab },
        ) => {
            let r = ta == tb && na == nb && aa == ab && transaction_eq(xa, xb);
            proof {
                if r {
                    assert(a@ =~= b@);
                }
            }
            r
        },
        (TxSubmissionStates::Accepted { txid: ta }, TxSubmissionStates::Accepted { txid: tb }) => {
            let r = ta == tb;
            proof {
                if r {
                    assert(a@ =~= b@);
                }
            }
            r
        },
        (
            TxSubmissionStates::Rejected { txid: ta, error: ea },
            TxSubmissionStates::Rejected { txid: tb, error: eb },
        ) => {
            let r = ta == tb && *ea == *eb;
            proof {
                if r {
                    assert(a@ =~= b@);
                }
            }
            r
        },
        _ => {
            proof {
                assert(a@ != b@);
            }
            false
        },
    }
}

/// Whether two state payloads are equal.
pub fn sm_state_eq(a: &SmState, b: &SmState) -> (r: bool)
    ensures
        r == (a@ == b@),
{
    match (a, b) {
        (SmState::Module(ma), SmState::Module(mb)) => ma == mb,
        (SmState::TxSubmission(ta), SmState::TxSubmission(tb)) => tx_submission_state_eq(ta, tb),
        _ => {
            proof {
                assert(a@ != b@);
            }
            false
        },
    }
}

/// Whether two records name the same state machine: every field equal.
pub fn dyn_state_eq(a: &DynState, b: &DynState) -> (r: bool)
    ensures
        r == (a@ == b@),
{
    let r = a.module_instance_id == b.module_instance_id && a.operation_id == b.operation_id
        && sm_state_eq(&a.state, &b.state);
    proof {
        if r {
            assert(a@ =~= b@);
        }
    }
    r
}

/// A transition event observed by the transaction-submission state machine:
/// the definitive answer of the federation, or a transient failure of one
/// submission attempt.
#[derive(Clone, PartialEq, Eq, Debug)]
pub enum TxSubmissionEvent {
    /// The federation definitively accepted the transaction.
    Accepted,
    /// The federation definitively rejected the transaction.
    Rejected(String),
    /// The attempt failed transiently; submission will be retried.
    Transient,
}

/// Milliseconds of the first retry delay.
pub const INITIAL_BACKOFF_MS: u64 = 1000;

/// Milliseconds the retry delay is capped at.
pub const MAX_BACKOFF_MS: u64 = 60000;

/// Exponential backoff starting at one second, doubling with every attempt
/// and capped at one minute.
pub open spec fn backoff_spec(attempt: u64) -> u64 {
    if attempt == 0 {
        INITIAL_BACKOFF_MS
    } else if attempt == 1 {
        (2 * INITIAL_BACKOFF_MS) as u64
    } else if attempt == 2 {
        (4 * INITIAL_BACKOFF_MS) as u64
    } else if attempt == 3 {
        (8 * INITIAL_BACKOFF_MS) as u64
    } else if attempt == 4 {
        (16 * INITIAL_BACKOFF_MS) as u64
    } else if attempt == 5 {
        (32 * INITIAL_BACKOFF_MS) as u64
    } else {
        MAX_BACKOFF_MS
    }
}

/// Computes the retry delay before submission attempt `attempt + 1`.
pub fn backoff(attempt: u64) -> (r: u64)
    ensures
        r == backoff_spec(attempt),
        INITIAL_BACKOFF_MS <= r <= MAX_BACKOFF_MS,
{
    if attempt >= 6 {
        MAX_BACKOFF_MS
    } else {
        let mut delay: u64 = INITIAL_BACKOFF_MS;
        let mut step: u64 = 0;
        while step < attempt
            invariant
                0 <= step <= attempt < 6,
                delay == INITIAL_BACKOFF_MS * (if step == 0 {
                    1int
                } else if step == 1 {
                    2int
                } else if step == 2 {
                    4int
                } else if step == 3 {
                    8int
                } else if step == 4 {
                    16int
                } else {
                    32int
                }),
            decreases attempt - step,
        {
            delay = delay * 2;
            step = step + 1;
        }
        delay
    }
}

/// The successor state of the transaction-submission step.
pub open spec fn tx_submission_step_spec(
    state: TxSubmissionStatesV,
    event: TxSubmissionEvent,
    now: u64,
) -> TxSubmissionStatesV
    recommends
        state is Created,
{
    match state {
        TxSubmissionStatesV::Created { txid, tx, next_submission, attempt } => match event {
            TxSubmissionEvent::Accepted => TxSubmissionStatesV::Accepted { txid },
            TxSubmissionEvent::Rejected(error) => (TxSubmissionStatesV::Rejected {
                txid,
                error: error@,
            }),
            TxSubmissionEvent::Transient => (TxSubmissionStatesV::Created {
                txid,
                tx,
                next_submission: (if now + backoff_spec(attempt) <= u64::MAX {
                    (now + backoff_spec(attempt)) as u64
                } else {
                    u64::MAX
                }),
                attempt: (if attempt < u64::MAX {
                    (attempt + 1) as u64
                } else {
                    u64::MAX
                }),
            }),
        },
        _ => state,
    }
}

/// Runs one transition step of the transaction-submission state machine.
///
/// A definitive answer moves the machine to its terminal state; a transient
/// failure re-creates the state with the next submission time pushed back by
/// the exponential backoff and the attempt counter incremented. A step never
/// raises: every failure mode becomes a state.
pub fn tx_submission_step(state: TxSubmissionStates, event: TxSubmissionEvent, now: u64) -> (r:
    TxSubmissionStates)
    ensures
        r@ == tx_submission_step_spec(state@, event, now),
{
    match state {
        TxSubmissionStates::Created { txid, tx, next_submission, attempt } => match event {
            TxSubmissionEvent::Accepted => TxSubmissionStates::Accepted { txid },
            TxSubmissionEvent::Rejected(error) => TxSubmissionStates::Rejected { txid, error },
            TxSubmissionEvent::Transient => {
                let delay = backoff(attempt);
                let next = if now <= u64::MAX - delay {
                    now + delay
                } else {
                    u64::MAX
                };
                let next_attempt = if attempt < u64::MAX {
                    attempt + 1
                } else {
                    u64::MAX
                };
                TxSubmissionStates::Created {
                    txid,
                    tx,
                    next_submission: next,
                    attempt: next_attempt,
                }
            },
        },
        _ => state,
    }
}

/// Replay safety of the submission step: a definitive federation answer
/// drives any `Created` record for the same transaction to the same terminal
/// state, no matter how many attempts were already made or when the next
/// submission was due. Re-firing the trigger after a crash therefore cannot
/// produce a different terminal record.
pub proof fn lemma_tx_submission_replay(
    a: TxSubmissionStatesV,
    b: TxSubmissionStatesV,
    event: TxSubmissionEvent,
    now_a: u64,
    now_b: u64,
)
    requires
        a is Created,
        b is Created,
        a->Created_txid == b->Created_txid,
        !(event is Transient),
    ensures
        tx_submission_step_spec(a, event, now_a) == tx_submission_step_spec(b, event, now_b),
{
}

/// A submission state paired with the operation it belongs to, as delivered
/// on the transaction update stream.
pub struct OperationState {
    pub operation_id: OperationId,
    pub state: TxSubmissionStates,
}

/// The outpoint of the change output, if a change output was added.
pub open spec fn change_outpoint_spec(txid: TransactionId, change_idx: Option<u64>) -> Option<
    OutPoint,
> {
    match change_idx {
        Some(idx) => Some(OutPoint { txid, out_idx: idx }),
        None => None,
    }
}



/// The deep value of a byte vector is its view.
pub proof fn lemma_vec_u8_deep_view(v: Vec<u8>)
    ensures
        v.deep_view() == v@,
{
    assert(v.deep_view() =~= v@);
}

/// Copies a byte vector.
pub fn clone_bytes(v: &Vec<u8>) -> (r: Vec<u8>)
    ensures
        r@ == v@,
{
    let mut out: Vec<u8> = Vec::new();
    let mut i: usize = 0;
    while i < v.len()
        invariant
            0 <= i <= v@.len(),
            out@ =~= v@.take(i as int),
        decreases v@.len() - i,
    {
        out.push(v[i]);
        i = i + 1;
    }
    proof {
        assert(out@ =~= v@);
    }
    out
}

/// Copies a list of transaction items.
fn clone_items(v: &Vec<crate::transaction::TxItem>) -> (r: Vec<crate::transaction::TxItem>)
    ensures
        r@ == v@,
{
    let mut out: Vec<crate::transaction::TxItem> = Vec::new();
    let mut i: usize = 0;
    while i < v.len()
        invariant
            0 <= i <= v@.len(),
            out@ =~= v@.take(i as int),
        decreases v@.len() - i,
    {
        out.push(v[i]);
        i = i + 1;
    }
    proof {
        assert(out@ =~= v@);
    }
    out
}

/// Copies a transaction, witnesses included.
pub fn clone_transaction(t: &Transaction) -> (r: Transaction)
    ensures
        r@ == t@,
{
    let mut witnesses: Vec<Vec<u8>> = Vec::new();
    let mut i: usize = 0;
    while i < t.witnesses.len()
        invariant
            0 <= i <= t.witnesses@.len(),
            witnesses@.len() == i as int,
            witnesses.deep_view() =~= t.witnesses.deep_view().take(i as int),
        decreases t.witnesses@.len() - i,
    {
        let ghost prev_w = witnesses@;
        witnesses.push(clone_bytes(&t.witnesses[i]));
        proof {
            assert(witnesses@.len() == i + 1);
            assert(t.witnesses.deep_view().len() == t.witnesses@.len());
            assert forall|k: int| 0 <= k < witnesses@.len() implies witnesses.deep_view()[k]
                == t.witnesses.deep_view().take(i as int + 1)[k] by {
                assert(0 <= k < i + 1);
                assert(k < t.witnesses@.len());
                lemma_vec_u8_deep_view(witnesses@[k]);
                lemma_vec_u8_deep_view(t.witnesses@[k]);
                assert(witnesses.deep_view()[k] == witnesses@[k]@);
                if k < prev_w.len() {
                    assert(prev_w[k] == witnesses@[k]);
                }
                assert(t.witnesses.deep_view()[k] == t.witnesses@[k]@);
            }
            assert(witnesses.deep_view() =~= t.witnesses.deep_view().take(i as int + 1));
        }
        i = i + 1;
    }
    let r = Transaction {
        inputs: clone_items(&t.inputs),
        outputs: clone_items(&t.outputs),
        witnesses,
    };
    proof {
        assert(r.witnesses.deep_view() =~= t.witnesses.deep_view());
        assert(r@ =~= t@);
    }
    r
}

/// Copies a transaction-submission state.
pub fn clone_tx_submission_state(s: &TxSubmissionStates) -> (r: TxSubmissionStates)
    ensures
        r@ == s@,
{
    match s {
        TxSubmissionStates::Created { txid, tx, next_submission, attempt } => {
            let r = TxSubmissionStates::Created {
                txid: *txid,
                tx: clone_transaction(tx),
                next_submission: *next_submission,
                attempt: *attempt,
            };
            proof {
                assert(r@ =~= s@);
            }
            r
        },
        TxSubmissionStates::Accepted { txid } => TxSubmissionStates::Accepted { txid: *txid },
        TxSubmissionStates::Rejected { txid, error } => {
            let r = TxSubmissionStates::Rejected { txid: *txid, error: error.clone() };
            proof {
                assert(r@ =~= s@);
            }
            r
        },
    }
}

/// Copies a state machine record.
pub fn clone_dyn_state(s: &DynState) -> (r: DynState)
    ensures
        r@ == s@,
{
    let state = match &s.state {
        SmState::Module(m) => SmState::Module(*m),
        SmState::TxSubmission(t) => SmState::TxSubmission(clone_tx_submission_state(t)),
    };
    let r = DynState {
        module_instance_id: s.module_instance_id,
        operation_id: s.operation_id,
        state,
    };
    proof {
        assert(r@ =~= s@);
    }
    r
}

} // verus!
