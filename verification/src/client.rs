//! The client: builder, persistent state, operation surface and the global
//! context handed to state transitions.
//!
//! A client owns its storage model — active and inactive state machines, the
//! operation log and the root secret — together with the primary module that
//! balances transactions. Asynchronous work (federation RPC, timers) happens
//! outside; its outcomes are handed in as events, and every decision taken on
//! them is verified here.

use vstd::prelude::*;
use crate::config::{ApiVersion, ClientConfig, ClientModuleGenRegistry, DecoderEntry, ModuleConfigEntry,
    DecoderEntryV, ModuleApiVersionsEntry, ModuleDecoderRegistry, MultiApiVersion,
    SupportedApiVersionsSummary, SupportedCoreApiVersions, SupportedModuleApiVersions,
    client_decoders, decoders_spec, registry_has_kind};
use crate::errors::ClientError;
use crate::executor::{disjoint_seqs, distinct_seq, views_of, Executor};
use crate::ids::{FederationId, ModuleInstanceId, OperationId, OutPoint, TransactionId,
    TRANSACTION_SUBMISSION_MODULE_INSTANCE};
use crate::module::ClientModule;
use crate::notifier::Notifier;
use crate::oplog::{OperationLog, OperationLogEntry, OperationLogEntryV};
use crate::secret::get_client_root_secret_encoding;
use crate::sm::{clone_bytes, clone_dyn_state, clone_tx_submission_state, is_terminal, DynState,
    DynStateV, OperationState, SmState, SmStateV, TxSubmissionEvent, TxSubmissionStates,
    TxSubmissionStatesV, tx_submission_step, tx_submission_step_spec};
use crate::transaction::{builder_balance_spec, builder_sums_fit, built_states_spec, input_items,
    lemma_input_items_push, lemma_output_items_push, lemma_sum_push, output_items,
    transaction_builder_balance, transaction_id, tx_balanced, txid_spec, ClientInput,
    ClientOutput, Transaction, TransactionBuilder, TransactionBuilderBalance, TransactionV,
    TxItem};

verus! {

/// How many events a notifier subscriber may buffer before it is dropped.
pub const DEFAULT_NOTIFIER_CAPACITY: usize = 1024;

/// The persisted state of a client: everything that survives a restart.
pub struct ClientDb {
    /// Key material the root secret is derived from, once drawn or supplied.
    pub root_secret: Option<Vec<u8>>,
    /// Active state machine records.
    pub active_states: Vec<DynState>,
    /// Inactive state machine records.
    pub inactive_states: Vec<DynState>,
    /// Operation log entries, oldest first.
    pub log_entries: Vec<OperationLogEntry>,
}

impl ClientDb {
    /// Well-formedness of the persisted sets: distinct active keys, distinct
    /// inactive keys, no key in both, one log entry per operation.
    pub open spec fn wf(&self) -> bool {
        &&& distinct_seq(views_of(self.active_states@))
        &&& distinct_seq(views_of(self.inactive_states@))
        &&& disjoint_seqs(views_of(self.active_states@), views_of(self.inactive_states@))
        &&& (forall|i: int, j: int|
            0 <= i < j < self.log_entries@.len() ==> (#[trigger] self.log_entries@[i]@).operation_id
                != (#[trigger] self.log_entries@[j]@).operation_id)
    }

    /// An empty store.
    pub fn new() -> (r: ClientDb)
        ensures
            r.wf(),
            r.root_secret is None,
            r.active_states@.len() == 0,
            r.inactive_states@.len() == 0,
            r.log_entries@.len() == 0,
    {
        ClientDb {
            root_secret: None,
            active_states: Vec::new(),
            inactive_states: Vec::new(),
            log_entries: Vec::new(),
        }
    }
}

/// One module instance the client instantiated: a configured instance whose
/// kind some compiled-in generator covers.
pub struct RegisteredModule {
    pub id: ModuleInstanceId,
    pub kind: String,
    /// Consensus version of the instance, from the config.
    pub version: u32,
    /// Api versions the module's client code supports, from the generator.
    pub api_versions: Vec<ApiVersion>,
}

/// The transaction-submission record a finalized transaction starts in.
pub open spec fn submission_record(
    op: OperationId,
    txid: TransactionId,
    txv: TransactionV,
    now: u64,
) -> DynStateV {
    DynStateV {
        module_instance_id: TRANSACTION_SUBMISSION_MODULE_INSTANCE,
        operation_id: op,
        state: SmStateV::TxSubmission(
            TxSubmissionStatesV::Created { txid, tx: txv, next_submission: now, attempt: 0 },
        ),
    }
}

/// The caller's inputs, extended by the balancer's funding input if one was
/// added.
pub open spec fn extend_inputs(bins: Seq<ClientInput>, added: Option<ClientInput>) -> Seq<
    ClientInput,
> {
    match added {
        Some(i) => bins.push(i),
        None => bins,
    }
}

/// The caller's outputs, extended by the balancer's change output if one was
/// added.
pub open spec fn extend_outputs(bouts: Seq<ClientOutput>, added: Option<ClientOutput>) -> Seq<
    ClientOutput,
> {
    match added {
        Some(o) => bouts.push(o),
        None => bouts,
    }
}

/// How a finalized transaction relates to the builder it came from, for one
/// choice of the balancer's additions: the inputs are exactly the caller's
/// plus at most one primary-module funding input; the outputs exactly the
/// caller's plus at most one primary-module change output, whose index is
/// the recorded change index; the whole is balanced and content-addressed;
/// and the generated records are exactly the state generators' outputs for
/// the transaction id and item indices.
pub open spec fn finalized_with(
    bins: Seq<ClientInput>,
    bouts: Seq<ClientOutput>,
    primary: ModuleInstanceId,
    op: OperationId,
    txv: TransactionV,
    genv: Seq<DynStateV>,
    change_idx: Option<u64>,
    added_in: Option<ClientInput>,
    added_out: Option<ClientOutput>,
) -> bool {
    let fin = extend_inputs(bins, added_in);
    let fout = extend_outputs(bouts, added_out);
    &&& txv.inputs == input_items(fin)
    &&& txv.outputs == output_items(fout)
    &&& txv.witnesses.len() == fin.len()
    &&& tx_balanced(txv)
    &&& (added_in matches Some(i) ==> i.item.module_instance_id == primary)
    &&& (added_out matches Some(o) ==> o.item.module_instance_id == primary && o.item.amount
        + o.item.fee >= 1)
    &&& (change_idx == (if added_out is Some {
        Some(bouts.len() as u64)
    } else {
        None::<u64>
    }))
    &&& genv == built_states_spec(fin, fout, op, txid_spec(input_items(fin), output_items(fout)))
}

/// A finalized transaction is the builder's content plus the balancer's
/// additions, for some such additions.
pub open spec fn finalized_ok(
    bins: Seq<ClientInput>,
    bouts: Seq<ClientOutput>,
    primary: ModuleInstanceId,
    op: OperationId,
    txv: TransactionV,
    genv: Seq<DynStateV>,
    change_idx: Option<u64>,
) -> bool {
    exists|added_in: Option<ClientInput>, added_out: Option<ClientOutput>|
        #[trigger] finalized_with(bins, bouts, primary, op, txv, genv, change_idx, added_in,
            added_out)
}

/// What one committed submission did, for one choice of the finalized
/// transaction and the balancer's additions: the transaction is the
/// builder's content finalized as in [`finalized_with`]; the returned id is
/// its content hash; the change outpoint names the change output's index
/// exactly when one was added; and the active set grew by exactly the
/// generated records plus the fresh submission machine.
pub open spec fn submitted_with(
    old_active: Seq<DynStateV>,
    new_active: Seq<DynStateV>,
    bins: Seq<ClientInput>,
    bouts: Seq<ClientOutput>,
    primary: ModuleInstanceId,
    op: OperationId,
    txid: TransactionId,
    now: u64,
    chg: Option<OutPoint>,
    txv: TransactionV,
    added_in: Option<ClientInput>,
    added_out: Option<ClientOutput>,
) -> bool {
    let fin = extend_inputs(bins, added_in);
    let fout = extend_outputs(bouts, added_out);
    &&& finalized_with(
        bins,
        bouts,
        primary,
        op,
        txv,
        built_states_spec(fin, fout, op, txid),
        (if added_out is Some {
            Some(bouts.len() as u64)
        } else {
            None::<u64>
        }),
        added_in,
        added_out,
    )
    &&& txid == txid_spec(txv.inputs, txv.outputs)
    &&& (chg == (if added_out is Some {
        Some(OutPoint { txid, out_idx: bouts.len() as u64 })
    } else {
        None::<OutPoint>
    }))
    &&& new_active == old_active + built_states_spec(fin, fout, op, txid).push(
        submission_record(op, txid, txv, now),
    )
}

/// A committed submission is the builder's content finalized, submitted and
/// tracked, for some choice of the balancer's additions.
pub open spec fn submitted_ok(
    old_active: Seq<DynStateV>,
    new_active: Seq<DynStateV>,
    bins: Seq<ClientInput>,
    bouts: Seq<ClientOutput>,
    primary: ModuleInstanceId,
    op: OperationId,
    txid: TransactionId,
    now: u64,
    chg: Option<OutPoint>,
) -> bool {
    exists|txv: TransactionV, added_in: Option<ClientInput>, added_out: Option<ClientOutput>|
        #[trigger] submitted_with(old_active, new_active, bins, bouts, primary, op, txid, now,
            chg, txv, added_in, added_out)
}

/// What every committed submission pins down, extracted from the
/// existential: the old active set is kept as a prefix; the appended
/// submission record is `Created` at the given time with zero attempts; its
/// transaction carries the caller's input and output items as prefixes,
/// extended by at most one primary-module funding input and at most one
/// primary-module change output; it is balanced; and its id is the content
/// hash.
pub proof fn lemma_submitted_transaction(
    old_active: Seq<DynStateV>,
    new_active: Seq<DynStateV>,
    bins: Seq<ClientInput>,
    bouts: Seq<ClientOutput>,
    primary: ModuleInstanceId,
    op: OperationId,
    txid: TransactionId,
    now: u64,
    chg: Option<OutPoint>,
)
    requires
        submitted_ok(old_active, new_active, bins, bouts, primary, op, txid, now, chg),
    ensures
        new_active.len() >= old_active.len() + 1,
        old_active.is_prefix_of(new_active),
        new_active.last() matches DynStateV {
            module_instance_id: TRANSACTION_SUBMISSION_MODULE_INSTANCE,
            operation_id: rop,
            state: SmStateV::TxSubmission(
                TxSubmissionStatesV::Created { txid: rtxid, tx: txv, next_submission: rnow, attempt: ra },
            ),
        } && rop == op && rtxid == txid && rnow == now && ra == 0 && tx_balanced(txv) && txid
            == txid_spec(txv.inputs, txv.outputs) && bins.len() <= txv.inputs.len() <= bins.len()
            + 1 && txv.inputs.take(bins.len() as int) == input_items(bins) && (forall|k: int|
            bins.len() <= k < txv.inputs.len() ==> (#[trigger] txv.inputs[k]).module_instance_id
                == primary) && bouts.len() <= txv.outputs.len() <= bouts.len() + 1
            && txv.outputs.take(bouts.len() as int) == output_items(bouts) && (forall|k: int|
            bouts.len() <= k < txv.outputs.len() ==> (#[trigger] txv.outputs[k]).module_instance_id
                == primary) && (chg matches Some(o) ==> o == (OutPoint {
            txid,
            out_idx: bouts.len() as u64,
        }) && txv.outputs.len() == bouts.len() + 1) && (chg is None ==> txv.outputs.len()
            == bouts.len()),
{
    let (txv, w_in, w_out) = choose|txv: TransactionV, added_in: Option<ClientInput>, added_out: Option<ClientOutput>|
        #[trigger] submitted_with(old_active, new_active, bins, bouts, primary, op, txid, now,
            chg, txv, added_in, added_out);
    let fin = extend_inputs(bins, w_in);
    let fout = extend_outputs(bouts, w_out);
    let gen = built_states_spec(fin, fout, op, txid);
    assert(new_active == old_active + gen.push(submission_record(op, txid, txv, now)));
    assert(new_active.last() == submission_record(op, txid, txv, now));
    assert forall|k: int| 0 <= k < old_active.len() implies old_active[k] == new_active[k] by {}
    if w_in is Some {
        lemma_input_items_push(bins, w_in->0);
        assert(txv.inputs =~= input_items(bins).push(w_in->0.item));
    }
    assert(txv.inputs.take(bins.len() as int) =~= input_items(bins));
    if w_out is Some {
        lemma_output_items_push(bouts, w_out->0);
        assert(txv.outputs =~= output_items(bouts).push(w_out->0.item));
    }
    assert(txv.outputs.take(bouts.len() as int) =~= output_items(bouts));
}

/// A committed submission for some change outpoint: as [`submitted_ok`],
/// with the outpoint left open. The change outpoint is reported by
/// [`Client::finalize_and_submit_inner`]; the logged surface returns only
/// the transaction id.
pub open spec fn submitted_ok_some_change(
    old_active: Seq<DynStateV>,
    new_active: Seq<DynStateV>,
    bins: Seq<ClientInput>,
    bouts: Seq<ClientOutput>,
    primary: ModuleInstanceId,
    op: OperationId,
    txid: TransactionId,
    now: u64,
) -> bool {
    exists|chg: Option<OutPoint>|
        #[trigger] submitted_ok(old_active, new_active, bins, bouts, primary, op, txid, now, chg)
}

/// An input as the global context tags it: the item is re-tagged with the
/// context's module instance; keys and state generator are kept.
pub open spec fn tagged_input(mi: ModuleInstanceId, input: ClientInput) -> ClientInput {
    ClientInput {
        item: TxItem {
            module_instance_id: mi,
            amount: input.item.amount,
            fee: input.item.fee,
        },
        keys: input.keys,
        state_machines: input.state_machines,
    }
}

/// An output as the global context tags it: the item is re-tagged with the
/// context's module instance; the state generator is kept.
pub open spec fn tagged_output(mi: ModuleInstanceId, output: ClientOutput) -> ClientOutput {
    ClientOutput {
        item: TxItem {
            module_instance_id: mi,
            amount: output.item.amount,
            fee: output.item.fee,
        },
        state_machines: output.state_machines,
    }
}

/// Whether two configs are the same in every observable respect: a store
/// written under one config can only be reused under an equal one.
pub open spec fn same_config(a: &ClientConfig, b: &ClientConfig) -> bool {
    &&& a.federation_id == b.federation_id
    &&& a.consensus_version == b.consensus_version
    &&& a.modules_v() == b.modules_v()
    &&& a.meta@.map_values(|m: crate::config::MetaEntry| m.key@) == b.meta@.map_values(
        |m: crate::config::MetaEntry| m.key@,
    )
    &&& a.meta@.map_values(|m: crate::config::MetaEntry| m.value@) == b.meta@.map_values(
        |m: crate::config::MetaEntry| m.value@,
    )
}

/// Whether the designated primary instance is configured and of a kind the
/// registry can instantiate.
pub open spec fn primary_ok(
    gens: &ClientModuleGenRegistry,
    cfg: &ClientConfig,
    p: ModuleInstanceId,
) -> bool {
    exists|j: int|
        0 <= j < cfg.modules_v().len() && (#[trigger] cfg.modules_v()[j]).id == p
            && registry_has_kind(gens, cfg.modules_v()[j].kind)
}

/// Whether a registered module faithfully reflects one configured instance
/// and one compiled-in generator of its kind.
pub open spec fn registered_entry_ok(
    gens: &ClientModuleGenRegistry,
    mods: Seq<crate::config::ModuleConfigEntryV>,
    m: RegisteredModule,
) -> bool {
    &&& (exists|j: int|
        0 <= j < mods.len() && (#[trigger] mods[j]).id == m.id && mods[j].kind == m.kind@
            && mods[j].version == m.version)
    &&& (exists|g: int|
        0 <= g < gens.entries@.len() && (#[trigger] gens.entries@[g]).kind@ == m.kind@
            && gens.entries@[g].api_versions@ == m.api_versions@)
}

/// Whether a record is a pending transaction-submission machine of the
/// operation.
pub open spec fn is_created_submission(s: DynStateV, op: OperationId) -> bool {
    &&& s.module_instance_id == TRANSACTION_SUBMISSION_MODULE_INSTANCE
    &&& s.operation_id == op
    &&& (s.state matches SmStateV::TxSubmission(t) && t is Created)
}

/// The first pending submission machine of the operation in scan order;
/// meaningful only when one exists.
pub open spec fn first_pending_submission(s: Seq<DynStateV>, op: OperationId) -> DynStateV
    decreases s.len(),
{
    if s.len() == 0 {
        vstd::pervasive::arbitrary()
    } else if is_created_submission(s[0], op) {
        s[0]
    } else {
        first_pending_submission(s.drop_first(), op)
    }
}

/// The first pending submission machine is the one at the least matching
/// index.
pub proof fn lemma_first_pending_submission(s: Seq<DynStateV>, op: OperationId, k: int)
    requires
        0 <= k < s.len(),
        is_created_submission(s[k], op),
        forall|j: int| 0 <= j < k ==> !is_created_submission(#[trigger] s[j], op),
    ensures
        first_pending_submission(s, op) == s[k],
    decreases k,
{
    if k > 0 {
        assert(!is_created_submission(s[0], op));
        assert(s.drop_first()[k - 1] == s[k]);
        assert forall|j: int| 0 <= j < k - 1 implies !is_created_submission(
            #[trigger] s.drop_first()[j],
            op,
        ) by {
            assert(s.drop_first()[j] == s[j + 1]);
        }
        lemma_first_pending_submission(s.drop_first(), op, k - 1);
    }
}

/// Whether the active set holds a pending submission machine for the
/// operation.
pub open spec fn has_active_submission(active: Seq<DynStateV>, op: OperationId) -> bool {
    exists|i: int| 0 <= i < active.len() && is_created_submission(#[trigger] active[i], op)
}

/// The submission states of an operation carried by a list of records, in
/// list order.
pub open spec fn submission_events(s: Seq<DynStateV>, op: OperationId) -> Seq<
    TxSubmissionStatesV,
>
    decreases s.len(),
{
    if s.len() == 0 {
        Seq::empty()
    } else {
        let rest = submission_events(s.drop_last(), op);
        if s.last().module_instance_id == TRANSACTION_SUBMISSION_MODULE_INSTANCE && s.last(
        ).operation_id == op {
            match s.last().state {
                SmStateV::TxSubmission(t) => rest.push(t),
                SmStateV::Module(_) => rest,
            }
        } else {
            rest
        }
    }
}

/// What a list of submission updates says about one transaction: the first
/// definitive state decides; none decides while the machine is pending.
pub open spec fn decide_tx(s: Seq<TxSubmissionStatesV>, txid: TransactionId) -> Option<
    Result<(), Seq<char>>,
>
    decreases s.len(),
{
    if s.len() == 0 {
        None
    } else {
        match s[0] {
            TxSubmissionStatesV::Accepted { txid: t } => if t == txid {
                Some(Ok(()))
            } else {
                decide_tx(s.drop_first(), txid)
            },
            TxSubmissionStatesV::Rejected { txid: t, error } => if t == txid {
                Some(Err(error))
            } else {
                decide_tx(s.drop_first(), txid)
            },
            _ => decide_tx(s.drop_first(), txid),
        }
    }
}

/// The id of the first registered module of the kind, in registration
/// order; `None` when no registered module has the kind.
pub open spec fn first_kind_id(s: Seq<RegisteredModule>, kind: Seq<char>) -> Option<
    ModuleInstanceId,
>
    decreases s.len(),
{
    if s.len() == 0 {
        None
    } else if s[0].kind@ == kind {
        Some(s[0].id)
    } else {
        first_kind_id(s.drop_first(), kind)
    }
}

/// The id of the first registered module of the kind at the least matching
/// index.
pub proof fn lemma_first_kind_id(s: Seq<RegisteredModule>, kind: Seq<char>, k: int)
    requires
        0 <= k < s.len(),
        s[k].kind@ == kind,
        forall|j: int| 0 <= j < k ==> (#[trigger] s[j]).kind@ != kind,
    ensures
        first_kind_id(s, kind) == Some(s[k].id),
    decreases k,
{
    if k > 0 {
        assert(s.drop_first()[k - 1] == s[k]);
        assert forall|j: int| 0 <= j < k - 1 implies (#[trigger] s.drop_first()[j]).kind@
            != kind by {
            assert(s.drop_first()[j] == s[j + 1]);
        }
        lemma_first_kind_id(s.drop_first(), kind, k - 1);
    }
}

/// No registered module has the kind: the lookup yields nothing.
pub proof fn lemma_first_kind_id_none(s: Seq<RegisteredModule>, kind: Seq<char>)
    requires
        forall|j: int| 0 <= j < s.len() ==> (#[trigger] s[j]).kind@ != kind,
    ensures
        first_kind_id(s, kind) is None,
    decreases s.len(),
{
    if s.len() > 0 {
        assert forall|j: int| 0 <= j < s.drop_first().len() implies (
        #[trigger] s.drop_first()[j]).kind@ != kind by {
            assert(s.drop_first()[j] == s[j + 1]);
        }
        lemma_first_kind_id_none(s.drop_first(), kind);
    }
}

/// Which instance a kind lookup returns: the primary instance when it is of
/// the kind, else the first registered instance of the kind, else none.
pub open spec fn first_instance_spec(
    s: Seq<RegisteredModule>,
    primary: ModuleInstanceId,
    kind: Seq<char>,
) -> Option<ModuleInstanceId> {
    if exists|i: int|
        0 <= i < s.len() && (#[trigger] s[i]).kind@ == kind && s[i].id == primary {
        Some(primary)
    } else {
        first_kind_id(s, kind)
    }
}

/// The client: storage model, primary module, executor and operation log.
pub struct Client<M: ClientModule> {
    pub config: ClientConfig,
    pub decoders: ModuleDecoderRegistry,
    pub federation_id: FederationId,
    pub primary_module_instance: ModuleInstanceId,
    /// Configured module instances of known kinds, in configuration order.
    pub registered: Vec<RegisteredModule>,
    /// The primary module: sole source of balance adjustment.
    pub primary: M,
    pub executor: Executor,
    pub operation_log: OperationLog,
    /// Key material the root secret is derived from.
    pub root_secret: Vec<u8>,
}

impl<M: ClientModule> Client<M> {
    /// Well-formedness of the client's storage model.
    pub open spec fn wf(&self) -> bool {
        &&& self.executor.wf()
        &&& self.operation_log.wf()
    }

    /// Whether the operation already exists: some state machine, active or
    /// inactive, or some log entry carries its id.
    pub open spec fn op_exists_spec(&self, op: OperationId) -> bool {
        self.executor.has_operation(op) || self.operation_log.contains_op(op)
    }

    /// Initializes a builder that can be configured to create a new client.
    pub fn builder() -> (r: ClientBuilder<M>)
        ensures
            r.module_gens.entries@.len() == 0,
            r.primary_module_instance is None,
            r.config is None,
            r.db is None,
    {
        ClientBuilder {
            module_gens: ClientModuleGenRegistry::new(),
            primary_module_instance: None,
            config: None,
            db: None,
        }
    }

    /// The federation this client talks to.
    pub fn federation_id(&self) -> (r: FederationId)
        ensures
            r == self.federation_id,
    {
        self.federation_id
    }

    /// Looks a federation metadata value up by key.
    pub fn get_meta(&self, key: &String) -> (r: Option<String>)
        ensures
            r is Some <==> (exists|i: int|
                0 <= i < self.config.meta@.len() && (#[trigger] self.config.meta@[i]).key@
                    == key@),
            r matches Some(v) ==> (exists|i: int|
                0 <= i < self.config.meta@.len() && (#[trigger] self.config.meta@[i]).key@ == key@
                    && self.config.meta@[i].value@ == v@),
    {
        self.config.get_meta_value(key)
    }

    /// The decoders of the configured module instances.
    pub fn decoders(&self) -> (r: &ModuleDecoderRegistry)
        ensures
            r == self.decoders,
    {
        &self.decoders
    }

    /// A public key derived deterministically from the federation id, used
    /// to mark internal payments, together with the marker discriminator.
    pub fn get_internal_payment_markers(&self) -> (r: Result<
        (secp256k1_zkp::PublicKey, u64),
        ClientError,
    >)
        ensures
            r matches Ok(p) ==> p.1 == 0,
            r is Err ==> r == Err::<(secp256k1_zkp::PublicKey, u64), ClientError>(
                ClientError::InvalidKey,
            ),
    {
        let fid = self.federation_id.to_bytes();
        let sk = match crate::crypto::secret_key_from_bytes(&fid) {
            Ok(k) => k,
            Err(_) => {
                return Err(ClientError::InvalidKey);
            },
        };
        Ok((crate::crypto::public_key_from_secret(&sk), 0))
    }

    /// Whether the operation already exists in storage.
    pub fn operation_exists(&self, operation_id: OperationId) -> (r: bool)
        ensures
            r == self.op_exists_spec(operation_id),
    {
        if self.executor.operation_exists(operation_id) {
            return true;
        }
        match self.operation_log.get_operation(operation_id) {
            Some(_) => true,
            None => false,
        }
    }

    /// Balances the transaction: tops an underfunded builder up with a
    /// primary-module input, absorbs overfunding into a change output at the
    /// recorded index, and finalizes the result, which is provably balanced.
    pub fn finalize_transaction(
        &mut self,
        operation_id: OperationId,
        partial: TransactionBuilder,
    ) -> (r: Result<(Transaction, Vec<DynState>, Option<u64>), ClientError>)
        ensures
            final(self).executor == old(self).executor,
            final(self).operation_log == old(self).operation_log,
            r matches Ok((tx, states, change_idx)) ==> ({
                &&& tx_balanced(tx@)
                &&& partial.inputs@.len() <= tx@.inputs.len() <= partial.inputs@.len() + 1
                &&& tx@.inputs.take(partial.inputs@.len() as int) == input_items(partial.inputs@)
                &&& (change_idx matches Some(ci) ==> ci == partial.outputs@.len() && tx@.outputs.len()
                    == ci + 1 && tx@.outputs.take(ci as int) == output_items(partial.outputs@))
                &&& (change_idx is None ==> tx@.outputs == output_items(partial.outputs@))
                &&& (forall|k: int|
                    0 <= k < states@.len() ==> (#[trigger] states@[k]@).operation_id
                        == operation_id && states@[k]@.state is Module)
                &&& finalized_ok(
                    partial.inputs@,
                    partial.outputs@,
                    old(self).primary_module_instance,
                    operation_id,
                    tx@,
                    views_of(states@),
                    change_idx,
                )
            }),
            r is Err ==> (r == Err::<(Transaction, Vec<DynState>, Option<u64>), ClientError>(
                ClientError::AmountOverflow,
            ) || r == Err::<(Transaction, Vec<DynState>, Option<u64>), ClientError>(
                ClientError::InsufficientFunds,
            ) || r == Err::<(Transaction, Vec<DynState>, Option<u64>), ClientError>(
                ClientError::InvalidKey,
            )),
            r == Err::<(Transaction, Vec<DynState>, Option<u64>), ClientError>(
                ClientError::InsufficientFunds,
            ) ==> builder_balance_spec(&partial) is Underfunded,
            r == Err::<(Transaction, Vec<DynState>, Option<u64>), ClientError>(
                ClientError::AmountOverflow,
            ) ==> !builder_sums_fit(&partial) || builder_balance_spec(&partial) is Underfunded,
            !builder_sums_fit(&partial) ==> r == Err::<
                (Transaction, Vec<DynState>, Option<u64>),
                ClientError,
            >(ClientError::AmountOverflow),
            (builder_sums_fit(&partial) && !(builder_balance_spec(&partial)
                is Underfunded) && (forall|i: int|
                0 <= i < partial.inputs@.len() ==> (#[trigger] partial.inputs@[i]).keys@.len()
                    == 0)) ==> r is Ok,
            (builder_sums_fit(&partial) && builder_balance_spec(&partial)
                is Balanced && r is Ok) ==> ({
                &&& r.unwrap().0@.inputs == input_items(partial.inputs@)
                &&& r.unwrap().2 is None
            }),
    {
        let bal0 = match transaction_builder_balance(&partial) {
            Ok(b) => b,
            Err(e) => {
                return Err(e);
            },
        };
        let mut builder = partial;
        let ghost partial_g = builder;
        let ghost in0 = crate::transaction::builder_in_sum(&partial_g);
        let ghost outfee0 = crate::transaction::builder_out_and_fee_sum(&partial_g);
        let ghost mut added_in: Option<ClientInput> = None;
        let ghost mut added_out: Option<ClientOutput> = None;
        if let TransactionBuilderBalance::Underfunded(missing) = bal0 {
            let input = match self.primary.create_sufficient_input(
                self.primary_module_instance,
                operation_id,
                missing,
            ) {
                Ok(i) => i,
                Err(e) => {
                    return Err(e);
                },
            };
            proof {
                lemma_input_items_push(builder.inputs@, input);
                lemma_sum_push(input_items(builder.inputs@), input.item);
            }
            builder = builder.with_input(input);
            proof {
                added_in = Some(input);
                crate::transaction::lemma_sum_nonneg(input_items(partial_g.inputs@));
                crate::transaction::lemma_sum_nonneg(output_items(partial_g.outputs@));
                assert(input_items(builder.inputs@) =~= input_items(partial_g.inputs@).push(
                    input.item,
                ));
                assert(crate::transaction::builder_in_sum(&builder) == in0 + input.item.amount);
                assert(crate::transaction::builder_out_and_fee_sum(&builder) == outfee0
                    + input.item.fee);
                assert(missing == outfee0 - in0);
                assert(crate::transaction::builder_in_sum(&builder)
                    >= crate::transaction::builder_out_and_fee_sum(&builder));
            }
        }
        let bal1 = match transaction_builder_balance(&builder) {
            Ok(b) => b,
            Err(e) => {
                return Err(e);
            },
        };
        let mut change_idx: Option<u64> = None;
        match bal1 {
            TransactionBuilderBalance::Overfunded(excess) => {
                let ghost before_change = builder;
                let output = self.primary.create_exact_output(
                    self.primary_module_instance,
                    operation_id,
                    excess,
                );
                change_idx = Some(builder.outputs.len() as u64);
                proof {
                    lemma_output_items_push(builder.outputs@, output);
                    lemma_sum_push(output_items(builder.outputs@), output.item);
                }
                builder = builder.with_output(output);
                proof {
                    added_out = Some(output);
                    crate::transaction::lemma_sum_nonneg(input_items(before_change.inputs@));
                    crate::transaction::lemma_sum_nonneg(output_items(before_change.outputs@));
                    assert(excess == crate::transaction::builder_in_sum(&before_change)
                        - crate::transaction::builder_out_and_fee_sum(&before_change));
                    assert(output_items(builder.outputs@) =~= output_items(
                        before_change.outputs@,
                    ).push(output.item));
                    assert(input_items(builder.inputs@) == input_items(before_change.inputs@));
                    assert(crate::transaction::builder_in_sum(&builder)
                        == crate::transaction::builder_in_sum(&before_change));
                    assert(crate::transaction::builder_out_and_fee_sum(&builder)
                        == crate::transaction::builder_out_and_fee_sum(&before_change)
                        + output.item.amount + output.item.fee);
                    assert(crate::transaction::builder_in_sum(&builder)
                        == crate::transaction::builder_out_and_fee_sum(&builder));
                }
            },
            TransactionBuilderBalance::Balanced => {},
            TransactionBuilderBalance::Underfunded(_) => {
                // Unreachable: a primary-module input covers the missing
                // amount plus its own fee, so the builder cannot still be
                // underfunded here.
                proof {
                    assert(false);
                }
                return Err(ClientError::InsufficientFunds);
            },
        }
        proof {
            assert(builder_sums_fit(&builder));
            assert(builder_balance_spec(&builder) is Balanced);
        }
        let built = match builder.build(operation_id) {
            Ok(t) => t,
            Err(e) => {
                return Err(e);
            },
        };
        let (tx, states) = built;
        proof {
            assert(builder.inputs@ =~= extend_inputs(partial_g.inputs@, added_in));
            assert(builder.outputs@ =~= extend_outputs(partial_g.outputs@, added_out));
            assert(finalized_with(
                partial_g.inputs@,
                partial_g.outputs@,
                self.primary_module_instance,
                operation_id,
                tx@,
                views_of(states@),
                change_idx,
                added_in,
                added_out,
            ));
            crate::transaction::lemma_built_states_records(
                builder.inputs@,
                builder.outputs@,
                operation_id,
                txid_spec(input_items(builder.inputs@), output_items(builder.outputs@)),
            );
            assert forall|k: int| 0 <= k < states@.len() implies (#[trigger] states@[k]@)
                .operation_id == operation_id && states@[k]@.state is Module by {
                assert(views_of(states@)[k] == states@[k]@);
            }
            assert(tx_balanced(tx@));
            assert(tx@.inputs.take(partial_g.inputs@.len() as int) =~= input_items(
                partial_g.inputs@,
            ));
            if change_idx is Some {
                assert(tx@.outputs.take(partial_g.outputs@.len() as int) =~= output_items(
                    partial_g.outputs@,
                ));
            }
        }
        Ok((tx, states, change_idx))
    }

    /// Finalizes and submits a transaction within the caller's open
    /// operation: the transaction and every state machine tracking it,
    /// including the fresh transaction-submission machine, become visible
    /// together, or, on any error, nothing does.
    pub fn finalize_and_submit_inner(
        &mut self,
        operation_id: OperationId,
        tx_builder: TransactionBuilder,
        now: u64,
    ) -> (r: Result<(TransactionId, Option<OutPoint>), ClientError>)
        requires
            old(self).wf(),
        ensures
            final(self).wf(),
            final(self).operation_log == old(self).operation_log,
            old(self).executor.inactive_v().is_prefix_of(final(self).executor.inactive_v()),
            r is Err ==> final(self).executor.active_v() == old(self).executor.active_v() && final(self).executor.inactive == old(self).executor.inactive,
            r is Err ==> (r == Err::<(TransactionId, Option<OutPoint>), ClientError>(
                ClientError::AmountOverflow,
            ) || r == Err::<(TransactionId, Option<OutPoint>), ClientError>(
                ClientError::InsufficientFunds,
            ) || r == Err::<(TransactionId, Option<OutPoint>), ClientError>(
                ClientError::InvalidKey,
            ) || r == Err::<(TransactionId, Option<OutPoint>), ClientError>(
                ClientError::StateAlreadyExists,
            )),
            r matches Ok((txid, chg)) ==> submitted_ok(
                old(self).executor.active_v(),
                final(self).executor.active_v(),
                tx_builder.inputs@,
                tx_builder.outputs@,
                old(self).primary_module_instance,
                operation_id,
                txid,
                now,
                chg,
            ) && final(self).executor.inactive == old(self).executor.inactive,
            r == Err::<(TransactionId, Option<OutPoint>), ClientError>(
                ClientError::InsufficientFunds,
            ) ==> builder_balance_spec(&tx_builder) is Underfunded,
            (builder_sums_fit(&tx_builder) && !(builder_balance_spec(&tx_builder)
                is Underfunded) && (forall|i: int|
                0 <= i < tx_builder.inputs@.len() ==> (
                #[trigger] tx_builder.inputs@[i]).keys@.len() == 0)) ==> r is Ok || r == Err::<
                (TransactionId, Option<OutPoint>),
                ClientError,
            >(ClientError::StateAlreadyExists),
    {
        let ghost old_active = self.executor.active_v();
        let ghost bins = tx_builder.inputs@;
        let ghost bouts = tx_builder.outputs@;
        let finalized = match self.finalize_transaction(operation_id, tx_builder) {
            Ok(t) => t,
            Err(e) => {
                return Err(e);
            },
        };
        let (transaction, mut states, change_idx) = finalized;
        let txid = transaction_id(&transaction.inputs, &transaction.outputs);
        let change_outpoint = match change_idx {
            Some(idx) => Some(OutPoint { txid, out_idx: idx }),
            None => None,
        };
        let ghost txv = transaction@;
        let ghost gen = views_of(states@);
        let sub = DynState {
            module_instance_id: TRANSACTION_SUBMISSION_MODULE_INSTANCE,
            operation_id,
            state: SmState::TxSubmission(
                TxSubmissionStates::Created { txid, tx: transaction, next_submission: now, attempt: 0 },
            ),
        };
        let ghost subv = sub@;
        let ghost prev_states = states@;
        states.push(sub);
        proof {
            assert forall|k: int| 0 <= k < states@.len() implies #[trigger] views_of(states@)[k]
                == gen.push(subv)[k] by {
                assert(views_of(states@)[k] == states@[k]@);
                if k < prev_states.len() {
                    assert(states@[k] == prev_states[k]);
                    assert(views_of(prev_states)[k] == prev_states[k]@);
                }
            }
            assert(views_of(states@) =~= gen.push(subv));
        }
        match self.executor.add_state_machines_dbtx(states) {
            Ok(_) => {},
            Err(e) => {
                return Err(e);
            },
        }
        proof {
            assert(subv =~= submission_record(operation_id, txid, txv, now));
            assert(self.executor.active_v() =~= old_active + gen.push(
                submission_record(operation_id, txid, txv, now),
            ));
            let (w_in, w_out) = choose|added_in: Option<ClientInput>, added_out: Option<
                ClientOutput,
            >|
                #[trigger] finalized_with(bins, bouts, old(self).primary_module_instance,
                    operation_id, txv, gen, change_idx, added_in, added_out);
            assert(txid == txid_spec(txv.inputs, txv.outputs));
            assert(gen == built_states_spec(
                extend_inputs(bins, w_in),
                extend_outputs(bouts, w_out),
                operation_id,
                txid,
            ));
            assert(submitted_with(
                old_active,
                self.executor.active_v(),
                bins,
                bouts,
                old(self).primary_module_instance,
                operation_id,
                txid,
                now,
                change_outpoint,
                txv,
                w_in,
                w_out,
            ));
            assert(submitted_ok(
                old_active,
                self.executor.active_v(),
                bins,
                bouts,
                old(self).primary_module_instance,
                operation_id,
                txid,
                now,
                change_outpoint,
            ));
        }
        Ok((txid, change_outpoint))
    }

    /// Adds funding or change as needed, finalizes the transaction, submits
    /// it and records the operation: the log entry and every generated state
    /// machine commit together, or, on any error, nothing changes.
    ///
    /// An operation id already present in the log or the executor is
    /// rejected, and the client is left untouched.
    #[verifier::rlimit(100)]
    pub fn finalize_and_submit_transaction(
        &mut self,
        operation_id: OperationId,
        operation_type: String,
        operation_meta: Vec<u8>,
        tx_builder: TransactionBuilder,
        now: u64,
    ) -> (r: Result<TransactionId, ClientError>)
        requires
            old(self).wf(),
        ensures
            final(self).wf(),
            old(self).executor.inactive_v().is_prefix_of(final(self).executor.inactive_v()),
            old(self).op_exists_spec(operation_id) <==> r == Err::<TransactionId, ClientError>(
                ClientError::DuplicateOperation,
            ),
            r is Err ==> final(self).executor.active_v() == old(self).executor.active_v() && final(self).executor.inactive == old(self).executor.inactive && final(self).operation_log == old(self).operation_log,
            r matches Ok(txid) ==> submitted_ok_some_change(
                old(self).executor.active_v(),
                final(self).executor.active_v(),
                tx_builder.inputs@,
                tx_builder.outputs@,
                old(self).primary_module_instance,
                operation_id,
                txid,
                now,
            ) && final(self).executor.inactive == old(self).executor.inactive && final(self).operation_log.entries_v() == old(self).operation_log.entries_v().push(
                OperationLogEntryV {
                    operation_id,
                    operation_type: operation_type@,
                    meta: operation_meta@,
                    created_at: now,
                },
            ),
            r is Err ==> (r == Err::<TransactionId, ClientError>(ClientError::DuplicateOperation)
                || r == Err::<TransactionId, ClientError>(ClientError::AmountOverflow) || r
                == Err::<TransactionId, ClientError>(ClientError::InsufficientFunds) || r
                == Err::<TransactionId, ClientError>(ClientError::InvalidKey) || r == Err::<
                TransactionId,
                ClientError,
            >(ClientError::StateAlreadyExists)),
            r == Err::<TransactionId, ClientError>(ClientError::InsufficientFunds) ==>
                builder_balance_spec(&tx_builder) is Underfunded,
            (!old(self).op_exists_spec(operation_id) && builder_sums_fit(&tx_builder) && !(
            builder_balance_spec(&tx_builder) is Underfunded) && (forall|i: int|
                0 <= i < tx_builder.inputs@.len() ==> (
                #[trigger] tx_builder.inputs@[i]).keys@.len() == 0)) ==> r is Ok || r == Err::<
                TransactionId,
                ClientError,
            >(ClientError::StateAlreadyExists),
    {
        if self.operation_exists(operation_id) {
            return Err(ClientError::DuplicateOperation);
        }
        let submitted = match self.finalize_and_submit_inner(operation_id, tx_builder, now) {
            Ok(t) => t,
            Err(e) => {
                proof {
                    assert(e != ClientError::DuplicateOperation);
                }
                return Err(e);
            },
        };
        let (txid, _change) = submitted;
        proof {
            assert(submitted_ok(
                old(self).executor.active_v(),
                self.executor.active_v(),
                tx_builder.inputs@,
                tx_builder.outputs@,
                old(self).primary_module_instance,
                operation_id,
                txid,
                now,
                _change,
            ));
        }
        match self.operation_log.add_operation_log_entry(
            operation_id,
            operation_type,
            operation_meta,
            now,
        ) {
            Ok(_) => {},
            Err(e) => {
                // Unreachable: the duplicate check above covered the log.
                proof {
                    assert(false);
                }
                return Err(e);
            },
        }
        proof {
            assert(submitted_ok(
                old(self).executor.active_v(),
                self.executor.active_v(),
                tx_builder.inputs@,
                tx_builder.outputs@,
                old(self).primary_module_instance,
                operation_id,
                txid,
                now,
                _change,
            ));
            assert(submitted_ok_some_change(
                old(self).executor.active_v(),
                self.executor.active_v(),
                tx_builder.inputs@,
                tx_builder.outputs@,
                old(self).primary_module_instance,
                operation_id,
                txid,
                now,
            ));
        }
        Ok(txid)
    }

    /// Inserts state machines as active, within the caller's storage
    /// transaction; duplicates are rejected with a conflict error.
    pub fn add_state_machines(&mut self, states: Vec<DynState>) -> (r: Result<(), ClientError>)
        requires
            old(self).wf(),
        ensures
            final(self).wf(),
            r is Err <==> crate::executor::batch_conflict(
                old(self).executor.active_v(),
                old(self).executor.inactive_v(),
                views_of(states@),
            ),
            r is Err ==> r == Err::<(), ClientError>(ClientError::StateAlreadyExists) && final(self).executor.active_v() == old(self).executor.active_v(),
            r is Ok ==> final(self).executor.active_v() == old(self).executor.active_v()
                + views_of(states@),
            final(self).executor.inactive == old(self).executor.inactive,
            final(self).operation_log == old(self).operation_log,
    {
        self.executor.add_state_machines_dbtx(states)
    }

    /// The operation ids that still have at least one active state machine.
    pub fn get_active_operations(&self) -> (r: Vec<OperationId>)
        ensures
            forall|op: OperationId|
                r@.contains(op) <==> (exists|i: int|
                    0 <= i < self.executor.active_v().len() && (#[trigger] self.executor.active_v()[
                        i
                    ]).operation_id == op),
            forall|i: int, j: int| 0 <= i < j < r@.len() ==> r@[i] != r@[j],
    {
        self.executor.get_active_operations()
    }

    /// The operation log.
    pub fn operation_log(&self) -> (r: &OperationLog)
        ensures
            r == self.operation_log,
    {
        &self.operation_log
    }

    /// The instance id of the first registered module of the given kind, in
    /// registration order; the primary module is returned before any other.
    /// Modules register in configuration order, so with instances configured
    /// in ascending id order this is the lowest-id instance of the kind.
    pub fn get_first_instance(&self, module_kind: &String) -> (r: Option<ModuleInstanceId>)
        ensures
            r == first_instance_spec(
                self.registered@,
                self.primary_module_instance,
                module_kind@,
            ),
            r is Some <==> (exists|i: int|
                0 <= i < self.registered@.len() && (#[trigger] self.registered@[i]).kind@
                    == module_kind@),
            r matches Some(id) ==> (exists|i: int|
                0 <= i < self.registered@.len() && (#[trigger] self.registered@[i]).kind@
                    == module_kind@ && self.registered@[i].id == id),
            (exists|i: int|
                0 <= i < self.registered@.len() && (#[trigger] self.registered@[i]).kind@
                    == module_kind@ && self.registered@[i].id == self.primary_module_instance)
                ==> r == Some(self.primary_module_instance),
    {
        let mut i: usize = 0;
        while i < self.registered.len()
            invariant
                0 <= i <= self.registered@.len(),
                forall|j: int|
                    0 <= j < i ==> !((#[trigger] self.registered@[j]).kind@ == module_kind@
                        && self.registered@[j].id == self.primary_module_instance),
            decreases self.registered@.len() - i,
        {
            if self.registered[i].id == self.primary_module_instance && self.registered[i].kind
                == *module_kind {
                proof {
                    assert(first_instance_spec(
                        self.registered@,
                        self.primary_module_instance,
                        module_kind@,
                    ) == Some(self.primary_module_instance));
                }
                return Some(self.primary_module_instance);
            }
            i = i + 1;
        }
        let mut k: usize = 0;
        while k < self.registered.len()
            invariant
                0 <= k <= self.registered@.len(),
                forall|j: int| 0 <= j < k ==> (#[trigger] self.registered@[j]).kind@ != module_kind@,
                forall|j: int|
                    0 <= j < self.registered@.len() ==> !((#[trigger] self.registered@[j]).kind@
                        == module_kind@ && self.registered@[j].id
                        == self.primary_module_instance),
            decreases self.registered@.len() - k,
        {
            if self.registered[k].kind == *module_kind {
                proof {
                    lemma_first_kind_id(self.registered@, module_kind@, k as int);
                }
                return Some(self.registered[k].id);
            }
            k = k + 1;
        }
        proof {
            lemma_first_kind_id_none(self.registered@, module_kind@);
        }
        None
    }

    /// The first registered module instance of the given kind, primary
    /// first, as a handle carrying its instance id.
    pub fn get_first_module(&self, module_kind: &String) -> (r: Option<ClientModuleInstance>)
        ensures
            r is Some <==> first_instance_spec(
                self.registered@,
                self.primary_module_instance,
                module_kind@,
            ) is Some,
            r matches Some(inst) ==> Some(inst.id) == first_instance_spec(
                self.registered@,
                self.primary_module_instance,
                module_kind@,
            ),
            r is Some <==> (exists|i: int|
                0 <= i < self.registered@.len() && (#[trigger] self.registered@[i]).kind@
                    == module_kind@),
    {
        match self.get_first_instance(module_kind) {
            Some(id) => Some(ClientModuleInstance { id }),
            None => None,
        }
    }

    /// The registered module instance carrying the given id.
    pub fn get_module_client(&self, instance_id: ModuleInstanceId) -> (r: Result<
        &RegisteredModule,
        ClientError,
    >)
        ensures
            r is Ok <==> (exists|i: int|
                0 <= i < self.registered@.len() && (#[trigger] self.registered@[i]).id
                    == instance_id),
            r matches Ok(m) ==> m.id == instance_id,
            r is Err ==> r == Err::<&RegisteredModule, ClientError>(
                ClientError::UnknownModuleInstance,
            ),
    {
        let mut i: usize = 0;
        while i < self.registered.len()
            invariant
                0 <= i <= self.registered@.len(),
                forall|j: int| 0 <= j < i ==> (#[trigger] self.registered@[j]).id != instance_id,
            decreases self.registered@.len() - i,
        {
            if self.registered[i].id == instance_id {
                return Ok(&self.registered[i]);
            }
            i = i + 1;
        }
        Err(ClientError::UnknownModuleInstance)
    }

    /// All transaction-submission updates recorded for the operation, in
    /// record order: pending machines first, terminal records after.
    pub fn transaction_update_stream(&self, operation_id: OperationId) -> (r: Vec<OperationState>)
        ensures
            r@.map_values(|os: OperationState| os.state@) == submission_events(
                self.executor.active_v(),
                operation_id,
            ) + submission_events(self.executor.inactive_v(), operation_id),
            forall|k: int| 0 <= k < r@.len() ==> (#[trigger] r@[k]).operation_id == operation_id,
    {
        let mut out: Vec<OperationState> = Vec::new();
        collect_submission_events(&self.executor.active, operation_id, &mut out);
        collect_submission_events(&self.executor.inactive, operation_id, &mut out);
        proof {
            assert(out@.map_values(|os: OperationState| os.state@) =~= submission_events(
                self.executor.active_v(),
                operation_id,
            ) + submission_events(self.executor.inactive_v(), operation_id));
        }
        out
    }

    /// A snapshot of the operation's transaction updates that can be queried
    /// for a specific transaction being accepted.
    pub fn transaction_updates(&self, operation_id: OperationId) -> (r: TransactionUpdates)
        ensures
            r.updates@.map_values(|os: OperationState| os.state@) == submission_events(
                self.executor.active_v(),
                operation_id,
            ) + submission_events(self.executor.inactive_v(), operation_id),
    {
        TransactionUpdates { updates: self.transaction_update_stream(operation_id) }
    }

    /// The data from which the client's root secret is derived.
    pub fn root_secret_encoding(&self) -> (r: Vec<u8>)
        ensures
            r@ == self.root_secret@,
    {
        clone_bytes(&self.root_secret)
    }

    /// Balance available to the client for spending.
    pub fn get_balance(&self) -> (r: u64)
        ensures
            r as int == self.primary.balance_of(),
    {
        self.primary.get_balance()
    }

    /// The primary module.
    pub fn primary_module(&self) -> (r: &M)
        ensures
            r == self.primary,
    {
        &self.primary
    }

    /// Returns the config with which the client was initialized.
    pub fn get_config(&self) -> (r: &ClientConfig)
        ensures
            r == self.config,
    {
        &self.config
    }

    /// What the client and its modules support, as offered to the federation
    /// when negotiating a common api version.
    pub fn supported_api_versions_summary(&self) -> (r: SupportedApiVersionsSummary)
        ensures
            r.core.core_consensus == self.config.consensus_version,
            r.core.api.versions@.len() == 1,
            r.core.api.versions@[0] == (ApiVersion { major: 0, minor: 0 }),
            r.modules@.len() == self.registered@.len(),
            forall|k: int|
                0 <= k < self.registered@.len() ==> ({
                    &&& (#[trigger] r.modules@[k]).id == self.registered@[k].id
                    &&& r.modules@[k].versions.core_consensus == self.config.consensus_version
                    &&& r.modules@[k].versions.module_consensus == self.registered@[k].version
                    &&& r.modules@[k].versions.api@ == self.registered@[k].api_versions@
                }),
    {
        let mut core_versions: Vec<ApiVersion> = Vec::new();
        core_versions.push(ApiVersion { major: 0, minor: 0 });
        proof {
            assert(crate::config::distinct_majors(core_versions@));
        }
        let api = match MultiApiVersion::try_from_iter(core_versions) {
            Ok(m) => m,
            Err(_) => {
                // Unreachable: a single version cannot conflict.
                proof {
                    assert(false);
                }
                MultiApiVersion { versions: Vec::new() }
            },
        };
        let mut modules: Vec<ModuleApiVersionsEntry> = Vec::new();
        let mut i: usize = 0;
        while i < self.registered.len()
            invariant
                0 <= i <= self.registered@.len(),
                modules@.len() == i,
                forall|k: int|
                    0 <= k < i ==> ({
                        &&& (#[trigger] modules@[k]).id == self.registered@[k].id
                        &&& modules@[k].versions.core_consensus == self.config.consensus_version
                        &&& modules@[k].versions.module_consensus == self.registered@[k].version
                        &&& modules@[k].versions.api@ == self.registered@[k].api_versions@
                    }),
            decreases self.registered@.len() - i,
        {
            let entry = &self.registered[i];
            modules.push(
                ModuleApiVersionsEntry {
                    id: entry.id,
                    versions: SupportedModuleApiVersions {
                        core_consensus: self.config.consensus_version,
                        module_consensus: entry.version,
                        api: clone_api_versions(&entry.api_versions),
                    },
                },
            );
            i = i + 1;
        }
        SupportedApiVersionsSummary {
            core: SupportedCoreApiVersions {
                core_consensus: self.config.consensus_version,
                api,
            },
            modules,
        }
    }

    /// Runs one transition of the operation's pending transaction-submission
    /// machine on an observed event: the worker body of the submission
    /// module. A definitive answer retires the machine into the inactive
    /// set; a transient failure re-arms it with backoff.
    pub fn drive_tx_submission(
        &mut self,
        operation_id: OperationId,
        event: TxSubmissionEvent,
        now: u64,
    ) -> (r: Result<(), ClientError>)
        requires
            old(self).wf(),
        ensures
            final(self).wf(),
            final(self).operation_log == old(self).operation_log,
            old(self).executor.inactive_v().is_prefix_of(final(self).executor.inactive_v()),
            r == Err::<(), ClientError>(ClientError::StateNotFound) <==> !has_active_submission(
                old(self).executor.active_v(),
                operation_id,
            ),
            r is Err ==> final(self).executor.active_v() == old(self).executor.active_v() && final(self).executor.inactive == old(self).executor.inactive,
            has_active_submission(old(self).executor.active_v(), operation_id) ==> ({
                let prevv = first_pending_submission(old(self).executor.active_v(), operation_id);
                let nextv = DynStateV {
                    module_instance_id: TRANSACTION_SUBMISSION_MODULE_INSTANCE,
                    operation_id,
                    state: SmStateV::TxSubmission(
                        tx_submission_step_spec(prevv.state->TxSubmission_0, event, now),
                    ),
                };
                &&& (r is Ok <==> nextv == prevv || (!old(self).executor.active_v().contains(
                    nextv,
                ) && !old(self).executor.inactive_v().contains(nextv)))
                &&& (r is Ok ==> transition_applied(
                    old(self).executor.active_v(),
                    old(self).executor.inactive_v(),
                    final(self).executor.active_v(),
                    final(self).executor.inactive_v(),
                    prevv,
                    nextv,
                ))
                &&& (r is Err ==> r == Err::<(), ClientError>(ClientError::StateAlreadyExists))
            }),
    {
        let ghost av = self.executor.active_v();
        let mut idx: usize = 0;
        let mut found = false;
        while !found && idx < self.executor.active.len()
            invariant
                av == self.executor.active_v(),
                *self == *old(self),
                old(self).wf(),
                0 <= idx <= self.executor.active@.len(),
                found ==> idx < self.executor.active@.len() && is_created_submission(
                    av[idx as int],
                    operation_id,
                ),
                forall|j: int| 0 <= j < idx ==> !is_created_submission(#[trigger] av[j],
                    operation_id),
            decreases self.executor.active@.len() - idx + (if found {
                0int
            } else {
                1int
            }),
        {
            let rec = &self.executor.active[idx];
            let is_sub = rec.module_instance_id == TRANSACTION_SUBMISSION_MODULE_INSTANCE
                && rec.operation_id == operation_id && (matches!(&rec.state,
            SmState::TxSubmission(TxSubmissionStates::Created { .. })));
            proof {
                assert(views_of(self.executor.active@)[idx as int] == self.executor.active@[
                    idx as int
                ]@);
            }
            if is_sub {
                found = true;
            } else {
                idx = idx + 1;
            }
        }
        if !found {
            proof {
                assert(!has_active_submission(av, operation_id));
            }
            return Err(ClientError::StateNotFound);
        }
        proof {
            assert(has_active_submission(av, operation_id));
        }
        let prev = clone_dyn_state(&self.executor.active[idx]);
        proof {
            assert(views_of(self.executor.active@)[idx as int] == self.executor.active@[
                idx as int
            ]@);
            assert(av.contains(prev@));
            lemma_first_pending_submission(av, operation_id, idx as int);
            assert(first_pending_submission(av, operation_id) == prev@);
        }
        let prev_state = match &prev.state {
            SmState::TxSubmission(t) => clone_tx_submission_state(t),
            SmState::Module(_) => {
                // Unreachable: the record was found as a submission machine.
                proof {
                    assert(false);
                }
                return Err(ClientError::StateNotFound);
            },
        };
        let ghost stv = prev_state@;
        proof {
            assert(prev@.state == SmStateV::TxSubmission(stv));
            assert(prev@.state->TxSubmission_0 == stv);
        }
        let stepped = tx_submission_step(prev_state, event, now);
        let next = DynState {
            module_instance_id: TRANSACTION_SUBMISSION_MODULE_INSTANCE,
            operation_id,
            state: SmState::TxSubmission(stepped),
        };
        let ghost nextv = next@;
        proof {
            assert(nextv =~= (DynStateV {
                module_instance_id: TRANSACTION_SUBMISSION_MODULE_INSTANCE,
                operation_id,
                state: SmStateV::TxSubmission(
                    tx_submission_step_spec(
                        first_pending_submission(av, operation_id).state->TxSubmission_0,
                        event,
                        now,
                    ),
                ),
            }));
        }
        match self.executor.transition(&prev, next) {
            Ok(_) => {
                proof {
                    assert(transition_applied(
                        old(self).executor.active_v(),
                        old(self).executor.inactive_v(),
                        self.executor.active_v(),
                        self.executor.inactive_v(),
                        prev@,
                        nextv,
                    ));
                }
                Ok(())
            },
            Err(e) => {
                proof {
                    assert(e != ClientError::StateNotFound);
                }
                Err(e)
            },
        }
    }

    /// Dissolves the client into its persisted state, as a crash or shutdown
    /// leaves it: the state machine sets, the operation log and the root
    /// secret survive; subscriptions and in-memory context do not.
    pub fn into_db(self) -> (r: ClientDb)
        requires
            self.wf(),
        ensures
            r.wf(),
            r.root_secret matches Some(s) && s@ == self.root_secret@,
            views_of(r.active_states@) == self.executor.active_v(),
            views_of(r.inactive_states@) == self.executor.inactive_v(),
            r.log_entries@.map_values(|e: OperationLogEntry| e@)
                == self.operation_log.entries_v(),
    {
        proof {
            assert forall|i: int, j: int|
                0 <= i < j < self.operation_log.entries@.len() implies (
            #[trigger] self.operation_log.entries@[i]@).operation_id != (
            #[trigger] self.operation_log.entries@[j]@).operation_id by {
                assert(self.operation_log.entries_v()[i] == self.operation_log.entries@[i]@);
                assert(self.operation_log.entries_v()[j] == self.operation_log.entries@[j]@);
            }
        }
        ClientDb {
            root_secret: Some(self.root_secret),
            active_states: self.executor.active,
            inactive_states: self.executor.inactive,
            log_entries: self.operation_log.entries,
        }
    }
}

/// How a transition reshapes the two record sets: the old record leaves the
/// active set; the successor joins the active or the inactive set according
/// to whether it is terminal.
pub open spec fn transition_applied(
    old_active: Seq<DynStateV>,
    old_inactive: Seq<DynStateV>,
    new_active: Seq<DynStateV>,
    new_inactive: Seq<DynStateV>,
    prev: DynStateV,
    next: DynStateV,
) -> bool {
    if is_terminal(next.state) {
        new_active == old_active.remove_value(prev) && new_inactive == old_inactive.push(next)
    } else {
        new_active == old_active.remove_value(prev).push(next) && new_inactive == old_inactive
    }
}

/// Copies a list of api versions.
pub fn clone_api_versions(v: &Vec<ApiVersion>) -> (r: Vec<ApiVersion>)
    ensures
        r@ == v@,
{
    let mut out: Vec<ApiVersion> = Vec::new();
    let mut i: usize = 0;
    while i < v.len()
        invariant
            0 <= i <= v@.len(),
            out@ =~= v@.take(i as int),
        decreases v@.len() - i,
    {
        out.push(v[i]);
        i = i + 1;
    }
    proof {
        assert(out@ =~= v@);
    }
    out
}

/// Appends the operation's submission states found in `records` to `out`.
fn collect_submission_events(
    records: &Vec<DynState>,
    operation_id: OperationId,
    out: &mut Vec<OperationState>,
)
    ensures
        final(out)@.map_values(|os: OperationState| os.state@) == old(out)@.map_values(
            |os: OperationState| os.state@,
        ) + submission_events(views_of(records@), operation_id),
        forall|k: int|
            0 <= k < final(out)@.len() ==> (#[trigger] final(out)@[k]).operation_id == (if k < old(
                out,
            )@.len() {
                old(out)@[k].operation_id
            } else {
                operation_id
            }),
{
    let ghost base = out@.map_values(|os: OperationState| os.state@);
    let ghost base_len = out@.len();
    let ghost recs = views_of(records@);
    let mut i: usize = 0;
    while i < records.len()
        invariant
            recs == views_of(records@),
            0 <= i <= records@.len(),
            out@.len() >= base_len,
            out@.map_values(|os: OperationState| os.state@) =~= base + submission_events(
                recs.take(i as int),
                operation_id,
            ),
            forall|k: int|
                0 <= k < out@.len() ==> (#[trigger] out@[k]).operation_id == (if k < base_len {
                    old(out)@[k].operation_id
                } else {
                    operation_id
                }),
            base == old(out)@.map_values(|os: OperationState| os.state@),
            base_len == old(out)@.len(),
            forall|k: int| 0 <= k < base_len ==> out@[k] == old(out)@[k],
        decreases records@.len() - i,
    {
        proof {
            assert(recs.take(i + 1).drop_last() =~= recs.take(i as int));
            assert(recs.take(i + 1).last() == recs[i as int]);
            assert(views_of(records@)[i as int] == records@[i as int]@);
        }
        let rec = &records[i];
        if rec.module_instance_id == TRANSACTION_SUBMISSION_MODULE_INSTANCE && rec.operation_id
            == operation_id {
            match &rec.state {
                SmState::TxSubmission(t) => {
                    let ghost prev_out = out@;
                    out.push(
                        OperationState { operation_id, state: clone_tx_submission_state(t) },
                    );
                    proof {
                        assert(recs[i as int].state == SmStateV::TxSubmission(t@));
                        assert(submission_events(recs.take(i + 1), operation_id)
                            == submission_events(recs.take(i as int), operation_id).push(t@));
                        assert(prev_out.map_values(|os: OperationState| os.state@) =~= base
                            + submission_events(recs.take(i as int), operation_id));
                        assert(out@.len() == prev_out.len() + 1);
                        assert(submission_events(recs.take(i + 1), operation_id).len()
                            == submission_events(recs.take(i as int), operation_id).len() + 1);
                        assert(prev_out.map_values(|os: OperationState| os.state@).len()
                            == prev_out.len());
                        assert(prev_out.len() == base.len() + submission_events(
                            recs.take(i as int),
                            operation_id,
                        ).len());
                        assert((base + submission_events(recs.take(i + 1), operation_id)).len()
                            == out@.len());
                        let outv = out@.map_values(|os: OperationState| os.state@);
                        assert forall|k: int| 0 <= k < outv.len() implies #[trigger] outv[k] == (
                        base + submission_events(recs.take(i + 1), operation_id))[k] by {
                            assert(outv[k] == out@[k].state@);
                            if k < prev_out.len() {
                                assert(out@[k] == prev_out[k]);
                                assert(prev_out.map_values(|os: OperationState| os.state@)[k]
                                    == prev_out[k].state@);
                            } else {
                                assert(k == prev_out.len());
                                assert(out@[k].state@ == t@);
                                assert(k - base.len() == submission_events(
                                    recs.take(i as int),
                                    operation_id,
                                ).len());
                                assert((base + submission_events(
                                    recs.take(i + 1),
                                    operation_id,
                                ))[k] == t@);
                            }
                        }
                        assert(outv =~= base + submission_events(
                            recs.take(i + 1),
                            operation_id,
                        ));
                    }
                },
                SmState::Module(_) => {},
            }
        }
        i = i + 1;
    }
    proof {
        assert(recs.take(recs.len() as int) =~= recs);
    }
}

/// Resources of one registered module instance.
pub struct ClientModuleInstance {
    /// Instance id of the module.
    pub id: ModuleInstanceId,
}

/// A snapshot of an operation's transaction updates; see
/// [`Client::transaction_updates`].
pub struct TransactionUpdates {
    pub updates: Vec<OperationState>,
}

impl TransactionUpdates {
    /// What the updates say about the transaction: `Some(Ok(()))` once it
    /// was accepted, the rejection reason once it was rejected, `None` while
    /// it is still pending.
    pub fn await_tx_accepted(&self, await_txid: TransactionId) -> (r: Option<
        Result<(), String>,
    >)
        ensures
            ({
                let d = decide_tx(
                    self.updates@.map_values(|os: OperationState| os.state@),
                    await_txid,
                );
                &&& (r is None <==> d is None)
                &&& (r == Some(Ok::<(), String>(())) <==> d == Some(Ok::<(), Seq<char>>(())))
                &&& (r matches Some(Err(s)) ==> d == Some(Err::<(), Seq<char>>(s@)))
            }),
    {
        let ghost full = self.updates@.map_values(|os: OperationState| os.state@);
        proof {
            assert(full.skip(0) =~= full);
        }
        let mut i: usize = 0;
        while i < self.updates.len()
            invariant
                full == self.updates@.map_values(|os: OperationState| os.state@),
                0 <= i <= self.updates@.len(),
                decide_tx(full.skip(i as int), await_txid) == decide_tx(full, await_txid),
            decreases self.updates@.len() - i,
        {
            proof {
                assert(full.skip(i as int).drop_first() =~= full.skip(i + 1));
                assert(full.skip(i as int)[0] == full[i as int]);
                assert(full[i as int] == self.updates@[i as int].state@);
            }
            match &self.updates[i].state {
                TxSubmissionStates::Accepted { txid } => {
                    if *txid == await_txid {
                        return Some(Ok(()));
                    }
                },
                TxSubmissionStates::Rejected { txid, error } => {
                    if *txid == await_txid {
                        return Some(Err(error.clone()));
                    }
                },
                TxSubmissionStates::Created { .. } => {},
            }
            i = i + 1;
        }
        proof {
            assert(full.skip(full.len() as int) =~= Seq::<TxSubmissionStatesV>::empty());
        }
        None
    }
}

/// Global state and functionality provided to all state machines running in
/// the client, scoped to one module instance and operation. The client it
/// acts on is handed to each call, so that everything a transition writes
/// commits with the caller's storage transaction.
#[derive(Clone, Copy, PartialEq, Eq, Structural, Debug)]
pub struct DynGlobalClientContext {
    pub module_instance_id: ModuleInstanceId,
    pub operation: OperationId,
}

impl DynGlobalClientContext {
    /// Creates a transaction claiming the given input, re-tagged with this
    /// context's module instance, with the value absorbed into the primary
    /// module as change. Funding cannot fail: the input funds the output;
    /// the caller remains responsible for the input's own state machines.
    pub fn claim_input<M: ClientModule>(
        &self,
        client: &mut Client<M>,
        input: ClientInput,
        now: u64,
    ) -> (r: Result<(TransactionId, Option<OutPoint>), ClientError>)
        requires
            old(client).wf(),
        ensures
            final(client).wf(),
            final(client).operation_log == old(client).operation_log,
            r is Err ==> final(client).executor.active_v() == old(client).executor.active_v()
                && final(client).executor.inactive == old(client).executor.inactive,
            r matches Ok((txid, chg)) ==> submitted_ok(
                old(client).executor.active_v(),
                final(client).executor.active_v(),
                seq![tagged_input(self.module_instance_id, input)],
                Seq::<ClientOutput>::empty(),
                old(client).primary_module_instance,
                self.operation,
                txid,
                now,
                chg,
            ),
            r is Err ==> (r == Err::<(TransactionId, Option<OutPoint>), ClientError>(
                ClientError::AmountOverflow,
            ) || r == Err::<(TransactionId, Option<OutPoint>), ClientError>(
                ClientError::InsufficientFunds,
            ) || r == Err::<(TransactionId, Option<OutPoint>), ClientError>(
                ClientError::InvalidKey,
            ) || r == Err::<(TransactionId, Option<OutPoint>), ClientError>(
                ClientError::StateAlreadyExists,
            )),
            (input.keys@.len() == 0 && input.item.amount >= input.item.fee) ==> r is Ok || r
                == Err::<(TransactionId, Option<OutPoint>), ClientError>(
                ClientError::StateAlreadyExists,
            ),
    {
        let ClientInput { item, keys, state_machines } = input;
        let tagged = ClientInput {
            item: TxItem {
                module_instance_id: self.module_instance_id,
                amount: item.amount,
                fee: item.fee,
            },
            keys,
            state_machines,
        };
        let builder = TransactionBuilder::new().with_input(tagged);
        proof {
            assert(builder.inputs@ =~= seq![tagged_input(self.module_instance_id, input)]);
            assert(builder.outputs@ =~= Seq::<ClientOutput>::empty());
            crate::transaction::lemma_sum_push(
                input_items(Seq::<ClientInput>::empty()),
                builder.inputs@[0].item,
            );
            assert(input_items(builder.inputs@) =~= input_items(
                Seq::<ClientInput>::empty(),
            ).push(builder.inputs@[0].item));
            assert(output_items(builder.outputs@) =~= Seq::<TxItem>::empty());
        }
        client.finalize_and_submit_inner(self.operation, builder, now)
    }

    /// Creates a transaction funding the given output, re-tagged with this
    /// context's module instance, through the primary module; fails with an
    /// insufficient-funds error if the primary module cannot produce the
    /// input. The caller remains responsible for the output's own state
    /// machines.
    pub fn fund_output<M: ClientModule>(
        &self,
        client: &mut Client<M>,
        output: ClientOutput,
        now: u64,
    ) -> (r: Result<(TransactionId, Option<OutPoint>), ClientError>)
        requires
            old(client).wf(),
        ensures
            final(client).wf(),
            final(client).operation_log == old(client).operation_log,
            r is Err ==> final(client).executor.active_v() == old(client).executor.active_v()
                && final(client).executor.inactive == old(client).executor.inactive,
            r matches Ok((txid, chg)) ==> submitted_ok(
                old(client).executor.active_v(),
                final(client).executor.active_v(),
                Seq::<ClientInput>::empty(),
                seq![tagged_output(self.module_instance_id, output)],
                old(client).primary_module_instance,
                self.operation,
                txid,
                now,
                chg,
            ),
            r is Err ==> (r == Err::<(TransactionId, Option<OutPoint>), ClientError>(
                ClientError::AmountOverflow,
            ) || r == Err::<(TransactionId, Option<OutPoint>), ClientError>(
                ClientError::InsufficientFunds,
            ) || r == Err::<(TransactionId, Option<OutPoint>), ClientError>(
                ClientError::InvalidKey,
            ) || r == Err::<(TransactionId, Option<OutPoint>), ClientError>(
                ClientError::StateAlreadyExists,
            )),
            r == Err::<(TransactionId, Option<OutPoint>), ClientError>(
                ClientError::InsufficientFunds,
            ) ==> output.item.amount + output.item.fee > 0,
    {
        let ClientOutput { item, state_machines } = output;
        let tagged = ClientOutput {
            item: TxItem {
                module_instance_id: self.module_instance_id,
                amount: item.amount,
                fee: item.fee,
            },
            state_machines,
        };
        let builder = TransactionBuilder::new().with_output(tagged);
        proof {
            assert(builder.outputs@ =~= seq![tagged_output(self.module_instance_id, output)]);
            assert(builder.inputs@ =~= Seq::<ClientInput>::empty());
            crate::transaction::lemma_sum_push(
                output_items(Seq::<ClientOutput>::empty()),
                builder.outputs@[0].item,
            );
            assert(output_items(builder.outputs@) =~= output_items(
                Seq::<ClientOutput>::empty(),
            ).push(builder.outputs@[0].item));
            assert(input_items(builder.inputs@) =~= Seq::<TxItem>::empty());
        }
        client.finalize_and_submit_inner(self.operation, builder, now)
    }

    /// Registers a state machine belonging to the same module instance and
    /// operation as the transition it was spawned from.
    pub fn add_state_machine<M: ClientModule>(
        &self,
        client: &mut Client<M>,
        sm: crate::sm::ModuleSmState,
    ) -> (r: Result<(), ClientError>)
        requires
            old(client).wf(),
        ensures
            final(client).wf(),
            r is Err <==> ({
                let record = DynStateV {
                    module_instance_id: self.module_instance_id,
                    operation_id: self.operation,
                    state: SmStateV::Module(sm),
                };
                old(client).executor.active_v().contains(record) || old(client).executor.inactive_v().contains(record)
            }),
            r is Ok ==> final(client).executor.active_v() == old(client).executor.active_v().push(
                DynStateV {
                    module_instance_id: self.module_instance_id,
                    operation_id: self.operation,
                    state: SmStateV::Module(sm),
                },
            ),
            r is Err ==> r == Err::<(), ClientError>(ClientError::StateAlreadyExists) && final(client).executor.active_v() == old(client).executor.active_v(),
    {
        let state = DynState {
            module_instance_id: self.module_instance_id,
            operation_id: self.operation,
            state: SmState::Module(sm),
        };
        let ghost statev = state@;
        let mut states: Vec<DynState> = Vec::new();
        states.push(state);
        proof {
            assert(views_of(states@) =~= Seq::<DynStateV>::empty().push(statev));
        }
        let r = client.executor.add_state_machines_dbtx(states);
        proof {
            let batch = views_of(states@);
            assert(batch[0] == statev);
            assert(crate::executor::batch_conflict(
                old(client).executor.active_v(),
                old(client).executor.inactive_v(),
                batch,
            ) <==> (old(client).executor.active_v().contains(statev) || old(client).executor.inactive_v().contains(statev))) by {
                if old(client).executor.active_v().contains(statev) || old(client).executor.inactive_v().contains(statev) {
                    assert(0 <= 0 < batch.len() && (old(client).executor.active_v().contains(
                        batch[0],
                    ) || old(client).executor.inactive_v().contains(batch[0])));
                }
                if crate::executor::batch_conflict(
                    old(client).executor.active_v(),
                    old(client).executor.inactive_v(),
                    batch,
                ) {
                    let i = choose|i: int|
                        0 <= i < batch.len() && (old(client).executor.active_v().contains(
                            #[trigger] batch[i],
                        ) || old(client).executor.inactive_v().contains(batch[i]) || exists|
                            j: int,
                        |
                            0 <= j < i && batch[j] == batch[i]);
                    assert(i == 0);
                }
            }
            if r is Ok {
                assert(client.executor.active_v() =~= old(client).executor.active_v().push(
                    statev,
                ));
            }
        }
        r
    }

    /// The client config, as a transition sees it.
    pub fn client_config<'a, M: ClientModule>(&self, client: &'a Client<M>) -> (r:
        &'a ClientConfig)
        ensures
            r == client.config,
    {
        &client.config
    }

    /// The decoders, as a transition sees them.
    pub fn decoders<'a, M: ClientModule>(&self, client: &'a Client<M>) -> (r:
        &'a ModuleDecoderRegistry)
        ensures
            r == client.decoders,
    {
        &client.decoders
    }

    /// All transaction-submission updates of this context's operation.
    pub fn transaction_update_stream<M: ClientModule>(&self, client: &Client<M>) -> (r: Vec<
        OperationState,
    >)
        ensures
            r@.map_values(|os: OperationState| os.state@) == submission_events(
                client.executor.active_v(),
                self.operation,
            ) + submission_events(client.executor.inactive_v(), self.operation),
    {
        client.transaction_update_stream(self.operation)
    }

    /// Whether the operation's updates show the transaction rejected.
    pub fn await_tx_rejected<M: ClientModule>(&self, client: &Client<M>, txid: TransactionId)
        -> (r: bool)
        ensures
            r == ({
                let evs = submission_events(client.executor.active_v(), self.operation)
                    + submission_events(client.executor.inactive_v(), self.operation);
                exists|i: int|
                    0 <= i < evs.len() && (#[trigger] evs[i] matches
                    TxSubmissionStatesV::Rejected { txid: t, .. } && t == txid)
            }),
    {
        let updates = self.transaction_update_stream(client);
        let ghost evs = submission_events(client.executor.active_v(), self.operation)
            + submission_events(client.executor.inactive_v(), self.operation);
        let mut i: usize = 0;
        while i < updates.len()
            invariant
                evs == updates@.map_values(|os: OperationState| os.state@),
                evs == submission_events(client.executor.active_v(), self.operation)
                    + submission_events(client.executor.inactive_v(), self.operation),
                0 <= i <= updates@.len(),
                forall|j: int|
                    0 <= j < i ==> !(#[trigger] evs[j] matches TxSubmissionStatesV::Rejected {
                        txid: t,
                        ..
                    } && t == txid),
            decreases updates@.len() - i,
        {
            proof {
                assert(evs[i as int] == updates@[i as int].state@);
            }
            match &updates[i].state {
                TxSubmissionStates::Rejected { txid: t, error: _ } => {
                    if *t == txid {
                        proof {
                            assert(evs[i as int] matches TxSubmissionStatesV::Rejected {
                                txid: t2,
                                ..
                            } && t2 == txid);
                        }
                        return true;
                    }
                },
                _ => {},
            }
            i = i + 1;
        }
        false
    }

    /// What the operation's updates say about the transaction: accepted,
    /// rejected with its reason, or still pending.
    pub fn await_tx_accepted<M: ClientModule>(&self, client: &Client<M>, txid: TransactionId)
        -> (r: Option<Result<(), String>>)
        ensures
            ({
                let d = decide_tx(
                    submission_events(client.executor.active_v(), self.operation)
                        + submission_events(client.executor.inactive_v(), self.operation),
                    txid,
                );
                &&& (r is None <==> d is None)
                &&& (r == Some(Ok::<(), String>(())) <==> d == Some(Ok::<(), Seq<char>>(())))
                &&& (r matches Some(Err(s)) ==> d == Some(Err::<(), Seq<char>>(s@)))
            }),
    {
        let updates = TransactionUpdates { updates: self.transaction_update_stream(client) };
        updates.await_tx_accepted(txid)
    }
}

/// Where a builder takes the client's persistent state from.
pub enum DatabaseSource<M: ClientModule> {
    /// A fresh or previously persisted store.
    Fresh(ClientDb),
    /// The store of an old client, reused on restart without reopening.
    Reuse(Client<M>),
}

/// Configures and creates a [`Client`].
pub struct ClientBuilder<M: ClientModule> {
    pub module_gens: ClientModuleGenRegistry,
    pub primary_module_instance: Option<ModuleInstanceId>,
    pub config: Option<ClientConfig>,
    pub db: Option<DatabaseSource<M>>,
}

impl<M: ClientModule> ClientBuilder<M> {
    /// Replaces the module generator registry entirely.
    pub fn with_module_gens(&mut self, module_gens: ClientModuleGenRegistry)
        ensures
            final(self).module_gens == module_gens,
            final(self).primary_module_instance == old(self).primary_module_instance,
            final(self).config == old(self).config,
            final(self).db == old(self).db,
    {
        self.module_gens = module_gens;
    }

    /// Makes one more module generator available when reading the config.
    pub fn with_module(&mut self, gen_entry: crate::config::ClientModuleGenEntry)
        ensures
            final(self).module_gens.entries@ == old(self).module_gens.entries@.push(gen_entry),
            final(self).primary_module_instance == old(self).primary_module_instance,
            final(self).config == old(self).config,
            final(self).db == old(self).db,
    {
        self.module_gens.attach(gen_entry);
    }

    /// Uses this config to initialize modules. Only one config can be given.
    pub fn with_config(&mut self, config: ClientConfig)
        requires
            old(self).config is None,
        ensures
            final(self).config == Some(config),
            final(self).module_gens == old(self).module_gens,
            final(self).primary_module_instance == old(self).primary_module_instance,
            final(self).db == old(self).db,
    {
        self.config = Some(config);
    }

    /// Designates the instance that balances transactions. Only one primary
    /// module can be given.
    pub fn with_primary_module(&mut self, primary_module_instance: ModuleInstanceId)
        requires
            old(self).primary_module_instance is None,
        ensures
            final(self).primary_module_instance == Some(primary_module_instance),
            final(self).module_gens == old(self).module_gens,
            final(self).config == old(self).config,
            final(self).db == old(self).db,
    {
        self.primary_module_instance = Some(primary_module_instance);
    }

    /// Uses this store for the client state. Only one store can be given.
    pub fn with_database(&mut self, db: ClientDb)
        requires
            old(self).db is None,
        ensures
            final(self).db matches Some(DatabaseSource::Fresh(d)) && d == db,
            final(self).module_gens == old(self).module_gens,
            final(self).config == old(self).config,
            final(self).primary_module_instance == old(self).primary_module_instance,
    {
        self.db = Some(DatabaseSource::Fresh(db));
    }

    /// Reuses the store of an old client, for restarting without reopening.
    /// The new client must use the same config.
    pub fn with_old_client_database(&mut self, client: Client<M>)
        requires
            old(self).db is None,
        ensures
            final(self).db matches Some(DatabaseSource::Reuse(c)) && c == client,
            final(self).module_gens == old(self).module_gens,
            final(self).config == old(self).config,
            final(self).primary_module_instance == old(self).primary_module_instance,
    {
        self.db = Some(DatabaseSource::Reuse(client));
    }

    /// Builds a client around the supplied primary module, without starting
    /// any background work: validates the config, instantiates the modules
    /// of known kinds, hydrates the executor and the operation log from the
    /// store, and draws a root secret if none is stored.
    pub fn build_stopped(self, primary: M) -> (r: Result<Client<M>, ClientError>)
        requires
            self.db matches Some(DatabaseSource::Fresh(d)) ==> d.wf(),
            self.db matches Some(DatabaseSource::Reuse(c)) ==> c.wf(),
            self.config matches Some(cfg) ==> cfg.wf(),
            self.db matches Some(DatabaseSource::Reuse(c)) ==> (self.config matches Some(cfg)
                ==> same_config(&c.config, &cfg)),
        ensures
            self.config is None ==> r == Err::<Client<M>, ClientError>(ClientError::MissingConfig),
            self.config is Some && self.primary_module_instance is None ==> r == Err::<
                Client<M>,
                ClientError,
            >(ClientError::MissingPrimaryModule),
            self.config is Some && self.primary_module_instance is Some && self.db is None ==> r
                == Err::<Client<M>, ClientError>(ClientError::MissingDatabase),
            self.config matches Some(cfg) && self.primary_module_instance matches Some(p)
                && self.db is Some && !primary_ok(&self.module_gens, &cfg, p) ==> r == Err::<
                Client<M>,
                ClientError,
            >(ClientError::UnknownPrimaryModule),
            self.config matches Some(cfg) && self.primary_module_instance matches Some(p)
                && self.db is Some && primary_ok(&self.module_gens, &cfg, p)
                && !primary.supports_primary() ==> r == Err::<Client<M>, ClientError>(
                ClientError::PrimaryModuleNotCapable,
            ),
            self.config matches Some(cfg) && self.primary_module_instance matches Some(p)
                && self.db is Some && primary_ok(&self.module_gens, &cfg, p)
                && primary.supports_primary() ==> r is Ok,
            r matches Ok(c) ==> ({
                &&& c.wf()
                &&& self.config matches Some(cfg) && c.config == cfg
                &&& Some(c.primary_module_instance) == self.primary_module_instance
                &&& c.primary == primary
                &&& c.federation_id == c.config.federation_id
                &&& c.executor.notifier.log@.len() == 0
                &&& (self.db matches Some(DatabaseSource::Fresh(d)) ==> c.executor.active_v()
                    == views_of(d.active_states@) && c.executor.inactive_v() == views_of(
                    d.inactive_states@,
                ) && c.operation_log.entries_v() == d.log_entries@.map_values(
                    |e: OperationLogEntry| e@,
                ) && (d.root_secret matches Some(s) ==> c.root_secret@ == s@))
                &&& (self.db matches Some(DatabaseSource::Reuse(old_c)) ==> c.executor.active_v()
                    == old_c.executor.active_v() && c.executor.inactive_v()
                    == old_c.executor.inactive_v() && c.operation_log.entries_v()
                    == old_c.operation_log.entries_v() && c.root_secret@ == old_c.root_secret@)
                &&& c.decoders.entries_v() == decoders_spec(
                    &self.module_gens,
                    c.config.modules_v(),
                ).push(
                    DecoderEntryV {
                        id: TRANSACTION_SUBMISSION_MODULE_INSTANCE,
                        kind: "tx_submission"@,
                    },
                )
                &&& c.registered@.map_values(
                    |m: RegisteredModule| DecoderEntryV { id: m.id, kind: m.kind@ },
                ) == decoders_spec(&self.module_gens, c.config.modules_v())
                &&& (forall|k: int|
                    0 <= k < c.registered@.len() ==> registered_entry_ok(
                        &self.module_gens,
                        c.config.modules_v(),
                        #[trigger] c.registered@[k],
                    ))
            }),
    {
        let ClientBuilder { module_gens, primary_module_instance, config, db } = self;
        let config = match config {
            Some(c) => c,
            None => {
                return Err(ClientError::MissingConfig);
            },
        };
        let primary_instance = match primary_module_instance {
            Some(p) => p,
            None => {
                return Err(ClientError::MissingPrimaryModule);
            },
        };
        let dbsrc = match db {
            Some(d) => d,
            None => {
                return Err(ClientError::MissingDatabase);
            },
        };
        let mut store: ClientDb = match dbsrc {
            DatabaseSource::Fresh(d) => d,
            DatabaseSource::Reuse(c) => c.into_db(),
        };
        let mut decoders = client_decoders(&module_gens, &config.modules);
        let ghost base_decoders = decoders.entries@;
        decoders.entries.push(
            DecoderEntry {
                id: TRANSACTION_SUBMISSION_MODULE_INSTANCE,
                kind: tx_submission_kind(),
            },
        );
        proof {
            assert forall|k: int| 0 <= k < decoders.entries@.len() implies #[trigger] decoders
                .entries_v()[k] == decoders_spec(
                &module_gens,
                config.modules@.map_values(|e: ModuleConfigEntry| e@),
            ).push(
                DecoderEntryV {
                    id: TRANSACTION_SUBMISSION_MODULE_INSTANCE,
                    kind: "tx_submission"@,
                },
            )[k] by {
                assert(decoders.entries_v()[k] == decoders.entries@[k]@);
                if k < base_decoders.len() {
                    assert(decoders.entries@[k] == base_decoders[k]);
                    assert(base_decoders.map_values(|e: DecoderEntry| e@)[k]
                        == base_decoders[k]@);
                }
            }
            assert(decoders.entries_v() =~= decoders_spec(
                &module_gens,
                config.modules@.map_values(|e: ModuleConfigEntry| e@),
            ).push(
                DecoderEntryV {
                    id: TRANSACTION_SUBMISSION_MODULE_INSTANCE,
                    kind: "tx_submission"@,
                },
            ));
        }
        match config.get_module_config(primary_instance) {
            Some(entry) => {
                let known = module_gens.has_kind(&entry.kind);
                proof {
                    let ev = entry@;
                    if known {
                        let j = choose|j: int|
                            0 <= j < config.modules_v().len() && config.modules_v()[j] == ev;
                        assert(config.modules_v()[j].id == primary_instance);
                        assert(registry_has_kind(&module_gens, config.modules_v()[j].kind));
                        assert(primary_ok(&module_gens, &config, primary_instance));
                    } else {
                        assert forall|j: int|
                            0 <= j < config.modules_v().len() && (
                            #[trigger] config.modules_v()[j]).id
                                == primary_instance implies !registry_has_kind(
                            &module_gens,
                            config.modules_v()[j].kind,
                        ) by {
                            let w = choose|w: int|
                                0 <= w < config.modules_v().len() && config.modules_v()[w] == ev;
                            assert(config.modules_v()[w].id == primary_instance);
                            assert(config.modules_v()[j] == ev);
                        }
                    }
                }
                if !known {
                    return Err(ClientError::UnknownPrimaryModule);
                }
            },
            None => {
                proof {
                    assert(!primary_ok(&module_gens, &config, primary_instance));
                }
                return Err(ClientError::UnknownPrimaryModule);
            },
        }
        if !primary.supports_being_primary() {
            return Err(ClientError::PrimaryModuleNotCapable);
        }
        let ghost cfg_mods = config.modules@.map_values(|e: ModuleConfigEntry| e@);
        let mut registered: Vec<RegisteredModule> = Vec::new();
        let mut i: usize = 0;
        while i < config.modules.len()
            invariant
                cfg_mods == config.modules@.map_values(|e: ModuleConfigEntry| e@),
                0 <= i <= config.modules@.len(),
                registered@.map_values(
                    |m: RegisteredModule| DecoderEntryV { id: m.id, kind: m.kind@ },
                ) =~= decoders_spec(&module_gens, cfg_mods.take(i as int)),
                forall|k: int|
                    0 <= k < registered@.len() ==> registered_entry_ok(
                        &module_gens,
                        cfg_mods,
                        #[trigger] registered@[k],
                    ),
            decreases config.modules@.len() - i,
        {
            proof {
                assert(cfg_mods.take(i + 1).drop_last() =~= cfg_mods.take(i as int));
                assert(cfg_mods.take(i + 1).last() == cfg_mods[i as int]);
                assert(cfg_mods[i as int] == config.modules@[i as int]@);
            }
            match module_gens.get(&config.modules[i].kind) {
                Some(gen_entry) => {
                    let ghost prev_reg = registered@;
                    let ghost gv = *gen_entry;
                    registered.push(
                        RegisteredModule {
                            id: config.modules[i].id,
                            kind: config.modules[i].kind.clone(),
                            version: config.modules[i].version,
                            api_versions: clone_api_versions(&gen_entry.api_versions),
                        },
                    );
                    proof {
                        let regv = registered@.map_values(
                            |m: RegisteredModule| DecoderEntryV { id: m.id, kind: m.kind@ },
                        );
                        assert forall|k: int| 0 <= k < regv.len() implies #[trigger] regv[k]
                            == decoders_spec(&module_gens, cfg_mods.take(i + 1))[k] by {
                            assert(regv[k] == (DecoderEntryV {
                                id: registered@[k].id,
                                kind: registered@[k].kind@,
                            }));
                            if k < prev_reg.len() {
                                assert(registered@[k] == prev_reg[k]);
                                assert(prev_reg.map_values(
                                    |m: RegisteredModule| DecoderEntryV {
                                        id: m.id,
                                        kind: m.kind@,
                                    },
                                )[k] == (DecoderEntryV {
                                    id: prev_reg[k].id,
                                    kind: prev_reg[k].kind@,
                                }));
                            }
                        }
                        assert(regv =~= decoders_spec(&module_gens, cfg_mods.take(i + 1)));
                        let new_k = registered@.len() - 1;
                        assert(registered@[new_k].id == cfg_mods[i as int].id);
                        assert(registered@[new_k].kind@ == cfg_mods[i as int].kind);
                        assert(registered@[new_k].version == cfg_mods[i as int].version);
                        assert(registered@[new_k].api_versions@ == gv.api_versions@);
                        let gi = choose|gi: int|
                            0 <= gi < module_gens.entries@.len() && module_gens.entries@[gi]
                                == gv;
                        assert(module_gens.entries@[gi].kind@ == registered@[new_k].kind@);
                        assert(module_gens.entries@[gi].api_versions@ == registered@[
                            new_k
                        ].api_versions@);
                        assert(registered_entry_ok(&module_gens, cfg_mods, registered@[new_k]));
                        assert forall|k: int|
                            0 <= k < registered@.len() implies registered_entry_ok(
                            &module_gens,
                            cfg_mods,
                            #[trigger] registered@[k],
                        ) by {
                            if k < prev_reg.len() {
                                assert(registered@[k] == prev_reg[k]);
                                assert(registered_entry_ok(&module_gens, cfg_mods, prev_reg[k]));
                            } else {
                                assert(k == new_k);
                            }
                        }
                    }
                },
                None => {},
            }
            i = i + 1;
        }
        proof {
            assert(cfg_mods.take(cfg_mods.len() as int) =~= cfg_mods);
        }
        let root_secret = get_client_root_secret_encoding(&mut store);
        let federation_id = config.federation_id;
        let ClientDb { root_secret: _, active_states, inactive_states, log_entries } = store;
        let executor = Executor::from_records(
            active_states,
            inactive_states,
            Notifier::new(DEFAULT_NOTIFIER_CAPACITY),
        );
        let operation_log = OperationLog::from_entries(log_entries);
        Ok(
            Client {
                config,
                decoders,
                federation_id,
                primary_module_instance: primary_instance,
                registered,
                primary,
                executor,
                operation_log,
                root_secret,
            },
        )
    }

    /// Builds a client around the supplied primary module. Driving the
    /// resulting state machines is the embedder's loop; see
    /// [`Client::drive_tx_submission`].
    pub fn build(self, primary: M) -> (r: Result<Client<M>, ClientError>)
        requires
            self.db matches Some(DatabaseSource::Fresh(d)) ==> d.wf(),
            self.db matches Some(DatabaseSource::Reuse(c)) ==> c.wf(),
            self.config matches Some(cfg) ==> cfg.wf(),
            self.db matches Some(DatabaseSource::Reuse(c)) ==> (self.config matches Some(cfg)
                ==> same_config(&c.config, &cfg)),
        ensures
            self.config is None ==> r == Err::<Client<M>, ClientError>(ClientError::MissingConfig),
            self.config is Some && self.primary_module_instance is None ==> r == Err::<
                Client<M>,
                ClientError,
            >(ClientError::MissingPrimaryModule),
            self.config is Some && self.primary_module_instance is Some && self.db is None ==> r
                == Err::<Client<M>, ClientError>(ClientError::MissingDatabase),
            self.config matches Some(cfg) && self.primary_module_instance matches Some(p)
                && self.db is Some && !primary_ok(&self.module_gens, &cfg, p) ==> r == Err::<
                Client<M>,
                ClientError,
            >(ClientError::UnknownPrimaryModule),
            self.config matches Some(cfg) && self.primary_module_instance matches Some(p)
                && self.db is Some && primary_ok(&self.module_gens, &cfg, p)
                && !primary.supports_primary() ==> r == Err::<Client<M>, ClientError>(
                ClientError::PrimaryModuleNotCapable,
            ),
            self.config matches Some(cfg) && self.primary_module_instance matches Some(p)
                && self.db is Some && primary_ok(&self.module_gens, &cfg, p)
                && primary.supports_primary() ==> r is Ok,
            r matches Ok(c) ==> ({
                &&& c.wf()
                &&& self.config matches Some(cfg) && c.config == cfg
                &&& Some(c.primary_module_instance) == self.primary_module_instance
                &&& c.primary == primary
                &&& c.federation_id == c.config.federation_id
                &&& c.executor.notifier.log@.len() == 0
                &&& (self.db matches Some(DatabaseSource::Fresh(d)) ==> c.executor.active_v()
                    == views_of(d.active_states@) && c.executor.inactive_v() == views_of(
                    d.inactive_states@,
                ) && c.operation_log.entries_v() == d.log_entries@.map_values(
                    |e: OperationLogEntry| e@,
                ) && (d.root_secret matches Some(s) ==> c.root_secret@ == s@))
                &&& (self.db matches Some(DatabaseSource::Reuse(old_c)) ==> c.executor.active_v()
                    == old_c.executor.active_v() && c.executor.inactive_v()
                    == old_c.executor.inactive_v() && c.operation_log.entries_v()
                    == old_c.operation_log.entries_v() && c.root_secret@ == old_c.root_secret@)
                &&& c.decoders.entries_v() == decoders_spec(
                    &self.module_gens,
                    c.config.modules_v(),
                ).push(
                    DecoderEntryV {
                        id: TRANSACTION_SUBMISSION_MODULE_INSTANCE,
                        kind: "tx_submission"@,
                    },
                )
                &&& c.registered@.map_values(
                    |m: RegisteredModule| DecoderEntryV { id: m.id, kind: m.kind@ },
                ) == decoders_spec(&self.module_gens, c.config.modules_v())
                &&& (forall|k: int|
                    0 <= k < c.registered@.len() ==> registered_entry_ok(
                        &self.module_gens,
                        c.config.modules_v(),
                        #[trigger] c.registered@[k],
                    ))
            }),
    {
        self.build_stopped(primary)
    }

    /// Writes the supplied root secret into the store before building, for
    /// restoring a client from a backup.
    pub fn build_restoring_from_backup(self, secret: crate::secret::ClientSecret, primary: M)
        -> (r: Result<Client<M>, ClientError>)
        requires
            self.db matches Some(DatabaseSource::Fresh(d)) ==> d.wf(),
            self.db is Some ==> self.db matches Some(DatabaseSource::Fresh(_)),
            self.config matches Some(cfg) ==> cfg.wf(),
        ensures
            self.config is None ==> r == Err::<Client<M>, ClientError>(ClientError::MissingConfig),
            self.config is Some && self.primary_module_instance is None ==> r == Err::<
                Client<M>,
                ClientError,
            >(ClientError::MissingPrimaryModule),
            self.config is Some && self.primary_module_instance is Some && self.db is None ==> r
                == Err::<Client<M>, ClientError>(ClientError::MissingDatabase),
            self.config matches Some(cfg) && self.primary_module_instance matches Some(p)
                && self.db is Some && !primary_ok(&self.module_gens, &cfg, p) ==> r == Err::<
                Client<M>,
                ClientError,
            >(ClientError::UnknownPrimaryModule),
            self.config matches Some(cfg) && self.primary_module_instance matches Some(p)
                && self.db is Some && primary_ok(&self.module_gens, &cfg, p)
                && !primary.supports_primary() ==> r == Err::<Client<M>, ClientError>(
                ClientError::PrimaryModuleNotCapable,
            ),
            self.config matches Some(cfg) && self.primary_module_instance matches Some(p)
                && self.db is Some && primary_ok(&self.module_gens, &cfg, p)
                && primary.supports_primary() ==> r is Ok,
            r matches Ok(c) ==> ({
                &&& c.wf()
                &&& self.config matches Some(cfg) && c.config == cfg
                &&& Some(c.primary_module_instance) == self.primary_module_instance
                &&& c.primary == primary
                &&& c.federation_id == c.config.federation_id
                &&& c.executor.notifier.log@.len() == 0
                &&& c.root_secret@ == secret@
                &&& (self.db matches Some(DatabaseSource::Fresh(d)) ==> c.executor.active_v()
                    == views_of(d.active_states@) && c.executor.inactive_v() == views_of(
                    d.inactive_states@,
                ) && c.operation_log.entries_v() == d.log_entries@.map_values(
                    |e: OperationLogEntry| e@,
                ))
            }),
    {
        let ClientBuilder { module_gens, primary_module_instance, config, db } = self;
        let db = match db {
            Some(DatabaseSource::Fresh(mut d)) => {
                crate::secret::set_client_root_secret(&mut d, &secret);
                Some(DatabaseSource::Fresh(d))
            },
            Some(DatabaseSource::Reuse(_)) => {
                // Unreachable: restoring is only offered over a fresh store.
                proof {
                    assert(false);
                }
                None
            },
            None => None,
        };
        let rebuilt = ClientBuilder { module_gens, primary_module_instance, config, db };
        proof {
            match rebuilt.db {
                Some(DatabaseSource::Reuse(_)) => {
                    assert(false);
                },
                Some(DatabaseSource::Fresh(_)) => {},
                None => {},
            }
        }
        rebuilt.build_stopped(primary)
    }
}

/// The module kind under which transaction-submission decoders register.
fn tx_submission_kind() -> (r: String)
    ensures
        r@ == "tx_submission"@,
{
    String::from_str("tx_submission")
}

} // verus!
