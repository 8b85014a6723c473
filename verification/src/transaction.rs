//! Transaction building and balancing.
//!
//! A transaction builder accumulates client inputs and client outputs, each
//! carrying the amount and fee its owning module decoded for it, together
//! with the generator of the state machines that will track it through
//! consensus. Balancing compares the input sum against the output sum plus
//! all fees; every sum is overflow-checked in the base amount unit.

use vstd::prelude::*;
use crate::codec::{push_u64_be, sha256, sha256_of, u64_be_bytes};
use crate::errors::ClientError;
use crate::ids::{txid_from_digest, txid_from_digest_spec, ModuleInstanceId, OperationId,
    TransactionId};
use crate::sm::{DynState, DynStateV, ModuleSmState, SmState, SmStateV};

verus! {

/// One input or output of a transaction, as the core sees it: the owning
/// module instance and the amount and fee that module reported for it.
#[derive(Clone, Copy, PartialEq, Eq, Structural, Debug)]
pub struct TxItem {
    pub module_instance_id: ModuleInstanceId,
    /// Value moved by this item, in base amount units.
    pub amount: u64,
    /// Fee charged for this item, in base amount units.
    pub fee: u64,
}

/// Sum of the amounts of a sequence of items.
pub open spec fn sum_amounts(s: Seq<TxItem>) -> int
    decreases s.len(),
{
    if s.len() == 0 {
        0
    } else {
        sum_amounts(s.drop_last()) + s.last().amount
    }
}

/// Sum of the fees of a sequence of items.
pub open spec fn sum_fees(s: Seq<TxItem>) -> int
    decreases s.len(),
{
    if s.len() == 0 {
        0
    } else {
        sum_fees(s.drop_last()) + s.last().fee
    }
}

pub proof fn lemma_sum_take_step(s: Seq<TxItem>, i: int)
    requires
        0 <= i < s.len(),
    ensures
        sum_amounts(s.take(i + 1)) == sum_amounts(s.take(i)) + s[i].amount,
        sum_fees(s.take(i + 1)) == sum_fees(s.take(i)) + s[i].fee,
{
    assert(s.take(i + 1).drop_last() =~= s.take(i));
    assert(s.take(i + 1).last() == s[i]);
}

pub proof fn lemma_sum_full(s: Seq<TxItem>)
    ensures
        sum_amounts(s.take(s.len() as int)) == sum_amounts(s),
        sum_fees(s.take(s.len() as int)) == sum_fees(s),
{
    assert(s.take(s.len() as int) =~= s);
}

/// Amounts are non-negative, so every sum is.
pub proof fn lemma_sum_nonneg(s: Seq<TxItem>)
    ensures
        sum_amounts(s) >= 0,
        sum_fees(s) >= 0,
    decreases s.len(),
{
    if s.len() > 0 {
        lemma_sum_nonneg(s.drop_last());
    }
}

/// A finalized transaction: inputs, outputs and one witness per input.
/// The witnesses are excluded from the content-addressed id.
pub struct Transaction {
    pub inputs: Vec<TxItem>,
    pub outputs: Vec<TxItem>,
    pub witnesses: Vec<Vec<u8>>,
}

/// Mathematical value of a [`Transaction`].
#[verifier::ext_equal]
pub ghost struct TransactionV {
    pub inputs: Seq<TxItem>,
    pub outputs: Seq<TxItem>,
    pub witnesses: Seq<Seq<u8>>,
}

impl View for Transaction {
    type V = TransactionV;

    open spec fn view(&self) -> TransactionV {
        TransactionV {
            inputs: self.inputs@,
            outputs: self.outputs@,
            witnesses: self.witnesses.deep_view(),
        }
    }
}

/// Balance closure: the input sum covers exactly the output sum plus every
/// input and output fee.
pub open spec fn tx_balanced(t: TransactionV) -> bool {
    sum_amounts(t.inputs) == sum_amounts(t.outputs) + sum_fees(t.inputs) + sum_fees(t.outputs)
}

/// Canonical encoding of one item: instance id, amount and fee, big-endian.
pub open spec fn encode_item(i: TxItem) -> Seq<u8> {
    u64_be_bytes(i.module_instance_id as u64) + u64_be_bytes(i.amount) + u64_be_bytes(i.fee)
}

/// Canonical encoding of a list of items, in order.
pub open spec fn encode_items(s: Seq<TxItem>) -> Seq<u8>
    decreases s.len(),
{
    if s.len() == 0 {
        Seq::empty()
    } else {
        encode_items(s.drop_last()) + encode_item(s.last())
    }
}

pub proof fn lemma_encode_items_take_step(s: Seq<TxItem>, i: int)
    requires
        0 <= i < s.len(),
    ensures
        encode_items(s.take(i + 1)) =~= encode_items(s.take(i)) + encode_item(s[i]),
{
    assert(s.take(i + 1).drop_last() =~= s.take(i));
    assert(s.take(i + 1).last() == s[i]);
}

/// Canonical encoding of a transaction's content: the two list lengths, then
/// the items of each list. Witnesses are not encoded.
pub open spec fn encode_tx_content(inputs: Seq<TxItem>, outputs: Seq<TxItem>) -> Seq<u8> {
    u64_be_bytes(inputs.len() as u64) + u64_be_bytes(outputs.len() as u64) + encode_items(inputs)
        + encode_items(outputs)
}

/// The content-addressed transaction id: digest of the canonical encoding.
pub open spec fn txid_spec(inputs: Seq<TxItem>, outputs: Seq<TxItem>) -> TransactionId {
    txid_from_digest_spec(sha256_of(encode_tx_content(inputs, outputs)))
}

/// Appends the canonical encoding of `items` to `out`.
fn push_items(out: &mut Vec<u8>, items: &Vec<TxItem>)
    ensures
        final(out)@ == old(out)@ + encode_items(items@),
{
    let ghost base = out@;
    let mut i: usize = 0;
    while i < items.len()
        invariant
            0 <= i <= items@.len(),
            out@ == base + encode_items(items@.take(i as int)),
        decreases items@.len() - i,
    {
        push_u64_be(out, items[i].module_instance_id as u64);
        push_u64_be(out, items[i].amount);
        push_u64_be(out, items[i].fee);
        proof {
            lemma_encode_items_take_step(items@, i as int);
            assert(out@ =~= base + encode_items(items@.take(i + 1)));
        }
        i = i + 1;
    }
    proof {
        assert(items@.take(items@.len() as int) =~= items@);
    }
}

/// Serializes a transaction's content canonically and digests it.
pub fn transaction_id(inputs: &Vec<TxItem>, outputs: &Vec<TxItem>) -> (r: TransactionId)
    ensures
        r == txid_spec(inputs@, outputs@),
{
    let mut bytes: Vec<u8> = Vec::new();
    push_u64_be(&mut bytes, inputs.len() as u64);
    push_u64_be(&mut bytes, outputs.len() as u64);
    push_items(&mut bytes, inputs);
    push_items(&mut bytes, outputs);
    proof {
        assert(bytes@ =~= encode_tx_content(inputs@, outputs@));
    }
    let digest = sha256(&bytes);
    txid_from_digest(&digest)
}

/// Deferred description of the state machines tracking one input or output.
/// Once the transaction id and the item index are known, each template is
/// instantiated into one state machine bound to that outpoint.
#[derive(Clone, Copy, PartialEq, Eq, Structural, Debug)]
pub struct StateTemplate {
    /// Opaque module-decoded payload of the initial state.
    pub payload: u64,
    /// Whether the initial state is already terminal.
    pub terminal: bool,
}

/// A list of state templates; the module supplies it with each input or
/// output it hands to the builder.
pub struct StateGenerator {
    pub templates: Vec<StateTemplate>,
}

/// The states a generator produces for a given transaction id and index.
pub open spec fn generate_spec(templates: Seq<StateTemplate>, txid: TransactionId, out_idx: u64)
    -> Seq<ModuleSmState> {
    templates.map_values(
        |t: StateTemplate| ModuleSmState {
            payload: t.payload,
            txid,
            out_idx,
            terminal: t.terminal,
        },
    )
}

impl StateGenerator {
    /// A generator producing no state machines.
    pub fn none() -> (r: StateGenerator)
        ensures
            r.templates@ =~= Seq::<StateTemplate>::empty(),
    {
        StateGenerator { templates: Vec::new() }
    }

    /// Instantiates every template with the transaction id and item index.
    pub fn generate(&self, txid: TransactionId, out_idx: u64) -> (r: Vec<ModuleSmState>)
        ensures
            r@ == generate_spec(self.templates@, txid, out_idx),
    {
        let mut out: Vec<ModuleSmState> = Vec::new();
        let mut i: usize = 0;
        while i < self.templates.len()
            invariant
                0 <= i <= self.templates@.len(),
                out@ =~= generate_spec(self.templates@, txid, out_idx).take(i as int),
            decreases self.templates@.len() - i,
        {
            let t = self.templates[i];
            out.push(
                ModuleSmState {
                    payload: t.payload,
                    txid,
                    out_idx,
                    terminal: t.terminal,
                },
            );
            i = i + 1;
        }
        proof {
            assert(out@ =~= generate_spec(self.templates@, txid, out_idx));
        }
        out
    }
}

/// An input a module contributed: its decoded item, the spending keys that
/// will witness it, and the generator of its tracking state machines.
pub struct ClientInput {
    pub item: TxItem,
    /// Spending key material, one 32-byte secret key per entry.
    pub keys: Vec<Vec<u8>>,
    pub state_machines: StateGenerator,
}

/// An output a module contributed, with the generator of its tracking state
/// machines.
pub struct ClientOutput {
    pub item: TxItem,
    pub state_machines: StateGenerator,
}

/// The items of a sequence of client inputs.
pub open spec fn input_items(s: Seq<ClientInput>) -> Seq<TxItem> {
    s.map_values(|ci: ClientInput| ci.item)
}

/// The items of a sequence of client outputs.
pub open spec fn output_items(s: Seq<ClientOutput>) -> Seq<TxItem> {
    s.map_values(|co: ClientOutput| co.item)
}

/// Whether a transaction builder is balanced, and by how much it misses.
#[derive(Clone, Copy, PartialEq, Eq, Structural, Debug)]
pub enum TransactionBuilderBalance {
    Balanced,
    Overfunded(u64),
    Underfunded(u64),
}

/// Ephemeral accumulator of the inputs and outputs of one transaction.
pub struct TransactionBuilder {
    pub inputs: Vec<ClientInput>,
    pub outputs: Vec<ClientOutput>,
}

/// Input sum of a builder.
pub open spec fn builder_in_sum(b: &TransactionBuilder) -> int {
    sum_amounts(input_items(b.inputs@))
}

/// Output sum plus all fees of a builder.
pub open spec fn builder_out_and_fee_sum(b: &TransactionBuilder) -> int {
    sum_amounts(output_items(b.outputs@)) + sum_fees(input_items(b.inputs@)) + sum_fees(
        output_items(b.outputs@))
}

/// Whether every sum of the builder fits the base amount unit.
pub open spec fn builder_sums_fit(b: &TransactionBuilder) -> bool {
    builder_in_sum(b) <= u64::MAX && builder_out_and_fee_sum(b) <= u64::MAX
}

/// The balance a builder's sums denote, assuming they fit.
pub open spec fn builder_balance_spec(b: &TransactionBuilder) -> TransactionBuilderBalance {
    if builder_in_sum(b) == builder_out_and_fee_sum(b) {
        TransactionBuilderBalance::Balanced
    } else if builder_in_sum(b) > builder_out_and_fee_sum(b) {
        TransactionBuilderBalance::Overfunded((builder_in_sum(b) - builder_out_and_fee_sum(b)) as u64)
    } else {
        TransactionBuilderBalance::Underfunded(
            (builder_out_and_fee_sum(b) - builder_in_sum(b)) as u64)
    }
}

impl TransactionBuilder {
    /// An empty builder.
    pub fn new() -> (r: TransactionBuilder)
        ensures
            r.inputs@ =~= Seq::<ClientInput>::empty(),
            r.outputs@ =~= Seq::<ClientOutput>::empty(),
    {
        TransactionBuilder { inputs: Vec::new(), outputs: Vec::new() }
    }

    /// Appends an input.
    pub fn with_input(self, input: ClientInput) -> (r: TransactionBuilder)
        ensures
            r.inputs@ == self.inputs@.push(input),
            r.outputs@ == self.outputs@,
    {
        let mut inputs = self.inputs;
        inputs.push(input);
        TransactionBuilder { inputs, outputs: self.outputs }
    }

    /// Appends an output.
    pub fn with_output(self, output: ClientOutput) -> (r: TransactionBuilder)
        ensures
            r.outputs@ == self.outputs@.push(output),
            r.inputs@ == self.inputs@,
    {
        let mut outputs = self.outputs;
        outputs.push(output);
        TransactionBuilder { inputs: self.inputs, outputs }
    }
}

/// Determines whether the builder is underfunded, overfunded or balanced.
///
/// Every sum is overflow-checked: a content whose sums exceed the base
/// amount unit is rejected rather than wrapped.
pub fn transaction_builder_balance(builder: &TransactionBuilder) -> (r: Result<
    TransactionBuilderBalance,
    ClientError,
>)
    ensures
        r is Ok <==> builder_sums_fit(builder),
        r is Ok ==> r == Ok::<_, ClientError>(builder_balance_spec(builder)),
        r is Err ==> r == Err::<TransactionBuilderBalance, _>(ClientError::AmountOverflow),
{
    proof {
        lemma_sum_nonneg(input_items(builder.inputs@));
        lemma_sum_nonneg(output_items(builder.outputs@));
    }
    let in_amount = match sum_input_amounts(&builder.inputs) {
        Some(v) => v,
        None => {
            return Err(ClientError::AmountOverflow);
        },
    };
    let in_fees = match sum_input_fees(&builder.inputs) {
        Some(v) => v,
        None => {
            proof {
                lemma_sum_nonneg(output_items(builder.outputs@));
            }
            return Err(ClientError::AmountOverflow);
        },
    };
    let out_amount = match sum_output_amounts(&builder.outputs) {
        Some(v) => v,
        None => {
            return Err(ClientError::AmountOverflow);
        },
    };
    let out_fees = match sum_output_fees(&builder.outputs) {
        Some(v) => v,
        None => {
            return Err(ClientError::AmountOverflow);
        },
    };
    let partial = match out_amount.checked_add(in_fees) {
        Some(v) => v,
        None => {
            return Err(ClientError::AmountOverflow);
        },
    };
    let total_out = match partial.checked_add(out_fees) {
        Some(v) => v,
        None => {
            return Err(ClientError::AmountOverflow);
        },
    };
    if in_amount == total_out {
        Ok(TransactionBuilderBalance::Balanced)
    } else if in_amount > total_out {
        Ok(TransactionBuilderBalance::Overfunded(in_amount - total_out))
    } else {
        Ok(TransactionBuilderBalance::Underfunded(total_out - in_amount))
    }
}

/// Checked sum of the input amounts.
fn sum_input_amounts(inputs: &Vec<ClientInput>) -> (r: Option<u64>)
    ensures
        r is Some <==> sum_amounts(input_items(inputs@)) <= u64::MAX,
        r is Some ==> r.unwrap() == sum_amounts(input_items(inputs@)),
{
    let ghost items = input_items(inputs@);
    proof {
        lemma_sum_nonneg(items);
    }
    let mut acc: u64 = 0;
    let mut i: usize = 0;
    while i < inputs.len()
        invariant
            0 <= i <= inputs@.len(),
            items == input_items(inputs@),
            acc == sum_amounts(items.take(i as int)),
        decreases inputs@.len() - i,
    {
        proof {
            lemma_sum_take_step(items, i as int);
            lemma_sum_partial_le(items, i as int + 1);
        }
        acc = match acc.checked_add(inputs[i].item.amount) {
            Some(v) => v,
            None => {
                return None;
            },
        };
        i = i + 1;
    }
    proof {
        lemma_sum_full(items);
    }
    Some(acc)
}

/// Checked sum of the input fees.
fn sum_input_fees(inputs: &Vec<ClientInput>) -> (r: Option<u64>)
    ensures
        r is Some <==> sum_fees(input_items(inputs@)) <= u64::MAX,
        r is Some ==> r.unwrap() == sum_fees(input_items(inputs@)),
{
    let ghost items = input_items(inputs@);
    proof {
        lemma_sum_nonneg(items);
    }
    let mut acc: u64 = 0;
    let mut i: usize = 0;
    while i < inputs.len()
        invariant
            0 <= i <= inputs@.len(),
            items == input_items(inputs@),
            acc == sum_fees(items.take(i as int)),
        decreases inputs@.len() - i,
    {
        proof {
            lemma_sum_take_step(items, i as int);
            lemma_sum_partial_le(items, i as int + 1);
        }
        acc = match acc.checked_add(inputs[i].item.fee) {
            Some(v) => v,
            None => {
                return None;
            },
        };
        i = i + 1;
    }
    proof {
        lemma_sum_full(items);
    }
    Some(acc)
}

/// Checked sum of the output amounts.
fn sum_output_amounts(outputs: &Vec<ClientOutput>) -> (r: Option<u64>)
    ensures
        r is Some <==> sum_amounts(output_items(outputs@)) <= u64::MAX,
        r is Some ==> r.unwrap() == sum_amounts(output_items(outputs@)),
{
    let ghost items = output_items(outputs@);
    proof {
        lemma_sum_nonneg(items);
    }
    let mut acc: u64 = 0;
    let mut i: usize = 0;
    while i < outputs.len()
        invariant
            0 <= i <= outputs@.len(),
            items == output_items(outputs@),
            acc == sum_amounts(items.take(i as int)),
        decreases outputs@.len() - i,
    {
        proof {
            lemma_sum_take_step(items, i as int);
            lemma_sum_partial_le(items, i as int + 1);
        }
        acc = match acc.checked_add(outputs[i].item.amount) {
            Some(v) => v,
            None => {
                return None;
            },
        };
        i = i + 1;
    }
    proof {
        lemma_sum_full(items);
    }
    Some(acc)
}

/// Checked sum of the output fees.
fn sum_output_fees(outputs: &Vec<ClientOutput>) -> (r: Option<u64>)
    ensures
        r is Some <==> sum_fees(output_items(outputs@)) <= u64::MAX,
        r is Some ==> r.unwrap() == sum_fees(output_items(outputs@)),
{
    let ghost items = output_items(outputs@);
    proof {
        lemma_sum_nonneg(items);
    }
    let mut acc: u64 = 0;
    let mut i: usize = 0;
    while i < outputs.len()
        invariant
            0 <= i <= outputs@.len(),
            items == output_items(outputs@),
            acc == sum_fees(items.take(i as int)),
        decreases outputs@.len() - i,
    {
        proof {
            lemma_sum_take_step(items, i as int);
            lemma_sum_partial_le(items, i as int + 1);
        }
        acc = match acc.checked_add(outputs[i].item.fee) {
            Some(v) => v,
            None => {
                return None;
            },
        };
        i = i + 1;
    }
    proof {
        lemma_sum_full(items);
    }
    Some(acc)
}

/// A prefix sum never exceeds the full sum.
pub proof fn lemma_sum_partial_le(s: Seq<TxItem>, i: int)
    requires
        0 <= i <= s.len(),
    ensures
        sum_amounts(s.take(i)) <= sum_amounts(s),
        sum_fees(s.take(i)) <= sum_fees(s),
    decreases s.len() - i,
{
    if i < s.len() {
        lemma_sum_take_step(s, i);
        lemma_sum_nonneg(s.take(i));
        lemma_sum_partial_le(s, i + 1);
    } else {
        lemma_sum_full(s);
    }
}


/// The record a generated state becomes: tagged with the originating module
/// instance and the operation.
pub open spec fn module_state_record(
    m: ModuleSmState,
    instance: ModuleInstanceId,
    op: OperationId,
) -> DynStateV {
    DynStateV { module_instance_id: instance, operation_id: op, state: SmStateV::Module(m) }
}

/// The records an input's generator contributes.
pub open spec fn input_record_seq(input: ClientInput, op: OperationId, txid: TransactionId,
    idx: u64) -> Seq<DynStateV> {
    generate_spec(input.state_machines.templates@, txid, idx).map_values(
        |m: ModuleSmState| module_state_record(m, input.item.module_instance_id, op),
    )
}

/// The records an output's generator contributes.
pub open spec fn output_record_seq(output: ClientOutput, op: OperationId, txid: TransactionId,
    idx: u64) -> Seq<DynStateV> {
    generate_spec(output.state_machines.templates@, txid, idx).map_values(
        |m: ModuleSmState| module_state_record(m, output.item.module_instance_id, op),
    )
}

/// All records contributed by the inputs, in input order.
pub open spec fn input_states_spec(inputs: Seq<ClientInput>, op: OperationId, txid: TransactionId)
    -> Seq<DynStateV>
    decreases inputs.len(),
{
    if inputs.len() == 0 {
        Seq::empty()
    } else {
        input_states_spec(inputs.drop_last(), op, txid) + input_record_seq(
            inputs.last(),
            op,
            txid,
            (inputs.len() - 1) as u64,
        )
    }
}

/// All records contributed by the outputs, in output order.
pub open spec fn output_states_spec(
    outputs: Seq<ClientOutput>,
    op: OperationId,
    txid: TransactionId,
) -> Seq<DynStateV>
    decreases outputs.len(),
{
    if outputs.len() == 0 {
        Seq::empty()
    } else {
        output_states_spec(outputs.drop_last(), op, txid) + output_record_seq(
            outputs.last(),
            op,
            txid,
            (outputs.len() - 1) as u64,
        )
    }
}

/// Every record the builder's generators produce: input records first, then
/// output records.
pub open spec fn built_states_spec(
    inputs: Seq<ClientInput>,
    outputs: Seq<ClientOutput>,
    op: OperationId,
    txid: TransactionId,
) -> Seq<DynStateV> {
    input_states_spec(inputs, op, txid) + output_states_spec(outputs, op, txid)
}

pub proof fn lemma_input_states_take_step(
    inputs: Seq<ClientInput>,
    op: OperationId,
    txid: TransactionId,
    i: int,
)
    requires
        0 <= i < inputs.len(),
    ensures
        input_states_spec(inputs.take(i + 1), op, txid) == input_states_spec(
            inputs.take(i), op, txid) + input_record_seq(inputs[i], op, txid, i as u64),
{
    assert(inputs.take(i + 1).drop_last() =~= inputs.take(i));
    assert(inputs.take(i + 1).last() == inputs[i]);
}

pub proof fn lemma_output_states_take_step(
    outputs: Seq<ClientOutput>,
    op: OperationId,
    txid: TransactionId,
    i: int,
)
    requires
        0 <= i < outputs.len(),
    ensures
        output_states_spec(outputs.take(i + 1), op, txid) == output_states_spec(
            outputs.take(i), op, txid) + output_record_seq(outputs[i], op, txid, i as u64),
{
    assert(outputs.take(i + 1).drop_last() =~= outputs.take(i));
    assert(outputs.take(i + 1).last() == outputs[i]);
}

/// Serializes a transaction's content canonically and returns the 32-byte
/// digest it is addressed by.
pub fn transaction_digest(inputs: &Vec<TxItem>, outputs: &Vec<TxItem>) -> (r: Vec<u8>)
    ensures
        r@ == sha256_of(encode_tx_content(inputs@, outputs@)),
        r@.len() == 32,
{
    let mut bytes: Vec<u8> = Vec::new();
    push_u64_be(&mut bytes, inputs.len() as u64);
    push_u64_be(&mut bytes, outputs.len() as u64);
    push_items(&mut bytes, inputs);
    push_items(&mut bytes, outputs);
    proof {
        assert(bytes@ =~= encode_tx_content(inputs@, outputs@));
    }
    sha256(&bytes)
}


/// Appends one record per generated state, tagging each with the module
/// instance and operation.
fn append_records(
    states: &mut Vec<DynState>,
    generated: &Vec<ModuleSmState>,
    instance: ModuleInstanceId,
    operation_id: OperationId,
)
    ensures
        crate::executor::views_of(final(states)@) == crate::executor::views_of(old(states)@)
            + generated@.map_values(
            |m: ModuleSmState| module_state_record(m, instance, operation_id),
        ),
{
    let ghost base = crate::executor::views_of(states@);
    let ghost mapped = generated@.map_values(
        |m: ModuleSmState| module_state_record(m, instance, operation_id),
    );
    let mut j: usize = 0;
    while j < generated.len()
        invariant
            0 <= j <= generated@.len(),
            mapped == generated@.map_values(
                |m: ModuleSmState| module_state_record(m, instance, operation_id),
            ),
            states@.len() == base.len() + j,
            crate::executor::views_of(states@) =~= base + mapped.take(j as int),
        decreases generated@.len() - j,
    {
        let ghost prev = states@;
        states.push(
            DynState {
                module_instance_id: instance,
                operation_id,
                state: SmState::Module(generated[j]),
            },
        );
        proof {
            assert forall|k: int|
                0 <= k < states@.len() implies #[trigger] crate::executor::views_of(states@)[k]
                == (base + mapped.take(j as int + 1))[k] by {
                assert(crate::executor::views_of(states@)[k] == states@[k]@);
                if k < prev.len() {
                    assert(states@[k] == prev[k]);
                    assert(crate::executor::views_of(prev)[k] == prev[k]@);
                } else {
                    assert(states@[k]@ =~= module_state_record(
                        generated@[j as int],
                        instance,
                        operation_id,
                    ));
                    assert(mapped[j as int] == module_state_record(
                        generated@[j as int],
                        instance,
                        operation_id,
                    ));
                }
            }
            assert(crate::executor::views_of(states@) =~= base + mapped.take(j as int + 1));
        }
        j = j + 1;
    }
    proof {
        assert(mapped.take(mapped.len() as int) =~= mapped);
    }
}

impl TransactionBuilder {
    /// Finalizes the builder: computes the content-addressed transaction id,
    /// witnesses every input that carries keys, and instantiates every state
    /// generator with the id and the item index.
    pub fn build(self, operation_id: OperationId) -> (r: Result<
        (Transaction, Vec<DynState>),
        ClientError,
    >)
        ensures
            r matches Ok((tx, states)) ==> ({
                let txid = txid_spec(input_items(self.inputs@), output_items(self.outputs@));
                &&& tx@.inputs == input_items(self.inputs@)
                &&& tx@.outputs == output_items(self.outputs@)
                &&& tx@.witnesses.len() == self.inputs@.len()
                &&& crate::executor::views_of(states@) == built_states_spec(
                    self.inputs@,
                    self.outputs@,
                    operation_id,
                    txid,
                )
            }),
            r is Err ==> r == Err::<(Transaction, Vec<DynState>), ClientError>(
                ClientError::InvalidKey,
            ),
            (forall|i: int|
                0 <= i < self.inputs@.len() ==> (#[trigger] self.inputs@[i]).keys@.len() == 0)
                ==> r is Ok,
    {
        let mut items_in: Vec<TxItem> = Vec::new();
        let mut i: usize = 0;
        while i < self.inputs.len()
            invariant
                0 <= i <= self.inputs@.len(),
                items_in@ =~= input_items(self.inputs@).take(i as int),
            decreases self.inputs@.len() - i,
        {
            items_in.push(self.inputs[i].item);
            proof {
                assert(input_items(self.inputs@)[i as int] == self.inputs@[i as int].item);
            }
            i = i + 1;
        }
        proof {
            assert(items_in@ =~= input_items(self.inputs@));
        }
        let mut items_out: Vec<TxItem> = Vec::new();
        let mut o: usize = 0;
        while o < self.outputs.len()
            invariant
                0 <= o <= self.outputs@.len(),
                items_out@ =~= output_items(self.outputs@).take(o as int),
            decreases self.outputs@.len() - o,
        {
            items_out.push(self.outputs[o].item);
            proof {
                assert(output_items(self.outputs@)[o as int] == self.outputs@[o as int].item);
            }
            o = o + 1;
        }
        proof {
            assert(items_out@ =~= output_items(self.outputs@));
        }
        let digest = transaction_digest(&items_in, &items_out);
        let txid = crate::ids::txid_from_digest(&digest);
        let ghost txid_g = txid_spec(input_items(self.inputs@), output_items(self.outputs@));
        proof {
            assert(txid == txid_g);
        }
        let mut witnesses: Vec<Vec<u8>> = Vec::new();
        let mut w: usize = 0;
        while w < self.inputs.len()
            invariant
                0 <= w <= self.inputs@.len(),
                witnesses@.len() == w,
                digest@.len() == 32,
            decreases self.inputs@.len() - w,
        {
            if self.inputs[w].keys.len() == 0 {
                witnesses.push(Vec::new());
            } else {
                let kp = match crate::crypto::keypair_from_seckey_bytes(&self.inputs[w].keys[0]) {
                    Ok(kp) => kp,
                    Err(_) => {
                        return Err(ClientError::InvalidKey);
                    },
                };
                witnesses.push(crate::crypto::schnorr_sign_digest(&kp, &digest));
            }
            w = w + 1;
        }
        let mut states: Vec<DynState> = Vec::new();
        let mut si: usize = 0;
        while si < self.inputs.len()
            invariant
                0 <= si <= self.inputs@.len(),
                txid == txid_g,
                crate::executor::views_of(states@) =~= input_states_spec(
                    self.inputs@.take(si as int),
                    operation_id,
                    txid_g,
                ),
            decreases self.inputs@.len() - si,
        {
            let generated = self.inputs[si].state_machines.generate(txid, si as u64);
            let instance = self.inputs[si].item.module_instance_id;
            append_records(&mut states, &generated, instance, operation_id);
            proof {
                assert(generated@.map_values(
                    |m: ModuleSmState| module_state_record(m, instance, operation_id),
                ) == input_record_seq(self.inputs@[si as int], operation_id, txid_g, si as u64));
                lemma_input_states_take_step(self.inputs@, operation_id, txid_g, si as int);
            }
            si = si + 1;
        }
        proof {
            assert(self.inputs@.take(self.inputs@.len() as int) =~= self.inputs@);
        }
        let ghost inputs_done = crate::executor::views_of(states@);
        let mut so: usize = 0;
        while so < self.outputs.len()
            invariant
                0 <= so <= self.outputs@.len(),
                txid == txid_g,
                inputs_done == input_states_spec(self.inputs@, operation_id, txid_g),
                crate::executor::views_of(states@) =~= inputs_done + output_states_spec(
                    self.outputs@.take(so as int),
                    operation_id,
                    txid_g,
                ),
            decreases self.outputs@.len() - so,
        {
            let generated = self.outputs[so].state_machines.generate(txid, so as u64);
            let instance = self.outputs[so].item.module_instance_id;
            append_records(&mut states, &generated, instance, operation_id);
            proof {
                assert(generated@.map_values(
                    |m: ModuleSmState| module_state_record(m, instance, operation_id),
                ) == output_record_seq(self.outputs@[so as int], operation_id, txid_g, so as u64));
                lemma_output_states_take_step(self.outputs@, operation_id, txid_g, so as int);
            }
            so = so + 1;
        }
        proof {
            assert(self.outputs@.take(self.outputs@.len() as int) =~= self.outputs@);
            assert(crate::executor::views_of(states@) =~= built_states_spec(
                self.inputs@,
                self.outputs@,
                operation_id,
                txid_g,
            ));
        }
        let tx = Transaction { inputs: items_in, outputs: items_out, witnesses };
        Ok((tx, states))
    }
}


pub proof fn lemma_sum_push(s: Seq<TxItem>, x: TxItem)
    ensures
        sum_amounts(s.push(x)) == sum_amounts(s) + x.amount,
        sum_fees(s.push(x)) == sum_fees(s) + x.fee,
{
    assert(s.push(x).drop_last() =~= s);
}

pub proof fn lemma_input_items_push(s: Seq<ClientInput>, ci: ClientInput)
    ensures
        input_items(s.push(ci)) =~= input_items(s).push(ci.item),
{
    assert forall|k: int| 0 <= k < s.push(ci).len() implies #[trigger] input_items(s.push(ci))[k]
        == input_items(s).push(ci.item)[k] by {
        assert(input_items(s.push(ci))[k] == s.push(ci)[k].item);
        if k < s.len() {
            assert(input_items(s)[k] == s[k].item);
        }
    }
}

pub proof fn lemma_output_items_push(s: Seq<ClientOutput>, co: ClientOutput)
    ensures
        output_items(s.push(co)) =~= output_items(s).push(co.item),
{
    assert forall|k: int| 0 <= k < s.push(co).len() implies #[trigger] output_items(s.push(co))[k]
        == output_items(s).push(co.item)[k] by {
        assert(output_items(s.push(co))[k] == s.push(co)[k].item);
        if k < s.len() {
            assert(output_items(s)[k] == s[k].item);
        }
    }
}


/// Every record a builder generates belongs to the operation and carries a
/// module-owned state.
pub proof fn lemma_input_states_records(inputs: Seq<ClientInput>, op: OperationId,
    txid: TransactionId)
    ensures
        forall|k: int|
            0 <= k < input_states_spec(inputs, op, txid).len() ==> (#[trigger] input_states_spec(
                inputs, op, txid)[k]).operation_id == op && input_states_spec(inputs, op, txid)[
                k
            ].state is Module,
    decreases inputs.len(),
{
    if inputs.len() > 0 {
        lemma_input_states_records(inputs.drop_last(), op, txid);
        let tail = input_record_seq(inputs.last(), op, txid, (inputs.len() - 1) as u64);
        assert forall|k: int| 0 <= k < tail.len() implies (#[trigger] tail[k]).operation_id == op
            && tail[k].state is Module by {
            assert(tail[k] == module_state_record(
                generate_spec(
                    inputs.last().state_machines.templates@,
                    txid,
                    (inputs.len() - 1) as u64,
                )[k],
                inputs.last().item.module_instance_id,
                op,
            ));
        }
    }
}

/// Every record a builder generates belongs to the operation and carries a
/// module-owned state.
pub proof fn lemma_output_states_records(outputs: Seq<ClientOutput>, op: OperationId,
    txid: TransactionId)
    ensures
        forall|k: int|
            0 <= k < output_states_spec(outputs, op, txid).len() ==> (
            #[trigger] output_states_spec(outputs, op, txid)[k]).operation_id == op
                && output_states_spec(outputs, op, txid)[k].state is Module,
    decreases outputs.len(),
{
    if outputs.len() > 0 {
        lemma_output_states_records(outputs.drop_last(), op, txid);
        let tail = output_record_seq(outputs.last(), op, txid, (outputs.len() - 1) as u64);
        assert forall|k: int| 0 <= k < tail.len() implies (#[trigger] tail[k]).operation_id == op
            && tail[k].state is Module by {
            assert(tail[k] == module_state_record(
                generate_spec(
                    outputs.last().state_machines.templates@,
                    txid,
                    (outputs.len() - 1) as u64,
                )[k],
                outputs.last().item.module_instance_id,
                op,
            ));
        }
    }
}

/// Every record a builder generates belongs to the operation and carries a
/// module-owned state.
pub proof fn lemma_built_states_records(
    inputs: Seq<ClientInput>,
    outputs: Seq<ClientOutput>,
    op: OperationId,
    txid: TransactionId,
)
    ensures
        forall|k: int|
            0 <= k < built_states_spec(inputs, outputs, op, txid).len() ==> (
            #[trigger] built_states_spec(inputs, outputs, op, txid)[k]).operation_id == op
                && built_states_spec(inputs, outputs, op, txid)[k].state is Module,
{
    lemma_input_states_records(inputs, op, txid);
    lemma_output_states_records(outputs, op, txid);
}

} // verus!
