//! Unit tests of the individual components: balancing arithmetic, the
//! submission state machine, the operation log, the notifier, the executor
//! and the codec.

use fedimint_client::codec::{push_u64_be, u64_from_be};
use fedimint_client::config::{
    ApiVersion, ClientModuleGenEntry, ClientModuleGenRegistry, ModuleConfigEntry, MultiApiVersion,
    client_decoders,
};
use fedimint_client::errors::ClientError;
use fedimint_client::executor::{contains_state, Executor};
use fedimint_client::ids::{OperationId, TransactionId, TRANSACTION_SUBMISSION_MODULE_INSTANCE};
use fedimint_client::notifier::Notifier;
use fedimint_client::oplog::OperationLog;
use fedimint_client::sm::{
    backoff, bytes_eq, dyn_state_eq, tx_submission_step, DynState, ModuleSmState, SmState,
    TxSubmissionEvent, TxSubmissionStates,
};
use fedimint_client::transaction::{
    transaction_builder_balance, transaction_id, ClientInput, ClientOutput, StateGenerator,
    StateTemplate, TransactionBuilder, TransactionBuilderBalance, TxItem,
};

fn op(n: u64) -> OperationId {
    OperationId::from_words(n, 0, 0, 0)
}

fn txid(n: u64) -> TransactionId {
    TransactionId { w0: n, w1: 0, w2: 0, w3: 0 }
}

fn module_record(operation: OperationId, payload: u64) -> DynState {
    DynState {
        module_instance_id: 1,
        operation_id: operation,
        state: SmState::Module(ModuleSmState {
            payload,
            txid: txid(0),
            out_idx: 0,
            terminal: false,
        }),
    }
}

fn input(amount: u64, fee: u64) -> ClientInput {
    ClientInput {
        item: TxItem { module_instance_id: 1, amount, fee },
        keys: vec![],
        state_machines: StateGenerator { templates: vec![] },
    }
}

fn output(amount: u64, fee: u64) -> ClientOutput {
    ClientOutput {
        item: TxItem { module_instance_id: 1, amount, fee },
        state_machines: StateGenerator { templates: vec![] },
    }
}

#[test]
fn balance_is_computed_over_amounts_and_fees() {
    let balanced = TransactionBuilder::new().with_input(input(32, 0)).with_output(output(30, 2));
    assert_eq!(
        transaction_builder_balance(&balanced),
        Ok(TransactionBuilderBalance::Balanced)
    );
    let overfunded = TransactionBuilder::new().with_input(input(40, 1)).with_output(output(25, 0));
    assert_eq!(
        transaction_builder_balance(&overfunded),
        Ok(TransactionBuilderBalance::Overfunded(14))
    );
    let underfunded = TransactionBuilder::new().with_input(input(10, 2)).with_output(output(25, 3));
    assert_eq!(
        transaction_builder_balance(&underfunded),
        Ok(TransactionBuilderBalance::Underfunded(20))
    );
}

#[test]
fn balance_overflow_is_rejected() {
    let too_much = TransactionBuilder::new()
        .with_input(input(u64::MAX, 0))
        .with_input(input(1, 0));
    assert_eq!(
        transaction_builder_balance(&too_much),
        Err(ClientError::AmountOverflow)
    );
    let too_many_fees = TransactionBuilder::new()
        .with_output(output(u64::MAX, 0))
        .with_output(output(0, 1));
    assert_eq!(
        transaction_builder_balance(&too_many_fees),
        Err(ClientError::AmountOverflow)
    );
}

#[test]
fn backoff_doubles_and_caps_at_one_minute() {
    assert_eq!(backoff(0), 1000);
    assert_eq!(backoff(1), 2000);
    assert_eq!(backoff(3), 8000);
    assert_eq!(backoff(5), 32000);
    assert_eq!(backoff(6), 60000);
    assert_eq!(backoff(100), 60000);
}

#[test]
fn submission_step_resolves_definitive_answers() {
    let created = TxSubmissionStates::Created {
        txid: txid(5),
        tx: fedimint_client::transaction::Transaction {
            inputs: vec![],
            outputs: vec![],
            witnesses: vec![],
        },
        next_submission: 0,
        attempt: 2,
    };
    match tx_submission_step(created, TxSubmissionEvent::Accepted, 50) {
        TxSubmissionStates::Accepted { txid: t } => assert_eq!(t, txid(5)),
        _ => panic!("an accepted answer must resolve the machine"),
    }
    let created = TxSubmissionStates::Created {
        txid: txid(5),
        tx: fedimint_client::transaction::Transaction {
            inputs: vec![],
            outputs: vec![],
            witnesses: vec![],
        },
        next_submission: 0,
        attempt: 2,
    };
    match tx_submission_step(created, TxSubmissionEvent::Rejected(String::from("bad")), 50) {
        TxSubmissionStates::Rejected { txid: t, error } => {
            assert_eq!(t, txid(5));
            assert_eq!(error, "bad");
        }
        _ => panic!("a rejected answer must resolve the machine"),
    }
    let created = TxSubmissionStates::Created {
        txid: txid(5),
        tx: fedimint_client::transaction::Transaction {
            inputs: vec![],
            outputs: vec![],
            witnesses: vec![],
        },
        next_submission: 0,
        attempt: 2,
    };
    match tx_submission_step(created, TxSubmissionEvent::Transient, 50) {
        TxSubmissionStates::Created { next_submission, attempt, .. } => {
            assert_eq!(attempt, 3);
            assert_eq!(next_submission, 50 + 4000);
        }
        _ => panic!("a transient failure must keep the machine pending"),
    }
}

#[test]
fn transaction_ids_are_content_addressed() {
    let a_in = vec![TxItem { module_instance_id: 1, amount: 50, fee: 0 }];
    let a_out = vec![TxItem { module_instance_id: 1, amount: 50, fee: 0 }];
    let again_in = vec![TxItem { module_instance_id: 1, amount: 50, fee: 0 }];
    let again_out = vec![TxItem { module_instance_id: 1, amount: 50, fee: 0 }];
    // The same content gives the same id; different content a different one.
    assert_eq!(transaction_id(&a_in, &a_out), transaction_id(&again_in, &again_out));
    let b_out = vec![TxItem { module_instance_id: 1, amount: 51, fee: 0 }];
    assert_ne!(transaction_id(&a_in, &a_out), transaction_id(&a_in, &b_out));
    // Swapping inputs and outputs changes the encoding, so the id too.
    assert_ne!(
        transaction_id(&a_in, &vec![]),
        transaction_id(&vec![], &a_in)
    );
}

#[test]
fn big_endian_codec_round_trips() {
    let mut bytes: Vec<u8> = Vec::new();
    push_u64_be(&mut bytes, 0x0102030405060708);
    assert_eq!(bytes, vec![1, 2, 3, 4, 5, 6, 7, 8]);
    assert_eq!(u64_from_be(&bytes, 0), 0x0102030405060708);
}

#[test]
fn state_generators_bind_the_outpoint() {
    let generator = StateGenerator {
        templates: vec![
            StateTemplate { payload: 1, terminal: false },
            StateTemplate { payload: 2, terminal: true },
        ],
    };
    let states = generator.generate(txid(9), 4);
    assert_eq!(states.len(), 2);
    assert_eq!(states[0].payload, 1);
    assert_eq!(states[0].txid, txid(9));
    assert_eq!(states[0].out_idx, 4);
    assert!(!states[0].terminal);
    assert!(states[1].terminal);
}

#[test]
fn operation_log_rejects_duplicates_and_pages_in_reverse() {
    let mut log = OperationLog::new();
    log.add_operation_log_entry(op(1), String::from("a"), vec![], 10)
        .expect("first entry must insert");
    log.add_operation_log_entry(op(2), String::from("b"), vec![], 20)
        .expect("second entry must insert");
    log.add_operation_log_entry(op(3), String::from("c"), vec![], 30)
        .expect("third entry must insert");
    assert_eq!(
        log.add_operation_log_entry(op(2), String::from("x"), vec![], 40),
        Err(ClientError::DuplicateOperation)
    );
    let newest = log.list_operations(2, None);
    assert_eq!(newest.len(), 2);
    assert_eq!(newest[0].operation_id, op(3));
    assert_eq!(newest[1].operation_id, op(2));
    let older = log.list_operations(2, Some(op(2)));
    assert_eq!(older.len(), 1);
    assert_eq!(older[0].operation_id, op(1));
    assert!(log.get_operation(op(2)).is_some());
    assert!(log.get_operation(op(9)).is_none());
}

#[test]
fn notifier_delivers_matching_events_in_order() {
    let mut notifier = Notifier::new(8);
    let id = notifier.subscribe(1, op(1));
    notifier.publish(&module_record(op(1), 10));
    notifier.publish(&module_record(op(2), 11));
    notifier.publish(&module_record(op(1), 12));
    let first = notifier.poll(id).expect("subscriber is connected").expect("event buffered");
    match first.state {
        SmState::Module(m) => assert_eq!(m.payload, 10),
        _ => panic!("a module event was published"),
    }
    let second = notifier.poll(id).expect("subscriber is connected").expect("event buffered");
    match second.state {
        SmState::Module(m) => assert_eq!(m.payload, 12),
        _ => panic!("a module event was published"),
    }
    assert!(notifier.poll(id).expect("subscriber is connected").is_none());
}

#[test]
fn notifier_drops_subscribers_that_fall_behind() {
    let mut notifier = Notifier::new(1);
    let id = notifier.subscribe(1, op(1));
    notifier.publish(&module_record(op(1), 1));
    notifier.publish(&module_record(op(1), 2));
    match notifier.poll(id) {
        Err(e) => assert_eq!(e, ClientError::SubscriberDisconnected),
        Ok(_) => panic!("the lagging subscriber must be disconnected"),
    }
}

#[test]
fn executor_rejects_duplicate_insertions() {
    let mut executor = Executor::new(Notifier::new(8));
    executor
        .add_state_machines_dbtx(vec![module_record(op(1), 1), module_record(op(1), 2)])
        .expect("distinct records must insert");
    assert_eq!(
        executor.add_state_machines_dbtx(vec![module_record(op(1), 1)]),
        Err(ClientError::StateAlreadyExists)
    );
    assert_eq!(
        executor.add_state_machines_dbtx(vec![module_record(op(2), 9), module_record(op(2), 9)]),
        Err(ClientError::StateAlreadyExists)
    );
    assert_eq!(executor.active.len(), 2);
}

#[test]
fn executor_transitions_move_terminal_records_out() {
    let mut executor = Executor::new(Notifier::new(8));
    let pending = module_record(op(1), 1);
    executor
        .add_state_machines_dbtx(vec![module_record(op(1), 1)])
        .expect("record must insert");
    let terminal = DynState {
        module_instance_id: 1,
        operation_id: op(1),
        state: SmState::Module(ModuleSmState {
            payload: 2,
            txid: txid(0),
            out_idx: 0,
            terminal: true,
        }),
    };
    executor.transition(&pending, terminal).expect("transition must apply");
    assert_eq!(executor.active.len(), 0);
    assert_eq!(executor.inactive.len(), 1);
    // The record left the active set for good; transitioning it again fails.
    let missing = executor.transition(&pending, module_record(op(1), 3));
    assert_eq!(missing, Err(ClientError::StateNotFound));
    assert!(executor.operation_exists(op(1)));
    assert!(!executor.operation_exists(op(2)));
}

#[test]
fn record_equality_is_field_equality() {
    let a = module_record(op(1), 1);
    let b = module_record(op(1), 1);
    let c = module_record(op(1), 2);
    assert!(dyn_state_eq(&a, &b));
    assert!(!dyn_state_eq(&a, &c));
    assert!(bytes_eq(&vec![1, 2], &vec![1, 2]));
    assert!(!bytes_eq(&vec![1, 2], &vec![1, 3]));
    assert!(contains_state(&vec![module_record(op(1), 1)], &b));
}

#[test]
fn conflicting_api_versions_are_refused() {
    let distinct = vec![
        ApiVersion { major: 0, minor: 1 },
        ApiVersion { major: 1, minor: 0 },
    ];
    let collected = MultiApiVersion::try_from_iter(distinct).expect("distinct majors collect");
    assert_eq!(collected.versions.len(), 2);
    let conflicting = vec![
        ApiVersion { major: 0, minor: 1 },
        ApiVersion { major: 0, minor: 2 },
    ];
    assert!(matches!(
        MultiApiVersion::try_from_iter(conflicting),
        Err(ClientError::ConflictingApiVersions)
    ));
}

#[test]
fn unknown_module_kinds_are_skipped_by_the_decoder_registry() {
    let mut registry = ClientModuleGenRegistry::new();
    registry.attach(ClientModuleGenEntry {
        kind: String::from("mint"),
        api_versions: vec![],
    });
    let modules = vec![
        ModuleConfigEntry { id: 0, kind: String::from("mint"), version: 0 },
        ModuleConfigEntry { id: 1, kind: String::from("wallet"), version: 0 },
        ModuleConfigEntry { id: 2, kind: String::from("mint"), version: 1 },
    ];
    let decoders = client_decoders(&registry, &modules);
    assert_eq!(decoders.entries.len(), 2);
    assert_eq!(decoders.entries[0].id, 0);
    assert_eq!(decoders.entries[1].id, 2);
}

#[test]
fn digest_matches_the_known_empty_input_answer() {
    // The well-known SHA-256 digest of the empty byte string.
    let expected: Vec<u8> = vec![
        0xe3, 0xb0, 0xc4, 0x42, 0x98, 0xfc, 0x1c, 0x14, 0x9a, 0xfb, 0xf4, 0xc8, 0x99, 0x6f,
        0xb9, 0x24, 0x27, 0xae, 0x41, 0xe4, 0x64, 0x9b, 0x93, 0x4c, 0xa4, 0x95, 0x99, 0x1b,
        0x78, 0x52, 0xb8, 0x55,
    ];
    assert_eq!(fedimint_client::codec::sha256(&vec![]), expected);
}

#[test]
fn listing_an_empty_log_yields_an_empty_page() {
    let log = OperationLog::new();
    assert!(log.list_operations(5, None).is_empty());
    assert!(log.get_operation(op(1)).is_none());
}

#[test]
fn submission_instance_id_is_reserved() {
    assert_eq!(TRANSACTION_SUBMISSION_MODULE_INSTANCE, 0xffff);
}
