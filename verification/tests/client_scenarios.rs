//! End-to-end scenarios of the client core: claiming, funding, duplicate
//! operations, rejection and crash recovery.

use fedimint_client::client::{Client, ClientDb, DynGlobalClientContext};
use fedimint_client::config::{ClientConfig, ClientModuleGenEntry, MetaEntry, ModuleConfigEntry};
use fedimint_client::errors::ClientError;
use fedimint_client::ids::{FederationId, OperationId, TRANSACTION_SUBMISSION_MODULE_INSTANCE};
use fedimint_client::module::FixedDenominationModule;
use fedimint_client::sm::{DynState, SmState, TxSubmissionEvent, TxSubmissionStates};
use fedimint_client::transaction::{
    ClientInput, ClientOutput, StateGenerator, StateTemplate, TransactionBuilder, TxItem,
};

fn test_config() -> ClientConfig {
    ClientConfig {
        federation_id: FederationId { w0: 0, w1: 0, w2: 0, w3: 7 },
        consensus_version: 0,
        modules: vec![ModuleConfigEntry {
            id: 1,
            kind: String::from("mint"),
            version: 0,
        }],
        meta: vec![MetaEntry {
            key: String::from("federation_name"),
            value: String::from("testnet"),
        }],
    }
}

fn mint_gen() -> ClientModuleGenEntry {
    ClientModuleGenEntry {
        kind: String::from("mint"),
        api_versions: vec![],
    }
}

fn build_client(denomination: u64, balance: u64) -> Client<FixedDenominationModule> {
    let mut builder = Client::<FixedDenominationModule>::builder();
    builder.with_module(mint_gen());
    builder.with_config(test_config());
    builder.with_primary_module(1);
    builder.with_database(ClientDb::new());
    builder
        .build_stopped(FixedDenominationModule::new(denomination, balance))
        .expect("client must build")
}

fn op(n: u64) -> OperationId {
    OperationId::from_words(n, 0, 0, 0)
}

fn no_states() -> StateGenerator {
    StateGenerator { templates: vec![] }
}

/// Returns the active transaction-submission state of the operation, if
/// one is pending.
fn active_submission(
    client: &Client<FixedDenominationModule>,
    operation: OperationId,
) -> Option<&TxSubmissionStates> {
    for record in &client.executor.active {
        if record.module_instance_id == TRANSACTION_SUBMISSION_MODULE_INSTANCE
            && record.operation_id == operation
        {
            if let SmState::TxSubmission(state) = &record.state {
                return Some(state);
            }
        }
    }
    None
}

#[test]
fn simple_claim() {
    let mut client = build_client(1, 100);
    let ctx = DynGlobalClientContext {
        module_instance_id: 1,
        operation: op(1),
    };
    let input = ClientInput {
        item: TxItem {
            module_instance_id: 1,
            amount: 50,
            fee: 0,
        },
        keys: vec![],
        state_machines: no_states(),
    };
    let (txid, change) = ctx.claim_input(&mut client, input, 0).expect("claim must work");
    // The input fully funds a single primary-module output of 50.
    let change = change.expect("the claimed value is absorbed as change");
    assert_eq!(change.txid, txid);
    assert_eq!(change.out_idx, 0);
    let state = active_submission(&client, op(1)).expect("a submission machine is active");
    match state {
        TxSubmissionStates::Created { txid: t, tx, .. } => {
            assert_eq!(*t, txid);
            assert_eq!(tx.inputs.len(), 1);
            assert_eq!(tx.inputs[0].amount, 50);
            assert_eq!(tx.outputs.len(), 1);
            assert_eq!(tx.outputs[0].amount, 50);
        }
        _ => panic!("freshly submitted machine must be in the created state"),
    }
    // The absorbed change credits the primary module.
    assert_eq!(client.get_balance(), 150);
    // The federation accepts; the machine reaches its terminal state.
    client
        .drive_tx_submission(op(1), TxSubmissionEvent::Accepted, 5)
        .expect("transition must apply");
    assert!(active_submission(&client, op(1)).is_none());
    let updates = client.transaction_updates(op(1));
    assert_eq!(updates.await_tx_accepted(txid), Some(Ok(())));
}

#[test]
fn underfunded_output() {
    let mut client = build_client(1, 100);
    let ctx = DynGlobalClientContext {
        module_instance_id: 1,
        operation: op(2),
    };
    let output = ClientOutput {
        item: TxItem {
            module_instance_id: 1,
            amount: 30,
            fee: 2,
        },
        state_machines: no_states(),
    };
    let (txid, change) = ctx.fund_output(&mut client, output, 0).expect("funding must work");
    // An added primary input of exactly 32 balances the transaction; no
    // change output is needed.
    assert_eq!(change, None);
    let state = active_submission(&client, op(2)).expect("a submission machine is active");
    match state {
        TxSubmissionStates::Created { txid: t, tx, .. } => {
            assert_eq!(*t, txid);
            assert_eq!(tx.inputs.len(), 1);
            assert_eq!(tx.inputs[0].amount, 32);
            assert_eq!(tx.outputs.len(), 1);
            assert_eq!(tx.outputs[0].amount, 30);
        }
        _ => panic!("freshly submitted machine must be in the created state"),
    }
    assert_eq!(client.get_balance(), 68);
}

#[test]
fn overfunded_output_yields_change() {
    // The primary module can only produce inputs in denominations of 20.
    let mut client = build_client(20, 100);
    let ctx = DynGlobalClientContext {
        module_instance_id: 1,
        operation: op(3),
    };
    let output = ClientOutput {
        item: TxItem {
            module_instance_id: 1,
            amount: 25,
            fee: 0,
        },
        state_machines: no_states(),
    };
    let (txid, change) = ctx.fund_output(&mut client, output, 0).expect("funding must work");
    let change = change.expect("overfunding is absorbed as change");
    assert_eq!(change.txid, txid);
    assert_eq!(change.out_idx, 1);
    let state = active_submission(&client, op(3)).expect("a submission machine is active");
    match state {
        TxSubmissionStates::Created { tx, .. } => {
            assert_eq!(tx.inputs.len(), 1);
            assert_eq!(tx.inputs[0].amount, 40);
            assert_eq!(tx.outputs.len(), 2);
            assert_eq!(tx.outputs[0].amount, 25);
            assert_eq!(tx.outputs[1].amount, 15);
        }
        _ => panic!("freshly submitted machine must be in the created state"),
    }
}

#[test]
fn duplicate_operation_id() {
    let mut client = build_client(1, 100);
    let builder = TransactionBuilder::new().with_input(ClientInput {
        item: TxItem {
            module_instance_id: 1,
            amount: 10,
            fee: 0,
        },
        keys: vec![],
        state_machines: no_states(),
    });
    client
        .finalize_and_submit_transaction(op(4), String::from("pay"), vec![1, 2], builder, 0)
        .expect("first submission must work");
    let active_before = client.executor.active.len();
    let inactive_before = client.executor.inactive.len();
    let log_before = client.operation_log().entries.len();
    let builder2 = TransactionBuilder::new().with_input(ClientInput {
        item: TxItem {
            module_instance_id: 1,
            amount: 10,
            fee: 0,
        },
        keys: vec![],
        state_machines: no_states(),
    });
    let second = client.finalize_and_submit_transaction(
        op(4),
        String::from("pay"),
        vec![1, 2],
        builder2,
        1,
    );
    assert_eq!(second, Err(ClientError::DuplicateOperation));
    // The rolled-back call left storage unchanged.
    assert_eq!(client.executor.active.len(), active_before);
    assert_eq!(client.executor.inactive.len(), inactive_before);
    assert_eq!(client.operation_log().entries.len(), log_before);
}

#[test]
fn rejected_transaction() {
    let mut client = build_client(1, 100);
    let ctx = DynGlobalClientContext {
        module_instance_id: 1,
        operation: op(5),
    };
    let input = ClientInput {
        item: TxItem {
            module_instance_id: 1,
            amount: 10,
            fee: 0,
        },
        keys: vec![],
        state_machines: no_states(),
    };
    let (txid, _) = ctx.claim_input(&mut client, input, 0).expect("claim must work");
    client
        .drive_tx_submission(
            op(5),
            TxSubmissionEvent::Rejected(String::from("E")),
            3,
        )
        .expect("transition must apply");
    let updates = client.transaction_updates(op(5));
    assert_eq!(updates.await_tx_accepted(txid), Some(Err(String::from("E"))));
    assert!(ctx.await_tx_rejected(&client, txid));
}

#[test]
fn crash_mid_transition() {
    let mut client = build_client(1, 100);
    let builder = TransactionBuilder::new().with_input(ClientInput {
        item: TxItem {
            module_instance_id: 1,
            amount: 10,
            fee: 0,
        },
        keys: vec![],
        state_machines: no_states(),
    });
    let txid = client
        .finalize_and_submit_transaction(op(6), String::from("pay"), vec![], builder, 0)
        .expect("submission must work");
    // The process dies before the acceptance transition commits; only the
    // persisted state survives.
    let db = client.into_db();
    let mut builder2 = Client::<FixedDenominationModule>::builder();
    builder2.with_module(mint_gen());
    builder2.with_config(test_config());
    builder2.with_primary_module(1);
    builder2.with_database(db);
    let mut restarted = builder2
        .build_stopped(FixedDenominationModule::new(1, 90))
        .expect("restart must work");
    // The machine is still pending after the restart.
    match active_submission(&restarted, op(6)) {
        Some(TxSubmissionStates::Created { txid: t, .. }) => assert_eq!(*t, txid),
        _ => panic!("the submission machine must still be pending"),
    }
    // The next attempt observes the federation-side acceptance.
    restarted
        .drive_tx_submission(op(6), TxSubmissionEvent::Accepted, 9)
        .expect("transition must apply");
    assert!(active_submission(&restarted, op(6)).is_none());
    assert_eq!(restarted.executor.inactive.len(), 1);
    let updates = restarted.transaction_updates(op(6));
    assert_eq!(updates.await_tx_accepted(txid), Some(Ok(())));
    // The operation log still holds exactly one entry for the operation.
    assert!(restarted.operation_log().get_operation(op(6)).is_some());
    assert_eq!(restarted.operation_log().entries.len(), 1);
}

#[test]
fn generated_state_machines_commit_with_the_transaction() {
    let mut client = build_client(1, 100);
    let builder = TransactionBuilder::new().with_input(ClientInput {
        item: TxItem {
            module_instance_id: 1,
            amount: 10,
            fee: 0,
        },
        keys: vec![],
        state_machines: StateGenerator {
            templates: vec![
                StateTemplate { payload: 7, terminal: false },
                StateTemplate { payload: 8, terminal: false },
            ],
        },
    });
    let txid = client
        .finalize_and_submit_transaction(op(7), String::from("pay"), vec![9], builder, 0)
        .expect("submission must work");
    // Two generated module machines plus the submission machine are active,
    // and the log entry is visible: the operation committed atomically.
    assert_eq!(client.executor.active.len(), 3);
    let mut module_records = 0;
    for record in &client.executor.active {
        if let SmState::Module(m) = &record.state {
            assert_eq!(record.operation_id, op(7));
            assert_eq!(record.module_instance_id, 1);
            assert_eq!(m.txid, txid);
            assert_eq!(m.out_idx, 0);
            assert!(m.payload == 7 || m.payload == 8);
            module_records += 1;
        }
    }
    assert_eq!(module_records, 2);
    let entry = client.operation_log().get_operation(op(7)).expect("entry must exist");
    assert_eq!(entry.operation_type, "pay");
    assert_eq!(entry.meta, vec![9]);
    assert_eq!(client.get_active_operations(), vec![op(7)]);
}

#[test]
fn add_state_machine_rejects_duplicates() {
    let mut client = build_client(1, 100);
    let ctx = DynGlobalClientContext {
        module_instance_id: 1,
        operation: op(8),
    };
    let sm = fedimint_client::sm::ModuleSmState {
        payload: 1,
        txid: fedimint_client::ids::TransactionId { w0: 0, w1: 0, w2: 0, w3: 0 },
        out_idx: 0,
        terminal: false,
    };
    ctx.add_state_machine(&mut client, sm).expect("first insertion must work");
    let second = ctx.add_state_machine(&mut client, sm);
    assert_eq!(second, Err(ClientError::StateAlreadyExists));
    assert_eq!(client.executor.active.len(), 1);
}

#[test]
fn witnesses_are_signed_with_the_spending_keys() {
    let mut client = build_client(1, 100);
    let key = vec![1u8; 32];
    let builder = TransactionBuilder::new().with_input(ClientInput {
        item: TxItem {
            module_instance_id: 1,
            amount: 10,
            fee: 0,
        },
        keys: vec![key],
        state_machines: no_states(),
    });
    client
        .finalize_and_submit_transaction(op(9), String::from("pay"), vec![], builder, 0)
        .expect("submission must work");
    match active_submission(&client, op(9)).expect("machine must be active") {
        TxSubmissionStates::Created { tx, .. } => {
            assert_eq!(tx.witnesses.len(), 1);
            assert_eq!(tx.witnesses[0].len(), 64);
        }
        _ => panic!("freshly submitted machine must be in the created state"),
    }
}

#[test]
fn invalid_spending_key_is_rejected() {
    let mut client = build_client(1, 100);
    let builder = TransactionBuilder::new().with_input(ClientInput {
        item: TxItem {
            module_instance_id: 1,
            amount: 10,
            fee: 0,
        },
        keys: vec![vec![0u8; 32]],
        state_machines: no_states(),
    });
    let result = client.finalize_and_submit_transaction(
        op(10),
        String::from("pay"),
        vec![],
        builder,
        0,
    );
    assert_eq!(result, Err(ClientError::InvalidKey));
    assert_eq!(client.executor.active.len(), 0);
    assert_eq!(client.operation_log().entries.len(), 0);
}

#[test]
fn insufficient_funds_are_reported() {
    let mut client = build_client(1, 10);
    let ctx = DynGlobalClientContext {
        module_instance_id: 1,
        operation: op(11),
    };
    let output = ClientOutput {
        item: TxItem {
            module_instance_id: 1,
            amount: 30,
            fee: 0,
        },
        state_machines: no_states(),
    };
    let result = ctx.fund_output(&mut client, output, 0);
    assert_eq!(result, Err(ClientError::InsufficientFunds));
    assert_eq!(client.executor.active.len(), 0);
}

#[test]
fn transient_submission_retries_with_backoff() {
    let mut client = build_client(1, 100);
    let ctx = DynGlobalClientContext {
        module_instance_id: 1,
        operation: op(12),
    };
    let input = ClientInput {
        item: TxItem {
            module_instance_id: 1,
            amount: 10,
            fee: 0,
        },
        keys: vec![],
        state_machines: no_states(),
    };
    ctx.claim_input(&mut client, input, 0).expect("claim must work");
    client
        .drive_tx_submission(op(12), TxSubmissionEvent::Transient, 100)
        .expect("transition must apply");
    match active_submission(&client, op(12)).expect("machine must still be pending") {
        TxSubmissionStates::Created { next_submission, attempt, .. } => {
            // Backoff starts at one second and the attempt counter advances.
            assert_eq!(*attempt, 1);
            assert_eq!(*next_submission, 1100);
        }
        _ => panic!("a transient failure must keep the machine pending"),
    }
}

#[test]
fn internal_payment_markers_use_the_federation_id() {
    let client = build_client(1, 100);
    let (_key, discriminator) = client
        .get_internal_payment_markers()
        .expect("the test federation id is a valid scalar");
    assert_eq!(discriminator, 0);
}

#[test]
fn builder_surface_reports_missing_pieces() {
    let mut b1 = Client::<FixedDenominationModule>::builder();
    b1.with_primary_module(1);
    b1.with_database(ClientDb::new());
    assert!(matches!(
        b1.build_stopped(FixedDenominationModule::new(1, 0)),
        Err(ClientError::MissingConfig)
    ));
    let mut b2 = Client::<FixedDenominationModule>::builder();
    b2.with_config(test_config());
    b2.with_database(ClientDb::new());
    assert!(matches!(
        b2.build_stopped(FixedDenominationModule::new(1, 0)),
        Err(ClientError::MissingPrimaryModule)
    ));
    let mut b3 = Client::<FixedDenominationModule>::builder();
    b3.with_config(test_config());
    b3.with_primary_module(1);
    assert!(matches!(
        b3.build_stopped(FixedDenominationModule::new(1, 0)),
        Err(ClientError::MissingDatabase)
    ));
    // An instance id absent from the config cannot be primary.
    let mut b4 = Client::<FixedDenominationModule>::builder();
    b4.with_module(mint_gen());
    b4.with_config(test_config());
    b4.with_primary_module(9);
    b4.with_database(ClientDb::new());
    assert!(matches!(
        b4.build_stopped(FixedDenominationModule::new(1, 0)),
        Err(ClientError::UnknownPrimaryModule)
    ));
}

#[test]
fn non_primary_modules_cannot_be_designated() {
    let mut builder = Client::<fedimint_client::module::WatchOnlyModule>::builder();
    builder.with_module(mint_gen());
    builder.with_config(test_config());
    builder.with_primary_module(1);
    builder.with_database(ClientDb::new());
    assert!(matches!(
        builder.build_stopped(fedimint_client::module::WatchOnlyModule::new()),
        Err(ClientError::PrimaryModuleNotCapable)
    ));
}

#[test]
fn invalid_federation_id_yields_no_payment_markers() {
    let mut builder = Client::<FixedDenominationModule>::builder();
    builder.with_module(mint_gen());
    builder.with_config(ClientConfig {
        // The all-zero id is not a valid scalar, so no marker key exists.
        federation_id: FederationId { w0: 0, w1: 0, w2: 0, w3: 0 },
        consensus_version: 0,
        modules: vec![ModuleConfigEntry {
            id: 1,
            kind: String::from("mint"),
            version: 0,
        }],
        meta: vec![],
    });
    builder.with_primary_module(1);
    builder.with_database(ClientDb::new());
    let client = builder
        .build_stopped(FixedDenominationModule::new(1, 0))
        .expect("client must build");
    assert_eq!(client.get_internal_payment_markers(), Err(ClientError::InvalidKey));
}

#[test]
fn restoring_from_backup_writes_the_secret() {
    let mut builder = Client::<FixedDenominationModule>::builder();
    builder.with_module(mint_gen());
    builder.with_config(test_config());
    builder.with_primary_module(1);
    builder.with_database(ClientDb::new());
    let secret = fedimint_client::secret::ClientSecret::new(vec![3u8; 32]);
    let client = builder
        .build_restoring_from_backup(secret, FixedDenominationModule::new(1, 0))
        .expect("restore must build");
    assert_eq!(client.root_secret_encoding(), vec![3u8; 32]);
}
