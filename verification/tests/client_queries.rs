//! Queries on a built client: module lookup, metadata, api version summary,
//! the root secret, and subscriptions on the notifier.

use fedimint_client::client::{Client, ClientDb};
use fedimint_client::config::{ApiVersion, ClientConfig, ClientModuleGenEntry, MetaEntry,
    ModuleConfigEntry};
use fedimint_client::ids::{FederationId, OperationId, TRANSACTION_SUBMISSION_MODULE_INSTANCE};
use fedimint_client::module::FixedDenominationModule;
use fedimint_client::secret::{get_client_root_secret_encoding, set_client_root_secret,
    ClientSecret};
use fedimint_client::sm::{SmState, TxSubmissionEvent, TxSubmissionStates};
use fedimint_client::transaction::{ClientInput, StateGenerator, TransactionBuilder, TxItem};

fn two_module_config() -> ClientConfig {
    ClientConfig {
        federation_id: FederationId { w0: 0, w1: 0, w2: 0, w3: 11 },
        consensus_version: 2,
        modules: vec![
            ModuleConfigEntry { id: 0, kind: String::from("wallet"), version: 1 },
            ModuleConfigEntry { id: 1, kind: String::from("mint"), version: 3 },
            ModuleConfigEntry { id: 2, kind: String::from("mint"), version: 3 },
            ModuleConfigEntry { id: 3, kind: String::from("exotic"), version: 0 },
        ],
        meta: vec![MetaEntry {
            key: String::from("federation_name"),
            value: String::from("testnet"),
        }],
    }
}

fn build_two_module_client() -> Client<FixedDenominationModule> {
    let mut builder = Client::<FixedDenominationModule>::builder();
    builder.with_module(ClientModuleGenEntry {
        kind: String::from("wallet"),
        api_versions: vec![ApiVersion { major: 0, minor: 1 }],
    });
    builder.with_module(ClientModuleGenEntry {
        kind: String::from("mint"),
        api_versions: vec![ApiVersion { major: 0, minor: 2 }],
    });
    builder.with_config(two_module_config());
    // Instance 2 is the designated primary; it is listed before instance 1
    // by the primary-first lookup even though its id is larger.
    builder.with_primary_module(2);
    builder.with_database(ClientDb::new());
    builder
        .build_stopped(FixedDenominationModule::new(1, 100))
        .expect("client must build")
}

#[test]
fn first_instance_prefers_the_primary_module() {
    let client = build_two_module_client();
    assert_eq!(client.get_first_instance(&String::from("mint")), Some(2));
    assert_eq!(client.get_first_instance(&String::from("wallet")), Some(0));
    // The configured but unknown kind was skipped at build time.
    assert_eq!(client.get_first_instance(&String::from("exotic")), None);
    let module = client.get_first_module(&String::from("mint")).expect("mint is registered");
    assert_eq!(module.id, 2);
    assert!(client.get_module_client(1).is_ok());
    assert!(client.get_module_client(7).is_err());
}

#[test]
fn metadata_is_looked_up_by_key() {
    let client = build_two_module_client();
    assert_eq!(
        client.get_meta(&String::from("federation_name")),
        Some(String::from("testnet"))
    );
    assert_eq!(client.get_meta(&String::from("absent")), None);
    assert_eq!(client.federation_id(), FederationId { w0: 0, w1: 0, w2: 0, w3: 11 });
}

#[test]
fn api_version_summary_reflects_config_and_generators() {
    let client = build_two_module_client();
    let summary = client.supported_api_versions_summary();
    assert_eq!(summary.core.core_consensus, 2);
    assert_eq!(summary.core.api.versions.len(), 1);
    assert_eq!(summary.core.api.versions[0], ApiVersion { major: 0, minor: 0 });
    // One entry per registered module, in configuration order; the unknown
    // kind is absent.
    assert_eq!(summary.modules.len(), 3);
    assert_eq!(summary.modules[0].id, 0);
    assert_eq!(summary.modules[0].versions.module_consensus, 1);
    assert_eq!(summary.modules[0].versions.api, vec![ApiVersion { major: 0, minor: 1 }]);
    assert_eq!(summary.modules[1].id, 1);
    assert_eq!(summary.modules[1].versions.core_consensus, 2);
    assert_eq!(summary.modules[2].id, 2);
}

#[test]
fn decoder_registry_includes_the_submission_module() {
    let client = build_two_module_client();
    let decoders = client.decoders();
    let last = decoders.entries.last().expect("registry is not empty");
    assert_eq!(last.id, TRANSACTION_SUBMISSION_MODULE_INSTANCE);
    assert_eq!(last.kind, "tx_submission");
}

#[test]
fn root_secret_is_drawn_once_and_reused() {
    let mut db = ClientDb::new();
    let first = get_client_root_secret_encoding(&mut db);
    assert_eq!(first.len(), 32);
    let second = get_client_root_secret_encoding(&mut db);
    assert_eq!(first, second);
    let overwritten = set_client_root_secret(&mut db, &ClientSecret::new(vec![9u8; 32]));
    assert!(overwritten);
    assert_eq!(get_client_root_secret_encoding(&mut db), vec![9u8; 32]);
    let mut fresh = ClientDb::new();
    assert!(!set_client_root_secret(&mut fresh, &ClientSecret::new(vec![5u8; 32])));
    assert_eq!(ClientSecret::new(vec![5u8; 32]).consensus_encode(), vec![5u8; 32]);
}

#[test]
fn subscriber_sees_submission_transitions_in_commit_order() {
    let mut client = build_two_module_client();
    let operation = OperationId::from_words(42, 0, 0, 0);
    // Subscribe before the operation starts; every transition that follows
    // must arrive, in commit order.
    let sub = client
        .executor
        .notifier()
        .subscribe(TRANSACTION_SUBMISSION_MODULE_INSTANCE, operation);
    let builder = TransactionBuilder::new().with_input(ClientInput {
        item: TxItem { module_instance_id: 2, amount: 10, fee: 0 },
        keys: vec![],
        state_machines: StateGenerator { templates: vec![] },
    });
    client
        .finalize_and_submit_transaction(operation, String::from("pay"), vec![], builder, 0)
        .expect("submission must work");
    client
        .drive_tx_submission(operation, TxSubmissionEvent::Accepted, 1)
        .expect("transition must apply");
    let first = client
        .executor
        .notifier()
        .poll(sub)
        .expect("subscriber is connected")
        .expect("creation was published");
    match first.state {
        SmState::TxSubmission(TxSubmissionStates::Created { .. }) => {}
        _ => panic!("the first published transition is the created machine"),
    }
    let second = client
        .executor
        .notifier()
        .poll(sub)
        .expect("subscriber is connected")
        .expect("acceptance was published");
    match second.state {
        SmState::TxSubmission(TxSubmissionStates::Accepted { .. }) => {}
        _ => panic!("the second published transition is the acceptance"),
    }
    assert!(client.executor.notifier().poll(sub).expect("still connected").is_none());
}
