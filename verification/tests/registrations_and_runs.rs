use rs_platform_explorer::contracts::{
    clear_known_contracts_task, fetched_contract_task, remove_contract_task, NamedMap,
};
use rs_platform_explorer::dpns::{
    dpns_registration_plan, dpns_registration_step, find_document_signing_key,
    record_dpns_registration, remember_dpns_contract, salted_domain_hash, DpnsAction,
    DpnsEvent, DpnsNameUpdate, DpnsStage, KeyPurpose, KeyType, KnownNames,
};
use rs_platform_explorer::documents::{
    broadcast_contract, broadcast_document_type, contested_index, document_task_key,
    identity_for_task, vote_poll_end_time, voting_key, IdentityNeed, SigningTask,
};
use rs_platform_explorer::keys::{decoded_private_key, PrivateKeyText};
use rs_platform_explorer::errors::BackendError;
use rs_platform_explorer::identity::{
    advance_registration, advance_top_up, begin_registration, begin_top_up, new_key_id, registration_step, top_up_step,
    IdentityBook, KeySecurityLevel, KnownIdentity, RegistrationEvent, RegistrationSlot,
    RegistrationStep, TopUpEvent, TopUpRun, TopUpStep,
};
use rs_platform_explorer::identity_tasks::{identity_task_answer, run_forget_identity, IdentityTaskKind};
use rs_platform_explorer::insight::{script_field, txid_field, EncodedField};
use rs_platform_explorer::load::{
    check_action, check_queue_capacity, deadline_passed, first_variant_to_register,
    found_contracts, load_test_contracts,
    scan_continues, CheckAction, CheckOutcome, LoadEvent, LoadTestState,
};
use rs_platform_explorer::platform::needs_activation_height;
use rs_platform_explorer::runs::{
    continue_strategy_loop, end_run_contracts, record_created_contract, StrategyRun,
};
use rs_platform_explorer::split::{outputs_this_transaction, remaining_after_transaction};
use rs_platform_explorer::strategy::{operation_choice, OperationChoice, StrategyRegistry};
use rs_platform_explorer::wallet::{add_wallet_by_key, last_output_of_each, Utxo, Wallet, WalletError};
use rs_platform_explorer::wallet_tasks::{needs_loaded_wallet, no_wallet_answer, WalletTask};

fn auth_keys() -> Vec<(u32, KeyPurpose, KeySecurityLevel, KeyType)> {
    vec![
        (0, KeyPurpose::Authentication, KeySecurityLevel::Master, KeyType::EcdsaSecp256k1),
        (1, KeyPurpose::Transfer, KeySecurityLevel::Critical, KeyType::EcdsaSecp256k1),
        (2, KeyPurpose::Authentication, KeySecurityLevel::Critical, KeyType::EcdsaHash160),
        (3, KeyPurpose::Authentication, KeySecurityLevel::Critical, KeyType::Bls12381),
        (4, KeyPurpose::Authentication, KeySecurityLevel::Critical, KeyType::EcdsaSecp256k1),
    ]
}

#[test]
fn dpns_plan_signs_with_the_first_critical_authentication_key() {
    assert_eq!(find_document_signing_key(&auth_keys()), Some(3));
    let salt = vec![7u8; 32];
    let plan = dpns_registration_plan(
        &auth_keys(),
        &"Alice".to_string(),
        &"a11ce".to_string(),
        &salt,
        41,
        &vec![9u8; 32],
    )
    .unwrap();
    assert_eq!(plan.signing_key_id, 3);
    assert_eq!(plan.preorder_nonce, 41);
    assert_eq!(plan.domain_nonce, 42);
    assert_eq!(plan.salted_domain_hash, salted_domain_hash(&salt, &"a11ce".to_string()));
    assert_eq!(plan.domain.label, "Alice");
    assert_eq!(plan.domain.normalized_label, "a11ce");
    assert_eq!(plan.domain.parent_domain_name, "dash");
    assert_eq!(plan.domain.normalized_parent_domain_name, "dash");
    assert_eq!(plan.domain.records_identity, vec![9u8; 32]);
    assert!(!plan.domain.allow_subdomains);
    assert_eq!(plan.domain.preorder_salt, salt);
}

#[test]
fn dpns_plan_without_a_signing_key_is_refused() {
    let keys = vec![
        (0, KeyPurpose::Authentication, KeySecurityLevel::Master, KeyType::EcdsaSecp256k1),
        (1, KeyPurpose::Authentication, KeySecurityLevel::High, KeyType::Bls12381),
    ];
    match dpns_registration_plan(&keys, &"x".to_string(), &"x".to_string(), &vec![], 0, &vec![]) {
        Err(m) => assert_eq!(
            m,
            "Identity doesn't have an authentication key for signing document transitions"
        ),
        Ok(_) => panic!("expected a refusal"),
    }
}

#[test]
fn dpns_preorder_comes_before_the_domain() {
    assert!(matches!(
        dpns_registration_step(DpnsStage::Preorder, DpnsEvent::Processed),
        DpnsAction::BroadcastDomain
    ));
    assert!(matches!(dpns_registration_step(DpnsStage::Domain, DpnsEvent::Processed), DpnsAction::Done));
    match dpns_registration_step(DpnsStage::Preorder, DpnsEvent::ProcessingFailed("late".to_string())) {
        DpnsAction::Fail(e) => {
            assert_eq!(e.message(), "DPNS error: Preorder document failed to process: late")
        }
        _ => panic!("expected a failure"),
    }
    match dpns_registration_step(DpnsStage::Domain, DpnsEvent::BroadcastFailed("down".to_string())) {
        DpnsAction::Fail(e) => assert_eq!(e.message(), "SDK error: down"),
        _ => panic!("expected a failure"),
    }
}

#[test]
fn registered_dpns_name_is_remembered_on_success_only() {
    let mut names = KnownNames::new();
    let id = vec![5u8; 32];
    let (answer, update) =
        record_dpns_registration(&mut names, &id, &"Hello".to_string(), Ok(()));
    assert_eq!(answer, Ok("DPNS name registration successful".to_string()));
    assert!(matches!(update, DpnsNameUpdate::Registered(ref n) if n == "Hello"));
    record_dpns_registration(&mut names, &id, &"Bob".to_string(), Ok(()));
    assert_eq!(names.entries.len(), 1);
    assert_eq!(names.entries[0].1, vec!["he110".to_string(), "b0b".to_string()]);
    let (answer, update) = record_dpns_registration(
        &mut names,
        &vec![6u8; 32],
        &"Carol".to_string(),
        Err("DPNS error: taken".to_string()),
    );
    assert_eq!(answer, Err("DPNS error: taken".to_string()));
    assert!(matches!(update, DpnsNameUpdate::RegistrationFailed(ref m) if m == "DPNS error: taken"));
    assert_eq!(names.entries.len(), 1);
}

#[test]
fn dpns_contract_is_kept_only_where_none_is_known() {
    let mut known: NamedMap<u32> = NamedMap::new();
    remember_dpns_contract(&mut known, 1);
    remember_dpns_contract(&mut known, 2);
    assert_eq!(known.get(&"DPNS".to_string()), Some(&1));
}

fn book() -> IdentityBook<&'static str> {
    IdentityBook {
        known: vec![
            KnownIdentity { id: vec![1; 32], identity: "one" },
            KnownIdentity { id: vec![2; 32], identity: "two" },
            KnownIdentity { id: vec![3; 32], identity: "three" },
        ],
        private_keys: vec![],
        loaded: Some(KnownIdentity { id: vec![2; 32], identity: "two" }),
    }
}

#[test]
fn forgetting_an_identity_answers_and_keeps_the_others_in_order() {
    let mut b = book();
    b.insert_private_key(vec![2; 32], 0, vec![8; 32]);
    b.insert_private_key(vec![3; 32], 0, vec![9; 32]);
    let answer = run_forget_identity(&mut b, &vec![2; 32]);
    assert_eq!(answer, "Successfully removed identity from TUI state");
    assert_eq!(b.known.len(), 2);
    assert_eq!(b.known[0].identity, "one");
    assert_eq!(b.known[1].identity, "three");
    assert_eq!(b.private_keys.len(), 1);
    assert!(b.loaded.is_none());
    assert_eq!(
        identity_task_answer(&IdentityTaskKind::ForgetIdentity, Ok(())),
        Ok("Successfully removed identity from TUI state".to_string())
    );
    assert_eq!(
        identity_task_answer(&IdentityTaskKind::AddPrivateKeys, Err("bad".to_string())),
        Err("Failed to add identity with private keys: bad".to_string())
    );
}

#[test]
fn loading_with_private_keys_loads_the_identity_even_when_a_key_fails() {
    let mut b = book();
    let identity_keys = vec![(0u32, vec![0xaa; 20]), (1u32, vec![0xbb; 20])];
    let keys = vec![(vec![0xbb; 20], vec![1; 32])];
    assert!(b.load_with_private_keys(&vec![3; 32], "three", &identity_keys, &keys).is_ok());
    assert_eq!(b.loaded.as_ref().unwrap().identity, "three");
    assert_eq!(b.private_key_for(&vec![3; 32], 1), Some(&vec![1; 32]));
    let bad = vec![(vec![0xcc; 20], vec![2; 32])];
    match b.load_with_private_keys(&vec![1; 32], "one", &identity_keys, &bad) {
        Err(WalletError::Custom(m)) => assert_eq!(
            m,
            "Public key hash derived from input private key does not match any identity public key"
        ),
        _ => panic!("expected a refusal"),
    }
    assert_eq!(b.loaded.as_ref().unwrap().identity, "one");
    assert_eq!(b.known.len(), 3);
}

#[test]
fn new_key_gets_the_next_id() {
    assert_eq!(new_key_id(&vec![0, 3, 1]), 4);
    assert_eq!(new_key_id(&vec![]), 1);
}

#[test]
fn failed_registration_keeps_its_asset_lock() {
    let mut slot: Option<RegistrationSlot<u8, u8, u8, u8>> = None;
    assert!(matches!(registration_step(&slot), RegistrationStep::CreateAssetLockTransaction));
    assert!(advance_registration(&mut slot, RegistrationEvent::AssetLockMade(1, 2)).is_ok());
    assert!(matches!(registration_step(&slot), RegistrationStep::RetrieveAssetLockProof));
    match advance_registration(&mut slot, RegistrationEvent::ProofFailed("timeout".to_string())) {
        Err(e) => assert_eq!(e.message(), "SDK error: broadcasting transaction failed timeout"),
        Ok(()) => panic!("expected a failure"),
    }
    let s = slot.as_ref().unwrap();
    assert_eq!((s.asset_lock_transaction, s.asset_lock_key), (1, 2));
    assert!(advance_registration(&mut slot, RegistrationEvent::AssetLockMade(5, 6)).is_ok());
    assert_eq!(slot.as_ref().unwrap().asset_lock_transaction, 1);
    advance_registration(&mut slot, RegistrationEvent::ProofReceived(3)).unwrap();
    advance_registration(&mut slot, RegistrationEvent::IdentityMade(4)).unwrap();
    assert!(matches!(registration_step(&slot), RegistrationStep::PutIdentity));
    match advance_registration(&mut slot, RegistrationEvent::PutFailed("busy".to_string())) {
        Err(BackendError::Sdk(m)) => assert_eq!(m, "busy"),
        _ => panic!("expected a failure"),
    }
    assert_eq!(slot.as_ref().unwrap().identity, Some(4));
    match advance_registration(
        &mut slot,
        RegistrationEvent::AssetLockFailed(WalletError::Custom("x".to_string())),
    ) {
        Err(e) => assert_eq!(e.message(), "Wallet error: x"),
        Ok(()) => panic!("expected a failure"),
    }
    advance_registration(&mut slot, RegistrationEvent::Put).unwrap();
    assert!(slot.is_none());
}

#[test]
fn no_waiting_checks_each_document_once() {
    assert_eq!(check_queue_capacity(10, 0), 1);
    assert_eq!(check_queue_capacity(10, 3), 30);
    assert!(deadline_passed(0, 0));
    assert!(deadline_passed(1, 0));
    assert!(!deadline_passed(3_000_000_000, 3));
    assert!(deadline_passed(3_000_000_001, 3));
    assert!(check_action(CheckOutcome::Missing, deadline_passed(0, 0)) == CheckAction::GiveUp);
    assert!(check_action(CheckOutcome::Found, deadline_passed(5, 0)) == CheckAction::CountMined);
}

#[test]
fn load_test_contracts_are_the_found_then_the_variants() {
    let scan = vec![None, Some(10), None, Some(11), Some(12)];
    let found = found_contracts(scan, 2);
    assert_eq!(found, vec![10, 11]);
    assert!(scan_continues(1, 2));
    assert!(!scan_continues(2, 2));
    let all = load_test_contracts(vec![10], vec![20, 21], 3);
    assert_eq!(all, vec![10, 20, 21]);
}

#[test]
fn run_forgets_its_contracts_at_the_end() {
    let mut known: NamedMap<u32> = NamedMap::new();
    known.insert("DPNS".to_string(), 1);
    let mut supporting: NamedMap<u32> = NamedMap::new();
    supporting.insert("helper".to_string(), 2);
    let mut ids: Vec<String> = vec![];
    record_created_contract(&mut known, &mut ids, "NewA".to_string(), 3);
    record_created_contract(&mut known, &mut ids, "NewB".to_string(), 4);
    assert_eq!(known.get(&"NewA".to_string()), Some(&3));
    end_run_contracts(&mut known, &mut supporting, &ids);
    assert_eq!(known.names_in_order(), vec!["DPNS".to_string()]);
    assert!(supporting.names_in_order().is_empty());
}

#[test]
fn block_run_of_five_blocks_ends_seven_blocks_on() {
    let start = 100u64;
    let mut height = start;
    let mut round = 1u64;
    while continue_strategy_loop(true, height, start, 5, 0, round) {
        height += 1;
        round += 1;
    }
    assert_eq!(height, start + 5 + 2);
}

#[test]
fn contract_task_answers() {
    let mut known: NamedMap<u32> = NamedMap::new();
    known.insert("a".to_string(), 1);
    assert_eq!(remove_contract_task(&mut known, &"a".to_string()), "Contract removed");
    assert_eq!(remove_contract_task(&mut known, &"a".to_string()), "Contract removed");
    assert_eq!(
        fetched_contract_task(&mut known, "b".to_string(), Ok(Some((2, "{}".to_string())))),
        Ok("{}".to_string())
    );
    assert_eq!(fetched_contract_task(&mut known, "c".to_string(), Ok(None)), Ok("No contract".to_string()));
    assert_eq!(
        fetched_contract_task(&mut known, "c".to_string(), Err("net".to_string())),
        Err("net".to_string())
    );
    assert_eq!(known.names_in_order(), vec!["b".to_string()]);
    assert_eq!(clear_known_contracts_task(&mut known), "Cleared known contracts");
    assert!(known.names_in_order().is_empty());
}

#[test]
fn wallet_tasks_that_need_a_wallet() {
    assert_eq!(no_wallet_answer(&WalletTask::Refresh), Some("No wallet loaded".to_string()));
    assert_eq!(no_wallet_answer(&WalletTask::CopyAddress), Some("No wallet loaded".to_string()));
    assert_eq!(no_wallet_answer(&WalletTask::SplitUTXOs(3)), Some("No wallet loaded".to_string()));
    assert_eq!(no_wallet_answer(&WalletTask::AddRandomKey), None);
    assert!(!needs_loaded_wallet(&WalletTask::ClearLoadedWallet));
}

#[test]
fn activation_height_only_in_the_first_epoch() {
    assert!(needs_activation_height(0));
    assert!(!needs_activation_height(1));
}

#[test]
fn txid_text_is_read_in_display_order() {
    let mut text = "00".repeat(31);
    text.push_str("ff");
    match txid_field(Some(&text)) {
        EncodedField::Decoded(bytes) => {
            assert_eq!(bytes.len(), 32);
            assert_eq!(bytes[0], 0xff);
            assert_eq!(bytes[31], 0);
        }
        _ => panic!("expected a txid"),
    }
    assert!(matches!(txid_field(Some("abcd")), EncodedField::Invalid));
    assert!(matches!(txid_field(Some("zz")), EncodedField::Invalid));
    assert!(matches!(txid_field(None), EncodedField::Missing));
    assert!(matches!(script_field(Some("76a9")), EncodedField::Decoded(ref b) if b == &vec![0x76, 0xa9]));
    assert!(matches!(script_field(Some("7")), EncodedField::Invalid));
}

#[test]
fn block_run_reports_its_final_height_and_accepted_broadcasts() {
    let mut run = StrategyRun::start(true, 100, 3);
    let mut rounds = 0;
    while run.goes_on(0) {
        run.end_round(0, 4, 3, 1);
        rounds += 1;
    }
    assert_eq!(rounds, 5);
    let summary = run.finish(0);
    assert_eq!(summary.start_block_height, 100);
    assert_eq!(summary.final_block_height, 105);
    assert_eq!(summary.transition_count, 20);
    assert_eq!(summary.success_count, 15);
}

#[test]
fn time_run_goes_on_while_seconds_remain() {
    let mut run = StrategyRun::start(false, 7, 10);
    run.end_round(0, 1, 1, 0);
    run.end_round(0, 1, 0, 1);
    assert!(run.goes_on(9));
    assert!(!run.goes_on(10));
    assert_eq!(run.finish(10).success_count, 1);
}

#[test]
fn load_test_contracts_return_to_the_pool() {
    let mut s = LoadTestState::new(2);
    assert!(s.take(LoadEvent::Reserved).is_none());
    assert!(s.take(LoadEvent::Reserved).is_none());
    assert_eq!(s.available, 0);
    s.take(LoadEvent::BroadcastFailed);
    s.take(LoadEvent::BroadcastAccepted);
    assert_eq!((s.available, s.broadcasting, s.checking), (1, 0, 1));
    let action = s.take(LoadEvent::Checked(CheckOutcome::Missing, false));
    assert!(action == Some(CheckAction::Retry));
    assert_eq!(s.checking, 1);
    let action = s.take(LoadEvent::Checked(CheckOutcome::Found, false));
    assert!(action == Some(CheckAction::CountMined));
    assert_eq!((s.available, s.checking, s.mined), (2, 0, 1));
    assert_eq!(s.attempts(), 2);
}

#[test]
fn split_of_fifty_outputs_in_three_transactions() {
    let mut remaining = 50usize;
    let mut made = vec![];
    for _ in 0..3 {
        let n = outputs_this_transaction(remaining);
        assert!(n >= 1);
        made.push(n);
        remaining = remaining_after_transaction(remaining, n);
    }
    assert_eq!(made, vec![24, 24, 2]);
    assert_eq!(remaining, 0);
}

#[test]
fn strategy_deleted_by_its_place_in_the_list() {
    let mut r: StrategyRegistry<u32> = StrategyRegistry::new();
    r.create_strategy("b".to_string(), 2);
    r.create_strategy("a".to_string(), 1);
    r.create_strategy("c".to_string(), 3);
    assert_eq!(r.select_strategy(&"b".to_string()), Ok(()));
    r.delete_strategy_at(1);
    assert_eq!(r.strategy_names(), vec!["a".to_string(), "c".to_string()]);
    assert!(r.selected.is_none());
    r.delete_strategy_at(5);
    assert_eq!(r.strategy_names().len(), 2);
}

#[test]
fn operation_menu_entries() {
    assert!(matches!(operation_choice(0), Some(OperationChoice::Document)));
    assert!(matches!(operation_choice(4), Some(OperationChoice::ContractCreate)));
    assert!(matches!(operation_choice(6), Some(OperationChoice::IdentityTransfer)));
    assert!(operation_choice(7).is_none());
}

#[test]
fn document_tasks_sign_with_a_key_of_their_level() {
    assert_eq!(document_task_key(SigningTask::Transfer, &auth_keys()), Ok(3));
    assert_eq!(document_task_key(SigningTask::Broadcast(KeySecurityLevel::Master), &auth_keys()), Ok(0));
    assert_eq!(
        document_task_key(SigningTask::Broadcast(KeySecurityLevel::High), &auth_keys()),
        Err("Loaded identity does not have a public key matching the criteria for document broadcasts"
            .to_string())
    );
    assert_eq!(
        document_task_key(SigningTask::Purchase, &vec![]),
        Err("No key suitable for purchasing documents in the loaded identity".to_string())
    );
}

#[test]
fn variants_after_the_last_existing_one_are_registered() {
    assert_eq!(first_variant_to_register(&vec![false, true, false]), 0);
    assert_eq!(first_variant_to_register(&vec![true, true, false, false]), 2);
    assert_eq!(first_variant_to_register(&vec![true, false, true]), 3);
}

#[test]
fn renamed_strategy_keeps_its_strategy_under_the_new_name() {
    let mut r: StrategyRegistry<u32> = StrategyRegistry::new();
    r.create_strategy("old".to_string(), 7);
    r.create_strategy("other".to_string(), 8);
    assert_eq!(r.rename_strategy(&"old".to_string(), "new".to_string()), Ok(()));
    assert_eq!(r.strategy(&"new".to_string()), Some(&7));
    assert!(!r.contains(&"old".to_string()));
    assert_eq!(r.strategy(&"other".to_string()), Some(&8));
    assert_eq!(r.selected, Some("new".to_string()));
    assert_eq!(
        r.rename_strategy(&"gone".to_string(), "x".to_string()),
        Err("Strategy doesn't exist in app state.".to_string())
    );
}

#[test]
fn top_up_starts_over_once_when_its_asset_lock_was_used() {
    let mut run: TopUpRun<u8, u8, u8> = TopUpRun { slot: None, replace_asset_lock: false, started_over: false };
    assert!(matches!(top_up_step(&run), TopUpStep::CreateAssetLockTransaction));
    advance_top_up(&mut run, TopUpEvent::AssetLockMade(1, 2)).unwrap();
    advance_top_up(&mut run, TopUpEvent::ProofReceived(3)).unwrap();
    assert!(matches!(top_up_step(&run), TopUpStep::TopUp));
    let used = Some("asset lock already completely used".to_string());
    assert!(advance_top_up(&mut run, TopUpEvent::TopUpFailed("dapi".to_string(), used.clone())).is_ok());
    assert!(matches!(top_up_step(&run), TopUpStep::CreateAssetLockTransaction));
    assert_eq!(run.slot.as_ref().unwrap().asset_lock_transaction, 1);
    advance_top_up(&mut run, TopUpEvent::AssetLockMade(4, 5)).unwrap();
    assert_eq!(run.slot.as_ref().unwrap().asset_lock_transaction, 4);
    assert!(matches!(top_up_step(&run), TopUpStep::RetrieveAssetLockProof));
    advance_top_up(&mut run, TopUpEvent::ProofReceived(6)).unwrap();
    match advance_top_up(&mut run, TopUpEvent::TopUpFailed("dapi".to_string(), used)) {
        Err(e) => assert_eq!(e.message(), "SDK error: dapi"),
        Ok(()) => panic!("expected a failure"),
    }
    assert_eq!(run.slot.as_ref().unwrap().asset_lock_proof, Some(6));
    advance_top_up(&mut run, TopUpEvent::ToppedUp).unwrap();
    assert!(run.slot.is_none());
}

#[test]
fn registration_and_top_up_need_a_wallet_and_an_identity() {
    let slot: Option<RegistrationSlot<u8, u8, u8, u8>> = None;
    match begin_registration(&slot, false) {
        Err(e) => assert_eq!(e.message(), "Identity registration error: No wallet loaded"),
        Ok(_) => panic!("expected a refusal"),
    }
    assert!(matches!(begin_registration(&slot, true), Ok(RegistrationStep::CreateAssetLockTransaction)));
    let run: TopUpRun<u8, u8, u8> = TopUpRun { slot: None, replace_asset_lock: false, started_over: false };
    match begin_top_up(&run, false, true) {
        Err(e) => assert_eq!(e.message(), "Identity registration error: No wallet loaded"),
        Ok(_) => panic!("expected a refusal"),
    }
    match begin_top_up(&run, true, false) {
        Err(e) => assert_eq!(e.message(), "Identity top up error: No identity loaded"),
        Ok(_) => panic!("expected a refusal"),
    }
    assert!(matches!(begin_top_up(&run, true, true), Ok(TopUpStep::CreateAssetLockTransaction)));
}

#[test]
fn registered_identity_is_loaded_known_and_keyed() {
    let mut b = book();
    b.store_registered_identity(&vec![4; 32], "four", "four", &vec![(0, vec![1; 32]), (1, vec![2; 32]), (0, vec![3; 32])]);
    assert_eq!(b.loaded.as_ref().unwrap().identity, "four");
    assert_eq!(b.known.len(), 4);
    assert_eq!(b.known[3].identity, "four");
    assert_eq!(b.private_key_for(&vec![4; 32], 0), Some(&vec![3; 32]));
    assert_eq!(b.private_key_for(&vec![4; 32], 1), Some(&vec![2; 32]));
    b.load_fetched_identity(&vec![1; 32], "one again", "one again");
    assert_eq!(b.known.len(), 4);
    assert_eq!(b.known[0].identity, "one again");
    assert_eq!(b.loaded.as_ref().unwrap().identity, "one again");
}

#[test]
fn document_task_lookups() {
    let mut known: NamedMap<u32> = NamedMap::new();
    known.insert("dpns".to_string(), 7);
    assert_eq!(broadcast_contract(&known, &"dpns".to_string()), Ok(&7));
    assert_eq!(
        broadcast_contract(&known, &"x".to_string()),
        Err("Data contract not found in TUI known contracts".to_string())
    );
    let types = vec!["preorder".to_string(), "domain".to_string()];
    assert_eq!(broadcast_document_type(&types, &"domain".to_string()), Ok(1));
    assert_eq!(
        broadcast_document_type(&types, &"note".to_string()),
        Err("Document type name not found in data contract".to_string())
    );
    let none: Option<u8> = None;
    assert_eq!(identity_for_task(IdentityNeed::Broadcast, &none), Err(Err("No identity loaded".to_string())));
    assert_eq!(
        identity_for_task(IdentityNeed::Transfer, &none),
        Err(Ok("No loaded identity for document transfer".to_string()))
    );
    assert_eq!(identity_for_task(IdentityNeed::Vote, &Some(3u8)), Ok(&3));
    let keys = vec![
        (0, KeyPurpose::Authentication, KeySecurityLevel::Master, KeyType::EcdsaSecp256k1),
        (5, KeyPurpose::Voting, KeySecurityLevel::High, KeyType::EcdsaHash160),
    ];
    assert_eq!(voting_key(&keys), Ok(5));
    assert_eq!(
        voting_key(&vec![]),
        Err("No voting key in the loaded identity. Are you sure it's a masternode identity?".to_string())
    );
    assert_eq!(vote_poll_end_time(&vec![(10, false), (20, true), (30, true)]), Some(20));
    assert_eq!(vote_poll_end_time(&vec![(10, false)]), None);
    assert_eq!(contested_index(&vec![false, true]), Ok(1));
    assert_eq!(contested_index(&vec![]), Err("No contested index for this document type".to_string()));
}

#[test]
fn wallet_key_decoding_and_loading() {
    match decoded_private_key(&PrivateKeyText::Wif("c".repeat(52)), None) {
        Err(WalletError::Custom(m)) => assert_eq!(m, "Expected WIF key"),
        _ => panic!("expected a refusal"),
    }
    match decoded_private_key(&PrivateKeyText::Secret(vec![0; 32]), None) {
        Err(WalletError::Custom(m)) => assert_eq!(m, "Expected private key"),
        _ => panic!("expected a refusal"),
    }
    assert_eq!(decoded_private_key(&PrivateKeyText::Secret(vec![1; 32]), Some(vec![1; 32])).unwrap(), vec![1; 32]);
    let mut state: Option<Wallet> = None;
    assert!(add_wallet_by_key(&mut state, Err(WalletError::Custom("Expected WIF key".to_string())), Ok(vec![])).is_err());
    assert!(state.is_none());
    let u = |tag: u8, value: u64| Utxo { txid: vec![tag; 32], vout: 0, value, script_pubkey: vec![] };
    assert!(add_wallet_by_key(
        &mut state,
        Ok((vec![1; 32], vec![2; 33], "yAddr".to_string())),
        Ok(vec![u(1, 5), u(2, 7), u(1, 9)])
    )
    .is_ok());
    match &state {
        Some(Wallet::SingleKeyWallet(w)) => {
            assert_eq!(w.address, "yAddr");
            assert_eq!(w.utxos.len(), 2);
            assert_eq!(w.utxos[0].value, 7);
            assert_eq!(w.utxos[1].value, 9);
        }
        None => panic!("expected a wallet"),
    }
    let deduped = last_output_of_each(vec![u(3, 1), u(3, 2)]);
    assert_eq!(deduped.len(), 1);
    assert_eq!(deduped[0].value, 2);
}

#[test]
fn available_contracts_count_takes_and_returns() {
    let mut s = LoadTestState::new(3);
    s.take(LoadEvent::Reserved);
    s.take(LoadEvent::Reserved);
    s.take(LoadEvent::BroadcastFailed);
    s.take(LoadEvent::BroadcastAccepted);
    s.take(LoadEvent::Checked(CheckOutcome::Missing, true));
    assert_eq!(s.available, 3 - 2 + 2);
}
