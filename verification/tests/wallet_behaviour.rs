use rs_platform_explorer::split::{
    apply_split_transaction, lookup_step, order_by_value_desc, outputs_this_transaction,
    plan_split_transaction, split_parameters, LookupStep,
};
use rs_platform_explorer::wallet::{OutputScript, SingleKeyWallet, Utxo, Wallet, WalletError};
use rs_platform_explorer::wallet_tasks::{wallet_task_answer, WalletTask, WalletTaskOutcome};

fn utxo(tag: u8, value: u64) -> Utxo {
    Utxo { txid: vec![tag; 32], vout: tag as u32, value, script_pubkey: vec![0x76, 0xa9] }
}

fn wallet(values: &[u64]) -> SingleKeyWallet {
    SingleKeyWallet {
        private_key: vec![7; 32],
        public_key: vec![2; 33],
        address: "yTestAddress".to_string(),
        utxos: values.iter().enumerate().map(|(i, v)| utxo(i as u8, *v)).collect(),
    }
}

#[test]
fn balance_sums_the_outputs() {
    assert_eq!(wallet(&[5, 10, 20]).balance(), 35);
    assert_eq!(wallet(&[]).balance(), 0);
}

#[test]
fn take_unspent_takes_the_shortest_covering_prefix() {
    let mut w = wallet(&[5, 10, 20]);
    let (taken, change) = w.take_unspent_utxos_for(12).unwrap();
    assert_eq!(taken.iter().map(|u| u.value).collect::<Vec<_>>(), vec![5, 10]);
    assert_eq!(change, 3);
    assert_eq!(w.utxos.iter().map(|u| u.value).collect::<Vec<_>>(), vec![20]);
}

#[test]
fn take_unspent_exact_amount_leaves_no_change() {
    let mut w = wallet(&[5, 10, 20]);
    let (taken, change) = w.take_unspent_utxos_for(15).unwrap();
    assert_eq!(taken.len(), 2);
    assert_eq!(change, 0);
}

#[test]
fn take_unspent_refused_leaves_wallet_unchanged() {
    let mut w = wallet(&[5, 10, 20]);
    assert!(w.take_unspent_utxos_for(36).is_none());
    assert_eq!(w.utxos.len(), 3);
    assert_eq!(w.balance(), 35);
}

#[test]
fn taking_conserves_value() {
    let mut w = wallet(&[40, 1, 7, 9]);
    let before = w.balance();
    let (taken, _) = w.take_unspent_utxos_for(45).unwrap();
    let taken_total: u64 = taken.iter().map(|u| u.value).sum();
    assert_eq!(before, taken_total + w.balance());
}

#[test]
fn asset_lock_transaction_pays_burn_credit_and_change_less_fee() {
    let mut w = wallet(&[200_000]);
    let plan = w.asset_lock_transaction(50_000).unwrap();
    assert_eq!((plan.version, plan.lock_time, plan.payload_version), (3, 0, 1));
    assert_eq!(plan.outputs.len(), 2);
    assert_eq!(plan.outputs[0].value, 50_000);
    assert!(matches!(plan.outputs[0].script, OutputScript::OpReturn));
    assert_eq!(plan.outputs[1].value, 200_000 - 80_000 - 30_000);
    assert!(matches!(plan.outputs[1].script, OutputScript::Address(ref a) if a == "yTestAddress"));
    assert_eq!(plan.credit_outputs.len(), 1);
    assert_eq!(plan.credit_outputs[0].value, 50_000);
    assert!(matches!(plan.credit_outputs[0].script, OutputScript::OneTimeKey));
    assert_eq!(plan.inputs.len(), 1);
    assert!(w.utxos.is_empty());
}

#[test]
fn asset_lock_transaction_refuses_an_uncovered_amount() {
    let mut w = wallet(&[50_000]);
    match w.asset_lock_transaction(50_000) {
        Err(WalletError::Custom(m)) => assert_eq!(m, "take_unspent_utxos_for() returned None"),
        _ => panic!("expected a refusal"),
    }
    assert_eq!(w.utxos.len(), 1);
}

#[test]
fn asset_lock_transaction_refuses_change_below_fee() {
    let mut w = wallet(&[100_000]);
    match w.asset_lock_transaction(50_000) {
        Err(WalletError::Custom(m)) => assert_eq!(m, "Change < Fee in asset_lock_transaction()"),
        _ => panic!("expected a refusal"),
    }
}

#[test]
fn registration_transaction_credits_one_dash() {
    let mut w = wallet(&[70, 50]);
    let plan = w.registration_transaction(100).unwrap();
    assert_eq!((plan.version, plan.lock_time, plan.payload_version), (3, 0, 0));
    assert_eq!(plan.outputs[0].value, 100);
    assert!(matches!(plan.outputs[0].script, OutputScript::OneTimeKey));
    assert_eq!(plan.outputs[1].value, 20);
    assert!(matches!(plan.outputs[1].script, OutputScript::Address(_)));
    assert_eq!(plan.credit_outputs[0].value, 100_000_000);
    assert!(matches!(plan.credit_outputs[0].script, OutputScript::OpReturn));
    let mut poor = wallet(&[10]);
    match poor.registration_transaction(100) {
        Err(WalletError::Custom(m)) => assert_eq!(m, "Not enough balance in wallet"),
        _ => panic!("expected a refusal"),
    }
}

#[test]
fn wallet_delegates_to_its_single_key_wallet() {
    let mut w = Wallet::SingleKeyWallet(wallet(&[3, 4]));
    assert_eq!(w.balance(), 7);
    assert_eq!(w.receive_address(), "yTestAddress");
    assert_eq!(w.change_address(), "yTestAddress");
    let (taken, change) = w.take_unspent_utxos_for(4).unwrap();
    assert_eq!(taken.len(), 2);
    assert_eq!(change, 3);
    let key = w.private_key_for_address(&"yTestAddress".to_string());
    assert_eq!(key, &vec![7u8; 32]);
}

#[test]
fn wallet_error_messages() {
    assert_eq!(WalletError::Balance.message(), "not enough balance");
    assert_eq!(WalletError::Insight("timeout".to_string()).message(), "insight error: timeout");
    assert_eq!(WalletError::Custom("oops".to_string()).message(), "oops");
}

#[test]
fn split_parameters_round_the_transactions_up() {
    assert_eq!(split_parameters(1_000_000_000 + 50 * 1000, 50), (3, 1000));
    assert_eq!(split_parameters(1_000_000_000 + 48 * 7, 48), (2, 7));
    assert_eq!(split_parameters(1_000_000_000, 1), (1, 0));
}

#[test]
fn order_by_value_desc_sorts_largest_first() {
    let order = order_by_value_desc(&vec![3, 9, 1, 9, 4]);
    let values: Vec<u64> = order.iter().map(|i| [3u64, 9, 1, 9, 4][*i]).collect();
    assert_eq!(values, vec![9, 9, 4, 3, 1]);
    let mut seen = order.clone();
    seen.sort();
    assert_eq!(seen, vec![0, 1, 2, 3, 4]);
}

#[test]
fn split_plan_spends_largest_outputs_and_pays_change() {
    let plan = plan_split_transaction(&vec![100_000, 500_000, 30_000], 100_000, 3).unwrap();
    assert_eq!(plan.input_indices, vec![1]);
    assert_eq!(plan.output_values, vec![100_000, 100_000, 500_000 - 200_000 - 10_000]);
}

#[test]
fn split_plan_without_change_above_threshold() {
    let plan = plan_split_transaction(&vec![30_000], 15_000, 2).unwrap();
    assert_eq!(plan.input_indices, vec![0]);
    assert_eq!(plan.output_values, vec![15_000]);
}

#[test]
fn split_plan_refuses_uncovered_outputs() {
    match plan_split_transaction(&vec![10, 20], 100, 1) {
        Err(WalletError::Balance) => {}
        _ => panic!("expected a balance error"),
    }
}

#[test]
fn wallet_task_answers() {
    let ok = |t: WalletTask| wallet_task_answer(&t, WalletTaskOutcome::Succeeded);
    assert_eq!(ok(WalletTask::AddByPrivateKey("k".to_string())), Ok("Added wallet".to_string()));
    assert_eq!(ok(WalletTask::AddRandomKey), Ok("Added wallet".to_string()));
    assert_eq!(ok(WalletTask::Refresh), Ok("Refreshed wallet".to_string()));
    assert_eq!(ok(WalletTask::CopyAddress), Ok("Copied Address".to_string()));
    assert_eq!(ok(WalletTask::ClearLoadedWallet), Ok("Cleared loaded wallet".to_string()));
    assert_eq!(ok(WalletTask::SplitUTXOs(3)), Ok("Split UTXOs".to_string()));
    assert_eq!(
        wallet_task_answer(&WalletTask::Refresh, WalletTaskOutcome::NoWalletLoaded),
        Err("No wallet loaded".to_string())
    );
    assert_eq!(
        wallet_task_answer(&WalletTask::CopyAddress, WalletTaskOutcome::Failed("x".to_string())),
        Err("Clipboard is not supported".to_string())
    );
    assert_eq!(
        wallet_task_answer(&WalletTask::SplitUTXOs(2), WalletTaskOutcome::Failed("x".to_string())),
        Err("Failed to split UTXOS properly".to_string())
    );
    assert_eq!(
        wallet_task_answer(&WalletTask::Refresh, WalletTaskOutcome::Failed("insight error: down".to_string())),
        Err("insight error: down".to_string())
    );
}

#[test]
fn reload_takes_core_outputs_or_the_fallback() {
    let mut w = wallet(&[1]);
    assert_eq!(w.reload_utxos(Ok(vec![utxo(9, 50), utxo(8, 60)]), None), Ok(()));
    assert_eq!(w.balance(), 110);
    assert_eq!(
        w.reload_utxos(Err("rpc down".to_string()), Some(Ok(vec![utxo(1, 5)]))),
        Ok(())
    );
    assert_eq!(w.balance(), 5);
    assert_eq!(
        w.reload_utxos(Err("rpc down".to_string()), Some(Err("404".to_string()))),
        Err("First error from Core: rpc down, Second Error from Insight: 404".to_string())
    );
    assert_eq!(w.balance(), 5);
    let mut whole = Wallet::SingleKeyWallet(wallet(&[]));
    assert_eq!(whole.reload_utxos(Ok(vec![utxo(2, 3)]), None), Ok(()));
    assert_eq!(whole.balance(), 3);
    let plan = whole.registration_transaction(2).unwrap();
    assert_eq!(plan.outputs[1].value, 1);
}

#[test]
fn stored_outputs_show_reversed_txid_and_script_hex() {
    let w = SingleKeyWallet {
        private_key: vec![7; 32],
        public_key: vec![2; 33],
        address: "yAddr".to_string(),
        utxos: vec![Utxo { txid: vec![0x01, 0x02, 0xff], vout: 3, value: 42, script_pubkey: vec![0x76, 0xa9] }],
    };
    assert_eq!(w.stored_utxos(), vec![("ff0201:3".to_string(), 42, "76a9".to_string())]);
}

#[test]
fn wallet_description_text() {
    let w = Wallet::SingleKeyWallet(SingleKeyWallet {
        private_key: vec![7; 32],
        public_key: vec![0xab, 0x01],
        address: "yAddr".to_string(),
        utxos: vec![],
    });
    assert_eq!(
        w.description(&"1.5000".to_string()),
        "Single Key Wallet \npublic key: ab01 \naddress: yAddr \nbalance: 1.5000"
    );
}

#[test]
fn split_transactions_make_at_most_24_outputs() {
    assert_eq!(outputs_this_transaction(50), 24);
    assert_eq!(outputs_this_transaction(2), 2);
}

#[test]
fn split_lookup_retries_only_missing_transactions() {
    assert!(lookup_step(0, &Ok(())) == LookupStep::Found);
    assert!(lookup_step(0, &Err("Transaction not found".to_string())) == LookupStep::LookAgain);
    assert!(lookup_step(1, &Err("status: Transaction not found".to_string())) == LookupStep::LookAgain);
    assert!(lookup_step(2, &Err("Transaction not found".to_string())) == LookupStep::GiveUp);
    assert!(lookup_step(0, &Err("connection refused".to_string())) == LookupStep::GiveUp);
}

#[test]
fn split_transaction_replaces_spent_outputs_with_new_ones() {
    let utxos = vec![utxo(0, 10), utxo(1, 20), utxo(2, 30)];
    let after = apply_split_transaction(utxos, &vec![2, 0], &vec![25, 30], &vec![9; 32], &vec![0x51]);
    let summary: Vec<(u8, u32, u64)> = after.iter().map(|u| (u.txid[0], u.vout, u.value)).collect();
    assert_eq!(summary, vec![(1, 1, 20), (9, 0, 25), (9, 1, 30)]);
    assert_eq!(after[1].script_pubkey, vec![0x51]);
    let after_total: u64 = after.iter().map(|u| u.value).sum();
    assert_eq!(after_total + (30 + 10), (10 + 20 + 30) + (25 + 30));
}
