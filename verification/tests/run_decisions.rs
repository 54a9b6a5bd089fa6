use rs_platform_explorer::load::{
    check_action, docs_to_check, duffs_of_dash, effective_rate, needs_refill, registration_nonces,
    report_due, waits_for_contract, CheckAction, CheckOutcome,
};
use rs_platform_explorer::runs::{
    asset_lock_proofs_needed, broadcast_request_limits, check_enough_utxos,
    classify_broadcast_error, continue_strategy_loop, load_rounds, load_run_time, no_strategy_error,
    pacing_sleep_ms, pauses_after_round, rate_after_setup, records_new_identities,
    retry_epoch_request, waits_for_results, withdrawal_amount,
    withdrawal_counts, BroadcastErrorKind, BroadcastErrorTally, RunTally,
};

#[test]
fn setup_rounds_always_run() {
    assert!(continue_strategy_loop(true, 1_000, 10, 5, 0, 1));
    assert!(continue_strategy_loop(false, 0, 0, 0, 100, 2));
}

#[test]
fn block_mode_runs_until_the_blocks_and_setup_blocks_pass() {
    assert!(continue_strategy_loop(true, 16, 10, 5, 0, 7));
    assert!(!continue_strategy_loop(true, 17, 10, 5, 0, 8));
}

#[test]
fn time_mode_runs_while_seconds_remain() {
    assert!(continue_strategy_loop(false, 0, 0, 30, 29, 9));
    assert!(!continue_strategy_loop(false, 0, 0, 30, 30, 9));
}

#[test]
fn epoch_request_is_tried_three_times() {
    assert!(retry_epoch_request(0));
    assert!(retry_epoch_request(1));
    assert!(!retry_epoch_request(2));
}

#[test]
fn broadcast_limits_by_mode_and_round() {
    assert!(broadcast_request_limits(true, 1).is_none());
    assert!(broadcast_request_limits(false, 2).is_none());
    let b = broadcast_request_limits(true, 3).unwrap();
    assert_eq!((b.connect_timeout_secs, b.timeout_secs, b.retries), (3, 3, 1));
    let t = broadcast_request_limits(false, 3).unwrap();
    assert_eq!((t.connect_timeout_secs, t.timeout_secs, t.retries), (1, 1, 0));
}

#[test]
fn round_decisions() {
    assert!(waits_for_results(true, 10));
    assert!(waits_for_results(false, 2));
    assert!(!waits_for_results(false, 3));
    assert!(records_new_identities(2));
    assert!(!records_new_identities(3));
    assert!(pauses_after_round(1, 4));
    assert!(!pauses_after_round(1, 0));
    assert!(!pauses_after_round(3, 4));
    assert_eq!(pacing_sleep_ms(false, 300), 700);
    assert_eq!(pacing_sleep_ms(false, 1_500), 0);
    assert_eq!(pacing_sleep_ms(true, 300), 0);
}

#[test]
fn broadcast_failures_are_classed_by_message() {
    assert!(classify_broadcast_error("Insufficient identity balance") == BroadcastErrorKind::InsufficientBalance);
    assert!(classify_broadcast_error("invalid identity nonce 5") == BroadcastErrorKind::IdentityNonce);
    assert!(classify_broadcast_error("deadline exceeded") == BroadcastErrorKind::RateLimit);
    let mut t = BroadcastErrorTally::new();
    t.record("Insufficient identity 1");
    t.record("whatever");
    t.record("invalid identity nonce");
    t.record("timeout");
    assert_eq!(
        (t.insufficient_balance, t.identity_nonce, t.rate_limit, t.broadcast_timeout),
        (1, 1, 2, 0)
    );
}

#[test]
fn asset_locks_needed_and_utxo_check() {
    assert_eq!(asset_lock_proofs_needed(3, 2, &vec![4, 1]), 10);
    assert_eq!(check_enough_utxos(10, 10), Ok(()));
    assert_eq!(
        check_enough_utxos(2, 5),
        Err("Not enough UTXOs available in wallet. Available: 2. Need: 5. Go to Wallet screen and create more.".to_string())
    );
}

#[test]
fn missing_strategy_message() {
    assert_eq!(no_strategy_error(&"s1".to_string()), "No strategy loaded with name \"s1\"");
}

#[test]
fn rates_after_setup() {
    assert_eq!(load_run_time(0), 1);
    assert_eq!(load_run_time(1), 1);
    assert_eq!(load_run_time(7), 7);
    assert_eq!(rate_after_setup(25, 3, 2, 4), 5);
    assert_eq!(rate_after_setup(5, 3, 2, 4), 0);
    assert_eq!(load_rounds(13), 10);
}

#[test]
fn withdrawals_after_a_run() {
    assert_eq!(withdrawal_amount(5_000_000), 4_000_000);
    assert!(withdrawal_counts(&Ok(4)));
    assert!(withdrawal_counts(&Err("invalid proof: x".to_string())));
    assert!(!withdrawal_counts(&Err("no funds".to_string())));
}

#[test]
fn load_test_rates_and_checks() {
    assert_eq!(effective_rate(0), u32::MAX);
    assert_eq!(effective_rate(7), 7);
    assert_eq!(docs_to_check(100, 30), 3_000);
    assert_eq!(docs_to_check(1_000, 30), 10_000);
    assert_eq!(docs_to_check(0, 1), 10_000);
    assert_eq!(docs_to_check(5, 0), 0);
}

#[test]
fn contract_registrations_wait_every_speed_and_at_the_tail() {
    assert!(waits_for_contract(0, 10, 3));
    assert!(!waits_for_contract(1, 10, 3));
    assert!(waits_for_contract(3, 10, 3));
    assert!(!waits_for_contract(7, 10, 4));
    assert!(waits_for_contract(9, 10, 4));
    assert_eq!(registration_nonces(5, 3), vec![6, 7, 8]);
    assert!(registration_nonces(5, 0).is_empty());
}

#[test]
fn refill_and_reports() {
    assert!(needs_refill(10, 1));
    assert!(!needs_refill(100_000_000_000, 1));
    assert_eq!(duffs_of_dash(15), 1_500_000_000);
    assert!(report_due(20, 10));
    assert!(!report_due(20, 20));
    assert!(!report_due(21, 10));
}

#[test]
fn document_checks_lead_to_actions() {
    assert!(check_action(CheckOutcome::Found, true) == CheckAction::CountMined);
    assert!(check_action(CheckOutcome::Missing, false) == CheckAction::Retry);
    assert!(check_action(CheckOutcome::Failed, false) == CheckAction::Retry);
    assert!(check_action(CheckOutcome::Missing, true) == CheckAction::GiveUp);
}

#[test]
fn successes_are_the_accepted_broadcasts_in_both_modes() {
    let mut tally = RunTally::new();
    tally.attempt(4);
    tally.record_broadcast(true);
    tally.record_broadcast(false);
    tally.record_broadcast(true);
    assert_eq!(tally.transitions, 4);
    assert_eq!(tally.failed, 1);
    assert_eq!(tally.success_count(), 2);
}
