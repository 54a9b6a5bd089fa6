use rs_platform_explorer::address_pool::{split_address_list, AddressPool};
use rs_platform_explorer::documents::{
    action_done, combine_query_results, document_system_fields, purchase_price, DocumentAction,
};
use rs_platform_explorer::insight::{
    request_failed_message, utxo_from_record, utxo_request_body, utxo_request_url,
    utxos_from_records, EncodedField, UtxoRecord,
};
use rs_platform_explorer::navigation::{Navigation, NavigationMessage, Screen};
use rs_platform_explorer::platform::{
    core_height_from_be_bytes, epoch_estimated_end_ms, epoch_estimated_time_ms,
    epoch_index_from_be_bytes, format_current_quorums_info, format_extended_epoch_info,
    format_total_credits_on_platform, format_withdrawals, EpochInfoView, TotalCreditsView,
    WithdrawalLine, WithdrawalTotals,
    format_current_quorums_info_to_show_queue_only,
    format_current_quorums_info_to_show_reduced_queue_only, proved_item, total_withdrawal_amount,
    version_votes_info, withdrawable_now, CoreNetwork, ProvedLookup, ProvedValue, QuorumsInfo,
    ValidatorMember, ValidatorSet,
};
use rs_platform_explorer::stats::{
    BroadcastRandomDocumentsStats, Rate, RateUnit, StatusCode, TestSummary,
};

#[test]
fn epoch_time_by_network() {
    assert_eq!(epoch_estimated_time_ms(&CoreNetwork::Dash), 788_400_000);
    assert_eq!(epoch_estimated_time_ms(&CoreNetwork::Testnet), 3_600_000);
    assert_eq!(epoch_estimated_time_ms(&CoreNetwork::Devnet), 3_600_000);
    assert_eq!(epoch_estimated_time_ms(&CoreNetwork::Regtest), 1_200_000);
    assert_eq!(epoch_estimated_time_ms(&CoreNetwork::Other), 3_600_000);
    assert_eq!(epoch_estimated_end_ms(1_000, &CoreNetwork::Regtest), 1_201_000);
}

#[test]
fn version_votes_lines() {
    let text = version_votes_info(&vec![(1, Some(12)), (2, None)]);
    assert_eq!(text, "Version 1 -> 12 votes\nVersion 2 -> No votes");
    assert_eq!(version_votes_info(&vec![]), "");
}

fn quorums() -> QuorumsInfo {
    QuorumsInfo {
        quorum_hashes: vec![vec![0xaa, 0x01], vec![0xbb, 0x02]],
        current_quorum_hash: vec![0xbb, 0x02],
        validator_sets: vec![
            ValidatorSet {
                quorum_hash: vec![0xaa, 0x01],
                members: vec![ValidatorMember { pro_tx_hash: vec![0x11], node_ip: "10.0.0.1".to_string() }],
            },
            ValidatorSet {
                quorum_hash: vec![0xbb, 0x02],
                members: vec![
                    ValidatorMember { pro_tx_hash: vec![0x22], node_ip: "10.0.0.2".to_string() },
                    ValidatorMember { pro_tx_hash: vec![0x11], node_ip: "10.0.0.3".to_string() },
                ],
            },
        ],
        last_block_proposer: vec![0x11],
        last_platform_block_height: 42,
        last_core_block_height: 7,
    }
}

#[test]
fn quorums_overview() {
    let text = format_current_quorums_info(&quorums());
    assert_eq!(
        text,
        "CurrentQuorumsInfo {\n    quorum_hashes: [\n        aa01, \n        bb02\n    ],\n    current_quorum_hash: bb02,\n    last_block_proposer: 11,\n    last_platform_block_height: 42,\n    last_core_block_height: 7\n}"
    );
}

#[test]
fn quorums_queue_marks_the_proposer_in_the_current_quorum() {
    let text = format_current_quorums_info_to_show_queue_only(&quorums());
    assert_eq!(
        text,
        "aa01\n    - 11 - 10.0.0.1 \nbb02\n    - 22 - 10.0.0.2 \n    ---> 11 - 10.0.0.3 \n"
    );
    let reduced = format_current_quorums_info_to_show_reduced_queue_only(&quorums());
    assert_eq!(reduced, "aa01\nbb02\n    - 22 - 10.0.0.2 \n    ---> 11 - 10.0.0.3 \n");
}

#[test]
fn proof_readings() {
    let path = vec![vec![1u8]];
    let key = vec![9u8];
    let good = ProvedValue { path: path.clone(), key: key.clone(), item: Some(vec![0, 5]) };
    assert_eq!(proved_item(Some(good), &path, &key, ProvedLookup::UnpaidEpochIndex), Ok(vec![0, 5]));
    assert_eq!(
        proved_item(None, &path, &key, ProvedLookup::UnpaidEpochIndex),
        Err("This proof would show that Platform has not yet been initialized as we can not find a start index".to_string())
    );
    let wrong_path = ProvedValue { path: vec![vec![2u8]], key: key.clone(), item: None };
    assert_eq!(
        proved_item(Some(wrong_path), &path, &key, ProvedLookup::StartCoreHeight),
        Err("The result of this proof is not what we asked for (start core height path)".to_string())
    );
    let wrong_key = ProvedValue { path: path.clone(), key: vec![8u8], item: None };
    assert_eq!(
        proved_item(Some(wrong_key), &path, &key, ProvedLookup::UnpaidEpochIndex),
        Err("The result of this proof is not what we asked for (unpaid epoch key)".to_string())
    );
    let not_item = ProvedValue { path: path.clone(), key: key.clone(), item: None };
    assert_eq!(
        proved_item(Some(not_item), &path, &key, ProvedLookup::StartCoreHeight),
        Err("We are expecting an item for the start core height of the unpaid epoch".to_string())
    );
    assert_eq!(epoch_index_from_be_bytes(&vec![1, 2]), 258);
    assert_eq!(core_height_from_be_bytes(&vec![0, 1, 0, 2]), 65_538);
}

#[test]
fn withdrawal_totals() {
    assert_eq!(total_withdrawal_amount(&vec![5, 6, 7]), 18);
    assert_eq!(withdrawable_now(100, 30), 70);
    assert_eq!(withdrawable_now(100, 300), 0);
    assert_eq!(withdrawable_now(100, -1), 0);
}

#[test]
fn navigation_goes_on_and_back() {
    let mut n = Navigation::new();
    assert_eq!(n.breadcrumbs_text(), "Main / ");
    assert!(n.update(NavigationMessage::NextScreen(Screen::Wallet)) == Some(Screen::Wallet));
    n.next_screen(Screen::AddWallet);
    assert_eq!(n.breadcrumbs_text(), "Main / Wallet / AddWallet / ");
    assert!(n.update(NavigationMessage::PrevScreen) == Some(Screen::Wallet));
    assert!(n.update(NavigationMessage::ReloadScreen) == Some(Screen::Wallet));
    n.prev_screen();
    assert!(n.current_screen == Screen::Main);
    assert!(n.breadcrumbs.is_empty());
    assert!(n.update(NavigationMessage::AppClose).is_none());
    assert!(n.quit);
}

#[test]
fn address_pool_hands_out_in_turn() {
    let list = split_address_list("http://a:1,http://b:2,http://c:3");
    assert_eq!(list, vec!["http://a:1", "http://b:2", "http://c:3"]);
    assert_eq!(split_address_list(""), vec![""]);
    assert_eq!(split_address_list("x,,y"), vec!["x", "", "y"]);
    let mut pool = AddressPool::new(list);
    let handed: Vec<String> = (0..4).map(|_| pool.next_address().clone()).collect();
    assert_eq!(handed, vec!["http://a:1", "http://b:2", "http://c:3", "http://a:1"]);
}

fn record(txid: EncodedField, vout: Option<u64>, sats: Option<u64>, script: EncodedField) -> UtxoRecord {
    UtxoRecord { txid, vout, satoshis: sats, script_pub_key: script }
}

#[test]
fn insight_records_become_outputs() {
    let r = record(EncodedField::Decoded(vec![1; 32]), Some(2), Some(500), EncodedField::Decoded(vec![0x76]));
    let u = utxo_from_record(&r).unwrap();
    assert_eq!((u.txid, u.vout, u.value, u.script_pubkey), (vec![1; 32], 2, 500, vec![0x76]));
    let big_vout = record(EncodedField::Decoded(vec![1]), Some(0x1_0000_0003), Some(1), EncodedField::Decoded(vec![]));
    assert_eq!(utxo_from_record(&big_vout).unwrap().vout, 3);
}

#[test]
fn insight_record_problems_in_order() {
    let cases = vec![
        (record(EncodedField::Missing, None, None, EncodedField::Missing), "Missing txid"),
        (record(EncodedField::Invalid, None, None, EncodedField::Missing), "Invalid txid format"),
        (record(EncodedField::Decoded(vec![]), None, None, EncodedField::Missing), "Missing or invalid vout"),
        (record(EncodedField::Decoded(vec![]), Some(0), None, EncodedField::Missing), "Missing or invalid amount"),
        (record(EncodedField::Decoded(vec![]), Some(0), Some(1), EncodedField::Missing), "Missing scriptPubKey"),
        (record(EncodedField::Decoded(vec![]), Some(0), Some(1), EncodedField::Invalid), "Invalid scriptPubKey format"),
    ];
    for (r, m) in cases {
        assert_eq!(utxo_from_record(&r).err(), Some(m.to_string()));
    }
}

#[test]
fn insight_records_keep_one_output_per_outpoint() {
    let records = vec![
        record(EncodedField::Decoded(vec![1]), Some(0), Some(10), EncodedField::Decoded(vec![])),
        record(EncodedField::Decoded(vec![2]), Some(0), Some(20), EncodedField::Decoded(vec![])),
        record(EncodedField::Decoded(vec![1]), Some(0), Some(30), EncodedField::Decoded(vec![])),
    ];
    let outs = utxos_from_records(&records).unwrap();
    assert_eq!(outs.iter().map(|u| u.value).collect::<Vec<_>>(), vec![30, 20]);
    let mut bad = records;
    bad.push(record(EncodedField::Missing, None, None, EncodedField::Missing));
    assert_eq!(utxos_from_records(&bad).err(), Some("Missing txid".to_string()));
}

#[test]
fn insight_request_texts() {
    assert_eq!(utxo_request_url(&"http://insight".to_string()), "http://insight/addrs/utxo");
    assert_eq!(utxo_request_body(&vec!["ya".to_string(), "yb".to_string()]), "addrs=ya,yb");
    assert_eq!(
        request_failed_message(&"404 Not Found".to_string(), &"nope".to_string()),
        "Request failed with status 404 Not Found: nope"
    );
}

#[test]
fn documents_system_fields_follow_the_required_fields() {
    let required = vec!["$createdAt".to_string(), "$updatedAtBlockHeight".to_string()];
    let f = document_system_fields(&required, true, 111, 222);
    assert_eq!(f.revision, Some(1));
    assert_eq!(f.created_at, Some(111));
    assert_eq!(f.updated_at, None);
    assert_eq!(f.created_at_block_height, None);
    assert_eq!(f.updated_at_block_height, Some(0));
    assert_eq!(f.created_at_core_block_height, None);
    let none = document_system_fields(&vec![], false, 1, 2);
    assert_eq!(none.revision, None);
    assert_eq!(none.created_at, None);
}

#[test]
fn purchase_prices() {
    assert_eq!(purchase_price(Ok(Some(9))), Ok(9));
    assert_eq!(purchase_price(Ok(None)), Err("Document is not for sale".to_string()));
    assert_eq!(
        purchase_price(Err("bad type".to_string())),
        Err("No price field found in the document: bad type".to_string())
    );
}

#[test]
fn document_task_answers() {
    let id = "Doc1".to_string();
    assert_eq!(action_done(DocumentAction::Purchase, &id, true), "Successfully purchased document with id Doc1");
    assert_eq!(
        action_done(DocumentAction::SetPrice, &id, false),
        "Successfully updated price of document with id Doc1 but failed to refresh identity balance after"
    );
    assert_eq!(action_done(DocumentAction::Transfer, &id, true), "Successfully transferred document with id Doc1");
    assert_eq!(combine_query_results::<u8, u8>(Ok(1), Ok(2)), Ok((1, 2)));
    assert_eq!(
        combine_query_results::<u8, u8>(Err("a".to_string()), Err("b".to_string())),
        Err("Failed to fetch documents: a".to_string())
    );
    assert_eq!(
        combine_query_results::<u8, u8>(Ok(1), Err("b".to_string())),
        Err("Failed to fetch contested resources: b".to_string())
    );
}

#[test]
fn broadcast_stats_report() {
    let s = BroadcastRandomDocumentsStats::tally(
        4,
        &vec![Ok(()), Err("e1".to_string()), Ok(()), Err("e2".to_string())],
    );
    assert_eq!((s.total, s.completed), (4, 2));
    assert_eq!(s.info_display(), "Broadcast random documents results:\nCompleted 2 of 4\nLast error: e2");
    let clean = BroadcastRandomDocumentsStats { total: 1, completed: 1, last_error: None };
    assert_eq!(clean.info_display(), "Broadcast random documents results:\nCompleted 1 of 1\nLast error: ");
}

#[test]
fn query_test_summary_report() {
    let mut s = TestSummary::new();
    s.add_ok();
    s.add_ok();
    s.add_error(StatusCode::Unavailable);
    s.add_error(StatusCode::DeadlineExceeded);
    s.add_error(StatusCode::Unavailable);
    assert_eq!(s.oks_count(), 2);
    assert_eq!(s.errors_count(), 3);
    assert_eq!(
        s.report_message(2),
        "2 secs passed. 5 processed (2 q/s): 2 successful, 3 failed: Unavailable - 2, DeadlineExceeded - 1"
    );
    assert_eq!(TestSummary::new().report_message(0), "0 secs passed. 0 processed (0 q/s): 0 successful, 0 failed");
}

#[test]
fn rate_description() {
    assert_eq!(Rate::new(50, RateUnit::Second).description(), "50 per second");
    assert_eq!(Rate::new(3, RateUnit::Minute).description(), "3 per minute");
}

#[test]
fn epoch_info_text() {
    let e = EpochInfoView {
        protocol_version: 1,
        height: 100,
        core_height: 900,
        time_ms: 5000,
        block_time_ago: "a minute ago".to_string(),
        is_current: true,
        index: 7,
        first_block_height: 90,
        first_core_block_height: 890,
        first_block_time: 1000,
        start_time_text: "Mon, 1 Jan 2024".to_string(),
        start_time_ago: "1 hour ago".to_string(),
        estimated_end_text: "in 10 minutes".to_string(),
        fee_multiplier_permille: 1000,
        proof_text: "P".to_string(),
    };
    assert_eq!(
        format_extended_epoch_info(&e, &CoreNetwork::Regtest),
        "protocol version: 1\n current height: 100\ncurrent core height: 900\ncurrent block time: 5000 (a minute ago)\nin epoch: 7\n * start height: 90\n * start core height: 890\n * start time: 1000 (Mon, 1 Jan 2024 - 1 hour ago)\n * estimated end time: 1201000 (in 10 minutes)\n * fee multiplier: 1000\n\nproof: P"
    );
}

#[test]
fn total_credits_text() {
    let mut t = TotalCreditsView {
        height: 10,
        start_core_height: 20,
        epoch_index: 0,
        activation_height: 15,
        core_height: 30,
        subsidy_interval: 210240,
        time_ms: 99,
        block_time_ago: "now".to_string(),
        total_credits: 123,
        dash_amount: "0.0000".to_string(),
        proof_text: "P".to_string(),
    };
    assert_eq!(
        format_total_credits_on_platform(&t),
        "current height: 10\ncurrent epoch start core height: 20\nactivation height: 15\ncurrent core height: 30\nsubsidy interval: 210240\ncurrent block time: 99 (now)\ntotal_credits_on_platform 123 (0.0000 Dash)\n\nproof: P"
    );
    t.epoch_index = 1;
    assert!(!format_total_credits_on_platform(&t).contains("activation height"));
}

#[test]
fn withdrawal_screens() {
    let line = WithdrawalLine {
        date: "2024-01-01".to_string(),
        amount_dash: "0.50000000".to_string(),
        owner: "Own".to_string(),
        address: "yAddr".to_string(),
        status: "QUEUED".to_string(),
        transaction_index: 4,
    };
    let totals = WithdrawalTotals {
        total_dash: "0.5".to_string(),
        withdrawn_last_day_dash: "1".to_string(),
        daily_limit_dash: "10".to_string(),
        withdrawable_dash: "9".to_string(),
    };
    assert_eq!(
        format_withdrawals(&vec![line], false, &totals),
        "total amount 0.5 Dash\namounts {\n    2024-01-01: 0.50000000 Dash for Own towards yAddr (QUEUED)\n}\nwithdrew 1 Dash in last 24 hours\ndaily withdrawal limit is 10 Dash\ncurrently can withdraw 9 Dash\n"
    );
    let done = || WithdrawalLine {
        date: "d".to_string(),
        amount_dash: "1.00000000".to_string(),
        owner: "O".to_string(),
        address: "A".to_string(),
        status: "COMPLETE".to_string(),
        transaction_index: 7,
    };
    let two = vec![done(), done()];
    let text = format_withdrawals(&two, true, &totals);
    assert!(text.contains("amounts {\n    7 1.00000000 Dash for O towards A (COMPLETE at d), \n    7 1.00000000"));
}
