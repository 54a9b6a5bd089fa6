use rs_platform_explorer::codec::bytes_equal;
use rs_platform_explorer::identity::{
    already_broadcast, find_key_id, master_key_id, masternode_identity, next_registration_step,
    remembered_dpns_name_of, top_up_should_start_over, IdentityBook,
    KeySecurityLevel, KnownIdentity, RegistrationProgress, RegistrationStep,
};
use rs_platform_explorer::keys::{
    identity_private_key_text, identity_private_key_texts, wallet_private_key_text, PrivateKeyText,
};
use rs_platform_explorer::wallet::WalletError;

#[test]
fn hex_private_key_gives_its_secret_bytes() {
    let text = "0a".repeat(32);
    match wallet_private_key_text(&text) {
        Ok(PrivateKeyText::Secret(bytes)) => assert_eq!(bytes, vec![0x0a; 32]),
        _ => panic!("expected secret bytes"),
    }
}

#[test]
fn wif_private_key_is_passed_on() {
    let wif = "c".repeat(52);
    match wallet_private_key_text(&wif) {
        Ok(PrivateKeyText::Wif(w)) => assert_eq!(w, wif),
        _ => panic!("expected WIF text"),
    }
    let wif51 = "5".repeat(51);
    assert!(matches!(identity_private_key_text(&wif51), Ok(PrivateKeyText::Wif(_))));
}

#[test]
fn bad_hex_key_is_refused() {
    let text = "zz".repeat(32);
    match wallet_private_key_text(&text) {
        Err(WalletError::Custom(m)) => assert_eq!(m, "Failed to decode hex"),
        _ => panic!("expected a refusal"),
    }
}

#[test]
fn key_of_other_length_is_refused() {
    match wallet_private_key_text("abc") {
        Err(WalletError::Custom(m)) => assert_eq!(m, "Private key in env file can't be decoded"),
        _ => panic!("expected a refusal"),
    }
    match identity_private_key_text("abc") {
        Err(WalletError::Custom(m)) => assert_eq!(m, "Private key can't be decoded from hex or wif"),
        _ => panic!("expected a refusal"),
    }
}

#[test]
fn identity_keys_fail_at_the_first_bad_one() {
    let good = "01".repeat(32);
    let keys = identity_private_key_texts(&vec![good.clone(), "c".repeat(52)]).unwrap();
    assert_eq!(keys.len(), 2);
    match identity_private_key_texts(&vec![good, "short".to_string(), "zz".repeat(32)]) {
        Err(WalletError::Custom(m)) => assert_eq!(m, "Private key can't be decoded from hex or wif"),
        _ => panic!("expected a refusal"),
    }
}

#[test]
fn upper_case_hex_keys_are_read_too() {
    let text = "AB".repeat(32);
    match identity_private_key_text(&text) {
        Ok(PrivateKeyText::Secret(bytes)) => assert_eq!(bytes, vec![0xab; 32]),
        _ => panic!("expected secret bytes"),
    }
    assert!(bytes_equal(&vec![1, 2], &vec![1, 2]));
    assert!(!bytes_equal(&vec![1, 2], &vec![1]));
}

#[test]
fn masternode_identity_hashes_protx_and_key_hash() {
    let m = masternode_identity(&"01".repeat(32), &vec![2u8; 20]).unwrap();
    assert_eq!(m.pro_tx_hash, vec![1u8; 32]);
    assert_eq!(m.identity_id, "A1St8k75SGpw85XCJNBxptKYSrwiWMfQi52KF7v2KugY");
}

#[test]
fn masternode_identity_refuses_bad_hex() {
    let e = masternode_identity("xyz", &vec![]).unwrap_err();
    assert!(e.starts_with("Failed to decode proTxHash from hex: "));
    assert!(e.len() > "Failed to decode proTxHash from hex: ".len());
}

#[test]
fn dpns_names_are_remembered_in_homograph_safe_form() {
    assert_eq!(remembered_dpns_name_of("AliceOo"), "a1ice00");
    assert_eq!(remembered_dpns_name_of("bob"), "b0b");
}

#[test]
fn top_up_and_broadcast_error_decisions() {
    assert!(top_up_should_start_over("error: state transition already in chain"));
    assert!(top_up_should_start_over("asset lock already completely used"));
    assert!(!top_up_should_start_over("timeout"));
    assert!(already_broadcast("status: AlreadyExists"));
    assert!(!already_broadcast("status: Unavailable"));
}

#[test]
fn registration_resumes_at_first_missing_step() {
    let p = |a, b, c| RegistrationProgress {
        has_asset_lock_transaction: a,
        has_asset_lock_proof: b,
        has_identity: c,
    };
    assert!(matches!(next_registration_step(&p(false, false, false)), RegistrationStep::CreateAssetLockTransaction));
    assert!(matches!(next_registration_step(&p(true, false, false)), RegistrationStep::RetrieveAssetLockProof));
    assert!(matches!(next_registration_step(&p(true, true, false)), RegistrationStep::CreateIdentity));
    assert!(matches!(next_registration_step(&p(true, true, true)), RegistrationStep::PutIdentity));
}

#[test]
fn master_key_is_the_first_master() {
    let keys = vec![
        (0, KeySecurityLevel::High),
        (4, KeySecurityLevel::Master),
        (7, KeySecurityLevel::Master),
    ];
    assert_eq!(master_key_id(&keys), Some(4));
    assert_eq!(master_key_id(&vec![(1, KeySecurityLevel::Critical)]), None);
}

#[test]
fn find_key_id_by_public_key_hash() {
    let keys = vec![(3, vec![9u8; 20]), (5, vec![8u8; 20])];
    assert_eq!(find_key_id(&keys, &vec![8u8; 20]), Some(5));
    assert_eq!(find_key_id(&keys, &vec![1u8; 20]), None);
}

fn book() -> IdentityBook<&'static str> {
    IdentityBook {
        known: vec![
            KnownIdentity { id: vec![1; 32], identity: "one" },
            KnownIdentity { id: vec![2; 32], identity: "two" },
        ],
        private_keys: vec![],
        loaded: Some(KnownIdentity { id: vec![1; 32], identity: "one" }),
    }
}

#[test]
fn private_key_read_back_after_insert() {
    let mut b = book();
    b.insert_private_key(vec![1; 32], 0, vec![10; 32]);
    b.insert_private_key(vec![1; 32], 1, vec![11; 32]);
    b.insert_private_key(vec![1; 32], 0, vec![12; 32]);
    assert_eq!(b.private_key_for(&vec![1; 32], 0), Some(&vec![12; 32]));
    assert_eq!(b.private_key_for(&vec![1; 32], 1), Some(&vec![11; 32]));
    assert_eq!(b.private_key_for(&vec![2; 32], 0), None);
    assert_eq!(b.private_keys.len(), 2);
    assert!(b.has_private_keys_for(&vec![1; 32]));
}

#[test]
fn forgotten_identity_has_no_keys_and_is_unloaded() {
    let mut b = book();
    b.insert_private_key(vec![1; 32], 0, vec![10; 32]);
    b.insert_private_key(vec![2; 32], 0, vec![20; 32]);
    b.forget_identity(&vec![1; 32]);
    assert!(!b.has_private_keys_for(&vec![1; 32]));
    assert!(b.has_private_keys_for(&vec![2; 32]));
    assert_eq!(b.known.len(), 1);
    assert_eq!(b.known[0].identity, "two");
    assert!(b.loaded.is_none());
}

#[test]
fn keys_matching_public_key_hashes_are_added() {
    let mut b = book();
    let identity_keys = vec![(0, vec![0xaa; 20]), (1, vec![0xbb; 20])];
    let candidates = vec![(vec![0xbb; 20], vec![5u8; 32]), (vec![0xcc; 20], vec![6u8; 32])];
    match b.add_private_keys_matching(&vec![2; 32], &identity_keys, &candidates) {
        Err(e) => assert_eq!(
            e.message(),
            "Public key hash derived from input private key does not match any identity public key"
        ),
        Ok(()) => panic!("expected a refusal"),
    }
    assert_eq!(b.private_key_for(&vec![2; 32], 1), Some(&vec![5u8; 32]));
    assert_eq!(b.private_key_for(&vec![2; 32], 0), None);
    let all_good = vec![(vec![0xaa; 20], vec![4u8; 32])];
    assert!(b.add_private_keys_matching(&vec![2; 32], &identity_keys, &all_good).is_ok());
    assert_eq!(b.private_key_for(&vec![2; 32], 0), Some(&vec![4u8; 32]));
}

#[test]
fn dpns_preorder_hash_is_double_sha256_of_salted_domain() {
    let h = rs_platform_explorer::dpns::salted_domain_hash(&vec![7u8; 32], &"a1ice".to_string());
    let expected: Vec<u8> = vec![
        129, 241, 221, 13, 222, 1, 45, 18, 65, 54, 81, 220, 209, 71, 51, 73, 189, 153, 62, 98,
        163, 194, 59, 213, 53, 218, 201, 100, 140, 163, 89, 138,
    ];
    assert_eq!(h, expected);
}
