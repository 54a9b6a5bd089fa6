use rs_platform_explorer::errors::BackendError;
use rs_platform_explorer::identity::{IdentityBook, KeySecurityLevel, KnownIdentity};
use rs_platform_explorer::identity_tasks::{
    check_known_identity_loadable, identity_task_answer, master_key_for_update,
    no_loaded_identity_answer, IdentityTaskKind,
};
use rs_platform_explorer::wallet::WalletError;

#[test]
fn identity_task_success_messages() {
    assert_eq!(identity_task_answer(&IdentityTaskKind::TopUpIdentity, Ok(())), Ok("Top up success".to_string()));
    assert_eq!(
        identity_task_answer(&IdentityTaskKind::WithdrawFromIdentity, Ok(())),
        Ok("Successful withdrawal".to_string())
    );
    assert_eq!(
        identity_task_answer(&IdentityTaskKind::RegisterDpnsName, Ok(())),
        Ok("DPNS name registration successful".to_string())
    );
    assert!(identity_task_answer(&IdentityTaskKind::RegisterIdentity, Ok(()))
        .unwrap()
        .starts_with("Executed successfully.\n\nPrivate keys were logged"));
}

#[test]
fn identity_task_failure_messages() {
    assert_eq!(
        identity_task_answer(&IdentityTaskKind::Refresh, Err("boom".to_string())),
        Err("boom".to_string())
    );
    assert_eq!(
        identity_task_answer(&IdentityTaskKind::CopyIdentityId, Err("no clipboard".to_string())),
        Err("Clipboard is not supported".to_string())
    );
}

#[test]
fn answers_without_a_loaded_identity() {
    assert_eq!(no_loaded_identity_answer(&IdentityTaskKind::AddIdentityKey), Some(Err("No identity loaded".to_string())));
    assert_eq!(
        no_loaded_identity_answer(&IdentityTaskKind::CopyIdentityId),
        Some(Err("Failed to copy Identity Id".to_string()))
    );
    assert_eq!(
        no_loaded_identity_answer(&IdentityTaskKind::TransferCredits),
        Some(Ok("No loaded identity for credit transfer".to_string()))
    );
    assert_eq!(no_loaded_identity_answer(&IdentityTaskKind::TopUpIdentity), None);
}

#[test]
fn known_identity_needs_known_keys() {
    let mut book: IdentityBook<u8> = IdentityBook {
        known: vec![KnownIdentity { id: vec![1; 32], identity: 1 }],
        private_keys: vec![],
        loaded: None,
    };
    assert_eq!(
        check_known_identity_loadable(&book, &vec![1; 32]),
        Err("No private keys known for this identity. Try loading it with the private keys.".to_string())
    );
    book.insert_private_key(vec![1; 32], 2, vec![3; 32]);
    assert_eq!(check_known_identity_loadable(&book, &vec![1; 32]), Ok(()));
}

#[test]
fn backend_error_messages() {
    assert_eq!(BackendError::IdentityTopUp("No identity loaded".to_string()).message(), "Identity top up error: No identity loaded");
    assert_eq!(
        BackendError::Wallet(WalletError::Insight("down".to_string())).message(),
        "Wallet error: insight error: down"
    );
    assert_eq!(BackendError::SdkExplained("fetch".to_string(), "timeout".to_string()).message(), "SDK error: fetch timeout");
    assert_eq!(BackendError::Dpns("taken".to_string()).message(), "DPNS error: taken");
}

#[test]
fn master_key_for_adding_a_key() {
    let mut book: IdentityBook<u8> = IdentityBook { known: vec![], private_keys: vec![], loaded: None };
    let id = vec![4u8; 32];
    let keys = vec![(0, KeySecurityLevel::High), (2, KeySecurityLevel::Master)];
    assert_eq!(
        master_key_for_update(&book, &id, &vec![(0, KeySecurityLevel::High)]),
        Err("No master key found for identity".to_string())
    );
    assert_eq!(master_key_for_update(&book, &id, &keys), Err("Master private key not found".to_string()));
    book.insert_private_key(id.clone(), 2, vec![9; 32]);
    assert_eq!(master_key_for_update(&book, &id, &keys), Ok((2, vec![9; 32])));
}
