use rs_platform_explorer::contracts::{known_contract_name, NamedMap, SystemContract};

#[test]
fn known_contracts_read_back_what_was_written() {
    let mut m: NamedMap<u32> = NamedMap::new();
    m.insert("withdrawals".to_string(), 3);
    m.insert("DPNS".to_string(), 1);
    m.insert("Dashpay".to_string(), 2);
    assert_eq!(m.get(&"DPNS".to_string()), Some(&1));
    m.insert("DPNS".to_string(), 7);
    assert_eq!(m.get(&"DPNS".to_string()), Some(&7));
    assert_eq!(
        m.names_in_order(),
        vec!["DPNS".to_string(), "Dashpay".to_string(), "withdrawals".to_string()]
    );
}

#[test]
fn insert_if_absent_keeps_what_is_there() {
    let mut m: NamedMap<u32> = NamedMap::new();
    m.insert_if_absent("DPNS".to_string(), 1);
    m.insert_if_absent("DPNS".to_string(), 2);
    assert_eq!(m.get(&"DPNS".to_string()), Some(&1));
}

#[test]
fn removed_and_cleared_contracts_are_gone() {
    let mut m: NamedMap<u32> = NamedMap::new();
    m.insert("a".to_string(), 1);
    m.insert("b".to_string(), 2);
    m.remove(&"a".to_string());
    m.remove(&"zzz".to_string());
    assert_eq!(m.get(&"a".to_string()), None);
    assert_eq!(m.get(&"b".to_string()), Some(&2));
    m.clear();
    assert!(m.names_in_order().is_empty());
}

#[test]
fn system_contract_names() {
    assert_eq!(known_contract_name(SystemContract::Dashpay, None), "Dashpay");
    assert_eq!(known_contract_name(SystemContract::Dashpay, Some("dp".to_string())), "dp");
    assert_eq!(known_contract_name(SystemContract::Dpns, None), "DPNS");
    assert_eq!(known_contract_name(SystemContract::Withdrawals, Some("w".to_string())), "Withdrawals");
}
