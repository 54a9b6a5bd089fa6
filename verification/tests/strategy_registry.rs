use rs_platform_explorer::description::{
    default_strategy_description, strategy_name_from_url, ContractSummary, Description,
    FrequencySummary, OperationKind, OperationSummary, StrategySummary, TextMap,
};
use rs_platform_explorer::strategy::{
    start_contract_names_of, variant_names, ContractNames, StrategyRegistry,
};

#[test]
fn created_strategy_is_kept_and_selected() {
    let mut r: StrategyRegistry<u32> = StrategyRegistry::new();
    r.create_strategy("beta".to_string(), 2);
    r.create_strategy("alpha".to_string(), 1);
    assert_eq!(r.strategy(&"alpha".to_string()), Some(&1));
    assert_eq!(r.strategy(&"beta".to_string()), Some(&2));
    assert_eq!(r.selected, Some("alpha".to_string()));
    assert_eq!(r.strategy_names(), vec!["alpha".to_string(), "beta".to_string()]);
    assert_eq!(r.name_at(1), "beta");
    assert_eq!(r.name_at(5), "");
}

#[test]
fn creating_an_existing_name_replaces_it() {
    let mut r: StrategyRegistry<u32> = StrategyRegistry::new();
    r.create_strategy("s".to_string(), 1);
    r.create_strategy("s".to_string(), 9);
    assert_eq!(r.strategy_names().len(), 1);
    assert_eq!(r.strategy(&"s".to_string()), Some(&9));
}

#[test]
fn select_and_delete_need_an_existing_strategy() {
    let mut r: StrategyRegistry<u32> = StrategyRegistry::new();
    r.create_strategy("a".to_string(), 1);
    r.create_strategy("b".to_string(), 2);
    assert_eq!(r.select_strategy(&"a".to_string()), Ok(()));
    assert_eq!(r.selected, Some("a".to_string()));
    assert_eq!(
        r.select_strategy(&"zzz".to_string()),
        Err("Strategy doesn't exist in app state.".to_string())
    );
    assert_eq!(
        r.delete_strategy(&"zzz".to_string()),
        Err("Strategy doesn't exist in app state.".to_string())
    );
    assert_eq!(r.delete_strategy(&"a".to_string()), Ok(()));
    assert_eq!(r.selected, None);
    assert!(!r.contains(&"a".to_string()));
    assert_eq!(r.strategy(&"b".to_string()), Some(&2));
}

#[test]
fn deleting_an_unselected_strategy_keeps_the_selection() {
    let mut r: StrategyRegistry<u32> = StrategyRegistry::new();
    r.create_strategy("a".to_string(), 1);
    r.create_strategy("b".to_string(), 2);
    assert_eq!(r.delete_strategy(&"a".to_string()), Ok(()));
    assert_eq!(r.selected, Some("b".to_string()));
}

#[test]
fn set_strategy_replaces_only_an_existing_one() {
    let mut r: StrategyRegistry<u32> = StrategyRegistry::new();
    r.create_strategy("a".to_string(), 1);
    assert_eq!(r.set_strategy(&"a".to_string(), 5), Ok(()));
    assert_eq!(r.strategy(&"a".to_string()), Some(&5));
    assert_eq!(
        r.set_strategy(&"b".to_string(), 5),
        Err("Strategy doesn't exist in app state.".to_string())
    );
}

#[test]
fn clone_selected_strategy_copies_and_selects() {
    let mut r: StrategyRegistry<u32> = StrategyRegistry::new();
    assert_eq!(
        r.clone_selected_strategy("copy".to_string()),
        Err("No selected strategy in app state.".to_string())
    );
    r.create_strategy("orig".to_string(), 4);
    r.add_start_contract_names(&"orig".to_string(), &vec!["c1".to_string()]).unwrap();
    assert_eq!(r.clone_selected_strategy("copy".to_string()), Ok(()));
    assert_eq!(r.strategy(&"copy".to_string()), Some(&4));
    assert_eq!(r.selected, Some("copy".to_string()));
    assert_eq!(r.contract_names(&"copy".to_string()).unwrap().len(), 1);
}

#[test]
fn start_contract_names_keep_updates_by_order() {
    let names = start_contract_names_of(&vec!["a".to_string(), "b".to_string(), "c".to_string()]);
    assert_eq!(names.len(), 1);
    assert_eq!(names[0].contract, "a");
    assert_eq!(
        names[0].updates,
        Some(vec![(1, "b".to_string()), (2, "c".to_string())])
    );
    assert!(start_contract_names_of(&vec![]).is_empty());
}

#[test]
fn contract_names_grow_and_shrink() {
    let mut r: StrategyRegistry<u32> = StrategyRegistry::new();
    r.create_strategy("s".to_string(), 0);
    let s = "s".to_string();
    r.add_start_contract_names(&s, &vec!["x".to_string()]).unwrap();
    r.add_contract_variant_names(&s, &vec!["v1".to_string(), "v2".to_string()]).unwrap();
    let names: Vec<String> = r.contract_names(&s).unwrap().iter().map(|c: &ContractNames| c.contract.clone()).collect();
    assert_eq!(names, vec!["x".to_string(), "v1".to_string(), "v2".to_string()]);
    assert!(r.contract_names(&s).unwrap()[1].updates.is_none());
    r.remove_last_contract_names(&s).unwrap();
    assert_eq!(r.contract_names(&s).unwrap().len(), 2);
    r.clear_contract_names(&s).unwrap();
    assert!(r.contract_names(&s).unwrap().is_empty());
    assert_eq!(
        r.clear_contract_names(&"none".to_string()),
        Err("Strategy doesn't exist in app state".to_string())
    );
}

#[test]
fn default_description_has_the_four_parts_empty() {
    let d = default_strategy_description(TextMap::new());
    for key in ["contracts_with_updates", "operations", "start_identities", "identities_inserts"] {
        assert_eq!(d.get(key), Some(String::new()));
    }
    assert_eq!(d.get("other"), None);
}

#[test]
fn text_map_reads_back_what_was_written() {
    let mut m = TextMap::new();
    m.insert("b".to_string(), "1".to_string());
    m.insert("a".to_string(), "2".to_string());
    m.insert("b".to_string(), "3".to_string());
    assert_eq!(m.get("a"), Some("2".to_string()));
    assert_eq!(m.get("b"), Some("3".to_string()));
    assert_eq!(m.inner.entries.len(), 2);
}

#[test]
fn strategy_description_texts() {
    let s = StrategySummary {
        contracts_with_updates: vec![
            ContractSummary {
                name: Some("dpns".to_string()),
                update_names: Some(vec![Some("v2".to_string()), None, Some("v3".to_string())]),
            },
            ContractSummary { name: None, update_names: None },
        ],
        operations: vec![OperationSummary {
            kind: OperationKind::IdentityAddKeys(3),
            frequency: FrequencySummary {
                times_per_block_start: 2,
                times_per_block_end: 4,
                chance_per_block: Some("0.50".to_string()),
            },
        }],
        start_identities: Some((5, 3)),
        identities_inserts: FrequencySummary {
            times_per_block_start: 1,
            times_per_block_end: 2,
            chance_per_block: None,
        },
    };
    let d = s.strategy_description();
    assert_eq!(d.get("contracts_with_updates"), Some("dpns::v2::v3; Unknown".to_string()));
    assert_eq!(d.get("operations"), Some("IdentityUpdate::AddKeys::3::TPB=2::CPB=0.50".to_string()));
    assert_eq!(d.get("start_identities"), Some("Identities=5::Keys=3".to_string()));
    assert_eq!(d.get("identities_inserts"), Some("TPB=1::CPB=None".to_string()));
}

#[test]
fn strategy_name_from_url_drops_path_and_extension() {
    assert_eq!(strategy_name_from_url("https://example.com/files/my.strategy.bin"), "my.strategy");
    assert_eq!(strategy_name_from_url("https://example.com/files/plain"), "plain");
    assert_eq!(strategy_name_from_url("name.x"), "name");
}

#[test]
fn deleting_a_created_strategy_restores_the_others() {
    let mut r: StrategyRegistry<u32> = StrategyRegistry::new();
    r.create_strategy("keep".to_string(), 1);
    let before = r.strategy_names();
    r.create_strategy("temp".to_string(), 2);
    assert_eq!(r.delete_strategy(&"temp".to_string()), Ok(()));
    assert_eq!(r.strategy_names(), before);
    assert_eq!(r.strategy(&"keep".to_string()), Some(&1));
    assert_eq!(r.strategy(&"temp".to_string()), None);
}

#[test]
fn contract_variants_are_named_after_the_contract() {
    assert_eq!(
        variant_names(&"dpns".to_string(), 3),
        vec!["dpns_variant_0".to_string(), "dpns_variant_1".to_string()]
    );
    assert!(variant_names(&"dpns".to_string(), 1).is_empty());
}
