use world_monitor::vault::{is_supported_secret_key, list_supported_secret_keys, MigrationOp, SecretsCache};

#[test]
fn allowlist_has_every_supported_name_in_order() {
    let keys = list_supported_secret_keys();
    assert_eq!(keys.len(), 25);
    assert_eq!(keys[0], "GROQ_API_KEY");
    assert_eq!(keys[24], "LIVEUAMAP_API_KEY");
    assert!(is_supported_secret_key("OLLAMA_MODEL"));
    assert!(!is_supported_secret_key("ollama_model"));
    assert!(!is_supported_secret_key(""));
}

#[test]
fn set_then_get_round_trips_trimmed_value() {
    let mut cache = SecretsCache::new();
    assert_eq!(cache.set_secret("GROQ_API_KEY", "  gsk-123 \n"), Ok(()));
    assert_eq!(cache.get_secret("GROQ_API_KEY"), Ok(Some("gsk-123".to_string())));
    assert_eq!(cache.set_secret("GROQ_API_KEY", "v2"), Ok(()));
    assert_eq!(cache.get_secret("GROQ_API_KEY"), Ok(Some("v2".to_string())));
}

#[test]
fn empty_write_removes_the_secret() {
    let mut cache = SecretsCache::new();
    assert_eq!(cache.set_secret("FRED_API_KEY", "abc"), Ok(()));
    assert_eq!(cache.set_secret("FRED_API_KEY", "   "), Ok(()));
    assert_eq!(cache.get_secret("FRED_API_KEY"), Ok(None));
    assert!(cache.is_empty());
}

#[test]
fn delete_removes_only_that_secret() {
    let mut cache = SecretsCache::new();
    assert_eq!(cache.set_secret("FRED_API_KEY", "a"), Ok(()));
    assert_eq!(cache.set_secret("EIA_API_KEY", "b"), Ok(()));
    assert_eq!(cache.delete_secret("FRED_API_KEY"), Ok(()));
    assert_eq!(cache.get_secret("FRED_API_KEY"), Ok(None));
    assert_eq!(cache.get_secret("EIA_API_KEY"), Ok(Some("b".to_string())));
}

#[test]
fn unsupported_keys_are_rejected_without_change() {
    let mut cache = SecretsCache::new();
    assert_eq!(cache.set_secret("OTX_API_KEY", "x"), Ok(()));
    let msg = "Unsupported secret key: NOT_A_KEY".to_string();
    assert_eq!(cache.set_secret("NOT_A_KEY", "y"), Err(msg.clone()));
    assert_eq!(cache.delete_secret("NOT_A_KEY"), Err(msg.clone()));
    assert_eq!(cache.get_secret("NOT_A_KEY"), Err(msg));
    assert_eq!(
        cache.get_all_secrets(),
        vec![("OTX_API_KEY".to_string(), "x".to_string())]
    );
}

#[test]
fn get_all_lists_in_allowlist_order() {
    let mut cache = SecretsCache::new();
    assert_eq!(cache.set_secret("LIVEUAMAP_API_KEY", "z"), Ok(()));
    assert_eq!(cache.set_secret("GROQ_API_KEY", "a"), Ok(()));
    assert_eq!(
        cache.get_all_secrets(),
        vec![
            ("GROQ_API_KEY".to_string(), "a".to_string()),
            ("LIVEUAMAP_API_KEY".to_string(), "z".to_string()),
        ]
    );
}

#[test]
fn vault_entries_are_filtered_and_trimmed() {
    let cache = SecretsCache::from_vault_entries(vec![
        ("GROQ_API_KEY".to_string(), " k ".to_string()),
        ("UNKNOWN".to_string(), "x".to_string()),
        ("FRED_API_KEY".to_string(), "  ".to_string()),
    ]);
    assert_eq!(
        cache.get_all_secrets(),
        vec![("GROQ_API_KEY".to_string(), "k".to_string())]
    );
}

#[test]
fn legacy_values_are_merged_by_position() {
    let mut values: Vec<Option<String>> = vec![None; 25];
    values[1] = Some(" router ".to_string());
    values[2] = Some("".to_string());
    values[24] = Some("map".to_string());
    let cache = SecretsCache::from_legacy_values(values);
    assert_eq!(
        cache.get_all_secrets(),
        vec![
            ("OPENROUTER_API_KEY".to_string(), "router".to_string()),
            ("LIVEUAMAP_API_KEY".to_string(), "map".to_string()),
        ]
    );
}

#[test]
fn load_from_an_empty_store_holds_nothing() {
    let cache = SecretsCache::load_from_keychain();
    assert!(cache.is_empty());
    assert_eq!(cache.get_secret("GROQ_API_KEY"), Ok(None));
}

#[test]
fn vault_payload_is_a_json_object_of_the_secrets() {
    let mut cache = SecretsCache::new();
    assert_eq!(cache.vault_payload(), "{}");
    assert_eq!(cache.set_secret("GROQ_API_KEY", " k "), Ok(()));
    assert_eq!(cache.set_secret("OLLAMA_MODEL", "llama"), Ok(()));
    assert_eq!(cache.vault_payload(), r#"{"GROQ_API_KEY":"k","OLLAMA_MODEL":"llama"}"#);
}

#[test]
fn vault_text_is_parsed_filtered_and_trimmed() {
    let cache = SecretsCache::from_vault_json(r#"{"OTX_API_KEY":" o ","NOPE":"x","EIA_API_KEY":""}"#)
        .unwrap();
    assert_eq!(
        cache.get_all_secrets(),
        vec![("OTX_API_KEY".to_string(), "o".to_string())]
    );
    assert!(SecretsCache::from_vault_json("not json").is_none());
    assert!(SecretsCache::from_vault_json(r#"{"OTX_API_KEY":1}"#).is_none());
    assert!(SecretsCache::from_vault_json("[]").is_none());
}

#[test]
fn payload_reads_back_as_the_same_secrets() {
    let mut cache = SecretsCache::new();
    assert_eq!(cache.set_secret("WS_RELAY_URL", "wss://relay"), Ok(()));
    assert_eq!(cache.set_secret("FRED_API_KEY", "f"), Ok(()));
    let again = SecretsCache::from_vault_json(&cache.vault_payload()).unwrap();
    assert_eq!(again.get_all_secrets(), cache.get_all_secrets());
}

fn legacy_reads() -> Vec<Option<String>> {
    let mut values: Vec<Option<String>> = vec![None; 25];
    values[0] = Some(" g ".to_string());
    values[3] = Some("e".to_string());
    values
}

#[test]
fn load_uses_a_parsable_vault_without_legacy_reads() {
    let vault = Some(r#"{"EIA_API_KEY":" x "}"#.to_string());
    let cache = SecretsCache::load_from_reads(vault, None).unwrap();
    assert_eq!(cache.get_all_secrets(), vec![("EIA_API_KEY".to_string(), "x".to_string())]);
    assert!(matches!(cache.next_migration_op(false, None), MigrationOp::Finish));
}

#[test]
fn load_asks_for_legacy_reads_when_the_vault_is_missing_or_broken() {
    assert!(SecretsCache::load_from_reads(None, None).is_none());
    assert!(SecretsCache::load_from_reads(Some("{broken".to_string()), None).is_none());
    let cache = SecretsCache::load_from_reads(Some("{broken".to_string()), Some(legacy_reads())).unwrap();
    assert_eq!(
        cache.get_all_secrets(),
        vec![
            ("GROQ_API_KEY".to_string(), "g".to_string()),
            ("EIA_API_KEY".to_string(), "e".to_string()),
        ]
    );
}

#[test]
fn migration_writes_then_deletes_only_after_success() {
    let cache = SecretsCache::load_from_reads(None, Some(legacy_reads())).unwrap();
    match cache.next_migration_op(true, None) {
        MigrationOp::WriteConsolidated(p) => {
            assert_eq!(p, r#"{"EIA_API_KEY":"e","GROQ_API_KEY":"g"}"#);
            let again = SecretsCache::from_vault_json(&p).unwrap();
            assert_eq!(again.get_all_secrets(), cache.get_all_secrets());
        }
        _ => panic!("expected a consolidated write"),
    }
    assert!(matches!(cache.next_migration_op(true, Some(true)), MigrationOp::DeleteLegacy));
    assert!(matches!(cache.next_migration_op(true, Some(false)), MigrationOp::Finish));
    let empty = SecretsCache::load_from_reads(None, Some(vec![None; 25])).unwrap();
    assert!(matches!(empty.next_migration_op(true, None), MigrationOp::Finish));
}
