use kiro_gateway::api_key_store::mask_key;
use kiro_gateway::api_key_store::ApiKeyEntry;
use kiro_gateway::api_key_store::ApiKeyStore;

fn store_with(keys: &[(&str, bool)]) -> ApiKeyStore {
    let mut store = ApiKeyStore::new();
    for (i, (key, disabled)) in keys.iter().enumerate() {
        let id = store.add_at(
            key.to_string(),
            format!("label {}", i + 1),
            false,
            None,
            "2026-01-01T00:00:00+00:00".to_string(),
        );
        if *disabled {
            store.update(id, None, None, None, None, Some(true), None).unwrap();
        }
    }
    store
}

#[test]
fn mask_key_hides_the_middle() {
    assert_eq!(mask_key("sk-abcdefghij"), "sk-abc***hij");
    assert_eq!(mask_key("abc"), "ab***");
}

#[test]
fn mask_key_of_short_keys() {
    assert_eq!(mask_key(""), "***");
    assert_eq!(mask_key("a"), "a***");
    assert_eq!(mask_key("ab"), "ab***");
    assert_eq!(mask_key("123456789"), "12***");
    assert_eq!(mask_key("1234567890"), "123456***890");
}

#[test]
fn authentication_accepts_exactly_the_enabled_keys() {
    let store = store_with(&[("alpha", false), ("beta", true), ("gamma", false)]);
    let a = store.authenticate("alpha").unwrap();
    assert_eq!(a.id, 1);
    assert_eq!(a.label, "label 1");
    assert!(!a.read_only);
    assert!(a.allowed_models.is_none());
    assert!(a.bound_credential_ids.is_none());
    assert!(store.authenticate("beta").is_none());
    assert_eq!(store.authenticate("gamma").unwrap().id, 3);
    assert!(store.authenticate("delta").is_none());
    assert!(store.authenticate("").is_none());
    assert!(store.authenticate("alph").is_none());
    assert!(store.authenticate("alphaa").is_none());
    assert!(store.authenticate("ALPHA").is_none());
}

#[test]
fn authentication_on_an_empty_store_rejects() {
    let store = ApiKeyStore::new();
    assert!(store.is_empty());
    assert!(store.authenticate("anything").is_none());
    assert!(store.authenticate("").is_none());
}

#[test]
fn authentication_gives_the_first_of_equal_keys() {
    let store = store_with(&[("same", true), ("same", false), ("same", false)]);
    assert_eq!(store.authenticate("same").unwrap().id, 2);
}

#[test]
fn add_hands_out_ids_in_turn() {
    let mut store = ApiKeyStore::new();
    assert_eq!(store.next_id(), 1);
    let a = store.add("k1".to_string(), "one".to_string(), false, None);
    let b = store.add(
        "k2".to_string(),
        "two".to_string(),
        true,
        Some(vec!["sonnet-4".to_string()]),
    );
    assert_eq!((a, b), (1, 2));
    assert_eq!(store.next_id(), 3);
    assert!(!store.is_empty());
    let shown = store.get(2).unwrap();
    assert_eq!(shown.id, 2);
    assert_eq!(shown.key, "k2***");
    assert_eq!(shown.full_key, "k2");
    assert_eq!(shown.key_length, 2);
    assert_eq!(shown.label, "two");
    assert!(shown.read_only);
    assert_eq!(shown.allowed_models, Some(vec!["sonnet-4".to_string()]));
    assert!(!shown.disabled);
    assert!(!shown.created_at.is_empty());
    assert!(store.get(3).is_none());
}

#[test]
fn list_shows_every_entry_masked() {
    let store = store_with(&[("sk-abcdefghij", false), ("abc", true)]);
    let all = store.list();
    assert_eq!(all.len(), 2);
    assert_eq!(all[0].key, "sk-abc***hij");
    assert_eq!(all[0].full_key, "sk-abcdefghij");
    assert_eq!(all[0].key_length, 13);
    assert_eq!(all[0].created_at, "2026-01-01T00:00:00+00:00");
    assert_eq!(all[1].key, "ab***");
    assert!(all[1].disabled);
}

#[test]
fn update_changes_the_named_fields_only() {
    let mut store = store_with(&[("first", false), ("second", false)]);
    store
        .update(
            2,
            Some("  renewed  ".to_string()),
            Some("new label".to_string()),
            Some(true),
            Some(Some(vec!["m".to_string()])),
            None,
            Some(Some(vec![7, 9])),
        )
        .unwrap();
    let shown = store.get(2).unwrap();
    assert_eq!(shown.full_key, "renewed");
    assert_eq!(shown.label, "new label");
    assert!(shown.read_only);
    assert_eq!(shown.allowed_models, Some(vec!["m".to_string()]));
    assert!(!shown.disabled);
    let info = store.authenticate("renewed").unwrap();
    assert_eq!(info.bound_credential_ids, Some(vec![7, 9]));
    assert!(store.authenticate("second").is_none());
    assert_eq!(store.get(1).unwrap().full_key, "first");

    store.update(2, Some("   ".to_string()), None, None, Some(None), None, Some(None)).unwrap();
    let shown = store.get(2).unwrap();
    assert_eq!(shown.full_key, "renewed");
    assert_eq!(shown.label, "new label");
    assert!(shown.allowed_models.is_none());
    assert!(store.authenticate("renewed").unwrap().bound_credential_ids.is_none());
}

#[test]
fn update_of_a_missing_key_fails() {
    let mut store = store_with(&[("first", false)]);
    let err = store.update(42, None, Some("x".to_string()), None, None, None, None).unwrap_err();
    assert_eq!(err, "API Key #42 不存在");
    assert_eq!(store.get(1).unwrap().label, "label 1");
}

#[test]
fn delete_removes_the_entry() {
    let mut store = store_with(&[("a", false), ("b", false), ("c", false)]);
    store.delete(2).unwrap();
    let ids: Vec<u64> = store.list().iter().map(|v| v.id).collect();
    assert_eq!(ids, vec![1, 3]);
    assert!(store.authenticate("b").is_none());
    assert_eq!(store.delete(2).unwrap_err(), "API Key #2 不存在");
    assert_eq!(store.next_id(), 4);
    assert_eq!(store.add("d".to_string(), "again".to_string(), false, None), 4);
}

#[test]
fn delete_removes_every_entry_with_the_id() {
    let entry = |id: u64, key: &str| ApiKeyEntry {
        id,
        key: key.to_string(),
        label: String::new(),
        read_only: false,
        allowed_models: None,
        bound_credential_ids: None,
        disabled: false,
        created_at: String::new(),
    };
    let mut store =
        ApiKeyStore::from_parts(9, vec![entry(5, "a"), entry(6, "b"), entry(5, "c")]);
    assert_eq!(store.get(5).unwrap().full_key, "a");
    store.delete(5).unwrap();
    assert_eq!(store.entries().len(), 1);
    assert_eq!(store.entries()[0].id, 6);
}

#[test]
fn migration_turns_a_legacy_key_into_the_default_entry() {
    let store = ApiKeyStore::migrate_at(Some("legacy-key"), "2026-02-15T10:40:31+00:00".to_string());
    assert_eq!(store.next_id(), 2);
    let shown = store.get(1).unwrap();
    assert_eq!(shown.full_key, "legacy-key");
    assert_eq!(shown.label, "Default");
    assert!(!shown.read_only);
    assert!(shown.allowed_models.is_none());
    assert!(!shown.disabled);
    assert_eq!(shown.created_at, "2026-02-15T10:40:31+00:00");
    assert_eq!(store.authenticate("legacy-key").unwrap().id, 1);
}

#[test]
fn migration_without_a_usable_key_gives_an_empty_store() {
    for legacy in [None, Some(""), Some("   "), Some("\t\n")] {
        let store = ApiKeyStore::migrate(legacy);
        assert!(store.is_empty());
        assert_eq!(store.next_id(), 1);
    }
    let store = ApiKeyStore::migrate(Some(" padded "));
    assert_eq!(store.get(1).unwrap().full_key, " padded ");
    assert!(!store.get(1).unwrap().created_at.is_empty());
}
