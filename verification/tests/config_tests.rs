use cleanmeter::config::{settings_from_text, settings_json_text, ConfigManager, ConfigMap, JsonValue};

#[test]
fn a_new_map_is_empty() {
    let m = ConfigMap::new();
    assert!(m.get("theme").is_none());
    assert!(m.entries().is_empty());
}

#[test]
fn reads_back_what_was_set() {
    let mut m = ConfigMap::new();
    ConfigManager::set_preference(&mut m, "theme".to_string(), JsonValue::Str("dark".to_string()));
    ConfigManager::set_preference(&mut m, "overlay".to_string(), JsonValue::Bool(true));
    assert_eq!(ConfigManager::get_preference_string(&m, "theme"), Some("dark".to_string()));
    assert!(ConfigManager::get_preference_boolean(&m, "overlay", false));
    assert_eq!(m.entries().len(), 2);
}

#[test]
fn a_new_value_replaces_the_old_one() {
    let mut m = ConfigMap::new();
    ConfigManager::set_preference(&mut m, "theme".to_string(), JsonValue::Str("dark".to_string()));
    ConfigManager::set_preference(&mut m, "theme".to_string(), JsonValue::Str("light".to_string()));
    assert_eq!(ConfigManager::get_preference_string(&m, "theme"), Some("light".to_string()));
    assert_eq!(m.entries().len(), 1);
    ConfigManager::set_preference(&mut m, "theme".to_string(), JsonValue::Null);
    assert_eq!(ConfigManager::get_preference_string(&m, "theme"), None);
}

#[test]
fn lookups_of_the_wrong_kind_fall_back() {
    let mut m = ConfigMap::new();
    m.insert("count".to_string(), JsonValue::Number(serde_json::Number::from(3)));
    m.insert("name".to_string(), JsonValue::Str("x".to_string()));
    assert_eq!(ConfigManager::get_preference_string(&m, "count"), None);
    assert!(ConfigManager::get_preference_boolean(&m, "name", true));
    assert!(!ConfigManager::get_preference_boolean(&m, "missing", false));
    assert_eq!(ConfigManager::get_preference_string(&m, "missing"), None);
    assert_eq!(m.get("count"), Some(&JsonValue::Number(serde_json::Number::from(3))));
}

#[test]
fn other_settings_are_kept() {
    let mut m = ConfigMap::new();
    m.insert("a".to_string(), JsonValue::Bool(false));
    m.insert(
        "list".to_string(),
        JsonValue::Array(vec![JsonValue::Null, JsonValue::Object(vec![("k".to_string(), JsonValue::Bool(true))])]),
    );
    ConfigManager::set_preference(&mut m, "b".to_string(), JsonValue::Bool(true));
    assert!(!ConfigManager::get_preference_boolean(&m, "a", true));
    assert!(ConfigManager::get_preference_boolean(&m, "b", false));
    assert!(matches!(m.get("list"), Some(JsonValue::Array(items)) if items.len() == 2));
}

#[test]
fn the_manager_keeps_its_path() {
    let c = ConfigManager::new("/tmp/CleanMeter/config.json".to_string());
    assert_eq!(c.file_path(), "/tmp/CleanMeter/config.json");
}

#[test]
fn settings_come_from_the_json_object_in_the_text() {
    let m = settings_from_text(Some(r#"{"theme": "dark", "overlay": true, "size": 12, "pos": [1, {"x": null}]}"#));
    assert_eq!(m.entries().len(), 4);
    assert_eq!(ConfigManager::get_preference_string(&m, "theme"), Some("dark".to_string()));
    assert!(ConfigManager::get_preference_boolean(&m, "overlay", false));
    assert_eq!(m.get("size"), Some(&JsonValue::Number(serde_json::Number::from(12))));
    assert_eq!(
        m.get("pos"),
        Some(&JsonValue::Array(vec![
            JsonValue::Number(serde_json::Number::from(1)),
            JsonValue::Object(vec![("x".to_string(), JsonValue::Null)]),
        ]))
    );
}

#[test]
fn a_repeated_key_keeps_its_last_value() {
    let m = settings_from_text(Some(r#"{"a": 1, "a": "two"}"#));
    assert_eq!(m.entries().len(), 1);
    assert_eq!(ConfigManager::get_preference_string(&m, "a"), Some("two".to_string()));
}

#[test]
fn no_text_or_no_object_gives_no_settings() {
    assert!(settings_from_text(None).entries().is_empty());
    assert!(settings_from_text(Some("")).entries().is_empty());
    assert!(settings_from_text(Some("not json")).entries().is_empty());
    assert!(settings_from_text(Some("[1, 2]")).entries().is_empty());
    assert!(settings_from_text(Some(r#"{"a": 1"#)).entries().is_empty());
    assert!(settings_from_text(Some("{}")).entries().is_empty());
}

#[test]
fn settings_text_is_pretty_json_that_reads_back() {
    let mut m = ConfigMap::new();
    ConfigManager::set_preference(&mut m, "theme".to_string(), JsonValue::Str("dark".to_string()));
    let text = settings_json_text(&m).unwrap();
    assert_eq!(text, "{\n  \"theme\": \"dark\"\n}");
    ConfigManager::set_preference(&mut m, "on".to_string(), JsonValue::Bool(true));
    ConfigManager::set_preference(&mut m, "n".to_string(), JsonValue::Number(serde_json::Number::from(-4)));
    let back = settings_from_text(Some(&settings_json_text(&m).unwrap()));
    assert_eq!(back.entries().len(), 3);
    assert_eq!(ConfigManager::get_preference_string(&back, "theme"), Some("dark".to_string()));
    assert!(ConfigManager::get_preference_boolean(&back, "on", false));
    assert_eq!(back.get("n"), Some(&JsonValue::Number(serde_json::Number::from(-4))));
    assert_eq!(settings_json_text(&ConfigMap::new()).unwrap(), "{}");
}
