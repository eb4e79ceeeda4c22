use tray_menu::config::{parse_config, save_config_value, serialize_config, ConfigError, ConfigMap};

#[test]
fn test_parse_config() {
    let content = "\n# Comment line\nkey1 = value1\nkey2 = value2\n\nkey3=value3\n";
    let vars = parse_config(content);
    assert_eq!(vars.get("key1"), Some("value1".to_string()));
    assert_eq!(vars.get("key2"), Some("value2".to_string()));
    assert_eq!(vars.get("key3"), Some("value3".to_string()));
}

#[test]
fn test_serialize_config() {
    let mut vars = ConfigMap::new();
    vars.insert("key1".to_string(), "value1".to_string());
    vars.insert("key2".to_string(), "value2".to_string());

    let result = serialize_config(&vars);
    assert!(result.contains("key1 = value1"));
    assert!(result.contains("key2 = value2"));
}

#[test]
fn test_parse_config_edges() {
    let vars = parse_config("  = nokey\n# only = comment\n   \nspaced key =  padded value  \n");
    assert_eq!(vars.get("spaced key"), Some("padded value".to_string()));
    assert_eq!(vars.get(""), None);
    assert_eq!(vars.len(), 1);
}

#[test]
fn test_parse_config_last_value_wins() {
    let vars = parse_config("a = 1\na = 2\n");
    assert_eq!(vars.get("a"), Some("2".to_string()));
    assert_eq!(vars.len(), 1);
}

#[test]
fn test_serialize_skips_empty_and_null() {
    let mut vars = ConfigMap::new();
    vars.insert("gone".to_string(), "".to_string());
    vars.insert("nulled".to_string(), "null".to_string());
    vars.insert("kept".to_string(), "yes".to_string());
    assert_eq!(serialize_config(&vars), "kept = yes\n");
}

#[test]
fn test_save_config_value() {
    let out = save_config_value("a = 1\nb = 2\n", "b", "3");
    assert_eq!(out, "a = 1\nb = 3\n");
    let appended = save_config_value("a = 1\n", "tray_locale", "zh");
    assert_eq!(appended, "a = 1\ntray_locale = zh\n");
}

#[test]
fn test_config_error_messages() {
    assert_eq!(ConfigError::PathNotFound.message(), "Configuration path not found");
    assert_eq!(
        ConfigError::ReadFailed("denied".to_string()).message(),
        "Read failed: denied"
    );
    assert_eq!(
        ConfigError::WriteFailed("full".to_string()).message(),
        "Write failed: full"
    );
    assert_eq!(ConfigError::NoConfigFound.message(), "No configuration found");
    assert_eq!(ConfigError::DialogCancelled.message(), "Dialog cancelled");
    assert_eq!(ConfigError::NoUserSession.message(), "No active user session");
}

#[test]
fn test_parse_serialize_round_trip() {
    let vars = parse_config("alpha = 1\nbeta = two\n");
    let text = serialize_config(&vars);
    assert_eq!(text, "alpha = 1\nbeta = two\n");
    let again = parse_config(&text);
    assert_eq!(again.get("alpha"), Some("1".to_string()));
    assert_eq!(again.get("beta"), Some("two".to_string()));
    assert_eq!(again.len(), 2);
}
