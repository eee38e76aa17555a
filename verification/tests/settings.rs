use time_tracker::SettingsStore;

fn setup_store() -> SettingsStore {
    SettingsStore::with_defaults()
}

#[test]
fn test_default_interval_minutes() {
    let repo = setup_store();
    assert_eq!(repo.get_interval_minutes(), 15);
}

#[test]
fn test_default_idle_threshold() {
    let repo = setup_store();
    assert_eq!(repo.get_idle_threshold_minutes(), 5);
}

#[test]
fn test_default_notification_enabled() {
    let repo = setup_store();
    assert!(repo.is_notification_enabled());
}

#[test]
fn test_default_notification_sound() {
    let repo = setup_store();
    assert_eq!(repo.get_notification_sound(), "default");
}

#[test]
fn test_set_and_get() {
    let mut repo = setup_store();
    repo.set("interval_minutes", "30");
    assert_eq!(repo.get("interval_minutes"), Some("30".to_string()));
}

#[test]
fn test_get_nonexistent_key() {
    let repo = setup_store();
    assert_eq!(repo.get("nonexistent"), None);
}

#[test]
fn test_get_all_returns_defaults() {
    let repo = setup_store();
    let all = repo.get_all();
    assert_eq!(all.len(), 4);
    let keys: Vec<&str> = all.iter().map(|s| s.key.as_str()).collect();
    assert!(keys.contains(&"interval_minutes"));
    assert!(keys.contains(&"idle_threshold_minutes"));
    assert!(keys.contains(&"notification_enabled"));
    assert!(keys.contains(&"notification_sound"));
}

#[test]
fn test_empty_store_answers_defaults() {
    let repo = SettingsStore::new();
    assert_eq!(repo.get_interval_minutes(), 15);
    assert_eq!(repo.get_idle_threshold_minutes(), 5);
    assert!(repo.is_notification_enabled());
    assert_eq!(repo.get_notification_sound(), "default");
}

#[test]
fn test_typed_roundtrip_all_four_keys() {
    let mut repo = SettingsStore::new();
    repo.set("interval_minutes", "30");
    repo.set("idle_threshold_minutes", "10");
    repo.set("notification_enabled", "false");
    repo.set("notification_sound", "glass");
    assert_eq!(repo.get_interval_minutes(), 30);
    assert_eq!(repo.get_idle_threshold_minutes(), 10);
    assert!(!repo.is_notification_enabled());
    assert_eq!(repo.get_notification_sound(), "glass");
}

#[test]
fn test_set_twice_keeps_one_row() {
    let mut repo = SettingsStore::new();
    repo.set("interval_minutes", "30");
    repo.set("interval_minutes", "45");
    assert_eq!(repo.get_all().len(), 1);
    assert_eq!(repo.get("interval_minutes"), Some("45".to_string()));
    assert_eq!(repo.get_interval_minutes(), 45);
}

#[test]
fn test_unparsable_values_fall_back() {
    let mut repo = SettingsStore::new();
    repo.set("interval_minutes", "soon");
    repo.set("idle_threshold_minutes", "5000000000");
    repo.set("notification_enabled", "yes");
    assert_eq!(repo.get_interval_minutes(), 15);
    assert_eq!(repo.get_idle_threshold_minutes(), 5);
    assert!(!repo.is_notification_enabled());
}
