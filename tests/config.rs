use config_validate::config::{Config, ConfigError, DEFAULT_MAX_ENTRIES};
use config_validate::outcome::process_result;
use config_validate::validate::Validate;

#[test]
fn test_config_creation() {
    let config = Config::new("test");
    assert!(config.is_valid());
}

#[test]
fn app_settings_scenario() {
    let mut config = Config::new("app_settings");
    config.set("theme", "alone");
    config.set("version", "1.0.0");
    assert_eq!(config.validate(), Ok(()));
    assert_eq!(config.get("theme").map(|s| s.as_str()), Some("alone"));
    assert_eq!(config.display(), "Config(app_settings, 2 values)");
}

#[test]
fn empty_name_scenario() {
    let config = Config::new("");
    let err = config.validate().unwrap_err();
    assert_eq!(err, "Name cannot be empty");
    assert!(err.contains("empty"));
}

#[test]
fn capacity_scenario() {
    let mut config = Config::with_max_entries("small", 1);
    config.set("a", "1");
    config.set("b", "2");
    let err = config.validate().unwrap_err();
    assert_eq!(err, "Too many values: 2 > 1");
    assert!(err.contains("2 > 1"));
}

#[test]
fn set_returns_previous_value() {
    let mut config = Config::new("c");
    assert_eq!(config.set("k", "a"), None);
    assert_eq!(config.set("k", "b"), Some("a".to_string()));
    assert_eq!(config.set("other", "x"), None);
    assert_eq!(config.set("k", "c"), Some("b".to_string()));
}

#[test]
fn last_write_wins() {
    let mut config = Config::new("c");
    config.set("k", "first");
    config.set("j", "other");
    config.set("k", "second");
    assert_eq!(config.get("k").map(|s| s.as_str()), Some("second"));
    assert_eq!(config.get("j").map(|s| s.as_str()), Some("other"));
    assert_eq!(config.len(), 2);
}

#[test]
fn get_missing_key() {
    let mut config = Config::new("c");
    assert_eq!(config.get("absent"), None);
    config.set("present", "v");
    assert_eq!(config.get("absent"), None);
    assert_eq!(config.get("presen"), None);
}

#[test]
fn empty_name_reported_before_capacity() {
    let mut config = Config::with_max_entries("", 0);
    config.set("a", "1");
    assert_eq!(config.validate(), Err("Name cannot be empty".to_string()));
    assert_eq!(config.check(), Err(ConfigError::EmptyName));
}

#[test]
fn bound_is_inclusive() {
    let mut config = Config::with_max_entries("c", 2);
    config.set("a", "1");
    config.set("b", "2");
    assert_eq!(config.validate(), Ok(()));
    config.set("a", "3");
    assert_eq!(config.validate(), Ok(()));
    config.set("c", "4");
    assert_eq!(config.validate(), Err("Too many values: 3 > 2".to_string()));
}

#[test]
fn is_valid_agrees_with_validate() {
    let mut config = Config::with_max_entries("c", 1);
    assert_eq!(config.is_valid(), config.validate().is_ok());
    assert!(config.is_valid());
    config.set("a", "1");
    assert_eq!(config.is_valid(), config.validate().is_ok());
    assert!(config.is_valid());
    config.set("b", "2");
    assert_eq!(config.is_valid(), config.validate().is_ok());
    assert!(!config.is_valid());
    let unnamed = Config::new("");
    assert_eq!(unnamed.is_valid(), unnamed.validate().is_ok());
    assert!(!unnamed.is_valid());
}

#[test]
fn default_bound() {
    let mut config = Config::new("big");
    assert_eq!(config.max_entries(), DEFAULT_MAX_ENTRIES);
    assert_eq!(config.max_entries(), 100);
    for i in 0..100 {
        config.set(&format!("key{}", i), "v");
    }
    assert_eq!(config.len(), 100);
    assert!(config.is_valid());
    config.set("key100", "v");
    assert_eq!(config.validate(), Err("Too many values: 101 > 100".to_string()));
    assert_eq!(config.display(), "Config(big, 101 values)");
}

#[test]
fn display_counts_entries() {
    let mut config = Config::new("n");
    assert_eq!(config.display(), "Config(n, 0 values)");
    for i in 0..12 {
        config.set(&format!("{}", i), "x");
    }
    assert_eq!(config.display(), "Config(n, 12 values)");
}

#[test]
fn check_reports_kinds() {
    let mut config = Config::with_max_entries("c", 0);
    assert_eq!(config.check(), Ok(()));
    config.set("a", "1");
    let err = config.check().unwrap_err();
    assert_eq!(err, ConfigError::CapacityExceeded { count: 1, bound: 0 });
    assert_eq!(err.message(), "Too many values: 1 > 0");
    assert_eq!(ConfigError::EmptyName.message(), "Name cannot be empty");
}

#[test]
fn accessors() {
    let mut config = Config::with_max_entries("name", 7);
    assert_eq!(config.name(), "name");
    assert_eq!(config.max_entries(), 7);
    assert_eq!(config.len(), 0);
    config.set("", "");
    assert_eq!(config.len(), 1);
    assert_eq!(config.get("").map(|s| s.as_str()), Some(""));
}

#[test]
fn process_advanced_succeeds() {
    let config = Config::new("");
    assert_eq!(config.process_advanced(), Ok(()));
}

#[test]
fn process_result_cases() {
    assert_eq!(process_result(Some(5)), Ok("Positive: 5".to_string()));
    assert_eq!(process_result(Some(2147483647)), Ok("Positive: 2147483647".to_string()));
    assert_eq!(process_result(Some(10)), Ok("Positive: 10".to_string()));
    assert_eq!(process_result(Some(0)), Ok("Zero".to_string()));
    assert_eq!(process_result(Some(-3)), Err("Negative values not allowed"));
    assert_eq!(process_result(Some(i32::MIN)), Err("Negative values not allowed"));
    assert_eq!(process_result(None), Err("No value provided"));
}

#[test]
fn default_config() {
    let config = Config::default();
    assert_eq!(config.name(), "");
    assert_eq!(config.max_entries(), 0);
    assert_eq!(config.len(), 0);
    assert_eq!(config.check(), Err(ConfigError::EmptyName));
}
