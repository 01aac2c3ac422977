use rpcfg::collect::initialize_config_values;
use rpcfg::models::{Config, ConfigItem};
use rpcfg::test_utils::create_test_config;
use rpcfg::text::{decimal_text, parse_index, same_text, trim_text};

fn item(key: &str, default: &str, value: &str) -> ConfigItem {
    ConfigItem {
        key: key.to_string(),
        description: String::new(),
        shellscript: String::new(),
        default: default.to_string(),
        temp_environment_variable_name: String::new(),
        required_as_env: false,
        value: value.to_string(),
    }
}

#[test]
fn default_config_has_reserved_items() {
    let config = Config::default();
    assert_eq!(config.rpcfg.len(), 5);
    assert_eq!(config.app.len(), 0);
    assert_eq!(config.rpcfg[0].key, "stored");
    assert_eq!(config.rpcfg[0].default, "local");
    assert_eq!(config.rpcfg[2].value, "default_project_name");
}

#[test]
fn initialization_fills_empty_values_only() {
    let mut config = create_test_config("init");
    config.rpcfg[1].value = String::new();
    initialize_config_values(&mut config);
    assert_eq!(config.rpcfg[1].value, "1.0");
    assert_eq!(config.app[0].value, "initial_value1");
    assert_eq!(config.app[1].value, "default2");
    assert_eq!(config.app[1].default, "default2");
}

#[test]
fn validation_coerces_stored() {
    let mut config = Config::default();
    config.rpcfg[0].value = "cloud".to_string();
    config.rpcfg[1].value = String::new();
    config.validate_rpcfg_config();
    assert_eq!(config.rpcfg[0].value, "local");
    assert_eq!(config.rpcfg[1].value, "1.0");

    config.rpcfg[0].value = "keyvault".to_string();
    config.validate_rpcfg_config();
    assert_eq!(config.rpcfg[0].value, "keyvault");
}

#[test]
fn validation_adds_missing_stored() {
    let mut config = Config::default();
    config.rpcfg.remove(0);
    config.validate_rpcfg_config();
    assert_eq!(config.rpcfg.len(), 5);
    let last = config.rpcfg.last().unwrap();
    assert_eq!(last.key, "stored");
    assert_eq!(last.value, "local");
    assert_eq!(last.description, "Storage type for configuration");
}

#[test]
fn get_settings_finds_all_matches() {
    let mut config = Config::default();
    config.app.push(item("environment", "x", "y"));
    config.app.push(item("other", "", ""));
    let found = config.get_settings("environment");
    assert_eq!(found.len(), 2);
    assert_eq!(found[0].value, "default_env");
    assert_eq!(found[1].value, "y");
    assert!(config.get_settings("missing").is_empty());
}

#[test]
fn all_items_in_display_order() {
    let config = create_test_config("order");
    let keys: Vec<&str> = config.all_items().iter().map(|i| i.key.as_str()).collect();
    assert_eq!(keys.len(), 7);
    assert_eq!(keys[0], "stored");
    assert_eq!(keys[6], "item2_order");
}

#[test]
fn test_config_carries_id() {
    let config = create_test_config("abc");
    assert!(config.is_test);
    assert_eq!(config.input_file, "test_input_abc.json");
    assert_eq!(config.rpcfg[2].value, "project_abc");
    assert_eq!(config.app[0].temp_environment_variable_name, "TEST_ITEM_1_abc");
}

#[test]
fn parse_index_like_std() {
    assert_eq!(parse_index("12"), Some(12));
    assert_eq!(parse_index("+7"), Some(7));
    assert_eq!(parse_index("007"), Some(7));
    assert_eq!(parse_index("18446744073709551615"), Some(usize::MAX));
    assert_eq!(parse_index("18446744073709551616"), None);
    assert_eq!(parse_index("-1"), None);
    assert_eq!(parse_index("+"), None);
    assert_eq!(parse_index(""), None);
    assert_eq!(parse_index("1a"), None);
    for s in ["0", "42", "+3", " 4", "4 ", "x"] {
        assert_eq!(parse_index(s), s.parse::<usize>().ok());
    }
}

#[test]
fn decimal_like_display() {
    for n in [0usize, 7, 10, 120, 99999, usize::MAX] {
        assert_eq!(decimal_text(n), n.to_string());
    }
}

#[test]
fn same_text_compares_chars() {
    assert!(same_text("héllo", "héllo"));
    assert!(!same_text("hello", "hell"));
    assert!(!same_text("a", "b"));
    assert!(same_text("", ""));
}

#[test]
fn trim_like_std() {
    for s in ["  s \n", "\t\r\n", "", "x", " a b ", "\u{3000}wide\u{a0}", "\u{200b}z"] {
        assert_eq!(trim_text(s), s.trim());
    }
}
