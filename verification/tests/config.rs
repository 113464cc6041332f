use api2cli::config::{load_config_from, Config, ConfigError};

#[test]
fn test_load_config_missing_file_returns_defaults() {
    let cfg = load_config_from(None).config;
    assert!(cfg.port.is_none());
    assert!(cfg.command.is_none());
    assert!(cfg.persistent.is_none());
    assert!(cfg.passthrough.is_none());
}

#[test]
fn test_load_config_valid_toml() {
    let loaded = load_config_from(Some("port = 9000\npassthrough = \"full\"\n"));
    let cfg = loaded.config;
    assert_eq!(cfg.port, Some(9000));
    assert_eq!(cfg.passthrough.as_deref(), Some("full"));
    assert!(cfg.command.is_none());
    assert!(loaded.problem.is_none());
}

#[test]
fn test_load_config_malformed_toml_returns_defaults() {
    let loaded = load_config_from(Some("port = [[[not valid toml"));
    assert!(loaded.config.port.is_none());
    assert!(matches!(loaded.problem, Some(ConfigError::NotToml(_))));
}

#[test]
fn test_load_config_log_level_field() {
    let cfg = load_config_from(Some("log_level = \"debug\"\n")).config;
    assert_eq!(cfg.log_level.as_deref(), Some("debug"));
}

#[test]
fn every_option_is_read() {
    let text = "port = 1337\npersistent = false\npassthrough = \"body\"\nlog_level = \"info\"\n\
                command = \"myapp --flag\"\n";
    let cfg = load_config_from(Some(text)).config;
    assert_eq!(cfg.port, Some(1337));
    assert_eq!(cfg.persistent, Some(false));
    assert_eq!(cfg.passthrough.as_deref(), Some("body"));
    assert_eq!(cfg.log_level.as_deref(), Some("info"));
    assert_eq!(cfg.command.as_deref(), Some("myapp --flag"));
}

#[test]
fn an_empty_file_sets_nothing() {
    let loaded = load_config_from(Some(""));
    assert!(loaded.problem.is_none());
    assert!(loaded.config.port.is_none());
    assert!(loaded.config.log_level.is_none());
}

#[test]
fn unknown_options_count_for_nothing() {
    let loaded = load_config_from(Some("port = 80\ncolour = \"red\"\n[table]\nx = 1.5\n"));
    assert!(loaded.problem.is_none());
    assert_eq!(loaded.config.port, Some(80));
}

#[test]
fn one_value_of_the_wrong_type_voids_the_file() {
    for (text, option) in [
        ("port = \"80\"\nlog_level = \"debug\"\n", "port"),
        ("port = 65536\nlog_level = \"debug\"\n", "port"),
        ("port = -1\nlog_level = \"debug\"\n", "port"),
        ("port = 80.0\nlog_level = \"debug\"\n", "port"),
        ("port = nan\nlog_level = \"debug\"\n", "port"),
        ("port = 1979-05-27\nlog_level = \"debug\"\n", "port"),
        ("persistent = \"yes\"\nlog_level = \"debug\"\n", "persistent"),
        ("persistent = 1\nlog_level = \"debug\"\n", "persistent"),
        ("command = [\"a\"]\nlog_level = \"debug\"\n", "command"),
        ("log_level = \"debug\"\n[command]\nx = 1\n", "command"),
        ("passthrough = true\nlog_level = \"debug\"\n", "passthrough"),
        ("port = 80\nlog_level = 1979-05-27\n", "log_level"),
        ("log_level = 1\npersistent = 1\n", "persistent"),
    ] {
        let loaded = load_config_from(Some(text));
        assert_eq!(loaded.problem, Some(ConfigError::WrongType(option.to_string())), "{text}");
        assert!(loaded.config.port.is_none(), "{text}");
        assert!(loaded.config.log_level.is_none(), "{text}");
    }
}

#[test]
fn ports_at_the_limits_are_read() {
    assert_eq!(load_config_from(Some("port = 0")).config.port, Some(0));
    assert_eq!(load_config_from(Some("port = 65535")).config.port, Some(65535));
}

#[test]
fn a_table_is_read_as_a_document_is() {
    let mut table = serde_json::Map::new();
    table.insert("port".to_string(), serde_json::Value::from(8080));
    table.insert("persistent".to_string(), serde_json::Value::Bool(true));
    let cfg = Config::from_table(&table).ok().unwrap();
    assert_eq!(cfg.port, Some(8080));
    assert_eq!(cfg.persistent, Some(true));
    assert!(cfg.command.is_none());
    table.insert("command".to_string(), serde_json::Value::from(1));
    assert_eq!(
        Config::from_table(&table).err(),
        Some(ConfigError::WrongType("command".to_string()))
    );
    table.insert("port".to_string(), serde_json::Value::from(u64::MAX));
    assert_eq!(
        Config::from_table(&table).err(),
        Some(ConfigError::WrongType("port".to_string()))
    );
    assert!(matches!(Config::from_toml("port").err(), Some(ConfigError::NotToml(_))));
    assert_eq!(Config::from_toml("port = 1").ok().unwrap().port, Some(1));
}

#[test]
fn refused_document_is_reported_in_the_words_of_the_parser() {
    let text = "port = 1\nport = 2\n";
    let expected = toml::from_str::<toml::Table>(text).err().unwrap().to_string();
    assert!(expected.contains("duplicate key"), "{expected}");
    let loaded = load_config_from(Some(text));
    assert_eq!(loaded.problem, Some(ConfigError::NotToml(expected)));
    assert!(loaded.config.port.is_none());
}

#[test]
fn tables_that_are_no_option_count_for_nothing_whatever_is_in_them() {
    for key in [
        "$__toml_private_datetime",
        "$serde_json::private::RawValue",
        "$serde_json::private::Number",
        "$__serde_spanned_private_start",
    ] {
        for value in ["\"no date\"", "\"1979-05-27\"", "1", "[{}]", "1979-05-27", "inf"] {
            let text = format!("port = 80\n[x]\n\"{key}\" = {value}\n");
            let loaded = load_config_from(Some(&text));
            assert_eq!(loaded.problem, None, "{text}");
            assert_eq!(loaded.config.port, Some(80), "{text}");
            let text = format!("\"{key}\" = {value}\nport = 80\n");
            assert_eq!(load_config_from(Some(&text)).config.port, Some(80), "{text}");
        }
    }
}
