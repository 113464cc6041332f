use api2cli::config::Config;
use api2cli::passthrough::Passthrough;
use api2cli::settings::{resolve, Cli, DEFAULT_PORT};

fn no_flags() -> Cli {
    Cli {
        port: None,
        command: None,
        persistent: false,
        passthrough: None,
        log_level: None,
    }
}

#[test]
fn test_merge_cli_port_overrides_config() {
    let cli = Cli { port: Some(9002), ..no_flags() };
    let config = Config { port: Some(9001), ..Config::default() };
    assert_eq!(resolve(cli, config).port, 9002);
}

#[test]
fn test_merge_config_port_used_when_no_cli_arg() {
    let config = Config { port: Some(9001), ..Config::default() };
    assert_eq!(resolve(no_flags(), config).port, 9001);
}

#[test]
fn test_merge_default_port_when_nothing_set() {
    assert_eq!(resolve(no_flags(), Config::default()).port, 1337);
    assert_eq!(DEFAULT_PORT, 1337);
}

#[test]
fn test_merge_cli_persistent_true_wins_over_config_false() {
    let cli = Cli { persistent: true, ..no_flags() };
    let config = Config { persistent: Some(false), ..Config::default() };
    assert!(resolve(cli, config).persistent);
}

#[test]
fn test_merge_persistent_falls_back_to_config_true() {
    let config = Config { persistent: Some(true), ..Config::default() };
    assert!(resolve(no_flags(), config).persistent);
}

#[test]
fn nothing_set_gives_the_defaults() {
    let s = resolve(no_flags(), Config::default());
    assert_eq!(s.port, 1337);
    assert_eq!(s.command, None);
    assert!(!s.persistent);
    assert_eq!(s.passthrough, Passthrough::Body);
    assert_eq!(s.log_level, "info");
}

#[test]
fn command_line_overrides_every_option_of_the_file() {
    let cli = Cli {
        port: Some(1),
        command: Some("cat".to_string()),
        persistent: true,
        passthrough: Some(Passthrough::Body),
        log_level: Some("trace".to_string()),
    };
    let config = Config {
        port: Some(2),
        command: Some("jq .".to_string()),
        persistent: Some(false),
        passthrough: Some("full".to_string()),
        log_level: Some("warn".to_string()),
    };
    let s = resolve(cli, config);
    assert_eq!(s.port, 1);
    assert_eq!(s.command.as_deref(), Some("cat"));
    assert!(s.persistent);
    assert_eq!(s.passthrough, Passthrough::Body);
    assert_eq!(s.log_level, "trace");
}

#[test]
fn file_counts_without_flags() {
    let config = Config {
        port: Some(2),
        command: Some("jq .".to_string()),
        persistent: Some(true),
        passthrough: Some("full".to_string()),
        log_level: Some("warn".to_string()),
    };
    let s = resolve(no_flags(), config);
    assert_eq!(s.port, 2);
    assert_eq!(s.command.as_deref(), Some("jq ."));
    assert!(s.persistent);
    assert_eq!(s.passthrough, Passthrough::Full);
    assert_eq!(s.log_level, "warn");
}

#[test]
fn unknown_mode_in_the_file_counts_as_not_set() {
    let config = Config { passthrough: Some("json".to_string()), ..Config::default() };
    assert_eq!(resolve(no_flags(), config).passthrough, Passthrough::Body);
    let cli = Cli { passthrough: Some(Passthrough::Full), ..no_flags() };
    let config = Config { passthrough: Some("json".to_string()), ..Config::default() };
    assert_eq!(resolve(cli, config).passthrough, Passthrough::Full);
}
