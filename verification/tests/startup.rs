use api2cli::location::{config_path, log_dir_path, Location, Root};
use api2cli::logging::{
    filter_for, has_clean_pieces, init_logging, make_filter, plan_for, Layer, Sink,
};

fn path(location: Location, home: &str) -> String {
    let mut out = match location.root {
        Root::Given(dir) => dir,
        Root::Home => home.to_string(),
    };
    for name in location.names {
        out.push('/');
        out.push_str(&name);
    }
    out
}

#[test]
fn test_log_dir_path_uses_xdg_state_home() {
    let location = log_dir_path(Some("/tmp/test_state".to_string()));
    assert_eq!(path(location, "/home/u"), "/tmp/test_state/api2cli");
}

#[test]
fn logs_are_kept_at_home_by_default() {
    assert_eq!(path(log_dir_path(None), "/home/u"), "/home/u/.local/state/api2cli");
}

#[test]
fn config_file_is_where_xdg_says() {
    let given = config_path(Some("/etc/xdg".to_string()));
    assert_eq!(path(given, "/home/u"), "/etc/xdg/api2cli/config.toml");
    assert_eq!(path(config_path(None), "/home/u"), "/home/u/.config/api2cli/config.toml");
}

#[test]
fn known_levels_are_taken_as_they_are() {
    for level in ["error", "warn", "info", "debug", "trace", "api2cli=debug,warn"] {
        let filter = make_filter(level);
        assert_eq!(filter.directives, level);
        assert!(filter.warning.is_none());
    }
}

#[test]
fn unknown_level_falls_back_to_info() {
    let filter = make_filter("api2cli=loud");
    assert_eq!(filter.directives, "info");
    assert_eq!(
        filter.warning.as_deref(),
        Some("Warning: invalid log level 'api2cli=loud', defaulting to 'info'")
    );
}

#[test]
fn filter_follows_the_verdict() {
    assert_eq!(filter_for("x", true).directives, "x");
    assert_eq!(filter_for("x", false).directives, "info");
    assert!(filter_for("x", false).warning.is_some());
}

#[test]
fn logs_go_to_stderr_and_to_a_file_if_there_is_a_directory() {
    let file = Layer { sink: Sink::DailyFile, ansi: false };
    let stderr = Layer { sink: Sink::Stderr, ansi: true };
    let plan = init_logging("debug", true);
    assert_eq!(plan.layers, vec![file, stderr]);
    assert_eq!(plan.file_prefix, "api2cli.log");
    assert_eq!(plan.filter.directives, "debug");
    assert_eq!(init_logging("debug", false).layers, vec![stderr]);
    assert_eq!(init_logging("a=b=c", false).filter.directives, "info");
}

#[test]
fn pieces_are_clean_if_no_cut_can_fall_within_a_character() {
    for level in [
        "",
        "info",
        " info",
        "a=info, warn",
        "\u{e9}=info",
        "\u{e9}=info, warn",
        ",,",
        " \u{e9}",
        "\u{a0}a",
        " a=\u{e9}",
        " a[b]=\u{e9}, c=info",
    ] {
        assert!(has_clean_pieces(level), "{level:?}");
        make_filter(level);
    }
    for level in [
        "\u{a0}a=info",
        " \u{e9}=info",
        "warn, \u{e9}=info",
        "a,\t\u{e9}[b,c",
        " a=\u{e9}}",
    ] {
        assert!(!has_clean_pieces(level), "{level:?}");
    }
    assert_eq!(make_filter("\u{e9}=info, warn").directives, "\u{e9}=info, warn");
    assert_eq!(make_filter(" \u{e9}").directives, " \u{e9}");
    assert_eq!(make_filter(" a=\u{e9}").directives, "info");
}

#[test]
fn plan_keeps_the_filter_it_is_given() {
    let plan = plan_for(filter_for(" \u{e9}", true), false);
    assert_eq!(plan.filter.directives, " \u{e9}");
    assert_eq!(plan.layers, vec![Layer { sink: Sink::Stderr, ansi: true }]);
}
