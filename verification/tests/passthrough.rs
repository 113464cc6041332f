use api2cli::passthrough::Passthrough;

#[test]
fn test_passthrough_parse_body() {
    let p: Passthrough = "body".parse().unwrap();
    assert!(matches!(p, Passthrough::Body));
}

#[test]
fn test_passthrough_parse_full() {
    let p: Passthrough = "full".parse().unwrap();
    assert!(matches!(p, Passthrough::Full));
}

#[test]
fn test_passthrough_parse_invalid_names_error() {
    let err = "json".parse::<Passthrough>().unwrap_err();
    assert!(err.contains("json"), "error should name the bad value");
    assert!(
        err.contains("body") && err.contains("full"),
        "error should list valid options"
    );
}

#[test]
fn test_passthrough_parse_empty_string_errors() {
    assert!("".parse::<Passthrough>().is_err());
}

#[test]
fn unknown_mode_error_is_exact() {
    let err = "json".parse::<Passthrough>().unwrap_err();
    assert_eq!(
        err,
        "invalid passthrough mode 'json': expected 'body' or 'full'"
    );
}

#[test]
fn mode_names_are_case_sensitive_and_untrimmed() {
    assert!("Body".parse::<Passthrough>().is_err());
    assert!(" full".parse::<Passthrough>().is_err());
    assert!("bod".parse::<Passthrough>().is_err());
    assert!("bodyy".parse::<Passthrough>().is_err());
}
