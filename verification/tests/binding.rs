use api2cli::binding::{
    asks_to_kill, bind_or_prompt, in_use_notice, listen_address, lsof_args, parse_pids,
    pid_info_text, pids_on_port, BindEvent, Stage, RELEASE_WAIT_MS,
};

fn after(events: Vec<BindEvent>) -> Stage {
    let mut stage = Stage::Binding;
    for event in events {
        stage = bind_or_prompt(stage, event);
    }
    stage
}

fn listed(text: &str) -> BindEvent {
    BindEvent::Listed(Some(text.as_bytes().to_vec()))
}

fn answer(text: &str) -> BindEvent {
    BindEvent::Answer(text.to_string())
}

#[test]
fn free_port_is_served() {
    assert!(matches!(after(vec![BindEvent::Bound]), Stage::Serving));
}

#[test]
fn other_bind_errors_end_with_code_one() {
    assert!(matches!(after(vec![BindEvent::Refused]), Stage::Exiting(1)));
}

#[test]
fn listed_processes_are_killed_when_the_user_agrees() {
    let stage = after(vec![BindEvent::InUse, listed("12\n345\n"), answer("k\n")]);
    match stage {
        Stage::Killing(pids) => assert_eq!(pids, vec![12, 345]),
        _ => panic!("expected to kill"),
    }
    assert_eq!(RELEASE_WAIT_MS, 300);
}

#[test]
fn port_is_tried_again_after_killing() {
    let stage = after(vec![
        BindEvent::InUse,
        listed("12\n"),
        answer(" K \r\n"),
        BindEvent::Released,
    ]);
    assert!(matches!(stage, Stage::Binding));
    assert!(matches!(bind_or_prompt(stage, BindEvent::Bound), Stage::Serving));
}

#[test]
fn declining_ends_with_code_zero() {
    for line in ["c\n", "", "\n", "kk\n", "yes\n", "k k\n"] {
        let stage = after(vec![BindEvent::InUse, listed("12\n"), answer(line)]);
        assert!(matches!(stage, Stage::Exiting(0)), "{line:?}");
    }
}

#[test]
fn nothing_to_kill_ends_with_code_one() {
    let stage = after(vec![BindEvent::InUse, listed(""), answer("k\n")]);
    assert!(matches!(stage, Stage::Exiting(1)));
    let stage = after(vec![BindEvent::InUse, BindEvent::Listed(None), answer("k\n")]);
    assert!(matches!(stage, Stage::Exiting(1)));
}

#[test]
fn user_is_asked_about_what_was_listed() {
    match after(vec![BindEvent::InUse, listed("7 8")]) {
        Stage::Asking(pids) => assert_eq!(pids, vec![7, 8]),
        _ => panic!("expected to ask"),
    }
    assert!(matches!(after(vec![BindEvent::InUse]), Stage::Searching));
}

#[test]
fn events_that_are_not_due_change_nothing() {
    assert!(matches!(after(vec![answer("k\n")]), Stage::Binding));
    assert!(matches!(after(vec![BindEvent::InUse, BindEvent::Bound]), Stage::Searching));
    assert!(matches!(
        after(vec![BindEvent::Bound, BindEvent::Refused]),
        Stage::Serving
    ));
    assert!(matches!(
        after(vec![BindEvent::Refused, BindEvent::Bound]),
        Stage::Exiting(1)
    ));
}

#[test]
fn pids_are_the_numbers_in_the_listing() {
    assert_eq!(parse_pids("1\n22\n333\n"), vec![1, 22, 333]);
    assert_eq!(parse_pids("  4\t+5 \u{a0}6\u{3000}x7 -8 9x 4294967295 4294967296"), vec![
        4, 5, 6, 4294967295
    ]);
    assert!(parse_pids("").is_empty());
    assert_eq!(pids_on_port(Some(b"10\xff 11\n")), vec![11]);
    assert!(pids_on_port(None).is_empty());
}

#[test]
fn answers_are_trimmed() {
    assert!(asks_to_kill("k"));
    assert!(asks_to_kill("\u{2003}K\n"));
    assert!(!asks_to_kill("kill"));
    assert!(!asks_to_kill(""));
}

#[test]
fn texts_for_the_user_and_for_lsof() {
    assert_eq!(
        lsof_args(1337),
        vec!["-ti".to_string(), "tcp:1337".to_string(), "-sTCP:LISTEN".to_string()]
    );
    assert_eq!(listen_address(8080), "0.0.0.0:8080");
    assert_eq!(pid_info_text(&vec![]), "unknown process");
    assert_eq!(pid_info_text(&vec![1]), "1");
    assert_eq!(pid_info_text(&vec![1, 20, 300]), "1, 20, 300");
    assert_eq!(
        in_use_notice(1337, &vec![1, 2]),
        "Port 1337 is already in use (PID: 1, 2)"
    );
}

#[test]
fn listing_with_one_process_a_line_reads_back() {
    assert_eq!(pids_on_port(Some(b"1\n20\n4294967295\n")), vec![1, 20, 4294967295]);
}

#[test]
fn server_runs_once_every_holder_was_killed_with_consent() {
    let mut events = vec![];
    for pid in ["1\n", "2\n"] {
        events.push(BindEvent::InUse);
        events.push(listed(pid));
        events.push(answer("k\n"));
        events.push(BindEvent::Released);
    }
    events.push(BindEvent::Bound);
    assert!(matches!(after(events), Stage::Serving));
    let late = vec![BindEvent::InUse, listed("1\n"), answer("c\n"), BindEvent::Bound];
    assert!(matches!(after(late), Stage::Exiting(0)));
}
