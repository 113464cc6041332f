use api2cli::config::Config;
use api2cli::forwarder::{shell_line, Forwarder, Forwarding, Step};
use api2cli::headers::Headers;
use api2cli::passthrough::Passthrough;
use api2cli::payload::read_payload;
use api2cli::server::{receive, Event, Exchange, Reply, Server, OK_STATUS};
use api2cli::settings::{resolve, Cli, Settings};
use axum::http::{HeaderMap, HeaderValue};

fn settings(command: Option<&str>, persistent: bool, mode: Passthrough) -> Settings {
    let cli = Cli {
        port: None,
        command: command.map(|c| c.to_string()),
        persistent,
        passthrough: Some(mode),
        log_level: None,
    };
    resolve(cli, Config::default())
}

fn request(path: Option<&str>) -> Exchange {
    receive("POST".to_string(), path.map(|p| p.to_string()), &HeaderMap::new())
}

fn writing(exchange: Exchange) -> Forwarding {
    match exchange {
        Exchange::Answered(_, forwarding) => forwarding,
        _ => panic!("expected to write"),
    }
}

fn status(exchange: &Exchange) -> u16 {
    match exchange {
        Exchange::Answered(reply, _) | Exchange::Closed(reply, _) => reply.status,
        Exchange::Reading(_) => panic!("expected an answer"),
    }
}

fn shuts_down(exchange: Exchange) -> bool {
    match exchange {
        Exchange::Closed(_, shut_down) => shut_down,
        _ => panic!("expected the end"),
    }
}

fn serve(server: &mut Server, body: Option<Vec<u8>>, results: &[bool]) -> Exchange {
    let mut exchange = server.handler(request(Some("/")), Event::Body(body));
    for ok in results {
        exchange = server.handler(exchange, Event::Io(*ok));
    }
    exchange
}

#[test]
fn every_request_is_answered_ok() {
    assert_eq!(OK_STATUS, 200);
    for mode in [Passthrough::Body, Passthrough::Full] {
        for body in [Some(b"x".to_vec()), Some(vec![]), None] {
            for results in [vec![true, true], vec![true, false], vec![false], vec![false, true]] {
                let mut server = Server::new(&settings(None, true, mode));
                let exchange = serve(&mut server, body.clone(), &results);
                assert_eq!(status(&exchange), 200);
                assert!(!shuts_down(exchange));
            }
        }
    }
}

#[test]
fn answer_is_given_before_anything_is_written() {
    let mut server = Server::new(&settings(Some("sleep 9"), false, Passthrough::Full));
    match server.handler(request(Some("/")), Event::Body(Some(b"x".to_vec()))) {
        Exchange::Answered(reply, forwarding) => {
            assert_eq!(reply, Reply { status: 200 });
            assert_eq!(forwarding.step, Step::Write);
        }
        _ => panic!("expected an answer"),
    }
    assert!(server.last_call);
}

#[test]
fn server_is_not_shut_down_before_the_payload_is_flushed() {
    let mut server = Server::new(&settings(None, false, Passthrough::Body));
    let exchange = serve(&mut server, None, &[true]);
    assert!(matches!(&exchange, Exchange::Answered(_, f) if f.step == Step::Flush));
    assert!(server.last_call);
    assert!(shuts_down(server.handler(exchange, Event::Io(true))));
    assert!(!server.last_call);
}

#[test]
fn one_shot_server_shuts_down_with_the_first_request_only() {
    let mut server = Server::new(&settings(None, false, Passthrough::Body));
    assert!(shuts_down(serve(&mut server, None, &[true, true])));
    assert!(!shuts_down(serve(&mut server, None, &[true, true])));
    assert!(!shuts_down(serve(&mut server, None, &[false])));
}

#[test]
fn one_shot_server_shuts_down_though_forwarding_failed() {
    let mut server = Server::new(&settings(None, false, Passthrough::Body));
    assert!(shuts_down(serve(&mut server, None, &[false])));
}

#[test]
fn interleaved_requests_shut_the_server_down_once() {
    let mut server = Server::new(&settings(None, false, Passthrough::Body));
    let mut a = server.handler(request(None), Event::Body(None));
    let mut b = server.handler(request(None), Event::Body(None));
    a = server.handler(a, Event::Io(true));
    b = server.handler(b, Event::Io(true));
    b = server.handler(b, Event::Io(true));
    a = server.handler(a, Event::Io(true));
    assert!(shuts_down(b));
    assert!(!shuts_down(a));
}

#[test]
fn persistent_server_runs_on() {
    let mut server = Server::new(&settings(None, true, Passthrough::Body));
    for _ in 0..3 {
        assert!(!shuts_down(serve(&mut server, None, &[true, true])));
    }
}

#[test]
fn requests_go_into_the_command_if_there_is_one() {
    let stdout = Server::new(&settings(None, true, Passthrough::Body));
    assert_eq!(stdout.forwarder, Forwarder::Stdout);
    let mut piped = Server::new(&settings(Some("cat"), true, Passthrough::Body));
    assert_eq!(piped.forwarder, Forwarder::Subprocess);
    let forwarding = writing(serve(&mut piped, Some(b"hello-body".to_vec()), &[]));
    assert_eq!(forwarding.to, Forwarder::Subprocess);
    assert_eq!(forwarding.payload, b"hello-body\n");
    assert_eq!(Forwarder::for_command(&None), Forwarder::Stdout);
    assert_eq!(
        shell_line("cat -n"),
        vec!["sh".to_string(), "-c".to_string(), "cat -n".to_string()]
    );
}

#[test]
fn full_mode_forwards_the_envelope() {
    let mut server = Server::new(&settings(Some("cat"), false, Passthrough::Full));
    let mut fields = HeaderMap::new();
    fields.insert("content-type", HeaderValue::from_static("text/plain"));
    let exchange = receive("POST".to_string(), Some("/api/test".to_string()), &fields);
    let forwarding = writing(server.handler(exchange, Event::Body(Some(b"the-body".to_vec()))));
    let v = read_payload(&forwarding.payload).unwrap();
    assert_eq!(v["method"], "POST");
    assert_eq!(v["path"], "/api/test");
    assert_eq!(v["body"], "the-body");
    assert_eq!(v["headers"]["content-type"], "text/plain");
}

#[test]
fn path_defaults_to_the_root() {
    match request(None) {
        Exchange::Reading(r) => assert_eq!(r.path, "/"),
        _ => panic!("expected to read"),
    }
    match request(Some("/some/deep/path?q=1")) {
        Exchange::Reading(r) => assert_eq!(r.path, "/some/deep/path?q=1"),
        _ => panic!("expected to read"),
    }
}

#[test]
fn body_that_cannot_be_read_counts_as_empty() {
    let mut server = Server::new(&settings(None, true, Passthrough::Body));
    assert_eq!(writing(serve(&mut server, None, &[])).payload, b"\n");
}

#[test]
fn payload_is_written_and_flushed() {
    let mut f = Forwarder::Stdout.forward(
        &Passthrough::Body,
        "GET",
        "/",
        Headers::new(),
        b"x".to_vec(),
    );
    assert_eq!(f.step, Step::Write);
    f.advance(true);
    assert_eq!(f.step, Step::Flush);
    f.advance(true);
    assert_eq!(f.step, Step::Done);
    f.advance(false);
    assert_eq!(f.step, Step::Done);
    assert_eq!(f.payload, b"x\n");
    assert_eq!(f.to, Forwarder::Stdout);
}

#[test]
fn nothing_is_flushed_after_a_failed_write() {
    let mut f = Forwarder::Subprocess.forward(
        &Passthrough::Body,
        "GET",
        "/",
        Headers::new(),
        vec![],
    );
    f.advance(false);
    assert_eq!(f.step, Step::Failed);
    f.advance(true);
    assert_eq!(f.step, Step::Failed);
}

#[test]
fn requests_ignore_events_that_are_not_due() {
    let mut server = Server::new(&settings(None, false, Passthrough::Body));
    let exchange = server.handler(request(None), Event::Io(true));
    assert!(matches!(exchange, Exchange::Reading(_)));
    let exchange = server.handler(exchange, Event::Body(None));
    let exchange = server.handler(exchange, Event::Body(Some(b"late".to_vec())));
    assert!(matches!(&exchange, Exchange::Answered(_, f) if f.payload == b"\n"));
    assert!(server.last_call);
    let closed = server.handler(exchange, Event::Io(false));
    assert!(!server.last_call);
    let again = server.handler(closed, Event::Io(true));
    assert!(shuts_down(again));
}
