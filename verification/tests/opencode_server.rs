use favetto::agents::opencode::server::{
    backoff, copy_endpoint, encode_segment, serve_args, Endpoint, ManagedServer, StartPlan,
    MAX_RESTART_FAILURES,
};

fn endpoint() -> Endpoint {
    Endpoint { url: "http://127.0.0.1:1".to_string(), password: "super-secret".to_string() }
}

#[test]
fn backoff_is_exponential_and_capped() {
    assert_eq!(backoff(0), 250);
    assert_eq!(backoff(1), 500);
    assert_eq!(backoff(2), 1000);
    assert_eq!(backoff(3), 2000);
    assert_eq!(backoff(4), 4000);
    assert_eq!(backoff(5), 5000);
    assert_eq!(backoff(9), 5000);
    assert_eq!(backoff(u32::MAX), 5000);
}

#[test]
fn encode_segment_percent_encodes_reserved_bytes() {
    assert_eq!(encode_segment("ses_abc-1.2~3"), "ses_abc-1.2~3");
    assert_eq!(encode_segment("a/b c"), "a%2Fb%20c");
    assert_eq!(encode_segment("é"), "%C3%A9");
    assert_eq!(encode_segment(""), "");
}

#[test]
fn endpoint_debug_redacts_the_password() {
    let debug = endpoint().debug_text();
    assert!(!debug.contains("super-secret"), "debug leaked password: {debug}");
    assert!(debug.contains("<redacted>"));
    assert!(debug.contains("\"http://127.0.0.1:1\""), "the address is quoted: {debug}");

    let odd = Endpoint { url: "a\"b".to_string(), password: String::new() };
    assert!(odd.debug_text().contains("\"a\\\"b\""), "quoted: {}", odd.debug_text());
}

#[test]
fn endpoint_request_goes_to_its_address() {
    assert_eq!(endpoint().request_url("/api/info"), "http://127.0.0.1:1/api/info");
}

#[test]
fn every_server_has_a_password_of_its_own() {
    let first = Endpoint::on_port(4096);
    let second = Endpoint::on_port(4096);
    assert_eq!(first.url, "http://127.0.0.1:4096");
    assert_eq!(first.url, second.url);
    assert_ne!(first.password, second.password);
    assert!(first.password.len() >= 32);
    assert!(first.password.chars().all(|c| c.is_ascii_hexdigit()));
}

#[test]
fn a_server_is_told_its_port() {
    let plain = serve_args(None, 4096);
    assert_eq!(plain[0], "serve");
    assert!(plain.contains(&"4096".to_string()));
    let supervised = serve_args(Some("opencode"), 4096);
    assert!(supervised.contains(&"opencode".to_string()));
    assert!(supervised.ends_with(&plain));
}

#[test]
fn a_server_starts_once() {
    let mut server = ManagedServer::new();
    assert!(server.endpoint().is_none());
    assert!(matches!(server.ensure_started(), StartPlan::Start));

    server.started(endpoint(), "opencode");
    assert!(server.endpoint() == Some(endpoint()));
    assert!(matches!(server.ensure_started(), StartPlan::Running(ep) if ep == endpoint()));

    let moved = Endpoint { url: "http://127.0.0.1:2".to_string(), ..endpoint() };
    server.restarted(moved.clone());
    assert!(server.endpoint() == Some(moved));
    assert!(copy_endpoint(&server.endpoint()) == server.endpoint());
}

#[test]
fn a_server_that_keeps_failing_is_given_up() {
    let mut server = ManagedServer::new();
    server.started(endpoint(), "opencode");
    let mut pauses = Vec::new();
    let mut failures = 0;
    while let Some(pause) = server.next_restart(failures) {
        pauses.push(pause);
        failures += 1;
        assert!(failures <= MAX_RESTART_FAILURES);
    }
    assert!(!pauses.is_empty());
    assert!(pauses.windows(2).all(|pair| pair[0] <= pair[1]));
    assert!(server.endpoint().is_none());
}
