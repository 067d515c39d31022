use preprintd::consts::{nul, DEF_API_URL, DEF_LPR_PORT};
use preprintd::types::LogLevel;
use preprintd::worker::{
    classify_event_line, client_needs_rebuild, decimal_string, inhibit_request, is_long_stream,
    log_line, logs_to_stdout, next_backoff_secs, stream_start, user_agent, worker_headers,
    EventLine, StreamStart,
};

const SEC: u64 = 1_000_000_000;

#[test]
fn constants() {
    assert_eq!(DEF_LPR_PORT, 515);
    assert_eq!(nul(), [0u8]);
    assert_eq!(DEF_API_URL, "https://api.preconnect.app/");
}

#[test]
fn client_rebuild_rule() {
    assert!(client_needs_rebuild(false, 0));
    assert!(!client_needs_rebuild(true, 249 * SEC));
    assert!(client_needs_rebuild(true, 250 * SEC));
}

#[test]
fn long_stream_rule() {
    assert!(!is_long_stream(10 * SEC));
    assert!(is_long_stream(10 * SEC + 1));
}

#[test]
fn backoff_doubles_to_eight() {
    let mut d = 1;
    let mut seen = Vec::new();
    for _ in 0..5 {
        d = next_backoff_secs(d, false, false);
        seen.push(d);
    }
    assert_eq!(seen, vec![2, 4, 8, 8, 8]);
    assert_eq!(next_backoff_secs(8, true, false), 8);
    assert_eq!(next_backoff_secs(2, false, true), 4);
}

#[test]
fn backoff_resets_after_long_healthy_stream() {
    assert_eq!(next_backoff_secs(8, true, true), 1);
    assert_eq!(next_backoff_secs(1, true, true), 1);
}

#[test]
fn stream_status() {
    assert_eq!(stream_start(401), StreamStart::Unauthorized);
    assert_eq!(stream_start(500), StreamStart::UnexpectedStatus);
    assert_eq!(stream_start(200), StreamStart::Listen);
}

#[test]
fn event_lines() {
    assert!(matches!(classify_event_line(": keep-alive\n"), EventLine::Comment));
    assert!(matches!(classify_event_line(":"), EventLine::Comment));
    match classify_event_line("data: {\"id\":\"1\"}\n") {
        EventLine::Data(d) => assert_eq!(d, "{\"id\":\"1\"}\n"),
        _ => panic!("expected data"),
    }
    match classify_event_line("data: ") {
        EventLine::Data(d) => assert_eq!(d, ""),
        _ => panic!("expected data"),
    }
    assert!(matches!(classify_event_line("data:{}"), EventLine::Other));
    assert!(matches!(classify_event_line("event: job\n"), EventLine::Other));
    assert!(matches!(classify_event_line(""), EventLine::Other));
}

#[test]
fn decimal_text() {
    assert_eq!(decimal_string(0), "0");
    assert_eq!(decimal_string(7), "7");
    assert_eq!(decimal_string(10), "10");
    assert_eq!(decimal_string(250), "250");
    assert_eq!(decimal_string(u64::MAX), u64::MAX.to_string());
}

#[test]
fn agent_and_headers() {
    assert_eq!(user_agent("preprintd", "0.7.2"), "preprintd/0.7.2");
    let h = worker_headers("preprintd/0.7.2", "key", 12, "id;x86_64;st");
    let expected: Vec<(String, String)> = vec![
        ("User-Agent".into(), "preprintd/0.7.2".into()),
        ("X-Worker-Key".into(), "key".into()),
        ("X-Worker-Jobs".into(), "12".into()),
        ("X-Worker-Ident".into(), "id;x86_64;st".into()),
        ("X-Worker-Health".into(), "ok".into()),
    ];
    assert_eq!(h, expected);
}

#[test]
fn log_lines() {
    assert_eq!(log_line(LogLevel::Success, "Claimed new job!"), "[OK] Claimed new job!");
    assert_eq!(log_line(LogLevel::Warn, "w"), "[WARNING] w");
    assert_eq!(log_line(LogLevel::Error, "e"), "[ERR] e");
    assert!(logs_to_stdout(LogLevel::Success));
    assert!(!logs_to_stdout(LogLevel::Warn));
    assert!(!logs_to_stdout(LogLevel::Error));
}

#[test]
fn sleep_inhibitor_request() {
    let r = inhibit_request("preprintd");
    assert_eq!(r.what, "sleep");
    assert_eq!(r.who, "preprintd");
    assert_eq!(r.why, "Required for sustained streaming operation.");
    assert_eq!(r.mode, "block");
}
