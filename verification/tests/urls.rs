use ws_load_tester::load_tester::LoadTester;

#[test]
fn bare_host_gets_ws_scheme() {
    assert_eq!(LoadTester::validate_url("localhost:8080"), Ok("ws://localhost:8080".to_string()));
}

#[test]
fn http_becomes_ws() {
    assert_eq!(LoadTester::validate_url("http://example.com/chat"), Ok("ws://example.com/chat".to_string()));
}

#[test]
fn https_becomes_wss() {
    assert_eq!(LoadTester::validate_url("https://example.com"), Ok("wss://example.com".to_string()));
}

#[test]
fn every_http_occurrence_is_replaced() {
    assert_eq!(
        LoadTester::validate_url("http://a.com/?next=http://b.com"),
        Ok("ws://a.com/?next=ws://b.com".to_string())
    );
}

#[test]
fn surrounding_white_space_is_trimmed() {
    assert_eq!(LoadTester::validate_url("  \t ws://host:1/x \n"), Ok("ws://host:1/x".to_string()));
    assert_eq!(LoadTester::validate_url("\u{3000}host\u{a0}"), Ok("ws://host".to_string()));
    assert_eq!(LoadTester::validate_url("   "), Ok("ws://".to_string()));
}

#[test]
fn websocket_urls_that_parse_pass_unchanged() {
    assert_eq!(LoadTester::validate_url("wss://example.com:443/a?b=c"), Ok("wss://example.com:443/a?b=c".to_string()));
    assert_eq!(LoadTester::validate_url("ws://127.0.0.1:8080"), Ok("ws://127.0.0.1:8080".to_string()));
}

#[test]
fn websocket_urls_that_do_not_parse_are_refused() {
    assert_eq!(
        LoadTester::validate_url("ws://localhost:99999"),
        Err("Invalid URL: invalid port number".to_string())
    );
}

#[test]
fn parse_verdicts_are_mapped() {
    assert_eq!(LoadTester::accept_parsed("ws://x", Ok(())), Ok("ws://x".to_string()));
    assert_eq!(
        LoadTester::accept_parsed("ws://x", Err("empty host".to_string())),
        Err("Invalid URL: empty host".to_string())
    );
}

#[test]
fn pacing_of_new_connections() {
    assert_eq!(LoadTester::pacing(0), (false, 20));
    assert_eq!(LoadTester::pacing(1), (false, 20));
    assert_eq!(LoadTester::pacing(50), (true, 2));
    assert_eq!(LoadTester::pacing(100), (true, 2));
    assert_eq!(LoadTester::pacing(101), (false, 20));
}

#[test]
fn tester_keeps_its_settings() {
    let t = LoadTester::new("ws://h".to_string(), 7, 40, 5000, 4000, 1000);
    assert_eq!(t.url, "ws://h");
    assert_eq!(t.num_connections, 7);
    assert_eq!(t.message_interval_ms, 40);
    assert_eq!(t.connection_timeout_ms, 5000);
    assert_eq!(t.message_timeout_ms, 4000);
    assert_eq!(t.reconnect_delay_ms, 1000);
}

#[test]
fn trimming_agrees_with_std_on_every_character() {
    for code in 0u32..=0x10FFFF {
        if let Some(c) = char::from_u32(code) {
            let raw = format!("{c}h{c}");
            let expected = format!("ws://{}", raw.trim());
            assert_eq!(LoadTester::validate_url(&raw), Ok(expected), "character {code:#x}");
        }
    }
}

#[test]
fn validation_is_idempotent() {
    for raw in ["localhost:8080", " http://a.com/x ", "https://b.org", "ws://c:1", "wss://d/e?f=g"] {
        let once = LoadTester::validate_url(raw).unwrap();
        assert_eq!(LoadTester::validate_url(&once), Ok(once.clone()));
    }
    // an accepted URL that the parser refuses is refused on the second call
    let once = LoadTester::validate_url("").unwrap();
    assert_eq!(once, "ws://");
    assert_eq!(LoadTester::validate_url(&once), Err("Invalid URL: empty host".to_string()));
}
