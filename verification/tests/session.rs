use ws_load_tester::session::{
    close_reason, AfterSession, ConnectOutcome, ReadEvent, ReadStep, SendOutcome, SendStep,
};
use ws_load_tester::stats::TestStats;
use ws_load_tester::types::{DisconnectReason, FrameInfo};

#[test]
fn established_connection_is_counted_with_ports() {
    let mut s = TestStats::new();
    s.record_connection_attempt();
    let go = s.record_connect_outcome(&ConnectOutcome::Established {
        handshake_ms: 15,
        ports: Some((40000, 9001)),
    });
    assert!(go);
    assert_eq!(s.connections_attempted, 1);
    assert_eq!(s.connections_successful, 1);
    assert_eq!(s.connections_active, 1);
    assert_eq!(s.handshake_count, 1);
    assert_eq!(s.handshake_time_total_ms, 15);
    assert_eq!(s.local_ports[&40000], 1);
    assert_eq!(s.remote_ports[&9001], 1);
}

#[test]
fn established_connection_without_addresses_counts_no_port() {
    let mut s = TestStats::new();
    assert!(s.record_connect_outcome(&ConnectOutcome::Established { handshake_ms: 1, ports: None }));
    assert!(s.local_ports.is_empty());
    assert_eq!(s.connections_active, 1);
}

#[test]
fn failed_and_timed_out_connections() {
    let mut s = TestStats::new();
    assert!(!s.record_connect_outcome(&ConnectOutcome::Failed));
    assert!(!s.record_connect_outcome(&ConnectOutcome::TimedOut));
    assert_eq!(s.connections_failed, 2);
    assert_eq!(s.connection_errors, 1);
    assert_eq!(s.timeout_errors, 1);
    assert_eq!(s.connections_successful, 0);
}

#[test]
fn session_end_reasons() {
    let mut s = TestStats::new();
    s.connections_active = 4;
    assert_eq!(s.record_session_end(DisconnectReason::ServerKick, false), AfterSession::Reconnect);
    assert_eq!(s.record_session_end(DisconnectReason::UnexpectedClose, false), AfterSession::Reconnect);
    assert_eq!(s.record_session_end(DisconnectReason::GracefulClose, true), AfterSession::Stop);
    assert_eq!(s.record_session_end(DisconnectReason::Shutdown, false), AfterSession::Stop);
    assert_eq!(s.connections_active, 0);
    assert_eq!(s.connections_server_kicked, 1);
    assert_eq!(s.connections_unexpected_close, 1);
    assert_eq!(s.connections_reconnected, 2);
}

#[test]
fn active_count_wraps_like_an_atomic() {
    let mut s = TestStats::new();
    s.record_session_end(DisconnectReason::GracefulClose, true);
    assert_eq!(s.connections_active, usize::MAX);
}

#[test]
fn close_codes() {
    assert_eq!(close_reason(None), DisconnectReason::GracefulClose);
    assert_eq!(close_reason(Some(1000)), DisconnectReason::GracefulClose);
    assert_eq!(close_reason(Some(1001)), DisconnectReason::GracefulClose);
    assert_eq!(close_reason(Some(1002)), DisconnectReason::ServerKick);
    assert_eq!(close_reason(Some(4000)), DisconnectReason::ServerKick);
}

#[test]
fn echoed_probe_gives_latency() {
    let mut s = TestStats::new();
    let step = s.record_read_event(
        &ReadEvent::Frame { frame: FrameInfo::Text { bytes: 60 }, probe_sent_at: Some(1_000), now_ms: 1_042 },
        false,
    );
    assert_eq!(step, ReadStep::Continue);
    assert_eq!(s.messages_received, 1);
    assert_eq!(s.total_latency_ms, 42);
    assert_eq!(s.latency_buckets_50ms, 1);
    assert_eq!(s.bytes_received, 60);
    assert_eq!(s.text_frames_received, 1);
}

#[test]
fn probe_from_the_future_counts_zero_latency() {
    let mut s = TestStats::new();
    s.record_read_event(
        &ReadEvent::Frame { frame: FrameInfo::Text { bytes: 1 }, probe_sent_at: Some(2_000), now_ms: 1_000 },
        false,
    );
    assert_eq!(s.total_latency_ms, 0);
    assert_eq!(s.min_latency_ms, 0);
    assert_eq!(s.latency_buckets_1ms, 1);
}

#[test]
fn text_that_is_no_probe_only_counts_the_frame() {
    let mut s = TestStats::new();
    let step = s.record_read_event(
        &ReadEvent::Frame { frame: FrameInfo::Text { bytes: 5 }, probe_sent_at: None, now_ms: 9 },
        false,
    );
    assert_eq!(step, ReadStep::Continue);
    assert_eq!(s.messages_received, 0);
    assert_eq!(s.packets_received, 1);
}

#[test]
fn close_frame_ends_reading() {
    let mut s = TestStats::new();
    let step = s.record_read_event(
        &ReadEvent::Frame { frame: FrameInfo::Close { code: Some(1008) }, probe_sent_at: None, now_ms: 0 },
        false,
    );
    assert_eq!(step, ReadStep::Finish(DisconnectReason::ServerKick));
    assert_eq!(s.close_frames_received, 1);
}

#[test]
fn shutdown_stops_reading_without_counting() {
    let mut s = TestStats::new();
    let step = s.record_read_event(
        &ReadEvent::Frame { frame: FrameInfo::Text { bytes: 5 }, probe_sent_at: Some(1), now_ms: 2 },
        true,
    );
    assert_eq!(step, ReadStep::Finish(DisconnectReason::Shutdown));
    assert_eq!(s.packets_received, 0);
    let step = s.record_read_event(&ReadEvent::Error { quiet_secs: 99, quiet_nanos: 0 }, true);
    assert_eq!(step, ReadStep::Finish(DisconnectReason::Shutdown));
    assert_eq!(s.receive_errors, 0);
}

#[test]
fn read_errors_after_long_silence_are_kicks() {
    let mut s = TestStats::new();
    assert_eq!(
        s.record_read_event(&ReadEvent::Error { quiet_secs: 30, quiet_nanos: 0 }, false),
        ReadStep::Finish(DisconnectReason::UnexpectedClose)
    );
    assert_eq!(
        s.record_read_event(&ReadEvent::Error { quiet_secs: 30, quiet_nanos: 1 }, false),
        ReadStep::Finish(DisconnectReason::ServerKick)
    );
    assert_eq!(
        s.record_read_event(&ReadEvent::Error { quiet_secs: 31, quiet_nanos: 0 }, false),
        ReadStep::Finish(DisconnectReason::ServerKick)
    );
    assert_eq!(s.receive_errors, 3);
}

#[test]
fn end_of_stream_is_unexpected() {
    let mut s = TestStats::new();
    assert_eq!(s.record_read_event(&ReadEvent::End, true), ReadStep::Finish(DisconnectReason::UnexpectedClose));
}

#[test]
fn send_outcomes() {
    let mut s = TestStats::new();
    assert_eq!(s.record_send_outcome(SendOutcome::Sent, 41), SendStep::Continue { next_id: 42 });
    assert_eq!(s.record_send_outcome(SendOutcome::Sent, u64::MAX), SendStep::Continue { next_id: 0 });
    assert_eq!(s.messages_sent, 2);
    assert_eq!(
        s.record_send_outcome(SendOutcome::Failed, 3),
        SendStep::Finish(DisconnectReason::UnexpectedClose)
    );
    assert_eq!(
        s.record_send_outcome(SendOutcome::TimedOut, 3),
        SendStep::Finish(DisconnectReason::UnexpectedClose)
    );
    assert_eq!(s.send_errors, 1);
    assert_eq!(s.messages_failed, 1);
    assert_eq!(s.timeout_errors, 1);
    assert_eq!(s.messages_timeout, 1);
    s.record_protocol_error();
    assert_eq!(s.protocol_errors, 1);
}

#[test]
fn accounting_over_a_run() {
    let mut s = TestStats::new();
    for outcome in [
        ConnectOutcome::Failed,
        ConnectOutcome::Established { handshake_ms: 3, ports: Some((1, 2)) },
        ConnectOutcome::TimedOut,
        ConnectOutcome::Established { handshake_ms: 5, ports: Some((3, 2)) },
    ] {
        s.record_connection_attempt();
        s.record_connect_outcome(&outcome);
    }
    s.record_session_end(DisconnectReason::ServerKick, false);
    assert_eq!(s.connections_attempted, s.connections_successful + s.connections_failed);
    assert_eq!(s.connections_active, 1);
    assert_eq!(s.connections_server_kicked, 1);
    assert_eq!(s.remote_ports[&2], 2);
}

#[test]
fn failures_are_connection_errors_plus_connect_timeouts() {
    let mut s = TestStats::new();
    s.connections_attempted = 10;
    s.connections_failed = 3;
    s.connections_successful = 7;
    s.connections_active = 2;
    s.record_connection_attempt();
    s.record_connect_outcome(&ConnectOutcome::TimedOut);
    s.record_connection_attempt();
    s.record_connect_outcome(&ConnectOutcome::Failed);
    s.record_connection_attempt();
    s.record_connect_outcome(&ConnectOutcome::Established { handshake_ms: 2, ports: None });
    s.record_send_outcome(SendOutcome::TimedOut, 0);
    s.record_session_end(DisconnectReason::UnexpectedClose, false);
    assert_eq!(s.connections_attempted - 10, (s.connections_successful - 7) + (s.connections_failed - 3));
    assert_eq!(
        s.connections_failed as u64 - 3,
        s.connection_errors + s.timeout_errors - s.messages_timeout
    );
    assert_eq!(s.connections_active, 2);
}
