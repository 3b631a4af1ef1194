use std::collections::HashMap;
use ws_load_tester::ports::{port_usage, TOP_PORTS};
use ws_load_tester::stats::{latency_bucket, LatencyBucket, TestStats};
use ws_load_tester::types::FrameInfo;

#[test]
fn new_stats_start_empty() {
    let s = TestStats::new();
    assert_eq!(s.connections_attempted, 0);
    assert_eq!(s.messages_sent, 0);
    assert_eq!(s.max_latency_ms, 0);
    assert_eq!(s.min_latency_ms, u64::MAX);
    assert!(s.local_ports.is_empty());
    assert!(s.remote_ports.is_empty());
}

#[test]
fn latency_bucket_edges() {
    assert_eq!(latency_bucket(0), LatencyBucket::UpTo1ms);
    assert_eq!(latency_bucket(1), LatencyBucket::UpTo1ms);
    assert_eq!(latency_bucket(2), LatencyBucket::UpTo10ms);
    assert_eq!(latency_bucket(10), LatencyBucket::UpTo10ms);
    assert_eq!(latency_bucket(11), LatencyBucket::UpTo50ms);
    assert_eq!(latency_bucket(50), LatencyBucket::UpTo50ms);
    assert_eq!(latency_bucket(51), LatencyBucket::UpTo100ms);
    assert_eq!(latency_bucket(100), LatencyBucket::UpTo100ms);
    assert_eq!(latency_bucket(101), LatencyBucket::UpTo500ms);
    assert_eq!(latency_bucket(500), LatencyBucket::UpTo500ms);
    assert_eq!(latency_bucket(501), LatencyBucket::UpTo1s);
    assert_eq!(latency_bucket(1000), LatencyBucket::UpTo1s);
    assert_eq!(latency_bucket(1001), LatencyBucket::UpTo5s);
    assert_eq!(latency_bucket(5000), LatencyBucket::UpTo5s);
    assert_eq!(latency_bucket(5001), LatencyBucket::Over5s);
    assert_eq!(latency_bucket(u64::MAX), LatencyBucket::Over5s);
}

#[test]
fn latency_samples_fill_distribution_and_extremes() {
    let mut s = TestStats::new();
    for l in [7u64, 0, 250, 6000, 7, 45] {
        s.record_latency(l);
    }
    assert_eq!(s.total_latency_ms, 7 + 0 + 250 + 6000 + 7 + 45);
    assert_eq!(s.max_latency_ms, 6000);
    assert_eq!(s.min_latency_ms, 0);
    assert_eq!(s.latency_buckets_1ms, 1);
    assert_eq!(s.latency_buckets_10ms, 2);
    assert_eq!(s.latency_buckets_50ms, 1);
    assert_eq!(s.latency_buckets_100ms, 0);
    assert_eq!(s.latency_buckets_500ms, 1);
    assert_eq!(s.latency_buckets_1s, 0);
    assert_eq!(s.latency_buckets_5s, 0);
    assert_eq!(s.latency_buckets_over, 1);
}

#[test]
fn latency_total_wraps_like_an_atomic() {
    let mut s = TestStats::new();
    s.record_latency(u64::MAX);
    s.record_latency(2);
    assert_eq!(s.total_latency_ms, 1);
    assert_eq!(s.max_latency_ms, u64::MAX);
    assert_eq!(s.min_latency_ms, 2);
}

#[test]
fn frames_sent_and_received_are_counted_by_kind() {
    let mut s = TestStats::new();
    s.record_message_sent(&FrameInfo::Text { bytes: 12 });
    s.record_message_sent(&FrameInfo::Binary { bytes: 5 });
    s.record_message_sent(&FrameInfo::Ping { bytes: 3 });
    s.record_message_sent(&FrameInfo::Pong { bytes: 4 });
    s.record_message_sent(&FrameInfo::Close { code: None });
    s.record_message_sent(&FrameInfo::Raw);
    assert_eq!(s.packets_sent, 6);
    assert_eq!(s.bytes_sent, 12 + 5 + 3 + 4 + 2 + 4);
    assert_eq!(s.text_frames_sent, 1);
    assert_eq!(s.binary_frames_sent, 1);
    assert_eq!(s.ping_frames_sent, 1);
    assert_eq!(s.pong_frames_sent, 1);
    assert_eq!(s.close_frames_sent, 1);
    assert_eq!(s.packets_received, 0);

    s.record_message_received(&FrameInfo::Text { bytes: 20 });
    s.record_message_received(&FrameInfo::Close { code: Some(1000) });
    assert_eq!(s.packets_received, 2);
    assert_eq!(s.bytes_received, 22);
    assert_eq!(s.text_frames_received, 1);
    assert_eq!(s.close_frames_received, 1);
    assert_eq!(s.binary_frames_received, 0);
}

#[test]
fn handshakes_add_up() {
    let mut s = TestStats::new();
    s.record_handshake_time(30);
    s.record_handshake_time(50);
    assert_eq!(s.handshake_count, 2);
    assert_eq!(s.handshake_time_total_ms, 80);
}

#[test]
fn ports_are_counted_per_port() {
    let mut s = TestStats::new();
    s.record_connection_ports(50000, 8080);
    s.record_connection_ports(50001, 8080);
    s.record_connection_ports(50000, 8080);
    assert_eq!(s.local_ports.len(), 2);
    assert_eq!(s.local_ports[&50000], 2);
    assert_eq!(s.local_ports[&50001], 1);
    assert_eq!(s.remote_ports.len(), 1);
    assert_eq!(s.remote_ports[&8080], 3);
    assert!(s.ports_have_room(50000, 8080));
    s.local_ports.insert(7, u64::MAX);
    assert!(!s.ports_have_room(7, 8080));
}

#[test]
fn clone_keeps_every_figure() {
    let mut s = TestStats::new();
    s.record_latency(12);
    s.record_connection_ports(1, 2);
    let c = s.clone();
    assert_eq!(c.total_latency_ms, 12);
    assert_eq!(c.local_ports, s.local_ports);
    assert_eq!(c.remote_ports, s.remote_ports);
}

#[test]
fn summary_of_fresh_stats_is_zero() {
    let s = TestStats::new();
    let x = s.summary().unwrap();
    assert_eq!(x.avg_latency_ms, 0);
    assert_eq!(x.avg_handshake_ms, 0);
    assert_eq!(x.min_latency_ms, 0);
    assert_eq!(x.max_latency_ms, 0);
    assert_eq!(x.latency_samples, 0);
    assert_eq!(x.total_errors, 0);
    assert_eq!(x.total_disconnects, 0);
}

#[test]
fn summary_averages_and_totals() {
    let mut s = TestStats::new();
    s.total_latency_ms = 100;
    s.messages_received = 3;
    s.handshake_time_total_ms = 90;
    s.handshake_count = 4;
    s.min_latency_ms = 5;
    s.max_latency_ms = 70;
    s.latency_buckets_1ms = 2;
    s.latency_buckets_over = 5;
    s.send_errors = 1;
    s.protocol_errors = 2;
    s.connections_server_kicked = 3;
    s.connections_unexpected_close = 4;
    let x = s.summary().unwrap();
    assert_eq!(x.avg_latency_ms, 33);
    assert_eq!(x.avg_handshake_ms, 22);
    assert_eq!(x.min_latency_ms, 5);
    assert_eq!(x.max_latency_ms, 70);
    assert_eq!(x.latency_samples, 7);
    assert_eq!(x.total_errors, 3);
    assert_eq!(x.total_disconnects, 7);
}

#[test]
fn summary_refuses_overflowing_sums() {
    let mut s = TestStats::new();
    s.latency_buckets_1ms = u64::MAX;
    s.latency_buckets_5s = 1;
    assert!(s.summary().is_none());
    let mut s = TestStats::new();
    s.connections_server_kicked = usize::MAX;
    s.connections_unexpected_close = 1;
    assert!(s.summary().is_none());
}

#[test]
fn port_usage_ranks_busiest_first_with_ties_by_port() {
    let mut m: HashMap<u16, u64> = HashMap::new();
    m.insert(9000, 3);
    m.insert(80, 7);
    m.insert(443, 3);
    m.insert(22, 1);
    let u = port_usage(&m, TOP_PORTS).unwrap();
    assert_eq!(u.unique_ports, 4);
    assert_eq!(u.total_connections, 14);
    assert_eq!(u.top, vec![(80, 7), (443, 3), (9000, 3), (22, 1)]);
}

#[test]
fn port_usage_keeps_only_the_top_ten() {
    let mut m: HashMap<u16, u64> = HashMap::new();
    for p in 0u16..30 {
        m.insert(1000 + p, (p % 7) as u64 + 1);
    }
    let u = port_usage(&m, TOP_PORTS).unwrap();
    assert_eq!(u.unique_ports, 30);
    assert_eq!(u.top.len(), 10);
    let mut all: Vec<(u16, u64)> = m.iter().map(|(p, c)| (*p, *c)).collect();
    all.sort_by(|a, b| b.1.cmp(&a.1).then(a.0.cmp(&b.0)));
    assert_eq!(u.top, all[..10].to_vec());
    let total: u64 = m.values().sum();
    assert_eq!(u.total_connections, total);
}

#[test]
fn port_usage_of_empty_table() {
    let m: HashMap<u16, u64> = HashMap::new();
    let u = port_usage(&m, TOP_PORTS).unwrap();
    assert_eq!(u.unique_ports, 0);
    assert_eq!(u.total_connections, 0);
    assert!(u.top.is_empty());
}

#[test]
fn port_usage_refuses_overflowing_total() {
    let mut m: HashMap<u16, u64> = HashMap::new();
    m.insert(1, u64::MAX);
    m.insert(65535, 1);
    assert!(port_usage(&m, TOP_PORTS).is_none());
}

#[test]
fn port_counts_add_up_to_connections() {
    let mut s = TestStats::new();
    let pairs = [(5u16, 80u16), (6, 80), (5, 443), (7, 80), (5, 80)];
    for (l, r) in pairs {
        s.record_connection_ports(l, r);
    }
    assert_eq!(s.local_ports.values().sum::<u64>(), pairs.len() as u64);
    assert_eq!(s.remote_ports.values().sum::<u64>(), pairs.len() as u64);
    assert_eq!(port_usage(&s.local_ports, TOP_PORTS).unwrap().total_connections, 5);
}

#[test]
fn debug_output_names_the_counters() {
    let s = TestStats::new();
    assert!(format!("{:?}", s).contains("connections_attempted"));
}

#[test]
fn every_frame_is_one_packet() {
    let mut s = TestStats::new();
    let frames = [
        FrameInfo::Text { bytes: 3 },
        FrameInfo::Raw,
        FrameInfo::Ping { bytes: 1 },
        FrameInfo::Close { code: None },
        FrameInfo::Raw,
        FrameInfo::Binary { bytes: 9 },
        FrameInfo::Pong { bytes: 0 },
    ];
    for f in frames.iter() {
        s.record_message_sent(f);
        s.record_message_received(f);
    }
    let kinds_sent = s.text_frames_sent + s.binary_frames_sent + s.ping_frames_sent + s.pong_frames_sent + s.close_frames_sent;
    let kinds_received = s.text_frames_received + s.binary_frames_received + s.ping_frames_received
        + s.pong_frames_received + s.close_frames_received;
    assert_eq!(s.packets_sent, kinds_sent + 2);
    assert_eq!(s.packets_received, kinds_received + 2);
    assert_eq!(s.bytes_sent, 3 + 4 + 1 + 2 + 4 + 9);
}

#[test]
fn latency_ranges_count_every_sample() {
    let mut s = TestStats::new();
    let samples = [0u64, 3, 30, 75, 300, 750, 3000, 9000, 1];
    for l in samples {
        s.record_latency(l);
    }
    let x = s.summary().unwrap();
    assert_eq!(x.latency_samples, samples.len() as u64);
}
