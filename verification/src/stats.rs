//! The counters a load test keeps: connections, messages, frames and bytes,
//! round-trip latency with its distribution, errors, handshakes and the
//! local and remote ports that connections used.

use std::collections::HashMap;
use vstd::prelude::*;
use crate::types::{counted_bytes, FrameInfo};
use crate::ports::{count_on, port_total, total_below};

verus! {

broadcast use vstd::std_specs::hash::group_hash_axioms;

/// Every counter of a load test. The counters wrap around at the top of
/// their range, as atomic additions do.
#[derive(Debug)]
pub struct TestStats {
    // connections
    pub connections_attempted: usize,
    pub connections_successful: usize,
    pub connections_failed: usize,
    pub connections_active: usize,
    pub connections_server_kicked: usize,
    pub connections_unexpected_close: usize,
    pub connections_reconnected: usize,
    // messages
    pub messages_sent: u64,
    pub messages_received: u64,
    pub messages_failed: u64,
    pub messages_timeout: u64,
    // packets
    pub packets_sent: u64,
    pub packets_received: u64,
    pub bytes_sent: u64,
    pub bytes_received: u64,
    // frame types
    pub text_frames_sent: u64,
    pub text_frames_received: u64,
    pub binary_frames_sent: u64,
    pub binary_frames_received: u64,
    pub ping_frames_sent: u64,
    pub ping_frames_received: u64,
    pub pong_frames_sent: u64,
    pub pong_frames_received: u64,
    pub close_frames_sent: u64,
    pub close_frames_received: u64,
    // latency
    pub total_latency_ms: u64,
    pub max_latency_ms: u64,
    pub min_latency_ms: u64,
    // latency distribution
    pub latency_buckets_1ms: u64,
    pub latency_buckets_10ms: u64,
    pub latency_buckets_50ms: u64,
    pub latency_buckets_100ms: u64,
    pub latency_buckets_500ms: u64,
    pub latency_buckets_1s: u64,
    pub latency_buckets_5s: u64,
    pub latency_buckets_over: u64,
    // errors
    pub connection_errors: u64,
    pub send_errors: u64,
    pub receive_errors: u64,
    pub timeout_errors: u64,
    pub protocol_errors: u64,
    // handshakes
    pub handshake_time_total_ms: u64,
    pub handshake_count: u64,
    // ports: port -> number of connections
    pub local_ports: HashMap<u16, u64>,
    pub remote_ports: HashMap<u16, u64>,
}

impl TestStats {
    /// Both hold the same figures: equal counters and port tables with the
    /// same contents.
    pub open spec fn same_figures(self, other: TestStats) -> bool {
        &&& self == (TestStats { local_ports: self.local_ports, remote_ports: self.remote_ports, ..other })
        &&& self.local_ports@ == other.local_ports@
        &&& self.remote_ports@ == other.remote_ports@
    }
}

impl Clone for TestStats {
    /// A snapshot of the statistics.
    fn clone(&self) -> (r: Self)
        ensures
            r.same_figures(*self),
    {
        TestStats {
            local_ports: self.local_ports.clone(),
            remote_ports: self.remote_ports.clone(),
            ..*self
        }
    }
}

/// `x + y` wrapped into `u64`.
pub open spec fn wrap_add(x: u64, y: u64) -> u64 {
    vstd::wrapping::u64_specs::wrapping_add(x, y)
}

/// `x + 1` wrapped into `usize`.
pub open spec fn wrap_inc(x: usize) -> usize {
    vstd::wrapping::usize_specs::wrapping_add(x, 1)
}

/// The port counts after one more connection on `port`.
pub open spec fn port_counted(m: Map<u16, u64>, port: u16) -> Map<u16, u64> {
    m.insert(port, if m.contains_key(port) { (m[port] + 1) as u64 } else { 1 })
}

/// One more connection on `port` does not overflow its count.
pub open spec fn port_has_room(m: Map<u16, u64>, port: u16) -> bool {
    m.contains_key(port) ==> m[port] < u64::MAX
}

/// Adds one connection on `port` to a port table.
fn count_port(ports: &mut HashMap<u16, u64>, port: u16)
    requires
        port_has_room(old(ports)@, port),
    ensures
        final(ports)@ == port_counted(old(ports)@, port),
{
    let n: u64 = match ports.get(&port) {
        Some(c) => *c + 1,
        None => 1,
    };
    ports.insert(port, n);
}

/// The whole-number figures of a statistics report.
pub struct StatsSummary {
    /// mean latency over the probes received, 0 before the first
    pub avg_latency_ms: u64,
    /// mean handshake duration, 0 before the first
    pub avg_handshake_ms: u64,
    /// the least latency seen, 0 before the first sample
    pub min_latency_ms: u64,
    /// the greatest latency seen
    pub max_latency_ms: u64,
    /// samples over all ranges of the distribution
    pub latency_samples: u64,
    /// errors of all kinds
    pub total_errors: u64,
    /// server kicks and unexpected closes together
    pub total_disconnects: usize,
}

/// `n / d`, or 0 when `d` is 0.
pub open spec fn mean_or_zero(n: u64, d: u64) -> u64 {
    if d > 0 {
        (n / d) as u64
    } else {
        0
    }
}

/// The sum of a sequence of counters.
pub open spec fn seq_sum(s: Seq<u64>) -> int
    decreases s.len(),
{
    if s.len() == 0 {
        0
    } else {
        seq_sum(s.drop_last()) + s.last()
    }
}

/// Partial sums of counters only grow.
proof fn lemma_seq_sum_prefix(s: Seq<u64>, i: int)
    requires
        0 <= i <= s.len(),
    ensures
        seq_sum(s.take(i)) <= seq_sum(s),
    decreases s.len() - i,
{
    if i < s.len() {
        lemma_seq_sum_prefix(s, i + 1);
        assert(s.take(i + 1).drop_last() =~= s.take(i));
    } else {
        assert(s.take(i) =~= s);
    }
}

/// Adds up counters; `None` when the sum does not fit a `u64`.
fn checked_sum(xs: &[u64]) -> (r: Option<u64>)
    ensures
        r is None <==> seq_sum(xs@) > u64::MAX,
        r matches Some(t) ==> t == seq_sum(xs@),
{
    let mut t: u64 = 0;
    let mut i: usize = 0;
    while i < xs.len()
        invariant
            i <= xs@.len(),
            t == seq_sum(xs@.take(i as int)),
        decreases xs@.len() - i,
    {
        assert(xs@.take(i + 1).drop_last() =~= xs@.take(i as int));
        match t.checked_add(xs[i]) {
            Some(n) => t = n,
            None => {
                proof {
                    lemma_seq_sum_prefix(xs@, i + 1);
                }
                return None;
            },
        }
        i = i + 1;
    }
    assert(xs@.take(i as int) =~= xs@);
    Some(t)
}

/// The ranges of the latency distribution, in milliseconds.
#[derive(Debug, Clone, Copy, PartialEq, Eq, Structural)]
pub enum LatencyBucket {
    /// 0 to 1 ms
    UpTo1ms,
    /// over 1, up to 10 ms
    UpTo10ms,
    /// over 10, up to 50 ms
    UpTo50ms,
    /// over 50, up to 100 ms
    UpTo100ms,
    /// over 100, up to 500 ms
    UpTo500ms,
    /// over 500, up to 1000 ms
    UpTo1s,
    /// over 1 s, up to 5 s
    UpTo5s,
    /// over 5 s
    Over5s,
}

/// The range that a latency of `ms` milliseconds falls in.
pub open spec fn bucket_of(ms: u64) -> LatencyBucket {
    if ms <= 1 {
        LatencyBucket::UpTo1ms
    } else if ms <= 10 {
        LatencyBucket::UpTo10ms
    } else if ms <= 50 {
        LatencyBucket::UpTo50ms
    } else if ms <= 100 {
        LatencyBucket::UpTo100ms
    } else if ms <= 500 {
        LatencyBucket::UpTo500ms
    } else if ms <= 1000 {
        LatencyBucket::UpTo1s
    } else if ms <= 5000 {
        LatencyBucket::UpTo5s
    } else {
        LatencyBucket::Over5s
    }
}

/// The inclusive upper end of a range, `None` for the last one.
pub open spec fn bucket_upper(b: LatencyBucket) -> Option<u64> {
    match b {
        LatencyBucket::UpTo1ms => Some(1),
        LatencyBucket::UpTo10ms => Some(10),
        LatencyBucket::UpTo50ms => Some(50),
        LatencyBucket::UpTo100ms => Some(100),
        LatencyBucket::UpTo500ms => Some(500),
        LatencyBucket::UpTo1s => Some(1000),
        LatencyBucket::UpTo5s => Some(5000),
        LatencyBucket::Over5s => None,
    }
}

/// The exclusive lower end of a range, `None` for the first one.
pub open spec fn bucket_lower(b: LatencyBucket) -> Option<u64> {
    match b {
        LatencyBucket::UpTo1ms => None,
        LatencyBucket::UpTo10ms => Some(1),
        LatencyBucket::UpTo50ms => Some(10),
        LatencyBucket::UpTo100ms => Some(50),
        LatencyBucket::UpTo500ms => Some(100),
        LatencyBucket::UpTo1s => Some(500),
        LatencyBucket::UpTo5s => Some(1000),
        LatencyBucket::Over5s => Some(5000),
    }
}

/// Classifies a latency into its range of the distribution.
pub fn latency_bucket(ms: u64) -> (b: LatencyBucket)
    ensures
        b == bucket_of(ms),
{
    if ms <= 1 {
        LatencyBucket::UpTo1ms
    } else if ms <= 10 {
        LatencyBucket::UpTo10ms
    } else if ms <= 50 {
        LatencyBucket::UpTo50ms
    } else if ms <= 100 {
        LatencyBucket::UpTo100ms
    } else if ms <= 500 {
        LatencyBucket::UpTo500ms
    } else if ms <= 1000 {
        LatencyBucket::UpTo1s
    } else if ms <= 5000 {
        LatencyBucket::UpTo5s
    } else {
        LatencyBucket::Over5s
    }
}

/// Each latency lands in exactly the range whose ends enclose it: above
/// the lower end (where there is one) and at most the upper end (where
/// there is one).
pub proof fn law_bucket_bounds(ms: u64, b: LatencyBucket)
    ensures
        (bucket_of(ms) == b) <==> ((bucket_lower(b) matches Some(lo) ==> lo < ms) && (bucket_upper(
            b,
        ) matches Some(hi) ==> ms <= hi)),
{
}

impl TestStats {
    /// All counters at zero, the minimum latency at its "none yet" value
    /// `u64::MAX`, and no port seen.
    pub open spec fn is_fresh(self) -> bool {
        &&& self.connections_attempted == 0
        &&& self.connections_successful == 0
        &&& self.connections_failed == 0
        &&& self.connections_active == 0
        &&& self.connections_server_kicked == 0
        &&& self.connections_unexpected_close == 0
        &&& self.connections_reconnected == 0
        &&& self.messages_sent == 0
        &&& self.messages_received == 0
        &&& self.messages_failed == 0
        &&& self.messages_timeout == 0
        &&& self.packets_sent == 0
        &&& self.packets_received == 0
        &&& self.bytes_sent == 0
        &&& self.bytes_received == 0
        &&& self.text_frames_sent == 0
        &&& self.text_frames_received == 0
        &&& self.binary_frames_sent == 0
        &&& self.binary_frames_received == 0
        &&& self.ping_frames_sent == 0
        &&& self.ping_frames_received == 0
        &&& self.pong_frames_sent == 0
        &&& self.pong_frames_received == 0
        &&& self.close_frames_sent == 0
        &&& self.close_frames_received == 0
        &&& self.total_latency_ms == 0
        &&& self.max_latency_ms == 0
        &&& self.min_latency_ms == u64::MAX
        &&& self.latency_buckets_1ms == 0
        &&& self.latency_buckets_10ms == 0
        &&& self.latency_buckets_50ms == 0
        &&& self.latency_buckets_100ms == 0
        &&& self.latency_buckets_500ms == 0
        &&& self.latency_buckets_1s == 0
        &&& self.latency_buckets_5s == 0
        &&& self.latency_buckets_over == 0
        &&& self.connection_errors == 0
        &&& self.send_errors == 0
        &&& self.receive_errors == 0
        &&& self.timeout_errors == 0
        &&& self.protocol_errors == 0
        &&& self.handshake_time_total_ms == 0
        &&& self.handshake_count == 0
        &&& self.local_ports@ == Map::<u16, u64>::empty()
        &&& self.remote_ports@ == Map::<u16, u64>::empty()
    }

    /// Statistics of a test that has not started.
    pub fn new() -> (s: TestStats)
        ensures
            s.is_fresh(),
    {
        TestStats {
            connections_attempted: 0,
            connections_successful: 0,
            connections_failed: 0,
            connections_active: 0,
            connections_server_kicked: 0,
            connections_unexpected_close: 0,
            connections_reconnected: 0,
            messages_sent: 0,
            messages_received: 0,
            messages_failed: 0,
            messages_timeout: 0,
            packets_sent: 0,
            packets_received: 0,
            bytes_sent: 0,
            bytes_received: 0,
            text_frames_sent: 0,
            text_frames_received: 0,
            binary_frames_sent: 0,
            binary_frames_received: 0,
            ping_frames_sent: 0,
            ping_frames_received: 0,
            pong_frames_sent: 0,
            pong_frames_received: 0,
            close_frames_sent: 0,
            close_frames_received: 0,
            total_latency_ms: 0,
            max_latency_ms: 0,
            min_latency_ms: u64::MAX,
            latency_buckets_1ms: 0,
            latency_buckets_10ms: 0,
            latency_buckets_50ms: 0,
            latency_buckets_100ms: 0,
            latency_buckets_500ms: 0,
            latency_buckets_1s: 0,
            latency_buckets_5s: 0,
            latency_buckets_over: 0,
            connection_errors: 0,
            send_errors: 0,
            receive_errors: 0,
            timeout_errors: 0,
            protocol_errors: 0,
            handshake_time_total_ms: 0,
            handshake_count: 0,
            local_ports: HashMap::new(),
            remote_ports: HashMap::new(),
        }
    }

    /// The statistics after one frame was sent: one more packet, the frame's
    /// bytes, and one more frame of its kind (a raw frame has no kind counter).
    pub open spec fn with_frame_sent(self, f: FrameInfo) -> TestStats {
        TestStats {
            packets_sent: wrap_add(self.packets_sent, 1),
            bytes_sent: wrap_add(self.bytes_sent, counted_bytes(f)),
            text_frames_sent: if f is Text { wrap_add(self.text_frames_sent, 1) } else { self.text_frames_sent },
            binary_frames_sent: if f is Binary { wrap_add(self.binary_frames_sent, 1) } else { self.binary_frames_sent },
            ping_frames_sent: if f is Ping { wrap_add(self.ping_frames_sent, 1) } else { self.ping_frames_sent },
            pong_frames_sent: if f is Pong { wrap_add(self.pong_frames_sent, 1) } else { self.pong_frames_sent },
            close_frames_sent: if f is Close { wrap_add(self.close_frames_sent, 1) } else { self.close_frames_sent },
            ..self
        }
    }

    /// The statistics after one frame was received, counted as a sent one is.
    pub open spec fn with_frame_received(self, f: FrameInfo) -> TestStats {
        TestStats {
            packets_received: wrap_add(self.packets_received, 1),
            bytes_received: wrap_add(self.bytes_received, counted_bytes(f)),
            text_frames_received: if f is Text { wrap_add(self.text_frames_received, 1) } else { self.text_frames_received },
            binary_frames_received: if f is Binary { wrap_add(self.binary_frames_received, 1) } else { self.binary_frames_received },
            ping_frames_received: if f is Ping { wrap_add(self.ping_frames_received, 1) } else { self.ping_frames_received },
            pong_frames_received: if f is Pong { wrap_add(self.pong_frames_received, 1) } else { self.pong_frames_received },
            close_frames_received: if f is Close { wrap_add(self.close_frames_received, 1) } else { self.close_frames_received },
            ..self
        }
    }

    /// Counts a frame that was sent.
    pub fn record_message_sent(&mut self, frame: &FrameInfo)
        ensures
            *final(self) == old(self).with_frame_sent(*frame),
    {
        self.packets_sent = self.packets_sent.wrapping_add(1);
        match *frame {
            FrameInfo::Text { bytes } => {
                self.text_frames_sent = self.text_frames_sent.wrapping_add(1);
                self.bytes_sent = self.bytes_sent.wrapping_add(bytes);
            },
            FrameInfo::Binary { bytes } => {
                self.binary_frames_sent = self.binary_frames_sent.wrapping_add(1);
                self.bytes_sent = self.bytes_sent.wrapping_add(bytes);
            },
            FrameInfo::Ping { bytes } => {
                self.ping_frames_sent = self.ping_frames_sent.wrapping_add(1);
                self.bytes_sent = self.bytes_sent.wrapping_add(bytes);
            },
            FrameInfo::Pong { bytes } => {
                self.pong_frames_sent = self.pong_frames_sent.wrapping_add(1);
                self.bytes_sent = self.bytes_sent.wrapping_add(bytes);
            },
            FrameInfo::Close { .. } => {
                self.close_frames_sent = self.close_frames_sent.wrapping_add(1);
                self.bytes_sent = self.bytes_sent.wrapping_add(2);
            },
            FrameInfo::Raw => {
                self.bytes_sent = self.bytes_sent.wrapping_add(4);
            },
        }
    }

    /// Counts a frame that was received.
    pub fn record_message_received(&mut self, frame: &FrameInfo)
        ensures
            *final(self) == old(self).with_frame_received(*frame),
    {
        self.packets_received = self.packets_received.wrapping_add(1);
        match *frame {
            FrameInfo::Text { bytes } => {
                self.text_frames_received = self.text_frames_received.wrapping_add(1);
                self.bytes_received = self.bytes_received.wrapping_add(bytes);
            },
            FrameInfo::Binary { bytes } => {
                self.binary_frames_received = self.binary_frames_received.wrapping_add(1);
                self.bytes_received = self.bytes_received.wrapping_add(bytes);
            },
            FrameInfo::Ping { bytes } => {
                self.ping_frames_received = self.ping_frames_received.wrapping_add(1);
                self.bytes_received = self.bytes_received.wrapping_add(bytes);
            },
            FrameInfo::Pong { bytes } => {
                self.pong_frames_received = self.pong_frames_received.wrapping_add(1);
                self.bytes_received = self.bytes_received.wrapping_add(bytes);
            },
            FrameInfo::Close { .. } => {
                self.close_frames_received = self.close_frames_received.wrapping_add(1);
                self.bytes_received = self.bytes_received.wrapping_add(2);
            },
            FrameInfo::Raw => {
                self.bytes_received = self.bytes_received.wrapping_add(4);
            },
        }
    }

    /// Records the local and the remote port of an established connection.
    /// A count that is already at `u64::MAX` cannot take one more.
    pub fn record_connection_ports(&mut self, local_port: u16, remote_port: u16)
        requires
            port_has_room(old(self).local_ports@, local_port),
            port_has_room(old(self).remote_ports@, remote_port),
        ensures
            final(self).local_ports@ == port_counted(old(self).local_ports@, local_port),
            final(self).remote_ports@ == port_counted(old(self).remote_ports@, remote_port),
            *final(self) == (TestStats {
                local_ports: final(self).local_ports,
                remote_ports: final(self).remote_ports,
                ..*old(self)
            }),
    {
        count_port(&mut self.local_ports, local_port);
        count_port(&mut self.remote_ports, remote_port);
    }

    /// Whether one more connection can be counted on these ports.
    pub fn ports_have_room(&self, local_port: u16, remote_port: u16) -> (r: bool)
        ensures
            r == (port_has_room(self.local_ports@, local_port) && port_has_room(
                self.remote_ports@,
                remote_port,
            )),
    {
        let l = match self.local_ports.get(&local_port) {
            Some(c) => *c < u64::MAX,
            None => true,
        };
        let r = match self.remote_ports.get(&remote_port) {
            Some(c) => *c < u64::MAX,
            None => true,
        };
        l && r
    }

    /// Records the duration of one completed opening handshake.
    pub fn record_handshake_time(&mut self, duration_ms: u64)
        ensures
            *final(self) == (TestStats {
                handshake_count: wrap_add(old(self).handshake_count, 1),
                handshake_time_total_ms: wrap_add(old(self).handshake_time_total_ms, duration_ms),
                ..*old(self)
            }),
    {
        self.handshake_count = self.handshake_count.wrapping_add(1);
        self.handshake_time_total_ms = self.handshake_time_total_ms.wrapping_add(duration_ms);
    }

    /// Samples over all ranges of the latency distribution.
    pub open spec fn bucket_sum(self) -> int {
        self.latency_buckets_1ms + self.latency_buckets_10ms + self.latency_buckets_50ms
            + self.latency_buckets_100ms + self.latency_buckets_500ms + self.latency_buckets_1s
            + self.latency_buckets_5s + self.latency_buckets_over
    }

    /// Errors of all kinds.
    pub open spec fn error_sum(self) -> int {
        self.connection_errors + self.send_errors + self.receive_errors + self.timeout_errors
            + self.protocol_errors
    }

    /// Server kicks and unexpected closes together.
    pub open spec fn disconnect_sum(self) -> int {
        self.connections_server_kicked + self.connections_unexpected_close
    }

    /// The whole-number figures of the report. `None` when one of the sums
    /// (latency samples, errors, disconnects) does not fit its type.
    pub fn summary(&self) -> (r: Option<StatsSummary>)
        ensures
            r is None <==> (self.bucket_sum() > u64::MAX || self.error_sum() > u64::MAX
                || self.disconnect_sum() > usize::MAX),
            r matches Some(x) ==> {
                &&& x.avg_latency_ms == mean_or_zero(self.total_latency_ms, self.messages_received)
                &&& x.avg_handshake_ms == mean_or_zero(self.handshake_time_total_ms, self.handshake_count)
                &&& x.min_latency_ms == if self.min_latency_ms == u64::MAX { 0 } else { self.min_latency_ms }
                &&& x.max_latency_ms == self.max_latency_ms
                &&& x.latency_samples == self.bucket_sum()
                &&& x.total_errors == self.error_sum()
                &&& x.total_disconnects == self.disconnect_sum()
            },
    {
        let avg_latency_ms = if self.messages_received > 0 {
            self.total_latency_ms / self.messages_received
        } else {
            0
        };
        let avg_handshake_ms = if self.handshake_count > 0 {
            self.handshake_time_total_ms / self.handshake_count
        } else {
            0
        };
        let min_latency_ms = if self.min_latency_ms == u64::MAX {
            0
        } else {
            self.min_latency_ms
        };
        let buckets: [u64; 8] = [
            self.latency_buckets_1ms,
            self.latency_buckets_10ms,
            self.latency_buckets_50ms,
            self.latency_buckets_100ms,
            self.latency_buckets_500ms,
            self.latency_buckets_1s,
            self.latency_buckets_5s,
            self.latency_buckets_over,
        ];
        let latency_samples = checked_sum(&buckets);
        let errors: [u64; 5] = [
            self.connection_errors,
            self.send_errors,
            self.receive_errors,
            self.timeout_errors,
            self.protocol_errors,
        ];
        let total_errors = checked_sum(&errors);
        let total_disconnects = self.connections_server_kicked.checked_add(
            self.connections_unexpected_close,
        );
        proof {
            reveal_with_fuel(seq_sum, 9);
        }
        match (latency_samples, total_errors, total_disconnects) {
            (Some(latency_samples), Some(total_errors), Some(total_disconnects)) => Some(
                StatsSummary {
                    avg_latency_ms,
                    avg_handshake_ms,
                    min_latency_ms,
                    max_latency_ms: self.max_latency_ms,
                    latency_samples,
                    total_errors,
                    total_disconnects,
                },
            ),
            _ => None,
        }
    }

    /// The count of the range `b` of the latency distribution.
    pub open spec fn bucket_count(self, b: LatencyBucket) -> u64 {
        match b {
            LatencyBucket::UpTo1ms => self.latency_buckets_1ms,
            LatencyBucket::UpTo10ms => self.latency_buckets_10ms,
            LatencyBucket::UpTo50ms => self.latency_buckets_50ms,
            LatencyBucket::UpTo100ms => self.latency_buckets_100ms,
            LatencyBucket::UpTo500ms => self.latency_buckets_500ms,
            LatencyBucket::UpTo1s => self.latency_buckets_1s,
            LatencyBucket::UpTo5s => self.latency_buckets_5s,
            LatencyBucket::Over5s => self.latency_buckets_over,
        }
    }

    /// The statistics after one latency sample of `ms` milliseconds: added
    /// to the total, counted in its range, and taken into the maximum and
    /// the minimum.
    pub open spec fn with_latency(self, ms: u64) -> TestStats {
        let b = bucket_of(ms);
        TestStats {
            total_latency_ms: wrap_add(self.total_latency_ms, ms),
            latency_buckets_1ms: if b == LatencyBucket::UpTo1ms { wrap_add(self.latency_buckets_1ms, 1) } else { self.latency_buckets_1ms },
            latency_buckets_10ms: if b == LatencyBucket::UpTo10ms { wrap_add(self.latency_buckets_10ms, 1) } else { self.latency_buckets_10ms },
            latency_buckets_50ms: if b == LatencyBucket::UpTo50ms { wrap_add(self.latency_buckets_50ms, 1) } else { self.latency_buckets_50ms },
            latency_buckets_100ms: if b == LatencyBucket::UpTo100ms { wrap_add(self.latency_buckets_100ms, 1) } else { self.latency_buckets_100ms },
            latency_buckets_500ms: if b == LatencyBucket::UpTo500ms { wrap_add(self.latency_buckets_500ms, 1) } else { self.latency_buckets_500ms },
            latency_buckets_1s: if b == LatencyBucket::UpTo1s { wrap_add(self.latency_buckets_1s, 1) } else { self.latency_buckets_1s },
            latency_buckets_5s: if b == LatencyBucket::UpTo5s { wrap_add(self.latency_buckets_5s, 1) } else { self.latency_buckets_5s },
            latency_buckets_over: if b == LatencyBucket::Over5s { wrap_add(self.latency_buckets_over, 1) } else { self.latency_buckets_over },
            max_latency_ms: if ms > self.max_latency_ms { ms } else { self.max_latency_ms },
            min_latency_ms: if ms < self.min_latency_ms { ms } else { self.min_latency_ms },
            ..self
        }
    }

    /// Records one round-trip latency sample.
    pub fn record_latency(&mut self, latency_ms: u64)
        ensures
            *final(self) == old(self).with_latency(latency_ms),
    {
        self.total_latency_ms = self.total_latency_ms.wrapping_add(latency_ms);
        match latency_bucket(latency_ms) {
            LatencyBucket::UpTo1ms => self.latency_buckets_1ms = self.latency_buckets_1ms.wrapping_add(1),
            LatencyBucket::UpTo10ms => self.latency_buckets_10ms = self.latency_buckets_10ms.wrapping_add(1),
            LatencyBucket::UpTo50ms => self.latency_buckets_50ms = self.latency_buckets_50ms.wrapping_add(1),
            LatencyBucket::UpTo100ms => self.latency_buckets_100ms = self.latency_buckets_100ms.wrapping_add(1),
            LatencyBucket::UpTo500ms => self.latency_buckets_500ms = self.latency_buckets_500ms.wrapping_add(1),
            LatencyBucket::UpTo1s => self.latency_buckets_1s = self.latency_buckets_1s.wrapping_add(1),
            LatencyBucket::UpTo5s => self.latency_buckets_5s = self.latency_buckets_5s.wrapping_add(1),
            LatencyBucket::Over5s => self.latency_buckets_over = self.latency_buckets_over.wrapping_add(1),
        }
        if latency_ms > self.max_latency_ms {
            self.max_latency_ms = latency_ms;
        }
        if latency_ms < self.min_latency_ms {
            self.min_latency_ms = latency_ms;
        }
    }
}

/// The range of the 64-bit counters.
pub open spec fn counter_range() -> int {
    0x1_0000_0000_0000_0000
}

/// How many of the latencies `ls` fall in range `b`.
pub open spec fn count_in_bucket(ls: Seq<u64>, b: LatencyBucket) -> nat
    decreases ls.len(),
{
    if ls.len() == 0 {
        0
    } else {
        count_in_bucket(ls.drop_last(), b) + if bucket_of(ls.last()) == b {
            1nat
        } else {
            0nat
        }
    }
}

/// The sum of the latencies `ls`.
pub open spec fn latency_sum(ls: Seq<u64>) -> int
    decreases ls.len(),
{
    if ls.len() == 0 {
        0
    } else {
        latency_sum(ls.drop_last()) + ls.last()
    }
}

impl TestStats {
    /// The statistics after the latency samples `ls`, in order.
    pub open spec fn with_latencies(self, ls: Seq<u64>) -> TestStats
        decreases ls.len(),
    {
        if ls.len() == 0 {
            self
        } else {
            self.with_latencies(ls.drop_last()).with_latency(ls.last())
        }
    }
}

/// A wrapping addition is the sum reduced modulo the counter range.
proof fn lemma_wrap_add(x: u64, y: u64)
    ensures
        wrap_add(x, y) as int == (x + y) % counter_range(),
{
    if x + y > u64::MAX {
        vstd::arithmetic::div_mod::lemma_mod_add_multiples_vanish((x + y - counter_range()) as int, counter_range());
        vstd::arithmetic::div_mod::lemma_small_mod((x + y - counter_range()) as nat, counter_range() as nat);
    } else {
        vstd::arithmetic::div_mod::lemma_small_mod((x + y) as nat, counter_range() as nat);
    }
}

/// A wrapping addition is the sum reduced modulo the counter range.
pub proof fn lemma_wrap_add_pub(x: u64, y: u64)
    ensures
        wrap_add(x, y) as int == (x + y) % counter_range(),
{
    lemma_wrap_add(x, y);
}

/// Adding to a counter that holds `(a + b) mod R` gives `(a + b + c) mod R`.
proof fn lemma_wrap_accumulate(x: u64, a: int, b: int, c: u64)
    requires
        x as int == (a + b) % counter_range(),
    ensures
        wrap_add(x, c) as int == (a + (b + c)) % counter_range(),
{
    lemma_wrap_add(x, c);
    vstd::arithmetic::div_mod::lemma_add_mod_noop(a + b, c as int, counter_range());
    vstd::arithmetic::div_mod::lemma_mod_twice(a + b, counter_range());
    vstd::arithmetic::div_mod::lemma_small_mod(c as nat, counter_range() as nat);
    assert((a + b) + c == a + (b + c));
}

/// After any sequence of latency samples, the maximum is the greatest of
/// the earlier maximum and the samples, and the minimum is the least of the
/// earlier minimum and the samples; nothing but the latency figures changes.
pub proof fn law_latency_extremes(s: TestStats, ls: Seq<u64>)
    ensures
        s.with_latencies(ls).max_latency_ms >= s.max_latency_ms,
        forall|i: int| 0 <= i < ls.len() ==> s.with_latencies(ls).max_latency_ms >= #[trigger] ls[i],
        s.with_latencies(ls).max_latency_ms == s.max_latency_ms || exists|i: int|
            0 <= i < ls.len() && s.with_latencies(ls).max_latency_ms == #[trigger] ls[i],
        s.with_latencies(ls).min_latency_ms <= s.min_latency_ms,
        forall|i: int| 0 <= i < ls.len() ==> s.with_latencies(ls).min_latency_ms <= #[trigger] ls[i],
        s.with_latencies(ls).min_latency_ms == s.min_latency_ms || exists|i: int|
            0 <= i < ls.len() && s.with_latencies(ls).min_latency_ms == #[trigger] ls[i],
    decreases ls.len(),
{
    if ls.len() > 0 {
        let prefix = ls.drop_last();
        law_latency_extremes(s, prefix);
        let t = s.with_latencies(prefix);
        let u = s.with_latencies(ls);
        assert(u == t.with_latency(ls.last()));
        assert forall|i: int| 0 <= i < ls.len() implies u.max_latency_ms >= #[trigger] ls[i] && u.min_latency_ms <= ls[i] by {
            if i < ls.len() - 1 {
                assert(ls[i] == prefix[i]);
            }
        }
        if u.max_latency_ms != s.max_latency_ms {
            if u.max_latency_ms != ls.last() {
                let w = choose|w: int| 0 <= w < prefix.len() && t.max_latency_ms == #[trigger] prefix[w];
                assert(ls[w] == prefix[w]);
            } else {
                assert(ls[ls.len() - 1] == ls.last());
            }
        }
        if u.min_latency_ms != s.min_latency_ms {
            if u.min_latency_ms != ls.last() {
                let w = choose|w: int| 0 <= w < prefix.len() && t.min_latency_ms == #[trigger] prefix[w];
                assert(ls[w] == prefix[w]);
            } else {
                assert(ls[ls.len() - 1] == ls.last());
            }
        }
    }
}

/// After any sequence of latency samples, each range of the distribution
/// has counted exactly the samples that fall in it and the total has
/// added every sample (both modulo the counter range), and no figure but
/// the latency ones has changed.
pub proof fn law_latency_counts(s: TestStats, ls: Seq<u64>)
    ensures
        forall|b: LatencyBucket| #[trigger] s.with_latencies(ls).bucket_count(b) as int
            == (s.bucket_count(b) + count_in_bucket(ls, b)) % counter_range(),
        s.with_latencies(ls).total_latency_ms as int == (s.total_latency_ms + latency_sum(ls)) % counter_range(),
        s.with_latencies(ls) == (TestStats {
            total_latency_ms: s.with_latencies(ls).total_latency_ms,
            max_latency_ms: s.with_latencies(ls).max_latency_ms,
            min_latency_ms: s.with_latencies(ls).min_latency_ms,
            latency_buckets_1ms: s.with_latencies(ls).latency_buckets_1ms,
            latency_buckets_10ms: s.with_latencies(ls).latency_buckets_10ms,
            latency_buckets_50ms: s.with_latencies(ls).latency_buckets_50ms,
            latency_buckets_100ms: s.with_latencies(ls).latency_buckets_100ms,
            latency_buckets_500ms: s.with_latencies(ls).latency_buckets_500ms,
            latency_buckets_1s: s.with_latencies(ls).latency_buckets_1s,
            latency_buckets_5s: s.with_latencies(ls).latency_buckets_5s,
            latency_buckets_over: s.with_latencies(ls).latency_buckets_over,
            ..s
        }),
    decreases ls.len(),
{
    if ls.len() == 0 {
        assert forall|b: LatencyBucket| #[trigger] s.with_latencies(ls).bucket_count(b) as int
            == (s.bucket_count(b) + count_in_bucket(ls, b)) % counter_range() by {
            vstd::arithmetic::div_mod::lemma_small_mod(s.bucket_count(b) as nat, counter_range() as nat);
        }
        vstd::arithmetic::div_mod::lemma_small_mod(s.total_latency_ms as nat, counter_range() as nat);
    } else {
        let prefix = ls.drop_last();
        law_latency_counts(s, prefix);
        let t = s.with_latencies(prefix);
        let l = ls.last();
        assert forall|b: LatencyBucket| #[trigger] s.with_latencies(ls).bucket_count(b) as int
            == (s.bucket_count(b) + count_in_bucket(ls, b)) % counter_range() by {
            assert(t.bucket_count(b) as int == (s.bucket_count(b) + count_in_bucket(prefix, b)) % counter_range());
            if bucket_of(l) == b {
                lemma_wrap_accumulate(t.bucket_count(b), s.bucket_count(b) as int, count_in_bucket(prefix, b) as int, 1);
            }
        }
        lemma_wrap_accumulate(t.total_latency_ms, s.total_latency_ms as int, latency_sum(prefix), l);
    }
}

/// The port counts after connections on the ports `ps`, in order.
pub open spec fn ports_counted(m: Map<u16, u64>, ps: Seq<u16>) -> Map<u16, u64>
    decreases ps.len(),
{
    if ps.len() == 0 {
        m
    } else {
        port_counted(ports_counted(m, ps.drop_last()), ps.last())
    }
}

/// How many times `p` occurs in `ps`.
pub open spec fn occurrences(ps: Seq<u16>, p: u16) -> nat
    decreases ps.len(),
{
    if ps.len() == 0 {
        0
    } else {
        occurrences(ps.drop_last(), p) + if ps.last() == p {
            1nat
        } else {
            0nat
        }
    }
}

/// Starting from an empty table, counting the connections on the ports
/// `ps` gives a table that holds exactly the ports that occur in `ps`, each
/// with the number of its occurrences (the counts cannot overflow while
/// fewer than `u64::MAX` connections are counted).
pub proof fn law_port_counts(ps: Seq<u16>)
    requires
        ps.len() < u64::MAX,
    ensures
        forall|p: u16| #[trigger] ports_counted(Map::empty(), ps).contains_key(p) <==> occurrences(ps, p) > 0,
        forall|p: u16| #[trigger] ports_counted(Map::empty(), ps).contains_key(p)
            ==> ports_counted(Map::empty(), ps)[p] == occurrences(ps, p),
        forall|p: u16| occurrences(ps, p) <= ps.len(),
    decreases ps.len(),
{
    let m = ports_counted(Map::empty(), ps);
    if ps.len() > 0 {
        let prefix = ps.drop_last();
        law_port_counts(prefix);
        let m0 = ports_counted(Map::empty(), prefix);
        let q = ps.last();
        assert(m == port_counted(m0, q));
        assert forall|p: u16| occurrences(ps, p) <= ps.len() by {
            assert(occurrences(prefix, p) <= prefix.len());
        }
        assert forall|p: u16| #[trigger] m.contains_key(p) <==> occurrences(ps, p) > 0 by {
            assert(m0.contains_key(p) <==> occurrences(prefix, p) > 0);
        }
        assert forall|p: u16| #[trigger] m.contains_key(p) implies m[p] == occurrences(ps, p) by {
            assert(m0.contains_key(p) <==> occurrences(prefix, p) > 0);
            assert(occurrences(prefix, p) <= prefix.len());
            if m0.contains_key(p) {
                assert(m0[p] == occurrences(prefix, p));
            }
        }
    } else {
        assert forall|p: u16| #[trigger] m.contains_key(p) <==> occurrences(ps, p) > 0 by {
            assert(m == Map::<u16, u64>::empty());
        }
    }
}

/// Setting the count of port `q` to `v` changes the partial total below
/// `k` by the difference, when `q` is below `k`.
proof fn lemma_total_after_set(m: Map<u16, u64>, q: u16, v: u64, k: int)
    requires
        0 <= k <= 0x1_0000,
    ensures
        total_below(m.insert(q, v), k) == total_below(m, k) + if (q as int) < k {
            v - count_on(m, q as int)
        } else {
            0
        },
    decreases k,
{
    if k > 0 {
        lemma_total_after_set(m, q, v, k - 1);
        let p = k - 1;
        if p != q as int {
            assert(count_on(m.insert(q, v), p) == count_on(m, p));
        }
    }
}

/// Starting from an empty table, the counts of all ports add up to the
/// number of connections recorded (fewer than `u64::MAX` of them).
pub proof fn law_port_counts_total(ps: Seq<u16>)
    requires
        ps.len() < u64::MAX,
    ensures
        port_total(ports_counted(Map::empty(), ps)) == ps.len(),
    decreases ps.len(),
{
    let m = ports_counted(Map::empty(), ps);
    if ps.len() == 0 {
        assert forall|k: int| 0 <= k <= 0x1_0000 implies total_below(m, k) == 0 by {
            lemma_total_empty(m, k);
        }
    } else {
        let prefix = ps.drop_last();
        law_port_counts_total(prefix);
        law_port_counts(prefix);
        let m0 = ports_counted(Map::empty(), prefix);
        let q = ps.last();
        let v: u64 = if m0.contains_key(q) { (m0[q] + 1) as u64 } else { 1 };
        assert(m == m0.insert(q, v));
        lemma_total_after_set(m0, q, v, 0x1_0000);
        if m0.contains_key(q) {
            assert(m0[q] == occurrences(prefix, q));
            assert(occurrences(prefix, q) <= prefix.len());
        }
    }
}

/// An empty table has no connections below any port.
proof fn lemma_total_empty(m: Map<u16, u64>, k: int)
    requires
        m == Map::<u16, u64>::empty(),
    ensures
        total_below(m, k) == 0,
    decreases k,
{
    if k > 0 {
        lemma_total_empty(m, k - 1);
    }
}

/// Raw frames among `fs`.
pub open spec fn raw_frames_in(fs: Seq<FrameInfo>) -> nat
    decreases fs.len(),
{
    if fs.len() == 0 {
        0
    } else {
        raw_frames_in(fs.drop_last()) + if fs.last() is Raw {
            1nat
        } else {
            0nat
        }
    }
}

/// The sum of the bytes that the frames `fs` count for.
pub open spec fn counted_bytes_in(fs: Seq<FrameInfo>) -> int
    decreases fs.len(),
{
    if fs.len() == 0 {
        0
    } else {
        counted_bytes_in(fs.drop_last()) + counted_bytes(fs.last())
    }
}

impl TestStats {
    /// The statistics after the frames `fs` were sent, in order.
    pub open spec fn with_frames_sent(self, fs: Seq<FrameInfo>) -> TestStats
        decreases fs.len(),
    {
        if fs.len() == 0 {
            self
        } else {
            self.with_frames_sent(fs.drop_last()).with_frame_sent(fs.last())
        }
    }

    /// The statistics after the frames `fs` were received, in order.
    pub open spec fn with_frames_received(self, fs: Seq<FrameInfo>) -> TestStats
        decreases fs.len(),
    {
        if fs.len() == 0 {
            self
        } else {
            self.with_frames_received(fs.drop_last()).with_frame_received(fs.last())
        }
    }

    /// The sent-frame counters have room for `n` more frames.
    pub open spec fn room_to_send(self, n: nat) -> bool {
        &&& self.packets_sent + n <= u64::MAX
        &&& self.text_frames_sent + n <= u64::MAX
        &&& self.binary_frames_sent + n <= u64::MAX
        &&& self.ping_frames_sent + n <= u64::MAX
        &&& self.pong_frames_sent + n <= u64::MAX
        &&& self.close_frames_sent + n <= u64::MAX
    }

    /// The received-frame counters have room for `n` more frames.
    pub open spec fn room_to_receive(self, n: nat) -> bool {
        &&& self.packets_received + n <= u64::MAX
        &&& self.text_frames_received + n <= u64::MAX
        &&& self.binary_frames_received + n <= u64::MAX
        &&& self.ping_frames_received + n <= u64::MAX
        &&& self.pong_frames_received + n <= u64::MAX
        &&& self.close_frames_received + n <= u64::MAX
    }
}

/// Over any sequence of sent frames, every frame is one packet: the packets
/// grow by the number of frames, which is the growth of the five per-kind
/// counters plus the raw frames; the bytes grow by the frames' counted
/// bytes (modulo the counter range). (No packet or kind counter wraps.)
pub proof fn law_frames_sent(s: TestStats, fs: Seq<FrameInfo>)
    requires
        s.room_to_send(fs.len()),
    ensures
        ({
            let t = s.with_frames_sent(fs);
            &&& t.packets_sent == s.packets_sent + fs.len()
            &&& t.packets_sent - s.packets_sent == (t.text_frames_sent - s.text_frames_sent) + (
            t.binary_frames_sent - s.binary_frames_sent) + (t.ping_frames_sent - s.ping_frames_sent)
                + (t.pong_frames_sent - s.pong_frames_sent) + (t.close_frames_sent
                - s.close_frames_sent) + raw_frames_in(fs)
            &&& t.bytes_sent as int == (s.bytes_sent + counted_bytes_in(fs)) % counter_range()
            &&& s.text_frames_sent <= t.text_frames_sent
            &&& s.binary_frames_sent <= t.binary_frames_sent
            &&& s.ping_frames_sent <= t.ping_frames_sent
            &&& s.pong_frames_sent <= t.pong_frames_sent
            &&& s.close_frames_sent <= t.close_frames_sent
            &&& raw_frames_in(fs) <= fs.len()
        }),
    decreases fs.len(),
{
    if fs.len() == 0 {
        vstd::arithmetic::div_mod::lemma_small_mod(s.bytes_sent as nat, counter_range() as nat);
    } else {
        let prefix = fs.drop_last();
        law_frames_sent(s, prefix);
        let t = s.with_frames_sent(prefix);
        lemma_wrap_accumulate(t.bytes_sent, s.bytes_sent as int, counted_bytes_in(prefix), counted_bytes(fs.last()));
    }
}

/// Over any sequence of received frames, every frame is one packet, as for
/// sent frames. (No packet or kind counter wraps.)
pub proof fn law_frames_received(s: TestStats, fs: Seq<FrameInfo>)
    requires
        s.room_to_receive(fs.len()),
    ensures
        ({
            let t = s.with_frames_received(fs);
            &&& t.packets_received == s.packets_received + fs.len()
            &&& t.packets_received - s.packets_received == (t.text_frames_received
                - s.text_frames_received) + (t.binary_frames_received - s.binary_frames_received) + (
            t.ping_frames_received - s.ping_frames_received) + (t.pong_frames_received
                - s.pong_frames_received) + (t.close_frames_received - s.close_frames_received)
                + raw_frames_in(fs)
            &&& t.bytes_received as int == (s.bytes_received + counted_bytes_in(fs)) % counter_range()
            &&& s.text_frames_received <= t.text_frames_received
            &&& s.binary_frames_received <= t.binary_frames_received
            &&& s.ping_frames_received <= t.ping_frames_received
            &&& s.pong_frames_received <= t.pong_frames_received
            &&& s.close_frames_received <= t.close_frames_received
            &&& raw_frames_in(fs) <= fs.len()
        }),
    decreases fs.len(),
{
    if fs.len() == 0 {
        vstd::arithmetic::div_mod::lemma_small_mod(s.bytes_received as nat, counter_range() as nat);
    } else {
        let prefix = fs.drop_last();
        law_frames_received(s, prefix);
        let t = s.with_frames_received(prefix);
        lemma_wrap_accumulate(
            t.bytes_received,
            s.bytes_received as int,
            counted_bytes_in(prefix),
            counted_bytes(fs.last()),
        );
    }
}

/// Every latency sample is counted in exactly one range: the ranges'
/// counts together grow by the number of samples (no range count wraps).
pub proof fn law_latency_samples_counted(s: TestStats, ls: Seq<u64>)
    requires
        s.bucket_sum() + ls.len() <= u64::MAX,
    ensures
        s.with_latencies(ls).bucket_sum() == s.bucket_sum() + ls.len(),
    decreases ls.len(),
{
    if ls.len() > 0 {
        law_latency_samples_counted(s, ls.drop_last());
    }
}

/// How one frame is counted, sent or received: one more packet; one more
/// frame of its kind (text, binary, ping, pong or close; a raw frame has no
/// kind counter) and no change to the other kinds; and its payload length in
/// bytes, 2 for a close frame and 4 for a raw one, added to the bytes
/// (everything wrapping at the top of its range). Sending touches no
/// received counter and receiving no sent one.
pub proof fn law_frame_counting(s: TestStats, f: FrameInfo)
    ensures
        ({
            let t = s.with_frame_sent(f);
            let bytes: int = match f {
                FrameInfo::Text { bytes } => bytes as int,
                FrameInfo::Binary { bytes } => bytes as int,
                FrameInfo::Ping { bytes } => bytes as int,
                FrameInfo::Pong { bytes } => bytes as int,
                FrameInfo::Close { .. } => 2,
                FrameInfo::Raw => 4,
            };
            &&& t.packets_sent as int == (s.packets_sent + 1) % counter_range()
            &&& t.bytes_sent as int == (s.bytes_sent + bytes) % counter_range()
            &&& t.text_frames_sent as int == (s.text_frames_sent + if f is Text { 1int } else { 0 }) % counter_range()
            &&& t.binary_frames_sent as int == (s.binary_frames_sent + if f is Binary { 1int } else { 0 }) % counter_range()
            &&& t.ping_frames_sent as int == (s.ping_frames_sent + if f is Ping { 1int } else { 0 }) % counter_range()
            &&& t.pong_frames_sent as int == (s.pong_frames_sent + if f is Pong { 1int } else { 0 }) % counter_range()
            &&& t.close_frames_sent as int == (s.close_frames_sent + if f is Close { 1int } else { 0 }) % counter_range()
            &&& t == (TestStats {
                packets_sent: t.packets_sent,
                bytes_sent: t.bytes_sent,
                text_frames_sent: t.text_frames_sent,
                binary_frames_sent: t.binary_frames_sent,
                ping_frames_sent: t.ping_frames_sent,
                pong_frames_sent: t.pong_frames_sent,
                close_frames_sent: t.close_frames_sent,
                ..s
            })
        }),
        ({
            let t = s.with_frame_received(f);
            let bytes: int = match f {
                FrameInfo::Text { bytes } => bytes as int,
                FrameInfo::Binary { bytes } => bytes as int,
                FrameInfo::Ping { bytes } => bytes as int,
                FrameInfo::Pong { bytes } => bytes as int,
                FrameInfo::Close { .. } => 2,
                FrameInfo::Raw => 4,
            };
            &&& t.packets_received as int == (s.packets_received + 1) % counter_range()
            &&& t.bytes_received as int == (s.bytes_received + bytes) % counter_range()
            &&& t.text_frames_received as int == (s.text_frames_received + if f is Text { 1int } else { 0 }) % counter_range()
            &&& t.binary_frames_received as int == (s.binary_frames_received + if f is Binary { 1int } else { 0 }) % counter_range()
            &&& t.ping_frames_received as int == (s.ping_frames_received + if f is Ping { 1int } else { 0 }) % counter_range()
            &&& t.pong_frames_received as int == (s.pong_frames_received + if f is Pong { 1int } else { 0 }) % counter_range()
            &&& t.close_frames_received as int == (s.close_frames_received + if f is Close { 1int } else { 0 }) % counter_range()
            &&& t == (TestStats {
                packets_received: t.packets_received,
                bytes_received: t.bytes_received,
                text_frames_received: t.text_frames_received,
                binary_frames_received: t.binary_frames_received,
                ping_frames_received: t.ping_frames_received,
                pong_frames_received: t.pong_frames_received,
                close_frames_received: t.close_frames_received,
                ..s
            })
        }),
{
    lemma_wrap_add(s.packets_sent, 1);
    lemma_wrap_add(s.bytes_sent, counted_bytes(f));
    lemma_wrap_add(s.text_frames_sent, 1);
    lemma_wrap_add(s.binary_frames_sent, 1);
    lemma_wrap_add(s.ping_frames_sent, 1);
    lemma_wrap_add(s.pong_frames_sent, 1);
    lemma_wrap_add(s.close_frames_sent, 1);
    lemma_wrap_add(s.packets_received, 1);
    lemma_wrap_add(s.bytes_received, counted_bytes(f));
    lemma_wrap_add(s.text_frames_received, 1);
    lemma_wrap_add(s.binary_frames_received, 1);
    lemma_wrap_add(s.ping_frames_received, 1);
    lemma_wrap_add(s.pong_frames_received, 1);
    lemma_wrap_add(s.close_frames_received, 1);
    vstd::arithmetic::div_mod::lemma_small_mod(s.text_frames_sent as nat, counter_range() as nat);
    vstd::arithmetic::div_mod::lemma_small_mod(s.binary_frames_sent as nat, counter_range() as nat);
    vstd::arithmetic::div_mod::lemma_small_mod(s.ping_frames_sent as nat, counter_range() as nat);
    vstd::arithmetic::div_mod::lemma_small_mod(s.pong_frames_sent as nat, counter_range() as nat);
    vstd::arithmetic::div_mod::lemma_small_mod(s.close_frames_sent as nat, counter_range() as nat);
    vstd::arithmetic::div_mod::lemma_small_mod(s.text_frames_received as nat, counter_range() as nat);
    vstd::arithmetic::div_mod::lemma_small_mod(s.binary_frames_received as nat, counter_range() as nat);
    vstd::arithmetic::div_mod::lemma_small_mod(s.ping_frames_received as nat, counter_range() as nat);
    vstd::arithmetic::div_mod::lemma_small_mod(s.pong_frames_received as nat, counter_range() as nat);
    vstd::arithmetic::div_mod::lemma_small_mod(s.close_frames_received as nat, counter_range() as nat);
}

/// On fresh statistics the first latency sample is at once the minimum,
/// the maximum and the total, and is the only sample in its range.
pub proof fn law_first_sample(s: TestStats, ms: u64)
    requires
        s.is_fresh(),
    ensures
        s.with_latency(ms).min_latency_ms == ms,
        s.with_latency(ms).max_latency_ms == ms,
        s.with_latency(ms).total_latency_ms == ms,
        s.with_latency(ms).bucket_count(bucket_of(ms)) == 1,
        s.with_latency(ms).bucket_sum() == 1,
{
}

/// The averages of the report are floor divisions: the mean times the
/// count never exceeds the total, and one more would; with no count the
/// mean is 0.
pub proof fn law_mean(n: u64, d: u64)
    ensures
        d > 0 ==> mean_or_zero(n, d) * d <= n < (mean_or_zero(n, d) + 1) * d,
        d == 0 ==> mean_or_zero(n, d) == 0,
{
    if d > 0 {
        vstd::arithmetic::div_mod::lemma_fundamental_div_mod(n as int, d as int);
        let q = n / d;
        let r = n % d;
        assert(q * d == d * q) by (nonlinear_arith);
        assert((q + 1) * d == q * d + d) by (nonlinear_arith);
    }
}

} // verus!
