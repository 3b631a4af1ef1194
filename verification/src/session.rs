//! The decisions of one client connection. The connection loop alternates
//! network work (connecting, reading, sending, waiting) with decisions on
//! what came back; each decision here takes the outcome of that work,
//! updates the statistics and says what the loop does next.

use vstd::prelude::*;
use crate::stats::{port_counted, port_has_room, wrap_add, wrap_inc, TestStats};
use crate::types::{DisconnectReason, FrameInfo};

verus! {

/// How an attempt to open a connection ended.
#[derive(Debug, Clone, Copy)]
pub enum ConnectOutcome {
    /// The handshake completed after `handshake_ms`; `ports` holds the local
    /// and remote port when both addresses could be read.
    Established { handshake_ms: u64, ports: Option<(u16, u16)> },
    /// The connection or its handshake failed.
    Failed,
    /// No answer within the connection timeout.
    TimedOut,
}

/// What one read from an open connection produced.
#[derive(Debug, Clone, Copy, PartialEq, Eq, Structural)]
pub enum ReadEvent {
    /// A frame arrived. For a text frame that holds one of this client's
    /// probes, `probe_sent_at` is the probe's timestamp and `now_ms` the
    /// time of arrival, both in ms since the epoch.
    Frame { frame: FrameInfo, probe_sent_at: Option<u64>, now_ms: u64 },
    /// The read failed after the server had been silent for this long.
    Error { quiet_secs: u64, quiet_nanos: u32 },
    /// The server closed the stream.
    End,
}

/// What the reading side does after an event.
#[derive(Debug, Clone, Copy, PartialEq, Eq, Structural)]
pub enum ReadStep {
    Continue,
    Finish(DisconnectReason),
}

/// How sending one probe ended.
#[derive(Debug, Clone, Copy, PartialEq, Eq, Structural)]
pub enum SendOutcome {
    Sent,
    Failed,
    TimedOut,
}

/// What the sending side does after a send.
#[derive(Debug, Clone, Copy, PartialEq, Eq, Structural)]
pub enum SendStep {
    /// Send the next probe, numbered `next_id`.
    Continue { next_id: u64 },
    Finish(DisconnectReason),
}

/// What the connection loop does after a session ended.
#[derive(Debug, Clone, Copy, PartialEq, Eq, Structural)]
pub enum AfterSession {
    /// Leave the loop.
    Stop,
    /// Wait the reconnect delay, then connect again.
    Reconnect,
}

/// The close code of a normal closure.
pub const CLOSE_NORMAL: u16 = 1000;

/// The close code of an endpoint going away.
pub const CLOSE_AWAY: u16 = 1001;

/// Why a session ended when the server sent a close frame with this code:
/// no code, a normal closure or "going away" is a graceful close, any other
/// code is the server kicking the client.
pub open spec fn close_reason_spec(code: Option<u16>) -> DisconnectReason {
    match code {
        Some(c) => if c == CLOSE_NORMAL || c == CLOSE_AWAY {
            DisconnectReason::GracefulClose
        } else {
            DisconnectReason::ServerKick
        },
        None => DisconnectReason::GracefulClose,
    }
}

/// Classifies a close frame from the server.
pub fn close_reason(code: Option<u16>) -> (r: DisconnectReason)
    ensures
        r == close_reason_spec(code),
{
    match code {
        Some(c) => if c == CLOSE_NORMAL || c == CLOSE_AWAY {
            DisconnectReason::GracefulClose
        } else {
            DisconnectReason::ServerKick
        },
        None => DisconnectReason::GracefulClose,
    }
}

/// A read failure after more than 30 s of silence counts as a kick.
pub open spec fn silent_too_long(secs: u64, nanos: u32) -> bool {
    secs > 30 || (secs == 30 && nanos > 0)
}

/// `x - 1` wrapped into `usize`.
pub open spec fn wrap_dec(x: usize) -> usize {
    vstd::wrapping::usize_specs::wrapping_sub(x, 1)
}

impl TestStats {
    /// The counters after one more connection attempt.
    pub open spec fn with_attempt(self) -> TestStats {
        TestStats { connections_attempted: wrap_inc(self.connections_attempted), ..self }
    }

    /// Counts an attempt to connect.
    pub fn record_connection_attempt(&mut self)
        ensures
            *final(self) == old(self).with_attempt(),
    {
        self.connections_attempted = self.connections_attempted.wrapping_add(1);
    }

    /// The counters after a connection attempt ended with `o`; the port
    /// tables are left to `ports_after_connect`.
    pub open spec fn after_connect(self, o: ConnectOutcome) -> TestStats {
        match o {
            ConnectOutcome::Established { handshake_ms, .. } => TestStats {
                handshake_count: wrap_add(self.handshake_count, 1),
                handshake_time_total_ms: wrap_add(self.handshake_time_total_ms, handshake_ms),
                connections_successful: wrap_inc(self.connections_successful),
                connections_active: wrap_inc(self.connections_active),
                ..self
            },
            ConnectOutcome::Failed => TestStats {
                connections_failed: wrap_inc(self.connections_failed),
                connection_errors: wrap_add(self.connection_errors, 1),
                ..self
            },
            ConnectOutcome::TimedOut => TestStats {
                connections_failed: wrap_inc(self.connections_failed),
                timeout_errors: wrap_add(self.timeout_errors, 1),
                ..self
            },
        }
    }

    /// The outcome `o` can be counted: the ports it names have room.
    pub open spec fn can_take_outcome(self, o: ConnectOutcome) -> bool {
        o matches ConnectOutcome::Established { ports: Some((l, r)), .. } ==> port_has_room(
            self.local_ports@,
            l,
        ) && port_has_room(self.remote_ports@, r)
    }

    /// Counts how a connection attempt ended. Returns whether a session
    /// starts on the new connection; otherwise the loop waits the reconnect
    /// delay and tries again.
    pub fn record_connect_outcome(&mut self, outcome: &ConnectOutcome) -> (session: bool)
        requires
            old(self).can_take_outcome(*outcome),
        ensures
            session == (*outcome is Established),
            *final(self) == (TestStats {
                local_ports: final(self).local_ports,
                remote_ports: final(self).remote_ports,
                ..old(self).after_connect(*outcome)
            }),
            match *outcome {
                ConnectOutcome::Established { ports: Some((l, r)), .. } => {
                    &&& final(self).local_ports@ == port_counted(old(self).local_ports@, l)
                    &&& final(self).remote_ports@ == port_counted(old(self).remote_ports@, r)
                },
                _ => {
                    &&& final(self).local_ports@ == old(self).local_ports@
                    &&& final(self).remote_ports@ == old(self).remote_ports@
                },
            },
    {
        match *outcome {
            ConnectOutcome::Established { handshake_ms, ports } => {
                self.record_handshake_time(handshake_ms);
                self.connections_successful = self.connections_successful.wrapping_add(1);
                self.connections_active = self.connections_active.wrapping_add(1);
                match ports {
                    Some((l, r)) => self.record_connection_ports(l, r),
                    None => {},
                }
                true
            },
            ConnectOutcome::Failed => {
                self.connections_failed = self.connections_failed.wrapping_add(1);
                self.connection_errors = self.connection_errors.wrapping_add(1);
                false
            },
            ConnectOutcome::TimedOut => {
                self.connections_failed = self.connections_failed.wrapping_add(1);
                self.timeout_errors = self.timeout_errors.wrapping_add(1);
                false
            },
        }
    }

    /// The counters after a session ended for `reason`, with the shutdown
    /// flag as read afterwards.
    pub open spec fn after_session(self, reason: DisconnectReason, shutdown: bool) -> TestStats {
        let s = TestStats { connections_active: wrap_dec(self.connections_active), ..self };
        let s = match reason {
            DisconnectReason::ServerKick => TestStats {
                connections_server_kicked: wrap_inc(s.connections_server_kicked),
                ..s
            },
            DisconnectReason::UnexpectedClose => TestStats {
                connections_unexpected_close: wrap_inc(s.connections_unexpected_close),
                ..s
            },
            _ => s,
        };
        if reason != DisconnectReason::Shutdown && !shutdown {
            TestStats { connections_reconnected: wrap_inc(s.connections_reconnected), ..s }
        } else {
            s
        }
    }

    /// What the loop does after a session: it stops on a shutdown, and
    /// otherwise reconnects.
    pub open spec fn next_after_session(reason: DisconnectReason, shutdown: bool) -> AfterSession {
        if reason != DisconnectReason::Shutdown && !shutdown {
            AfterSession::Reconnect
        } else {
            AfterSession::Stop
        }
    }

    /// Counts the end of a session and decides whether to reconnect.
    /// `shutdown` is the shutdown flag as read after the session.
    pub fn record_session_end(&mut self, reason: DisconnectReason, shutdown: bool) -> (next: AfterSession)
        ensures
            *final(self) == old(self).after_session(reason, shutdown),
            next == Self::next_after_session(reason, shutdown),
    {
        self.connections_active = self.connections_active.wrapping_sub(1);
        match reason {
            DisconnectReason::GracefulClose => {},
            DisconnectReason::ServerKick => {
                self.connections_server_kicked = self.connections_server_kicked.wrapping_add(1);
            },
            DisconnectReason::UnexpectedClose => {
                self.connections_unexpected_close = self.connections_unexpected_close.wrapping_add(1);
            },
            DisconnectReason::Shutdown => {
                return AfterSession::Stop;
            },
        }
        if !shutdown {
            self.connections_reconnected = self.connections_reconnected.wrapping_add(1);
            AfterSession::Reconnect
        } else {
            AfterSession::Stop
        }
    }

    /// The counters after one read event, with the shutdown flag as read
    /// when it arrived.
    pub open spec fn after_read(self, event: ReadEvent, shutdown: bool) -> TestStats {
        match event {
            ReadEvent::End => self,
            ReadEvent::Frame { frame, probe_sent_at, now_ms } => if shutdown {
                self
            } else {
                let s = self.with_frame_received(frame);
                match (frame, probe_sent_at) {
                    (FrameInfo::Text { .. }, Some(sent)) => TestStats {
                        messages_received: wrap_add(s.messages_received, 1),
                        ..s
                    }.with_latency(if now_ms >= sent { (now_ms - sent) as u64 } else { 0 }),
                    _ => s,
                }
            },
            ReadEvent::Error { .. } => if shutdown {
                self
            } else {
                TestStats { receive_errors: wrap_add(self.receive_errors, 1), ..self }
            },
        }
    }

    /// What the reading side does after one read event.
    pub open spec fn next_after_read(event: ReadEvent, shutdown: bool) -> ReadStep {
        match event {
            ReadEvent::End => ReadStep::Finish(DisconnectReason::UnexpectedClose),
            ReadEvent::Frame { frame, .. } => if shutdown {
                ReadStep::Finish(DisconnectReason::Shutdown)
            } else {
                match frame {
                    FrameInfo::Close { code } => ReadStep::Finish(close_reason_spec(code)),
                    _ => ReadStep::Continue,
                }
            },
            ReadEvent::Error { quiet_secs, quiet_nanos } => if shutdown {
                ReadStep::Finish(DisconnectReason::Shutdown)
            } else if silent_too_long(quiet_secs, quiet_nanos) {
                ReadStep::Finish(DisconnectReason::ServerKick)
            } else {
                ReadStep::Finish(DisconnectReason::UnexpectedClose)
            },
        }
    }

    /// Counts one read event: a received frame, with the latency of an
    /// echoed probe, or a read error; and decides whether reading goes on.
    /// `shutdown` is the shutdown flag as read when the event arrived.
    pub fn record_read_event(&mut self, event: &ReadEvent, shutdown: bool) -> (step: ReadStep)
        ensures
            *final(self) == old(self).after_read(*event, shutdown),
            step == Self::next_after_read(*event, shutdown),
    {
        match *event {
            ReadEvent::End => ReadStep::Finish(DisconnectReason::UnexpectedClose),
            ReadEvent::Frame { frame, probe_sent_at, now_ms } => {
                if shutdown {
                    return ReadStep::Finish(DisconnectReason::Shutdown);
                }
                self.record_message_received(&frame);
                match (frame, probe_sent_at) {
                    (FrameInfo::Text { .. }, Some(sent)) => {
                        let latency = now_ms.saturating_sub(sent);
                        self.messages_received = self.messages_received.wrapping_add(1);
                        self.record_latency(latency);
                    },
                    _ => {},
                }
                match frame {
                    FrameInfo::Close { code } => ReadStep::Finish(close_reason(code)),
                    _ => ReadStep::Continue,
                }
            },
            ReadEvent::Error { quiet_secs, quiet_nanos } => {
                if shutdown {
                    return ReadStep::Finish(DisconnectReason::Shutdown);
                }
                self.receive_errors = self.receive_errors.wrapping_add(1);
                if quiet_secs > 30 || (quiet_secs == 30 && quiet_nanos > 0) {
                    ReadStep::Finish(DisconnectReason::ServerKick)
                } else {
                    ReadStep::Finish(DisconnectReason::UnexpectedClose)
                }
            },
        }
    }

    /// The counters after sending probe `id` ended with `o`.
    pub open spec fn after_send(self, o: SendOutcome) -> TestStats {
        match o {
            SendOutcome::Sent => TestStats { messages_sent: wrap_add(self.messages_sent, 1), ..self },
            SendOutcome::Failed => TestStats {
                send_errors: wrap_add(self.send_errors, 1),
                messages_failed: wrap_add(self.messages_failed, 1),
                ..self
            },
            SendOutcome::TimedOut => TestStats {
                timeout_errors: wrap_add(self.timeout_errors, 1),
                messages_timeout: wrap_add(self.messages_timeout, 1),
                ..self
            },
        }
    }

    /// What the sending side does after sending probe `id` ended with `o`:
    /// on success the next probe is numbered one higher (wrapping), on a
    /// failure or a timeout the session ends as an unexpected close.
    pub open spec fn next_after_send(o: SendOutcome, id: u64) -> SendStep {
        match o {
            SendOutcome::Sent => SendStep::Continue { next_id: wrap_add(id, 1) },
            _ => SendStep::Finish(DisconnectReason::UnexpectedClose),
        }
    }

    /// Counts how sending probe `id` ended and decides what comes next.
    pub fn record_send_outcome(&mut self, outcome: SendOutcome, id: u64) -> (step: SendStep)
        ensures
            *final(self) == old(self).after_send(outcome),
            step == Self::next_after_send(outcome, id),
    {
        match outcome {
            SendOutcome::Sent => {
                self.messages_sent = self.messages_sent.wrapping_add(1);
                SendStep::Continue { next_id: id.wrapping_add(1) }
            },
            SendOutcome::Failed => {
                self.send_errors = self.send_errors.wrapping_add(1);
                self.messages_failed = self.messages_failed.wrapping_add(1);
                SendStep::Finish(DisconnectReason::UnexpectedClose)
            },
            SendOutcome::TimedOut => {
                self.timeout_errors = self.timeout_errors.wrapping_add(1);
                self.messages_timeout = self.messages_timeout.wrapping_add(1);
                SendStep::Finish(DisconnectReason::UnexpectedClose)
            },
        }
    }

    /// Counts a probe that could not be encoded; the sender skips it.
    pub fn record_protocol_error(&mut self)
        ensures
            *final(self) == (TestStats {
                protocol_errors: wrap_add(old(self).protocol_errors, 1),
                ..*old(self)
            }),
    {
        self.protocol_errors = self.protocol_errors.wrapping_add(1);
    }
}

/// One step of a connection loop, as the counters see it.
#[derive(Debug, Clone, Copy)]
pub enum ConnectionEvent {
    /// an attempt to connect and how it ended
    Attempt(ConnectOutcome),
    /// a read event, with the shutdown flag as read when it arrived
    Read(ReadEvent, bool),
    /// a frame sent
    FrameSent(FrameInfo),
    /// how sending a probe ended
    Send(SendOutcome),
    /// a probe that could not be encoded
    ProtocolError,
    /// the end of a session, with the shutdown flag as read after it
    SessionEnd(DisconnectReason, bool),
}

/// The counters after one event.
pub open spec fn after_event(s: TestStats, e: ConnectionEvent) -> TestStats {
    match e {
        ConnectionEvent::Attempt(o) => s.with_attempt().after_connect(o),
        ConnectionEvent::Read(r, shutdown) => s.after_read(r, shutdown),
        ConnectionEvent::FrameSent(f) => s.with_frame_sent(f),
        ConnectionEvent::Send(o) => s.after_send(o),
        ConnectionEvent::ProtocolError => TestStats { protocol_errors: wrap_add(s.protocol_errors, 1), ..s },
        ConnectionEvent::SessionEnd(r, shutdown) => s.after_session(r, shutdown),
    }
}

/// The counters after the events `es`, in order.
pub open spec fn after_events(s: TestStats, es: Seq<ConnectionEvent>) -> TestStats
    decreases es.len(),
{
    if es.len() == 0 {
        s
    } else {
        after_event(after_events(s, es.drop_last()), es.last())
    }
}

/// Connection attempts among `es`.
pub open spec fn attempts_in(es: Seq<ConnectionEvent>) -> nat
    decreases es.len(),
{
    if es.len() == 0 {
        0
    } else {
        attempts_in(es.drop_last()) + if es.last() is Attempt {
            1nat
        } else {
            0nat
        }
    }
}

/// Attempts among `es` that established a connection.
pub open spec fn established_in(es: Seq<ConnectionEvent>) -> nat
    decreases es.len(),
{
    if es.len() == 0 {
        0
    } else {
        established_in(es.drop_last()) + if es.last() matches ConnectionEvent::Attempt(
            ConnectOutcome::Established { .. },
        ) {
            1nat
        } else {
            0nat
        }
    }
}

/// Session ends among `es`.
pub open spec fn ends_in(es: Seq<ConnectionEvent>) -> nat
    decreases es.len(),
{
    if es.len() == 0 {
        0
    } else {
        ends_in(es.drop_last()) + if es.last() is SessionEnd {
            1nat
        } else {
            0nat
        }
    }
}

/// With `open` sessions open at the start, every session end in `es`
/// closes a session that is open at that point.
pub open spec fn sessions_well_nested(open: nat, es: Seq<ConnectionEvent>) -> bool
    decreases es.len(),
{
    es.len() == 0 || (sessions_well_nested(open, es.drop_last()) && (es.last() is SessionEnd
        ==> ends_in(es.drop_last()) < open + established_in(es.drop_last())))
}

/// No counter that the accounting speaks of can wrap within `n` more events.
pub open spec fn room_for_events(s: TestStats, n: nat) -> bool {
    &&& s.connections_attempted + n <= usize::MAX
    &&& s.connections_successful + n <= usize::MAX
    &&& s.connections_failed + n <= usize::MAX
    &&& s.connections_active + n <= usize::MAX
    &&& s.connections_server_kicked + n <= usize::MAX
    &&& s.connections_unexpected_close + n <= usize::MAX
    &&& s.connections_reconnected + n <= usize::MAX
    &&& s.connection_errors + n <= u64::MAX
    &&& s.timeout_errors + n <= u64::MAX
    &&& s.messages_timeout + n <= u64::MAX
    &&& s.handshake_count + n <= u64::MAX
}

/// Connection accounting, from any counters, over any interleaving of
/// connection attempts, reads, sends, encoding errors and session ends in
/// which each end closes an open session:
/// - the attempts grow by the events' attempts, which are the growth of
///   the successes plus that of the failures;
/// - the successes, and the handshakes, grow by the attempts that
///   established a connection;
/// - the failures grow by the connection errors plus the time-out errors,
///   less the time-outs of probe sends;
/// - the active connections grow by the successes less the ended sessions;
/// - kicks plus unexpected closes, and reconnections, grow by at most the
///   ended sessions.
/// (No counter wraps: each has room for one step per event.)
pub proof fn law_connection_accounting(s: TestStats, es: Seq<ConnectionEvent>)
    requires
        room_for_events(s, es.len()),
        sessions_well_nested(s.connections_active as nat, es),
    ensures
        ({
            let t = after_events(s, es);
            &&& t.connections_attempted == s.connections_attempted + attempts_in(es)
            &&& t.connections_successful == s.connections_successful + established_in(es)
            &&& t.handshake_count == s.handshake_count + established_in(es)
            &&& t.connections_attempted - s.connections_attempted == (t.connections_successful
                - s.connections_successful) + (t.connections_failed - s.connections_failed)
            &&& t.connections_failed - s.connections_failed == (t.connection_errors - s.connection_errors)
                + (t.timeout_errors - s.timeout_errors) - (t.messages_timeout - s.messages_timeout)
            &&& t.connections_active == s.connections_active + established_in(es) - ends_in(es)
            &&& (t.connections_server_kicked - s.connections_server_kicked) + (
            t.connections_unexpected_close - s.connections_unexpected_close) <= ends_in(es)
            &&& s.connections_server_kicked <= t.connections_server_kicked
            &&& s.connections_unexpected_close <= t.connections_unexpected_close
            &&& s.connections_reconnected <= t.connections_reconnected <= s.connections_reconnected
                + ends_in(es)
            &&& s.connections_failed <= t.connections_failed
            &&& s.connection_errors <= t.connection_errors
            &&& s.timeout_errors <= t.timeout_errors
            &&& s.messages_timeout <= t.messages_timeout
            &&& t.connection_errors - s.connection_errors + t.timeout_errors - s.timeout_errors <= es.len()
            &&& t.messages_timeout - s.messages_timeout <= t.timeout_errors - s.timeout_errors
            &&& t.connections_failed - s.connections_failed <= attempts_in(es)
            &&& established_in(es) <= attempts_in(es)
            &&& attempts_in(es) + ends_in(es) <= es.len()
        }),
    decreases es.len(),
{
    if es.len() > 0 {
        let prefix = es.drop_last();
        law_connection_accounting(s, prefix);
    }
}

/// A close frame's code decides how the session ended: no code, 1000
/// (normal closure) or 1001 (going away) is a graceful close; any other code
/// means the server kicked the client. A close frame never reads as an
/// unexpected close or a shutdown.
pub proof fn law_close_codes(code: Option<u16>)
    ensures
        (close_reason_spec(code) == DisconnectReason::GracefulClose) <==> (code is None || code
            == Some(1000u16) || code == Some(1001u16)),
        (close_reason_spec(code) == DisconnectReason::ServerKick) <==> !(code is None || code
            == Some(1000u16) || code == Some(1001u16)),
{
}

/// How a connection attempt is counted. Every attempt adds one to the
/// attempts. A refused connection (`Failed`) is a failure and a connection
/// error, and leaves the time-out errors alone; a `TimedOut` attempt is a
/// failure and a time-out error, and leaves the connection errors alone; an
/// established connection is a success, one more active connection and one
/// more handshake of its duration, and counts no failure or error. Each
/// count that grows goes up by one, wrapping at the top of its range.
pub proof fn law_connect_outcomes(s: TestStats, handshake_ms: u64, ports: Option<(u16, u16)>)
    ensures
        s.with_attempt().connections_attempted == if s.connections_attempted == usize::MAX {
            0
        } else {
            s.connections_attempted + 1
        },
        s.with_attempt() == (TestStats { connections_attempted: s.with_attempt().connections_attempted, ..s }),
        ({
            let t = s.after_connect(ConnectOutcome::Failed);
            &&& t.connections_failed == if s.connections_failed == usize::MAX {
                0
            } else {
                s.connections_failed + 1
            }
            &&& t.connection_errors == if s.connection_errors == u64::MAX {
                0
            } else {
                s.connection_errors + 1
            }
            &&& t.timeout_errors == s.timeout_errors
            &&& t.connections_successful == s.connections_successful
            &&& t.connections_active == s.connections_active
            &&& t.handshake_count == s.handshake_count
            &&& t.handshake_time_total_ms == s.handshake_time_total_ms
        }),
        ({
            let t = s.after_connect(ConnectOutcome::TimedOut);
            &&& t.connections_failed == if s.connections_failed == usize::MAX {
                0
            } else {
                s.connections_failed + 1
            }
            &&& t.timeout_errors == if s.timeout_errors == u64::MAX {
                0
            } else {
                s.timeout_errors + 1
            }
            &&& t.connection_errors == s.connection_errors
            &&& t.connections_successful == s.connections_successful
            &&& t.connections_active == s.connections_active
            &&& t.handshake_count == s.handshake_count
            &&& t.handshake_time_total_ms == s.handshake_time_total_ms
        }),
        ({
            let t = s.after_connect(ConnectOutcome::Established { handshake_ms, ports });
            &&& t.connections_successful == if s.connections_successful == usize::MAX {
                0
            } else {
                s.connections_successful + 1
            }
            &&& t.connections_active == if s.connections_active == usize::MAX {
                0
            } else {
                s.connections_active + 1
            }
            &&& t.handshake_count == if s.handshake_count == u64::MAX {
                0
            } else {
                s.handshake_count + 1
            }
            &&& t.handshake_time_total_ms as int == (s.handshake_time_total_ms + handshake_ms)
                % 0x1_0000_0000_0000_0000
            &&& t.connections_failed == s.connections_failed
            &&& t.connection_errors == s.connection_errors
            &&& t.timeout_errors == s.timeout_errors
        }),
{
    crate::stats::lemma_wrap_add_pub(s.handshake_time_total_ms, handshake_ms);
}

/// What ending a session does. While the test runs (shutdown flag clear),
/// every session that did not end by shutdown is followed by a
/// reconnection, whatever its reason, and counted as one; on shutdown, or
/// when the session ended by shutdown, the loop stops and counts no
/// reconnection. The active connections go down by one (wrapping), a kick
/// and an unexpected close are each counted in their own counter, and
/// nothing else changes.
pub proof fn law_session_end(s: TestStats, reason: DisconnectReason, shutdown: bool)
    ensures
        (TestStats::next_after_session(reason, shutdown) == AfterSession::Reconnect) <==> (reason
            != DisconnectReason::Shutdown && !shutdown),
        ({
            let t = s.after_session(reason, shutdown);
            &&& t.connections_active == if s.connections_active == 0 {
                usize::MAX as int
            } else {
                s.connections_active - 1
            }
            &&& t.connections_reconnected == if reason != DisconnectReason::Shutdown && !shutdown {
                if s.connections_reconnected == usize::MAX {
                    0
                } else {
                    s.connections_reconnected + 1
                }
            } else {
                s.connections_reconnected as int
            }
            &&& t.connections_server_kicked == if reason == DisconnectReason::ServerKick {
                if s.connections_server_kicked == usize::MAX {
                    0
                } else {
                    s.connections_server_kicked + 1
                }
            } else {
                s.connections_server_kicked as int
            }
            &&& t.connections_unexpected_close == if reason == DisconnectReason::UnexpectedClose {
                if s.connections_unexpected_close == usize::MAX {
                    0
                } else {
                    s.connections_unexpected_close + 1
                }
            } else {
                s.connections_unexpected_close as int
            }
            &&& t == (TestStats {
                connections_active: t.connections_active,
                connections_reconnected: t.connections_reconnected,
                connections_server_kicked: t.connections_server_kicked,
                connections_unexpected_close: t.connections_unexpected_close,
                ..s
            })
        }),
{
}

/// How reading goes on. While no shutdown is pending, any frame but a
/// close frame leaves reading running; a close frame ends the session for
/// the reason its code gives; a read error ends it as a kick after more
/// than 30 s of silence and as an unexpected close otherwise; the end of
/// the stream ends it as an unexpected close whatever the flag. With a
/// shutdown pending, any frame or error ends reading for shutdown and
/// changes no counter.
pub proof fn law_read_steps(s: TestStats, e: ReadEvent, shutdown: bool)
    ensures
        e is End ==> TestStats::next_after_read(e, shutdown) == ReadStep::Finish(
            DisconnectReason::UnexpectedClose) && s.after_read(e, shutdown) == s,
        shutdown && !(e is End) ==> TestStats::next_after_read(e, shutdown) == ReadStep::Finish(
            DisconnectReason::Shutdown) && s.after_read(e, shutdown) == s,
        e matches ReadEvent::Frame { frame, .. } ==> (!shutdown && !(frame is Close)
            ==> TestStats::next_after_read(e, shutdown) == ReadStep::Continue),
        e matches ReadEvent::Frame { frame: FrameInfo::Close { code }, .. } ==> (!shutdown
            ==> TestStats::next_after_read(e, shutdown) == ReadStep::Finish(close_reason_spec(code))),
        e matches ReadEvent::Error { quiet_secs, quiet_nanos } ==> (!shutdown
            ==> TestStats::next_after_read(e, shutdown) == ReadStep::Finish(
            if quiet_secs > 30 || (quiet_secs == 30 && quiet_nanos > 0) {
                DisconnectReason::ServerKick
            } else {
                DisconnectReason::UnexpectedClose
            },
        ) && s.after_read(e, shutdown) == (TestStats {
            receive_errors: if s.receive_errors == u64::MAX {
                0
            } else {
                (s.receive_errors + 1) as u64
            },
            ..s
        })),
{
}

/// What a received frame counts, with no shutdown pending: one more packet
/// received; for a text frame that carries one of this client's probes, one
/// more message received and a latency sample of the time since the probe
/// was sent (0 for a probe stamped later than its arrival), which the total
/// takes in and the maximum and minimum bound; for any other frame, no
/// message and no latency.
pub proof fn law_frame_read(s: TestStats, frame: FrameInfo, probe_sent_at: Option<u64>, now_ms: u64)
    ensures
        ({
            let t = s.after_read(ReadEvent::Frame { frame, probe_sent_at, now_ms }, false);
            &&& t.packets_received == if s.packets_received == u64::MAX {
                0
            } else {
                s.packets_received + 1
            }
            &&& t.receive_errors == s.receive_errors
            &&& if frame is Text && probe_sent_at is Some {
                let sent = probe_sent_at->Some_0;
                let latency: int = if now_ms >= sent { now_ms - sent } else { 0 };
                &&& t.messages_received == if s.messages_received == u64::MAX {
                    0
                } else {
                    s.messages_received + 1
                }
                &&& t.total_latency_ms as int == (s.total_latency_ms + latency) % 0x1_0000_0000_0000_0000
                &&& t.max_latency_ms >= latency
                &&& t.min_latency_ms <= latency
                &&& (t.max_latency_ms == latency || t.max_latency_ms == s.max_latency_ms)
                &&& (t.min_latency_ms == latency || t.min_latency_ms == s.min_latency_ms)
            } else {
                &&& t.messages_received == s.messages_received
                &&& t.total_latency_ms == s.total_latency_ms
                &&& t.max_latency_ms == s.max_latency_ms
                &&& t.min_latency_ms == s.min_latency_ms
            }
        }),
{
    let r = s.with_frame_received(frame);
    if frame is Text && probe_sent_at is Some {
        let sent = probe_sent_at->Some_0;
        let latency: u64 = if now_ms >= sent { (now_ms - sent) as u64 } else { 0 };
        crate::stats::lemma_wrap_add_pub(r.total_latency_ms, latency);
    }
}

/// How sending a probe is counted and what follows. A probe that went out
/// is one more message sent and the next probe is numbered one higher
/// (wrapping); a failed send is a send error and a failed message, a send
/// that timed out is a time-out error and a timed-out message, and either
/// ends the session as an unexpected close. No other counter changes.
pub proof fn law_send_outcomes(s: TestStats, id: u64)
    ensures
        TestStats::next_after_send(SendOutcome::Sent, id) == (SendStep::Continue {
            next_id: if id == u64::MAX {
                0
            } else {
                (id + 1) as u64
            },
        }),
        s.after_send(SendOutcome::Sent) == (TestStats {
            messages_sent: if s.messages_sent == u64::MAX {
                0
            } else {
                (s.messages_sent + 1) as u64
            },
            ..s
        }),
        TestStats::next_after_send(SendOutcome::Failed, id) == SendStep::Finish(
            DisconnectReason::UnexpectedClose,
        ),
        TestStats::next_after_send(SendOutcome::TimedOut, id) == SendStep::Finish(
            DisconnectReason::UnexpectedClose,
        ),
        s.after_send(SendOutcome::Failed) == (TestStats {
            send_errors: if s.send_errors == u64::MAX {
                0
            } else {
                (s.send_errors + 1) as u64
            },
            messages_failed: if s.messages_failed == u64::MAX {
                0
            } else {
                (s.messages_failed + 1) as u64
            },
            ..s
        }),
        s.after_send(SendOutcome::TimedOut) == (TestStats {
            timeout_errors: if s.timeout_errors == u64::MAX {
                0
            } else {
                (s.timeout_errors + 1) as u64
            },
            messages_timeout: if s.messages_timeout == u64::MAX {
                0
            } else {
                (s.messages_timeout + 1) as u64
            },
            ..s
        }),
{
}

} // verus!
