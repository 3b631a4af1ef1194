//! The messages exchanged with the server and the reasons a session ends.

use vstd::prelude::*;
use vstd::string::*;
use crate::text::{decimal_spec, decimal_value, law_decimal_round_trip, push_decimal};

verus! {

/// A probe message: the client stamps it with the time it was sent, the
/// server echoes it, and the echo's arrival gives the round-trip latency.
#[derive(Debug, Clone)]
pub struct TestMessage {
    pub id: u64,
    pub timestamp: u64,
    pub payload: String,
}

/// A login request of the auth protocol.
#[derive(Debug, Clone)]
pub struct AuthLoginMessage {
    pub namespace: String,
    pub event: String,
    pub data: LoginData,
}

/// The credentials of a login request.
#[derive(Debug, Clone)]
pub struct LoginData {
    pub username: String,
    pub password: String,
}

/// The server's answer to a login request.
#[derive(Debug, Clone)]
pub struct AuthResponse {
    pub status: String,
    pub message: String,
}

/// Why a connected session ended.
#[derive(Debug, Clone, Copy, PartialEq, Eq, Structural)]
pub enum DisconnectReason {
    GracefulClose,
    ServerKick,
    UnexpectedClose,
    Shutdown,
}

/// What the counters need of one WebSocket frame: its kind and the number of
/// payload bytes it carries; for a close frame, its status code if it had one.
#[derive(Debug, Clone, Copy, PartialEq, Eq, Structural)]
pub enum FrameInfo {
    Text { bytes: u64 },
    Binary { bytes: u64 },
    Ping { bytes: u64 },
    Pong { bytes: u64 },
    Close { code: Option<u16> },
    /// A raw frame, counted by an estimated size.
    Raw,
}

/// The bytes that a frame adds to the byte counters: its payload length,
/// 2 for a close frame, and an estimated 4 for a raw frame.
pub open spec fn counted_bytes(f: FrameInfo) -> u64 {
    match f {
        FrameInfo::Text { bytes } => bytes,
        FrameInfo::Binary { bytes } => bytes,
        FrameInfo::Ping { bytes } => bytes,
        FrameInfo::Pong { bytes } => bytes,
        FrameInfo::Close { .. } => 2,
        FrameInfo::Raw => 4,
    }
}

/// The payload text of probe number `id` sent on connection `connection`.
pub open spec fn probe_payload(id: nat, connection: nat) -> Seq<char> {
    "Test message "@ + decimal_spec(id) + " from connection "@ + decimal_spec(connection)
}

impl TestMessage {
    /// The probe number `id` of connection `connection_id`, stamped `timestamp` (ms since the epoch).
    pub fn probe(id: u64, timestamp: u64, connection_id: usize) -> (m: TestMessage)
        ensures
            m.id == id,
            m.timestamp == timestamp,
            m.payload@ == probe_payload(id as nat, connection_id as nat),
    {
        let mut payload = String::from_str("Test message ");
        push_decimal(&mut payload, id);
        payload.append(" from connection ");
        push_decimal(&mut payload, connection_id as u64);
        TestMessage { id, timestamp, payload }
    }
}

impl AuthResponse {
    /// The answer to a successful login.
    pub fn login_success() -> (r: AuthResponse)
        ensures
            r.status@ == "success"@,
            r.message@ == "Login successful"@,
    {
        AuthResponse { status: String::from_str("success"), message: String::from_str("Login successful") }
    }
}

/// A probe's text names the probe and its connection: `Test message `,
/// digits that read back as the probe number, ` from connection `, and
/// digits that read back as the connection number.
pub proof fn law_probe_payload(id: nat, connection: nat)
    ensures
        ({
            let p = probe_payload(id, connection);
            let k = decimal_spec(id).len() as int;
            &&& p.len() > 13 + k + 17
            &&& p.subrange(0, 13) == "Test message "@
            &&& decimal_value(p.subrange(13, 13 + k)) == id
            &&& p.subrange(13 + k, 30 + k) == " from connection "@
            &&& decimal_value(p.subrange(30 + k, p.len() as int)) == connection
        }),
{
    reveal_strlit("Test message ");
    reveal_strlit(" from connection ");
    law_decimal_round_trip(id);
    law_decimal_round_trip(connection);
    let p = probe_payload(id, connection);
    let k = decimal_spec(id).len() as int;
    assert(p.subrange(0, 13) =~= "Test message "@);
    assert(p.subrange(13, 13 + k) =~= decimal_spec(id));
    assert(p.subrange(13 + k, 30 + k) =~= " from connection "@);
    assert(p.subrange(30 + k, p.len() as int) =~= decimal_spec(connection));
}

} // verus!
