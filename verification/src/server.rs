//! The decisions of the echo test server: its listening address, the count
//! of open connections, and the answer to each frame a client sends.

use vstd::prelude::*;
use vstd::string::*;
use crate::text::{decimal_spec, decimal_value, law_decimal_round_trip, push_decimal, same_text};
use crate::types::{AuthLoginMessage, FrameInfo};

verus! {

/// A WebSocket server that echoes what clients send and answers login requests.
pub struct TestServer {
    /// the port it listens on
    pub port: u16,
}

/// The address the server listens on: the loopback interface and its port.
pub open spec fn listen_address_spec(port: u16) -> Seq<char> {
    "127.0.0.1:"@ + decimal_spec(port as nat)
}

/// The open connections after one more arrived.
pub open spec fn opened_spec(count: usize) -> usize {
    (count + 1) as usize
}

/// The open connections after one closed; the count never goes below zero.
pub open spec fn closed_spec(count: usize) -> usize {
    if count > 0 {
        (count - 1) as usize
    } else {
        0
    }
}

/// What the server does with a frame from a client.
#[derive(Debug, Clone, Copy, PartialEq, Eq, Structural)]
pub enum ServerAction {
    /// answer with a successful login response
    ReplyLoginSuccess,
    /// send the text back unchanged
    EchoText,
    /// send the binary data back unchanged
    EchoBinary,
    /// answer with a pong that carries the ping's data
    ReplyPong,
    /// the client closes: stop serving it
    Stop,
    /// nothing to do
    Ignore,
}

/// A login request is one in the `auth` namespace with the event `login`.
pub open spec fn is_login_request(m: AuthLoginMessage) -> bool {
    m.namespace@ == "auth"@ && m.event@ == "login"@
}

/// The action for a frame. For a text frame, `login` is the frame read as a
/// login-protocol message, when it is one: a login request is answered, any
/// other text (a login-protocol message or not) is echoed.
pub open spec fn server_action_spec(frame: FrameInfo, login: Option<AuthLoginMessage>) -> ServerAction {
    match frame {
        FrameInfo::Text { .. } => if login matches Some(m) && is_login_request(m) {
            ServerAction::ReplyLoginSuccess
        } else {
            ServerAction::EchoText
        },
        FrameInfo::Binary { .. } => ServerAction::EchoBinary,
        FrameInfo::Close { .. } => ServerAction::Stop,
        FrameInfo::Ping { .. } => ServerAction::ReplyPong,
        _ => ServerAction::Ignore,
    }
}

impl TestServer {
    /// A server for the given port.
    pub fn new(port: u16) -> (s: TestServer)
        ensures
            s.port == port,
    {
        TestServer { port }
    }

    /// The address to bind, `127.0.0.1:` and the port.
    pub fn listen_address(&self) -> (a: String)
        ensures
            a@ == listen_address_spec(self.port),
    {
        let mut a = String::from_str("127.0.0.1:");
        push_decimal(&mut a, self.port as u64);
        a
    }

    /// Counts a new client connection.
    pub fn connection_opened(count: usize) -> (r: usize)
        requires
            count < usize::MAX,
        ensures
            r == opened_spec(count),
    {
        count + 1
    }

    /// Counts a client connection that ended.
    pub fn connection_closed(count: usize) -> (r: usize)
        ensures
            r == closed_spec(count),
    {
        count.saturating_sub(1)
    }

    /// Decides what to do with a frame from a client.
    pub fn action_for(frame: &FrameInfo, login: Option<&AuthLoginMessage>) -> (a: ServerAction)
        ensures
            a == server_action_spec(
                *frame,
                match login {
                    Some(m) => Some(*m),
                    None => None,
                },
            ),
    {
        match *frame {
            FrameInfo::Text { .. } => match login {
                Some(m) => {
                    if same_text(m.namespace.as_str(), "auth") && same_text(m.event.as_str(), "login") {
                        ServerAction::ReplyLoginSuccess
                    } else {
                        ServerAction::EchoText
                    }
                },
                None => ServerAction::EchoText,
            },
            FrameInfo::Binary { .. } => ServerAction::EchoBinary,
            FrameInfo::Close { .. } => ServerAction::Stop,
            FrameInfo::Ping { .. } => ServerAction::ReplyPong,
            _ => ServerAction::Ignore,
        }
    }
}

/// A connection that opens and then closes leaves the count as it was.
pub proof fn law_open_close_round_trip(count: usize)
    requires
        count < usize::MAX,
    ensures
        closed_spec(opened_spec(count)) == count,
{
}

/// The count of open connections never goes below zero: closing on a
/// count of zero leaves zero.
pub proof fn law_close_floor(count: usize)
    ensures
        closed_spec(count) <= count,
        count == 0 ==> closed_spec(count) == 0,
{
}

/// The server's answer to each kind of frame, whatever its size: every
/// ping is answered with a pong, every binary frame echoed, a close frame
/// stops serving the client, and pongs and raw frames are ignored. A text
/// frame is answered with a login success exactly when it reads as a
/// login-protocol message in the `auth` namespace with the event `login`,
/// and echoed otherwise.
pub proof fn law_server_actions(frame: FrameInfo, login: Option<AuthLoginMessage>)
    ensures
        frame is Ping ==> server_action_spec(frame, login) == ServerAction::ReplyPong,
        frame is Binary ==> server_action_spec(frame, login) == ServerAction::EchoBinary,
        frame is Close ==> server_action_spec(frame, login) == ServerAction::Stop,
        (frame is Pong || frame is Raw) ==> server_action_spec(frame, login) == ServerAction::Ignore,
        frame is Text ==> (server_action_spec(frame, login) == ServerAction::ReplyLoginSuccess
            <==> (login is Some && login->Some_0.namespace@ == "auth"@ && login->Some_0.event@
            == "login"@)),
        frame is Text ==> (server_action_spec(frame, login) == ServerAction::ReplyLoginSuccess
            || server_action_spec(frame, login) == ServerAction::EchoText),
{
}

/// The listening address is `127.0.0.1:` followed by digits that read back
/// as the port.
pub proof fn law_listen_address(port: u16)
    ensures
        listen_address_spec(port).len() > 10,
        listen_address_spec(port).subrange(0, 10) == "127.0.0.1:"@,
        decimal_value(listen_address_spec(port).subrange(10, listen_address_spec(port).len() as int))
            == port,
{
    reveal_strlit("127.0.0.1:");
    law_decimal_round_trip(port as nat);
    let a = listen_address_spec(port);
    assert(a.subrange(0, 10) =~= "127.0.0.1:"@);
    assert(a.subrange(10, a.len() as int) =~= decimal_spec(port as nat));
}

/// A new connection adds exactly one to the count; a closing one takes
/// exactly one off a positive count.
pub proof fn law_count_steps(count: usize)
    ensures
        count < usize::MAX ==> opened_spec(count) == count + 1,
        count > 0 ==> closed_spec(count) == count - 1,
{
}

} // verus!
