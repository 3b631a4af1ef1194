use ws_load_tester::server::{ServerAction, TestServer};
use ws_load_tester::types::{AuthLoginMessage, AuthResponse, FrameInfo, LoginData, TestMessage};

fn login(namespace: &str, event: &str) -> AuthLoginMessage {
    AuthLoginMessage {
        namespace: namespace.to_string(),
        event: event.to_string(),
        data: LoginData { username: "u".to_string(), password: "p".to_string() },
    }
}

#[test]
fn server_listens_on_loopback() {
    assert_eq!(TestServer::new(8080).listen_address(), "127.0.0.1:8080");
    assert_eq!(TestServer::new(0).listen_address(), "127.0.0.1:0");
    assert_eq!(TestServer::new(65535).listen_address(), "127.0.0.1:65535");
}

#[test]
fn connection_count_never_goes_negative() {
    assert_eq!(TestServer::connection_opened(0), 1);
    assert_eq!(TestServer::connection_closed(TestServer::connection_opened(5)), 5);
    assert_eq!(TestServer::connection_closed(0), 0);
}

#[test]
fn login_request_is_answered() {
    let m = login("auth", "login");
    assert_eq!(TestServer::action_for(&FrameInfo::Text { bytes: 10 }, Some(&m)), ServerAction::ReplyLoginSuccess);
    let r = AuthResponse::login_success();
    assert_eq!(r.status, "success");
    assert_eq!(r.message, "Login successful");
}

#[test]
fn other_text_is_echoed() {
    let m = login("auth", "logout");
    assert_eq!(TestServer::action_for(&FrameInfo::Text { bytes: 10 }, Some(&m)), ServerAction::EchoText);
    let m = login("chat", "login");
    assert_eq!(TestServer::action_for(&FrameInfo::Text { bytes: 10 }, Some(&m)), ServerAction::EchoText);
    assert_eq!(TestServer::action_for(&FrameInfo::Text { bytes: 10 }, None), ServerAction::EchoText);
}

#[test]
fn other_frames() {
    assert_eq!(TestServer::action_for(&FrameInfo::Binary { bytes: 1 }, None), ServerAction::EchoBinary);
    assert_eq!(TestServer::action_for(&FrameInfo::Ping { bytes: 1 }, None), ServerAction::ReplyPong);
    assert_eq!(TestServer::action_for(&FrameInfo::Close { code: None }, None), ServerAction::Stop);
    assert_eq!(TestServer::action_for(&FrameInfo::Pong { bytes: 1 }, None), ServerAction::Ignore);
    assert_eq!(TestServer::action_for(&FrameInfo::Raw, None), ServerAction::Ignore);
}

#[test]
fn probe_payload_names_message_and_connection() {
    let m = TestMessage::probe(0, 1234, 17);
    assert_eq!(m.id, 0);
    assert_eq!(m.timestamp, 1234);
    assert_eq!(m.payload, "Test message 0 from connection 17");
    let m = TestMessage::probe(u64::MAX, 1, 1000);
    assert_eq!(m.payload, format!("Test message {} from connection {}", u64::MAX, 1000));
}
