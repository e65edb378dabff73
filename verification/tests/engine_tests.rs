use pihub::domain::AnswerCode;
use pihub::engine::{
    accept_answer_plan, client_step, decode_session_code, dynamic_answer_code, encode_session_code,
    host_peer_key, host_step, manual_peer_key, AnswerPlan, ClientAction, CodeError, EngineError,
    HostAction, PeerRegistry,
};
use pihub::signaling::SignalEvent;

#[test]
fn session_code_round_trip() {
    let json = r#"{"type":"offer","sdp":"v=0\r\no=- 1 2 IN IP4 127.0.0.1 é"}"#;
    let code = encode_session_code(json);
    assert!(code.chars().all(|c| c.is_ascii_alphanumeric() || c == '+' || c == '/' || c == '='));
    match decode_session_code(&code) {
        Ok(back) => assert_eq!(back, json),
        Err(_) => panic!("round trip failed"),
    }
}

#[test]
fn session_code_known_value() {
    assert_eq!(encode_session_code("hello"), "aGVsbG8=");
    assert_eq!(encode_session_code(""), "");
    match decode_session_code("aGVsbG8=") {
        Ok(text) => assert_eq!(text, "hello"),
        Err(_) => panic!("valid code refused"),
    }
}

#[test]
fn session_code_errors() {
    assert!(matches!(decode_session_code("!!!"), Err(CodeError::Base64(_))));
    assert!(matches!(decode_session_code("/w=="), Err(CodeError::Utf8(_))));
}

#[test]
fn registry_insert_get_remove() {
    let mut r = PeerRegistry::new();
    assert_eq!(r.get(&"a".to_string()), None);
    assert_eq!(r.insert("a".to_string(), 1), None);
    assert_eq!(r.insert("b".to_string(), 2), None);
    assert_eq!(r.get(&"a".to_string()), Some(1));
    assert_eq!(r.get(&"b".to_string()), Some(2));
    assert_eq!(r.insert("a".to_string(), 9), Some(1));
    assert_eq!(r.get(&"a".to_string()), Some(9));
    assert_eq!(r.remove(&"a".to_string()), Some(9));
    assert_eq!(r.get(&"a".to_string()), None);
    assert_eq!(r.remove(&"a".to_string()), None);
    assert_eq!(r.get(&"b".to_string()), Some(2));
}

#[test]
fn host_step_routes_events() {
    let mut r = PeerRegistry::new();
    let a = host_step(&mut r, SignalEvent::PeerJoined { client_id: "c1".to_string() });
    assert!(matches!(a, HostAction::AdmitPeer { ref client_id } if client_id == "c1"));
    r.insert("c1".to_string(), 11);
    let a = host_step(&mut r, SignalEvent::PlayerAnswer { from_id: "c1".to_string(), answer: "ans".to_string() });
    assert!(matches!(a, HostAction::ApplyAnswer { handle: 11, ref answer } if answer == "ans"));
    let a = host_step(&mut r, SignalEvent::IceCandidate { from_id: "c2".to_string(), candidate: "x".to_string() });
    assert!(matches!(a, HostAction::Ignore));
    let a = host_step(&mut r, SignalEvent::IceCandidate { from_id: "c1".to_string(), candidate: "x".to_string() });
    assert!(matches!(a, HostAction::ApplyCandidate { handle: 11, .. }));
    let a = host_step(&mut r, SignalEvent::PeerLeft { client_id: "c1".to_string() });
    assert!(matches!(a, HostAction::PeerLeft { handle: Some(11), .. }));
    let a = host_step(&mut r, SignalEvent::PlayerAnswer { from_id: "c1".to_string(), answer: "late".to_string() });
    assert!(matches!(a, HostAction::Ignore));
    let a = host_step(&mut r, SignalEvent::Error { message: "boom".to_string() });
    assert!(matches!(a, HostAction::ReportError { ref message } if message == "boom"));
    let a = host_step(&mut r, SignalEvent::RoomCreated { room_id: "r".to_string() });
    assert!(matches!(a, HostAction::Ignore));
}

#[test]
fn client_step_routes_events() {
    let mut r = PeerRegistry::new();
    let a = client_step(&r, SignalEvent::RoomOffer { from_id: "h".to_string(), offer: "o".to_string() });
    assert!(matches!(a, ClientAction::AnswerOffer { ref from_id, ref offer } if from_id == "h" && offer == "o"));
    let a = client_step(&r, SignalEvent::IceCandidate { from_id: "h".to_string(), candidate: "c".to_string() });
    assert!(matches!(a, ClientAction::Ignore));
    r.insert(host_peer_key(), 5);
    let a = client_step(&r, SignalEvent::IceCandidate { from_id: "anyone".to_string(), candidate: "c".to_string() });
    assert!(matches!(a, ClientAction::ApplyCandidate { handle: 5, ref candidate } if candidate == "c"));
    let a = client_step(&r, SignalEvent::PeerJoined { client_id: "z".to_string() });
    assert!(matches!(a, ClientAction::Ignore));
}

#[test]
fn accept_answer_plans() {
    let mut r = PeerRegistry::new();
    assert_eq!(dynamic_answer_code().0, "dynamic_signaling");
    assert!(matches!(accept_answer_plan(&r, &dynamic_answer_code()), Ok(AnswerPlan::AlreadyConnected)));
    let code = AnswerCode(encode_session_code("{\"type\":\"answer\"}"));
    assert!(matches!(accept_answer_plan(&r, &code), Err(EngineError::NoManualPeer)));
    r.insert(manual_peer_key(), 3);
    match accept_answer_plan(&r, &code) {
        Ok(AnswerPlan::Apply { handle, answer_json }) => {
            assert_eq!(handle, 3);
            assert_eq!(answer_json, "{\"type\":\"answer\"}");
        }
        _ => panic!("expected an answer to apply"),
    }
    let bad = AnswerCode("not base64!".to_string());
    assert!(matches!(accept_answer_plan(&r, &bad), Err(EngineError::Code(CodeError::Base64(_)))));
}
