use pihub::signaling::{
    create_room_reply, join_room_reply, normalize_signaling_url, receive_step, ReceiveStep,
    SignalEvent, SignalingError, SignalingStage, SocketFrame,
};

fn norm(s: &str) -> String {
    match normalize_signaling_url(s) {
        Ok(u) => u,
        Err(_) => panic!("unexpected error for {s:?}"),
    }
}

#[test]
fn normalize_bare_host_gets_scheme_and_path() {
    assert_eq!(norm("example.com"), "ws://example.com/ws");
    assert_eq!(norm("  example.com:8080 \n"), "ws://example.com:8080/ws");
}

#[test]
fn normalize_http_schemes_become_websocket() {
    assert_eq!(norm("http://a.b/"), "ws://a.b/ws");
    assert_eq!(norm("https://a.b"), "wss://a.b/ws");
    assert_eq!(norm("https://a.b/signal"), "wss://a.b/signal");
}

#[test]
fn normalize_keeps_websocket_paths() {
    assert_eq!(norm("ws://h/"), "ws://h/ws");
    assert_eq!(norm("wss://x/path"), "wss://x/path");
    assert_eq!(norm("ws://x/ws"), "ws://x/ws");
    assert_eq!(norm("wss://x"), "wss://x/ws");
}

#[test]
fn normalize_other_scheme_is_taken_as_host() {
    assert_eq!(norm("abc://x"), "ws://abc://x");
    assert_eq!(norm("\u{3000}ftp.example.org\u{a0}"), "ws://ftp.example.org/ws");
}

#[test]
fn normalize_empty_server_is_refused() {
    assert!(matches!(normalize_signaling_url(""), Err(SignalingError::EmptyServer)));
    assert!(matches!(normalize_signaling_url(" \t\r\n "), Err(SignalingError::EmptyServer)));
}

#[test]
fn normalize_twice_changes_nothing() {
    for s in ["example.com", "http://a.b/", "https://a.b", "ws://h/", "abc://x", "ws:// ", "wss://x/p/q"] {
        let once = norm(s);
        assert_eq!(norm(&once), once);
    }
}

#[test]
fn create_room_reply_cases() {
    let ok = create_room_reply(SignalEvent::RoomCreated { room_id: "r1".to_string() });
    assert!(matches!(ok, Ok(ref id) if id == "r1"));
    let err = create_room_reply(SignalEvent::Error { message: "full".to_string() });
    assert!(matches!(err, Err(SignalingError::Server { ref message }) if message == "full"));
    let other = create_room_reply(SignalEvent::PeerJoined { client_id: "c".to_string() });
    assert!(matches!(
        other,
        Err(SignalingError::UnexpectedEvent { stage: SignalingStage::CreatingRoom, event: SignalEvent::PeerJoined { .. } })
    ));
}

#[test]
fn join_room_reply_cases() {
    let ok = join_room_reply(SignalEvent::RoomOffer { from_id: "h".to_string(), offer: "sdp".to_string() });
    assert!(matches!(ok, Ok(ref o) if o == "sdp"));
    let err = join_room_reply(SignalEvent::Error { message: "no room".to_string() });
    assert!(matches!(err, Err(SignalingError::Server { ref message }) if message == "no room"));
    let other = join_room_reply(SignalEvent::RoomCreated { room_id: "r".to_string() });
    assert!(matches!(
        other,
        Err(SignalingError::UnexpectedEvent { stage: SignalingStage::JoiningRoom, .. })
    ));
}

#[test]
fn receive_step_cases() {
    assert!(matches!(receive_step(None), ReceiveStep::Fail(SignalingError::SocketClosed)));
    assert!(matches!(
        receive_step(Some(SocketFrame::Text("{}".to_string()))),
        ReceiveStep::Parse(ref t) if t == "{}"
    ));
    assert!(matches!(
        receive_step(Some(SocketFrame::Close)),
        ReceiveStep::Fail(SignalingError::SocketClosed)
    ));
    assert!(matches!(
        receive_step(Some(SocketFrame::Ping(vec![1, 2]))),
        ReceiveStep::Reply(SocketFrame::Pong(ref p)) if p == &vec![1u8, 2]
    ));
    assert!(matches!(receive_step(Some(SocketFrame::Binary(vec![0]))), ReceiveStep::Skip));
    assert!(matches!(receive_step(Some(SocketFrame::Pong(vec![]))), ReceiveStep::Skip));
    assert!(matches!(receive_step(Some(SocketFrame::Raw)), ReceiveStep::Skip));
}
