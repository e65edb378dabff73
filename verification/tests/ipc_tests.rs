use pihub::bridge::NetworkBridge;
use pihub::config::SignalingEnvConfig;
use pihub::domain::{AnswerCode, InviteCode};
use pihub::ipc::{
    accept_answer_outcome, accept_answer_received, create_room_outcome, create_room_received,
    dispatch, join_room_outcome, join_room_received, signaling_servers_received,
    signaling_servers_response, Command, EventData, LogLevel, RequestPayload, ResponseData,
    ResponseStatus, RpcOutput, RpcRequest, StdioEmitter,
};

fn log_text(out: &RpcOutput) -> (LogLevel, String) {
    match out {
        RpcOutput::Log { level, message } => (*level, message.clone()),
        _ => panic!("not a log line"),
    }
}

fn request(action: &str, payload: RequestPayload) -> RpcRequest {
    RpcRequest { req_id: "req-1".to_string(), action: action.to_string(), payload }
}

fn empty_payload() -> RequestPayload {
    RequestPayload {
        target_mc_port: None,
        local_proxy_port: None,
        signaling_server: None,
        invite_code: None,
        answer_code: None,
    }
}

#[test]
fn dispatch_create_room_defaults_port() {
    match dispatch(request("CREATE_ROOM", empty_payload())) {
        Some(Command::CreateRoom { req_id, target_mc_port, signaling_server }) => {
            assert_eq!(req_id, "req-1");
            assert_eq!(target_mc_port, 25565);
            assert!(signaling_server.is_none());
        }
        _ => panic!("expected CreateRoom"),
    }
}

#[test]
fn dispatch_create_room_truncates_port() {
    let mut p = empty_payload();
    p.target_mc_port = Some(70000);
    p.signaling_server = Some("sig.example".to_string());
    match dispatch(request("CREATE_ROOM", p)) {
        Some(Command::CreateRoom { target_mc_port, signaling_server, .. }) => {
            assert_eq!(target_mc_port, 4464);
            assert_eq!(signaling_server.as_deref(), Some("sig.example"));
        }
        _ => panic!("expected CreateRoom"),
    }
}

#[test]
fn dispatch_join_room() {
    assert!(dispatch(request("JOIN_ROOM", empty_payload())).is_none());
    let mut p = empty_payload();
    p.invite_code = Some("abc".to_string());
    match dispatch(request("JOIN_ROOM", p)) {
        Some(Command::JoinRoom { invite_code, local_proxy_port, .. }) => {
            assert_eq!(invite_code, "abc");
            assert_eq!(local_proxy_port, 50001);
        }
        _ => panic!("expected JoinRoom"),
    }
    let mut p = empty_payload();
    p.invite_code = Some("abc".to_string());
    p.local_proxy_port = Some(40000);
    assert!(matches!(
        dispatch(request("JOIN_ROOM", p)),
        Some(Command::JoinRoom { local_proxy_port: 40000, .. })
    ));
}

#[test]
fn dispatch_accept_and_servers_and_unknown() {
    assert!(dispatch(request("HOST_ACCEPT_ANSWER", empty_payload())).is_none());
    let mut p = empty_payload();
    p.answer_code = Some("xyz".to_string());
    assert!(matches!(
        dispatch(request("HOST_ACCEPT_ANSWER", p)),
        Some(Command::AcceptAnswer { ref answer_code, .. }) if answer_code == "xyz"
    ));
    assert!(matches!(
        dispatch(request("GET_SIGNALING_SERVERS", empty_payload())),
        Some(Command::GetSignalingServers { ref req_id }) if req_id == "req-1"
    ));
    assert!(dispatch(request("create_room", empty_payload())).is_none());
    assert!(dispatch(request("", empty_payload())).is_none());
}

#[test]
fn received_log_lines() {
    let (l, m) = log_text(&create_room_received(25565, &None));
    assert_eq!(l, LogLevel::Info);
    assert_eq!(m, "Received CREATE_ROOM, target_mc_port=25565, signaling_server=manual");
    let (_, m) = log_text(&create_room_received(0, &Some("ws://s".to_string())));
    assert_eq!(m, "Received CREATE_ROOM, target_mc_port=0, signaling_server=ws://s");
    let (_, m) = log_text(&join_room_received(50001, &None));
    assert_eq!(m, "Received JOIN_ROOM, local_proxy_port=50001, signaling_server=manual");
    let (_, m) = log_text(&accept_answer_received());
    assert_eq!(m, "Received HOST_ACCEPT_ANSWER");
    let (_, m) = log_text(&signaling_servers_received());
    assert_eq!(m, "Received GET_SIGNALING_SERVERS request");
}

#[test]
fn create_room_outcomes() {
    let out = create_room_outcome("r".to_string(), Ok(InviteCode("inv".to_string())));
    assert_eq!(out.len(), 2);
    assert_eq!(log_text(&out[0]), (LogLevel::Info, "Room created successfully and invite code is ready".to_string()));
    assert!(matches!(
        &out[1],
        RpcOutput::Response { req_id, status: ResponseStatus::Success, data: ResponseData::InviteCode(c) }
            if req_id == "r" && c == "inv"
    ));
    let out = create_room_outcome("r".to_string(), Err("no network".to_string()));
    assert_eq!(log_text(&out[0]), (LogLevel::Error, "CREATE_ROOM failed: no network".to_string()));
    assert!(matches!(&out[1], RpcOutput::Response { status: ResponseStatus::Error, data: ResponseData::Empty, .. }));
}

#[test]
fn join_and_accept_outcomes() {
    let out = join_room_outcome("j".to_string(), Ok(AnswerCode("ans".to_string())));
    assert_eq!(log_text(&out[0]).1, "JOIN_ROOM succeeded and the answer is ready");
    assert!(matches!(&out[1], RpcOutput::Response { status: ResponseStatus::Success, data: ResponseData::AnswerCode(c), .. } if c == "ans"));
    let out = join_room_outcome("j".to_string(), Err("bad".to_string()));
    assert_eq!(log_text(&out[0]), (LogLevel::Error, "JOIN_ROOM failed: bad".to_string()));
    let out = accept_answer_outcome("a".to_string(), Ok(()));
    assert_eq!(log_text(&out[0]).1, "Remote answer applied successfully");
    assert!(matches!(&out[1], RpcOutput::Response { status: ResponseStatus::Success, data: ResponseData::Empty, .. }));
    let out = accept_answer_outcome("a".to_string(), Err("x".to_string()));
    assert_eq!(log_text(&out[0]), (LogLevel::Error, "HOST_ACCEPT_ANSWER failed: x".to_string()));
    assert!(matches!(&out[1], RpcOutput::Response { status: ResponseStatus::Error, .. }));
}

#[test]
fn servers_response_carries_config() {
    let out = signaling_servers_response("s".to_string(), SignalingEnvConfig::default_config());
    match out {
        RpcOutput::Response { req_id, status, data: ResponseData::SignalingServers(c) } => {
            assert_eq!(req_id, "s");
            assert_eq!(status, ResponseStatus::Success);
            assert_eq!(c.servers[0].url, "wss://cn1.example.com");
        }
        _ => panic!("expected a response"),
    }
}

#[test]
fn bridge_addresses_and_event() {
    assert_eq!(NetworkBridge::local_addr(25565), "127.0.0.1:25565");
    assert_eq!(NetworkBridge::local_addr(0), "127.0.0.1:0");
    assert_eq!(NetworkBridge::local_addr(65535), "127.0.0.1:65535");
    match NetworkBridge::tunnel_ready_event(50001) {
        RpcOutput::Event { event_name, data: EventData::TunnelReady { proxy_port } } => {
            assert_eq!(event_name, "TUNNEL_READY");
            assert_eq!(proxy_port, 50001);
        }
        _ => panic!("expected an event"),
    }
    let _ = StdioEmitter::new();
}
