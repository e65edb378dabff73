//! The line protocol between the launcher and this sidecar: the requests it
//! reads, the command each one becomes, and the responses, events and logs
//! that the session handlers emit.

use vstd::prelude::*;
use vstd::string::*;
use crate::config::{SignalingEnvConfig, SignalingEnvConfigView};
use crate::domain::{AnswerCode, InviteCode};
use crate::text::{decimal, push_decimal};

verus! {

// ---------------------------------------------------------------------------
// Output
// ---------------------------------------------------------------------------

/// The status of a response.
#[derive(Clone, Copy, PartialEq, Eq, Structural, Debug)]
pub enum ResponseStatus {
    Success,
    Error,
}

/// The level of a log line.
#[derive(Clone, Copy, PartialEq, Eq, Structural, Debug)]
pub enum LogLevel {
    Info,
    Warn,
    Error,
}

/// The data of a response.
pub enum ResponseData {
    /// `{}`
    Empty,
    /// `{"invite_code": ..}`
    InviteCode(String),
    /// `{"answer_code": ..}`
    AnswerCode(String),
    /// The whole signaling-server configuration.
    SignalingServers(SignalingEnvConfig),
}

/// The data of an event.
pub enum EventData {
    /// `{"proxy_port": ..}`
    TunnelReady { proxy_port: u16 },
}

/// One line written to the launcher.
pub enum RpcOutput {
    Response { req_id: String, status: ResponseStatus, data: ResponseData },
    Event { event_name: String, data: EventData },
    Log { level: LogLevel, message: String },
}

/// Writes protocol lines to standard output.
pub struct StdioEmitter {}

impl StdioEmitter {
    pub fn new() -> (res: Self) {
        StdioEmitter {  }
    }
}

/// Whether `out` is a log line at `level` with text `text`.
pub open spec fn is_log(out: RpcOutput, level: LogLevel, text: Seq<char>) -> bool {
    out matches RpcOutput::Log { level: l, message } && l == level && message@ == text
}

/// How a request names its signaling server in the log: the server, or
/// `manual` when none was given.
pub open spec fn server_label(server: Option<String>) -> Seq<char> {
    match server {
        Some(s) => s@,
        None => "manual"@,
    }
}

fn append_server_label(out: &mut String, server: &Option<String>)
    ensures
        final(out)@ == old(out)@ + server_label(*server),
{
    match server {
        Some(s) => out.append(s.as_str()),
        None => out.append("manual"),
    }
}

fn log_line(level: LogLevel, message: String) -> (res: RpcOutput)
    ensures
        res == (RpcOutput::Log { level, message }),
{
    RpcOutput::Log { level, message }
}

fn failure_text(prefix: &str, err: &String) -> (res: String)
    ensures
        res@ == prefix@ + err@,
{
    let mut s = String::from_str(prefix);
    s.append(err.as_str());
    s
}

// ---------------------------------------------------------------------------
// The session handlers
// ---------------------------------------------------------------------------

/// The log line of a create-room request.
pub fn create_room_received(target_mc_port: u16, signaling_server: &Option<String>) -> (res:
    RpcOutput)
    ensures
        is_log(
            res,
            LogLevel::Info,
            "Received CREATE_ROOM, target_mc_port="@ + decimal(target_mc_port as nat)
                + ", signaling_server="@ + server_label(*signaling_server),
        ),
{
    let mut s = String::from_str("Received CREATE_ROOM, target_mc_port=");
    push_decimal(&mut s, target_mc_port as u64);
    s.append(", signaling_server=");
    append_server_label(&mut s, signaling_server);
    log_line(LogLevel::Info, s)
}

/// What follows a create-room attempt: on success a log line and a success
/// response carrying the invite code; on failure (`Err` holds the error's
/// text) an error log line and an error response with empty data.
pub fn create_room_outcome(req_id: String, result: Result<InviteCode, String>) -> (res: Vec<
    RpcOutput,
>)
    ensures
        res@.len() == 2,
        match result {
            Ok(code) => {
                &&& is_log(res@[0], LogLevel::Info, "Room created successfully and invite code is ready"@)
                &&& res@[1] == RpcOutput::Response {
                    req_id,
                    status: ResponseStatus::Success,
                    data: ResponseData::InviteCode(code.0),
                }
            },
            Err(err) => {
                &&& is_log(res@[0], LogLevel::Error, "CREATE_ROOM failed: "@ + err@)
                &&& res@[1] == RpcOutput::Response {
                    req_id,
                    status: ResponseStatus::Error,
                    data: ResponseData::Empty,
                }
            },
        },
{
    let mut res: Vec<RpcOutput> = Vec::new();
    match result {
        Ok(code) => {
            res.push(
                log_line(
                    LogLevel::Info,
                    String::from_str("Room created successfully and invite code is ready"),
                ),
            );
            res.push(
                RpcOutput::Response {
                    req_id,
                    status: ResponseStatus::Success,
                    data: ResponseData::InviteCode(code.0),
                },
            );
        },
        Err(err) => {
            res.push(log_line(LogLevel::Error, failure_text("CREATE_ROOM failed: ", &err)));
            res.push(
                RpcOutput::Response { req_id, status: ResponseStatus::Error, data: ResponseData::Empty },
            );
        },
    }
    res
}

/// The log line of a join-room request.
pub fn join_room_received(local_proxy_port: u16, signaling_server: &Option<String>) -> (res:
    RpcOutput)
    ensures
        is_log(
            res,
            LogLevel::Info,
            "Received JOIN_ROOM, local_proxy_port="@ + decimal(local_proxy_port as nat)
                + ", signaling_server="@ + server_label(*signaling_server),
        ),
{
    let mut s = String::from_str("Received JOIN_ROOM, local_proxy_port=");
    push_decimal(&mut s, local_proxy_port as u64);
    s.append(", signaling_server=");
    append_server_label(&mut s, signaling_server);
    log_line(LogLevel::Info, s)
}

/// What follows a join-room attempt: on success a log line and a success
/// response carrying the answer code; on failure an error log line and an
/// error response with empty data.
pub fn join_room_outcome(req_id: String, result: Result<AnswerCode, String>) -> (res: Vec<
    RpcOutput,
>)
    ensures
        res@.len() == 2,
        match result {
            Ok(code) => {
                &&& is_log(res@[0], LogLevel::Info, "JOIN_ROOM succeeded and the answer is ready"@)
                &&& res@[1] == RpcOutput::Response {
                    req_id,
                    status: ResponseStatus::Success,
                    data: ResponseData::AnswerCode(code.0),
                }
            },
            Err(err) => {
                &&& is_log(res@[0], LogLevel::Error, "JOIN_ROOM failed: "@ + err@)
                &&& res@[1] == RpcOutput::Response {
                    req_id,
                    status: ResponseStatus::Error,
                    data: ResponseData::Empty,
                }
            },
        },
{
    let mut res: Vec<RpcOutput> = Vec::new();
    match result {
        Ok(code) => {
            res.push(
                log_line(
                    LogLevel::Info,
                    String::from_str("JOIN_ROOM succeeded and the answer is ready"),
                ),
            );
            res.push(
                RpcOutput::Response {
                    req_id,
                    status: ResponseStatus::Success,
                    data: ResponseData::AnswerCode(code.0),
                },
            );
        },
        Err(err) => {
            res.push(log_line(LogLevel::Error, failure_text("JOIN_ROOM failed: ", &err)));
            res.push(
                RpcOutput::Response { req_id, status: ResponseStatus::Error, data: ResponseData::Empty },
            );
        },
    }
    res
}

/// The log line of a request to accept an answer.
pub fn accept_answer_received() -> (res: RpcOutput)
    ensures
        is_log(res, LogLevel::Info, "Received HOST_ACCEPT_ANSWER"@),
{
    log_line(LogLevel::Info, String::from_str("Received HOST_ACCEPT_ANSWER"))
}

/// What follows an attempt to accept an answer: a log line and a response
/// with empty data, a success or an error.
pub fn accept_answer_outcome(req_id: String, result: Result<(), String>) -> (res: Vec<RpcOutput>)
    ensures
        res@.len() == 2,
        match result {
            Ok(()) => {
                &&& is_log(res@[0], LogLevel::Info, "Remote answer applied successfully"@)
                &&& res@[1] == RpcOutput::Response {
                    req_id,
                    status: ResponseStatus::Success,
                    data: ResponseData::Empty,
                }
            },
            Err(err) => {
                &&& is_log(res@[0], LogLevel::Error, "HOST_ACCEPT_ANSWER failed: "@ + err@)
                &&& res@[1] == RpcOutput::Response {
                    req_id,
                    status: ResponseStatus::Error,
                    data: ResponseData::Empty,
                }
            },
        },
{
    let mut res: Vec<RpcOutput> = Vec::new();
    match result {
        Ok(()) => {
            res.push(log_line(LogLevel::Info, String::from_str("Remote answer applied successfully")));
            res.push(
                RpcOutput::Response {
                    req_id,
                    status: ResponseStatus::Success,
                    data: ResponseData::Empty,
                },
            );
        },
        Err(err) => {
            res.push(log_line(LogLevel::Error, failure_text("HOST_ACCEPT_ANSWER failed: ", &err)));
            res.push(
                RpcOutput::Response { req_id, status: ResponseStatus::Error, data: ResponseData::Empty },
            );
        },
    }
    res
}

/// The log line of a request for the signaling servers.
pub fn signaling_servers_received() -> (res: RpcOutput)
    ensures
        is_log(res, LogLevel::Info, "Received GET_SIGNALING_SERVERS request"@),
{
    log_line(LogLevel::Info, String::from_str("Received GET_SIGNALING_SERVERS request"))
}

/// The response to a request for the signaling servers: a success carrying
/// the whole configuration.
pub fn signaling_servers_response(req_id: String, config: SignalingEnvConfig) -> (res: RpcOutput)
    ensures
        res == (RpcOutput::Response {
            req_id,
            status: ResponseStatus::Success,
            data: ResponseData::SignalingServers(config),
        }),
{
    RpcOutput::Response {
        req_id,
        status: ResponseStatus::Success,
        data: ResponseData::SignalingServers(config),
    }
}

// ---------------------------------------------------------------------------
// Input
// ---------------------------------------------------------------------------

/// The fields of a request's payload that the handlers read: each number as
/// JSON gives it as a `u64` (`None` where it is missing or no such number),
/// each text where it is a string.
pub struct RequestPayload {
    pub target_mc_port: Option<u64>,
    pub local_proxy_port: Option<u64>,
    pub signaling_server: Option<String>,
    pub invite_code: Option<String>,
    pub answer_code: Option<String>,
}

/// A request line from the launcher.
pub struct RpcRequest {
    pub req_id: String,
    pub action: String,
    pub payload: RequestPayload,
}

/// What a request asks the session manager to do.
pub enum Command {
    CreateRoom { req_id: String, target_mc_port: u16, signaling_server: Option<String> },
    JoinRoom {
        req_id: String,
        invite_code: String,
        local_proxy_port: u16,
        signaling_server: Option<String>,
    },
    AcceptAnswer { req_id: String, answer_code: String },
    GetSignalingServers { req_id: String },
}

/// The port a number gives: its low 16 bits (`as u16`).
pub open spec fn low_u16(v: u64) -> u16 {
    (v % 65536) as u16
}

/// The port a request gives, or `default` where it gives none.
pub open spec fn port_or(given: Option<u64>, default: u16) -> u16 {
    match given {
        Some(v) => low_u16(v),
        None => default,
    }
}

/// The command a request asks for, or `None` where the action is unknown or
/// a code it needs is missing. A room is created on port 25565 and joined on
/// port 50001 unless the request says otherwise.
pub open spec fn command_for(req: RpcRequest) -> Option<Command> {
    let p = req.payload;
    if req.action@ == "CREATE_ROOM"@ {
        Some(
            Command::CreateRoom {
                req_id: req.req_id,
                target_mc_port: port_or(p.target_mc_port, 25565),
                signaling_server: p.signaling_server,
            },
        )
    } else if req.action@ == "JOIN_ROOM"@ {
        match p.invite_code {
            Some(code) => Some(
                Command::JoinRoom {
                    req_id: req.req_id,
                    invite_code: code,
                    local_proxy_port: port_or(p.local_proxy_port, 50001),
                    signaling_server: p.signaling_server,
                },
            ),
            None => None,
        }
    } else if req.action@ == "HOST_ACCEPT_ANSWER"@ {
        match p.answer_code {
            Some(code) => Some(Command::AcceptAnswer { req_id: req.req_id, answer_code: code }),
            None => None,
        }
    } else if req.action@ == "GET_SIGNALING_SERVERS"@ {
        Some(Command::GetSignalingServers { req_id: req.req_id })
    } else {
        None
    }
}

/// A request to join a room that carries an invite code becomes a join
/// command with that request's id, invite code and signaling server, on the
/// port it gives or 50001.
pub proof fn law_join_room_keeps_request(req: RpcRequest)
    requires
        req.action@ == "JOIN_ROOM"@,
        req.payload.invite_code is Some,
    ensures
        command_for(req) matches Some(Command::JoinRoom { req_id, invite_code, local_proxy_port, signaling_server })
            && req_id == req.req_id && invite_code == req.payload.invite_code->0
            && signaling_server == req.payload.signaling_server
            && (req.payload.local_proxy_port is None ==> local_proxy_port == 50001)
            && (req.payload.local_proxy_port matches Some(v) ==> local_proxy_port as int == v % 65536),
{
    reveal_strlit("JOIN_ROOM");
    reveal_strlit("CREATE_ROOM");
    assert("JOIN_ROOM"@.len() != "CREATE_ROOM"@.len());
    assert("JOIN_ROOM"@ != "CREATE_ROOM"@);
}

/// A request to create a room becomes a create command with that request's id
/// and signaling server, on the port it gives or 25565.
pub proof fn law_create_room_keeps_request(req: RpcRequest)
    requires
        req.action@ == "CREATE_ROOM"@,
    ensures
        command_for(req) matches Some(Command::CreateRoom { req_id, target_mc_port, signaling_server })
            && req_id == req.req_id && signaling_server == req.payload.signaling_server
            && (req.payload.target_mc_port is None ==> target_mc_port == 25565)
            && (req.payload.target_mc_port matches Some(v) ==> target_mc_port as int == v % 65536),
{
}

/// A request to accept an answer that carries an answer code becomes an
/// accept command with that request's id and code; an action the protocol
/// does not know becomes no command.
pub proof fn law_accept_and_unknown_requests(req: RpcRequest)
    ensures
        req.action@ == "HOST_ACCEPT_ANSWER"@ && req.payload.answer_code is Some ==> command_for(req)
            == Some(
            Command::AcceptAnswer { req_id: req.req_id, answer_code: req.payload.answer_code->0 },
        ),
        req.action@ != "CREATE_ROOM"@ && req.action@ != "JOIN_ROOM"@ && req.action@
            != "HOST_ACCEPT_ANSWER"@ && req.action@ != "GET_SIGNALING_SERVERS"@ ==> command_for(req)
            is None,
{
    reveal_strlit("JOIN_ROOM");
    reveal_strlit("CREATE_ROOM");
    reveal_strlit("HOST_ACCEPT_ANSWER");
    assert("HOST_ACCEPT_ANSWER"@.len() != "CREATE_ROOM"@.len());
    assert("HOST_ACCEPT_ANSWER"@.len() != "JOIN_ROOM"@.len());
}

fn port_from(given: Option<u64>, default: u16) -> (res: u16)
    ensures
        res == port_or(given, default),
{
    match given {
        Some(v) => {
            assert(#[verifier::truncate] (v as u16) == (v % 65536) as u16) by (bit_vector);
            #[verifier::truncate]
            (v as u16)
        },
        None => default,
    }
}

/// Turns a request into the command it asks for.
pub fn dispatch(req: RpcRequest) -> (res: Option<Command>)
    ensures
        res == command_for(req),
        req.action@ == "JOIN_ROOM"@ && req.payload.invite_code is Some ==> res == Some(
            Command::JoinRoom {
                req_id: req.req_id,
                invite_code: req.payload.invite_code->0,
                local_proxy_port: port_or(req.payload.local_proxy_port, 50001),
                signaling_server: req.payload.signaling_server,
            },
        ),
        req.action@ == "CREATE_ROOM"@ ==> res == Some(
            Command::CreateRoom {
                req_id: req.req_id,
                target_mc_port: port_or(req.payload.target_mc_port, 25565),
                signaling_server: req.payload.signaling_server,
            },
        ),
{
    proof {
        reveal_strlit("JOIN_ROOM");
        reveal_strlit("CREATE_ROOM");
        assert("JOIN_ROOM"@.len() != "CREATE_ROOM"@.len());
    }
    let RpcRequest { req_id, action, payload } = req;
    let RequestPayload {
        target_mc_port,
        local_proxy_port,
        signaling_server,
        invite_code,
        answer_code,
    } = payload;
    if action == String::from_str("CREATE_ROOM") {
        Some(
            Command::CreateRoom {
                req_id,
                target_mc_port: port_from(target_mc_port, 25565),
                signaling_server,
            },
        )
    } else if action == String::from_str("JOIN_ROOM") {
        match invite_code {
            Some(code) => Some(
                Command::JoinRoom {
                    req_id,
                    invite_code: code,
                    local_proxy_port: port_from(local_proxy_port, 50001),
                    signaling_server,
                },
            ),
            None => None,
        }
    } else if action == String::from_str("HOST_ACCEPT_ANSWER") {
        match answer_code {
            Some(code) => Some(Command::AcceptAnswer { req_id, answer_code: code }),
            None => None,
        }
    } else if action == String::from_str("GET_SIGNALING_SERVERS") {
        Some(Command::GetSignalingServers { req_id })
    } else {
        None
    }
}

} // verus!
