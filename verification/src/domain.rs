//! The domain's value objects and events.

use vstd::prelude::*;

verus! {

/// An invite code: what the host hands to a player (a room id, or a session
/// description packed as base64).
pub struct InviteCode(pub String);

/// An answer code: what the player hands back to the host.
pub struct AnswerCode(pub String);

/// How a peer-to-peer tunnel is routed.
#[derive(Clone, Copy, PartialEq, Eq, Structural, Debug)]
pub enum RouteType {
    IPv6Direct,
    LocalNetwork,
    UdpP2p,
    TcpP2p,
    TurnRelay,
}

/// A change inside the engine that is reported to the launcher.
pub enum EngineEvent {
    /// The tunnel is up and the local proxy port is ready.
    TunnelReady { local_proxy_port: u16, route_method: RouteType, latency_ms: u32 },
    /// A player joined (on the host's side).
    PlayerJoined { peer_id: String, route_method: RouteType },
    /// The connection was lost.
    Disconnected(String),
}

} // verus!
