//! The local end of a tunnel: the address it connects to or listens on, and
//! the event that announces it.

use vstd::prelude::*;
use vstd::string::*;
use crate::ipc::{EventData, RpcOutput};
use crate::text::{decimal, push_decimal};

verus! {

/// The bridge between a data channel and a local TCP port.
pub struct NetworkBridge;

/// The loopback address of a local port.
pub open spec fn loopback_addr(port: u16) -> Seq<char> {
    "127.0.0.1:"@ + decimal(port as nat)
}

impl NetworkBridge {
    /// The address that a bridge uses for a local port (the game server it
    /// connects to on the host's side, the proxy it listens on on the
    /// client's side).
    pub fn local_addr(port: u16) -> (res: String)
        ensures
            res@ == loopback_addr(port),
    {
        let mut s = String::from_str("127.0.0.1:");
        push_decimal(&mut s, port as u64);
        s
    }

    /// The event that tells the launcher that the client's tunnel is ready on
    /// its proxy port.
    pub fn tunnel_ready_event(proxy_port: u16) -> (res: RpcOutput)
        ensures
            res matches RpcOutput::Event { event_name, data } && event_name@ == "TUNNEL_READY"@
                && data == (EventData::TunnelReady { proxy_port }),
    {
        RpcOutput::Event {
            event_name: String::from_str("TUNNEL_READY"),
            data: EventData::TunnelReady { proxy_port },
        }
    }
}

} // verus!
