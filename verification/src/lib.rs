//! Verified core of the PiHub peer-to-peer tunnel sidecar: the IPC protocol
//! decisions, the signaling protocol, the invite/answer codes, the peer
//! registry and the signaling-server configuration cache.

pub mod text;
pub mod domain;
pub mod signaling;
pub mod config;
pub mod engine;
pub mod ipc;
pub mod bridge;
