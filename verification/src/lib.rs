//! Verified core of a peer-to-peer relay for a local TCP game service.
//!
//! One peer (the host) exposes a locally running service; another (the
//! client) exposes a local TCP listener and proxies traffic to the host
//! over a NAT-traversing peer transport. This crate holds the logic of
//! that bridge — connection lifecycle, the bounded retrying send queue,
//! byte relay, metrics, LAN-discovery message handling and virtual-IP
//! routing — each function with a verified contract. The surrounding
//! process (sockets, threads, the transport itself) lives outside and
//! hands this crate plain values.

pub mod bridge;
pub mod config;
pub mod connection;
pub mod lan_discovery;
pub mod metrics;
pub mod minecraft_discovery;
pub mod peer_table;
pub mod send_queue;
pub mod session;
pub mod text;
pub mod vpn;
