//! Fixed configuration constants shared by the relay components.

use vstd::prelude::*;

verus! {

/// Default TCP port of the local game service the host bridges to.
pub const MC_SERVER_PORT: u16 = 25565;

/// TCP port the client's local listener binds to.
pub const CLIENT_LISTEN_PORT: u16 = 55555;

/// Size of the buffer a reader thread fills from the local stream.
pub const BUFFER_SIZE: usize = 65536;

/// Capacity of a peer's reliable send queue.
pub const SEND_QUEUE_SIZE: usize = 1000;

/// How many times a transport send is attempted before a task is dropped.
pub const RETRY_ATTEMPTS: usize = 5;

/// Delay between two send attempts, in milliseconds.
pub const RETRY_DELAY_MS: u64 = 50;

/// UDP port local game clients watch for LAN-discovery broadcasts.
pub const LAN_DISCOVERY_PORT: u16 = 4445;

/// Interval between two LAN-discovery broadcasts, in milliseconds.
pub const LAN_BROADCAST_INTERVAL_MS: u64 = 1500;

/// Server name announced in LAN-discovery broadcasts when none is given.
pub const LAN_SERVER_NAME: &'static str = "MCconnect P2P Server";

/// Deadline for a dialed connection to reach `Connected`, in milliseconds.
pub const CONNECT_TIMEOUT_MS: u64 = 15000;

/// Deadline for the initial room-join handshake, in milliseconds.
pub const JOIN_TIMEOUT_MS: u64 = 10000;

/// Most inbound transport messages drained in one poll iteration.
pub const INBOUND_BATCH_LIMIT: usize = 64;

/// How many times dialing the local service is tried for a new peer.
pub const LOCAL_DIAL_ATTEMPTS: u32 = 20;

/// Delay between two local-service dial attempts, in milliseconds.
pub const LOCAL_DIAL_DELAY_MS: u64 = 200;

/// Most packets moved per direction in one router iteration.
pub const ROUTER_BATCH_LIMIT: usize = 100;

/// Interval at which the client repeats its address handshake, in milliseconds.
pub const HANDSHAKE_RETRY_MS: u64 = 1000;

} // verus!
