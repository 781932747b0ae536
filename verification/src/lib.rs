//! State and rules of a Watch Together relay: rooms, the registry that holds
//! them, quotas, client addresses, crash logs and room-state snapshots.

pub mod cleanup;
pub mod client_ip;
pub mod clock;
pub mod config;
pub mod connection;
pub mod error;
pub mod handles;
pub mod host_transfer;
pub mod http;
pub mod id_map;
pub mod ids;
pub mod key_map;
pub mod logs;
pub mod protocol;
pub mod quotas;
pub mod registry;
pub mod room;
pub mod snapshot;
pub mod text;
pub mod ws;
