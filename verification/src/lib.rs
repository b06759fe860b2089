//! Control plane of a mesh-networking node: peer discovery and per-peer
//! tunnels, the exit's client reconciliation, and the membership cache.
//!
//! The library decides; the program around it performs. Every privileged
//! operation, network exchange and clock reading is requested from, or handed
//! in by, the caller as a plain value.

pub mod address_text;
pub mod clu;
pub mod dao_manager;
pub mod exit_manager;
pub mod exit_server_tunnel;
pub mod http_client;
pub mod identity;
pub mod kernel;
pub mod logging;
pub mod middleware;
pub mod net;
pub mod settings;
pub mod text;
pub mod tunnel_manager;
pub mod uint256;
pub mod wallet;
