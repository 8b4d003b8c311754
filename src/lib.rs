//! Secure gateway between a legacy command/response avionics bus and an
//! IP-framed industrial protocol: wire codecs, normalization onto a common
//! message, rule-based routing and transformation, and a security envelope
//! backed by a managed key store.

pub mod codec;
pub mod config;
pub mod crypto;
pub mod error;
pub mod ethernet_ip;
pub mod gateway;
pub mod key_manager;
pub mod mil1553;
pub mod protocols;
pub mod router;
pub mod security;
pub mod text;
pub mod transformer;
pub mod utils;
pub mod wire;

pub use config::Config;
pub use gateway::Gateway;
