//! Verified core of a TCP/UDP forwarding proxy with token and TOTP authenticated
//! reverse tunnels.

pub mod config;
pub mod config_properties;
pub mod crypto;
pub mod error;
pub mod ip;
pub mod loader;
pub mod pool;
pub mod protocol;
pub mod relay;
pub mod resilient;
pub mod selector;
pub mod stealth;
pub mod status;
pub mod stream_cipher;
pub mod text;
pub mod totp;
pub mod transfer;
pub mod tunnel;
