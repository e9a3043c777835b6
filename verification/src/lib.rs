//! Process-host helpers: listen-address policy, subsystem HMAC authentication
//! and worker-stack sizing, each stated and proved over plain values.

pub mod addr_text;
pub mod error;
pub mod hex_text;
pub mod listener;
pub mod subsystem_auth;
pub mod text;
pub mod tokio_runtime;

pub use error::{BindPolicyError, ListenAddrError};
pub use listener::{ensure_bind_allowed, resolve_listen_addr, ListenAddrDefault};
