//! The configuration the gateway is started with: tenants, their storage
//! and session-store endpoints, and the defaults they fall back to.
pub mod default_config;
pub mod json_config;
pub mod minio_config;
pub mod power_config;
pub mod redis_config;
pub mod warp_config;

use vstd::prelude::*;

verus! {

/// The number of characters of the `"Bearer "` scheme prefix.
pub const BEARER_PREFIX_LEN: usize = 7;

/// The path prefix of gateway requests when the configuration names none.
pub const URL_PREFIX: &'static str = "/minio";

/// The prefix of the session-store key under which a tenant's storage
/// settings may be kept.
pub const MINIO_CONFIG_KEY_PREFIX: &'static str = "sys_oss:";

/// The port served when the configuration names none.
pub const PORT: u16 = 9928;

} // verus!
