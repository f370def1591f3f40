//! What a tenant falls back to.

use crate::config::minio_config::MinioConfig;
use crate::config::redis_config::RedisConfig;
use vstd::prelude::*;

verus! {

/// The endpoints that serve tenants which configure none of their own.
#[derive(Debug)]
pub struct DefaultConfig {
    pub bucket_name: Option<String>,
    pub redis_config: Option<Vec<RedisConfig>>,
    pub minio_config: Option<Vec<MinioConfig>>,
}

impl Default for DefaultConfig {
    fn default() -> (r: Self)
        ensures
            r.bucket_name is None,
            r.redis_config is None,
            r.minio_config is None,
    {
        DefaultConfig { bucket_name: None, redis_config: None, minio_config: None }
    }
}

} // verus!
