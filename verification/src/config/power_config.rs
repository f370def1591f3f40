//! One tenant.

use crate::config::minio_config::MinioConfig;
use crate::config::redis_config::RedisConfig;
use crate::string_map::StringMap;
use vstd::prelude::*;

verus! {

/// A tenant: its bucket, its session-store endpoints and its storage
/// endpoints.
#[derive(Debug)]
pub struct PowerConfig {
    pub bucket_name: Option<String>,
    pub redis_config: Option<Vec<RedisConfig>>,
    pub minio_config: Option<Vec<MinioConfig>>,
    pub convert: Option<StringMap<String>>,
}

impl PowerConfig {
    /// The tenant's session-store endpoints; none where none are
    /// configured.
    pub open spec fn redis_list(&self) -> Seq<RedisConfig> {
        match self.redis_config {
            Some(list) => list@,
            None => Seq::empty(),
        }
    }

    /// The tenant's storage endpoints; none where none are configured.
    pub open spec fn minio_list(&self) -> Seq<MinioConfig> {
        match self.minio_config {
            Some(list) => list@,
            None => Seq::empty(),
        }
    }
}

impl Default for PowerConfig {
    fn default() -> (r: Self)
        ensures
            r.bucket_name is None,
            r.redis_config is None,
            r.minio_config is None,
            r.convert is None,
    {
        PowerConfig { bucket_name: None, redis_config: None, minio_config: None, convert: None }
    }
}

} // verus!
