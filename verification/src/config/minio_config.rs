//! One storage endpoint.

use vstd::prelude::*;

verus! {

/// A storage endpoint: where it is, the access credentials, and how large
/// its connection pool may grow.
#[derive(Debug)]
pub struct MinioConfig {
    pub access_key: String,
    pub secret_key: String,
    pub endpoint: String,
    pub max_pool_size: Option<u32>,
    pub idle_pool_size: Option<u32>,
}

impl Clone for MinioConfig {
    fn clone(&self) -> (r: Self)
        ensures
            r == *self,
    {
        MinioConfig {
            access_key: self.access_key.clone(),
            secret_key: self.secret_key.clone(),
            endpoint: self.endpoint.clone(),
            max_pool_size: self.max_pool_size,
            idle_pool_size: self.idle_pool_size,
        }
    }
}

} // verus!
