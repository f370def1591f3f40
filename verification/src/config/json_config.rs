//! Tenant settings as they are kept in one record per tenant: in the
//! gateway's own configuration, or as a stored record in the session
//! store.

use crate::string_map::StringMap;
use vstd::prelude::*;

verus! {

/// The storage settings of one tenant.
#[derive(Debug)]
pub struct MinioConfig {
    pub config_key: String,
    pub access_key: String,
    pub secret_key: String,
    pub bucket_name: String,
    pub endpoint: String,
    pub redis_url: Option<String>,
}

/// A configuration that keeps one record per tenant.
#[derive(Debug)]
pub struct WarpMinioConfig {
    pub server_port: Option<u16>,
    pub disabled_auth: bool,
    pub default_redis_url: Option<String>,
    pub match_prefix: Option<String>,
    pub re_parsing_content_type: bool,
    pub power: Option<StringMap<MinioConfig>>,
}

impl WarpMinioConfig {
    /// The record configured for `config_key`.
    pub open spec fn record(&self, config_key: Seq<char>) -> Option<MinioConfig> {
        match self.power {
            Some(power) => power.lookup(config_key),
            None => None,
        }
    }
}

impl Clone for MinioConfig {
    fn clone(&self) -> (r: Self)
        ensures
            r == *self,
    {
        MinioConfig {
            config_key: self.config_key.clone(),
            access_key: self.access_key.clone(),
            secret_key: self.secret_key.clone(),
            bucket_name: self.bucket_name.clone(),
            endpoint: self.endpoint.clone(),
            redis_url: match &self.redis_url {
                Some(url) => Some(url.clone()),
                None => None,
            },
        }
    }
}

impl Default for WarpMinioConfig {
    fn default() -> (r: Self)
        ensures
            r.server_port is None,
            !r.disabled_auth,
            r.default_redis_url is None,
            r.match_prefix is None,
            !r.re_parsing_content_type,
            r.power is None,
    {
        WarpMinioConfig {
            server_port: None,
            disabled_auth: false,
            default_redis_url: None,
            match_prefix: None,
            re_parsing_content_type: false,
            power: None,
        }
    }
}

} // verus!
