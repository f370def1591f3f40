//! The whole configuration, and what the gateway resolves from it.

use crate::auth::AuthType;
use crate::config::default_config::DefaultConfig;
use crate::config::power_config::PowerConfig;
use crate::config::redis_config::RedisConfig;
use crate::config::{PORT, URL_PREFIX};
use crate::foreign::pick_random;
use crate::string_map::StringMap;
use vstd::prelude::*;
use vstd::string::*;

verus! {

/// The session-store endpoints of the tenants `tenants`, tenant after
/// tenant.
pub open spec fn endpoints_of(tenants: Seq<PowerConfig>) -> Seq<RedisConfig>
    decreases tenants.len(),
{
    if tenants.len() == 0 {
        Seq::empty()
    } else {
        endpoints_of(tenants.drop_last()) + tenants.last().redis_list()
    }
}

/// The configuration of the gateway.
#[derive(Debug)]
pub struct WarpConfig {
    pub server_port: Option<u16>,
    pub auth_type: Option<AuthType>,
    pub match_prefix: Option<String>,
    pub parsing_content_type: bool,
    pub power: Option<StringMap<PowerConfig>>,
    pub default: DefaultConfig,
}

impl WarpConfig {
    /// Tenant keys are unique.
    pub open spec fn wf(&self) -> bool {
        self.power is Some ==> self.power.unwrap().wf()
    }

    /// The tenants in configuration order.
    pub open spec fn tenants(&self) -> Seq<PowerConfig> {
        match self.power {
            Some(power) => power.values(),
            None => Seq::empty(),
        }
    }

    /// The tenant configured under `config_key`.
    pub open spec fn tenant(&self, config_key: Seq<char>) -> Option<PowerConfig> {
        match self.power {
            Some(power) => power.lookup(config_key),
            None => None,
        }
    }

    /// The default session-store endpoints.
    pub open spec fn default_endpoints(&self) -> Seq<RedisConfig> {
        match self.default.redis_config {
            Some(list) => list@,
            None => Seq::empty(),
        }
    }

    /// The session-store endpoints among which one is picked for
    /// `config_key`: the tenant's own, or the default ones where the
    /// tenant is unknown or has none.
    pub open spec fn session_endpoints(&self, config_key: Seq<char>) -> Seq<RedisConfig> {
        match self.tenant(config_key) {
            Some(tenant) => if tenant.redis_list().len() > 0 {
                tenant.redis_list()
            } else {
                self.default_endpoints()
            },
            None => self.default_endpoints(),
        }
    }

    /// The port to serve: the configured one unless it is absent or zero.
    pub open spec fn spec_port(&self) -> u16 {
        match self.server_port {
            Some(port) => if port != 0 {
                port
            } else {
                PORT
            },
            None => PORT,
        }
    }

    /// The path prefix of gateway requests.
    pub open spec fn spec_url_prefix(&self) -> Seq<char> {
        match self.match_prefix {
            Some(prefix) => prefix@,
            None => URL_PREFIX@,
        }
    }

    /// The port to serve.
    pub fn port(&self) -> (r: u16)
        ensures
            r == self.spec_port(),
    {
        match self.server_port {
            Some(port) => if port != 0 {
                port
            } else {
                PORT
            },
            None => PORT,
        }
    }

    /// The path prefix of gateway requests.
    pub fn url_prefix(&self) -> (r: &str)
        ensures
            r@ == self.spec_url_prefix(),
    {
        match &self.match_prefix {
            Some(prefix) => prefix.as_str(),
            None => URL_PREFIX,
        }
    }

    /// The tenant configured under `config_key`.
    pub fn resolve_tenant(&self, config_key: &str) -> (r: Option<&PowerConfig>)
        ensures
            match r {
                Some(tenant) => self.tenant(config_key@) == Some(*tenant),
                None => self.tenant(config_key@) is None,
            },
    {
        match &self.power {
            Some(power) => power.get(config_key),
            None => None,
        }
    }

    /// The session-store endpoints of all tenants, in configuration order.
    pub fn power_redis_configs(&self) -> (r: Vec<RedisConfig>)
        ensures
            r@ == endpoints_of(self.tenants()),
    {
        let mut redis_configs: Vec<RedisConfig> = Vec::new();
        if let Some(power) = &self.power {
            let ghost tenants = power.values();
            let n = power.len();
            let mut i: usize = 0;
            while i < n
                invariant
                    n == tenants.len(),
                    tenants == power.values(),
                    n == power.keys().len(),
                    i <= n,
                    redis_configs@ == endpoints_of(tenants.take(i as int)),
                decreases n - i,
            {
                let tenant = power.value_at(i);
                let ghost before = redis_configs@;
                proof {
                    assert(tenants.take(i + 1).drop_last() =~= tenants.take(i as int));
                    assert(tenants.take(i + 1).last() == *tenant);
                }
                if let Some(redis_config_list) = &tenant.redis_config {
                    let mut j: usize = 0;
                    while j < redis_config_list.len()
                        invariant
                            j <= redis_config_list.len(),
                            redis_configs@ == before + redis_config_list@.take(j as int),
                        decreases redis_config_list.len() - j,
                    {
                        redis_configs.push(redis_config_list[j].clone());
                        assert(redis_config_list@.take(j + 1) =~= redis_config_list@.take(
                            j as int,
                        ).push(redis_config_list@[j as int]));
                        j += 1;
                    }
                    assert(redis_config_list@.take(j as int) =~= redis_config_list@);
                } else {
                    assert(redis_configs@ =~= before + tenant.redis_list());
                }
                i += 1;
            }
            assert(tenants.take(n as int) =~= tenants);
        }
        redis_configs
    }

    /// The list among which a session-store endpoint is picked for
    /// `config_key`; `None` where there is no endpoint to pick.
    pub fn session_endpoint_list(&self, config_key: &str) -> (r: Option<&Vec<RedisConfig>>)
        ensures
            match r {
                Some(list) => list@ == self.session_endpoints(config_key@) && list@.len() > 0,
                None => self.session_endpoints(config_key@).len() == 0,
            },
    {
        if let Some(tenant) = self.resolve_tenant(config_key) {
            if let Some(list) = &tenant.redis_config {
                if list.len() > 0 {
                    return Some(list);
                }
            }
        }
        match &self.default.redis_config {
            Some(list) => if list.len() > 0 {
                Some(list)
            } else {
                None
            },
            None => None,
        }
    }

    /// A copy of the endpoint that was picked.
    pub fn picked_endpoint(choice: Option<&RedisConfig>) -> (r: Option<RedisConfig>)
        ensures
            match choice {
                Some(endpoint) => r == Some(*endpoint),
                None => r is None,
            },
    {
        match choice {
            Some(endpoint) => Some(endpoint.clone()),
            None => None,
        }
    }

    /// A session-store endpoint for `config_key`, picked at random among
    /// the tenant's own, or among the default ones where the tenant is
    /// unknown or has none. `None` exactly when there is none to pick.
    pub fn get_redis_by_config_key(&self, config_key: &str) -> (r: Option<RedisConfig>)
        ensures
            r is Some <==> self.session_endpoints(config_key@).len() > 0,
            r is Some ==> self.session_endpoints(config_key@).contains(r.unwrap()),
    {
        match self.session_endpoint_list(config_key) {
            Some(list) => Self::picked_endpoint(pick_random(list)),
            None => None,
        }
    }

    /// The bucket of the tenant `config_key`.
    pub fn bucket_name(&self, config_key: String) -> (r: Option<String>)
        ensures
            r == match self.tenant(config_key@) {
                Some(tenant) => tenant.bucket_name,
                None => None,
            },
    {
        match self.resolve_tenant(config_key.as_str()) {
            Some(tenant) => match &tenant.bucket_name {
                Some(name) => Some(name.clone()),
                None => None,
            },
            None => None,
        }
    }
}

impl Default for WarpConfig {
    fn default() -> (r: Self)
        ensures
            r.server_port is None,
            r.auth_type is None,
            r.match_prefix is None,
            !r.parsing_content_type,
            r.power is None,
            r.default.redis_config is None,
            r.default.minio_config is None,
            r.default.bucket_name is None,
            r.wf(),
    {
        WarpConfig {
            server_port: None,
            auth_type: None,
            match_prefix: None,
            parsing_content_type: false,
            power: None,
            default: DefaultConfig::default(),
        }
    }
}

} // verus!
