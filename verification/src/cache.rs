//! The session-store side: which pools are to be built, and the registry
//! of the pools that were built, keyed by endpoint.

use crate::config::redis_config::RedisConfig;
use crate::config::warp_config::{endpoints_of, WarpConfig};
use crate::config::MINIO_CONFIG_KEY_PREFIX;
use crate::foreign::{redis_manager, redis_url_accepted};
use crate::pool::{pool_sizing, requested_sizing, PoolInitError, PoolSizing, SESSION_POOL_MAX_SIZE};
use crate::string_map::StringMap;
use crate::text::join;
use r2d2_redis::redis::RedisError;
use r2d2_redis::RedisConnectionManager;
use vstd::prelude::*;
use vstd::string::*;

verus! {

/// One session-store pool that is to be built: the key it will be
/// registered under, the manager that opens its connections, and its
/// bounds.
#[derive(Debug)]
pub struct SessionPoolPlan {
    pub key: String,
    pub manager: RedisConnectionManager,
    pub sizing: PoolSizing,
}

/// The bounds that a session-store endpoint asks for.
pub open spec fn session_sizing(config: RedisConfig) -> PoolSizing {
    requested_sizing(config.idle_pool_size, config.max_pool_size, SESSION_POOL_MAX_SIZE)
}

/// What is planned for an endpoint whose URL was accepted or not: a pool
/// under the endpoint's key with the bounds it asks for, unless the URL
/// was refused or the bounds are not valid.
pub open spec fn planned(
    r: Result<SessionPoolPlan, PoolInitError>,
    config: RedisConfig,
    accepted: bool,
) -> bool {
    match r {
        Ok(plan) => {
            &&& accepted
            &&& session_sizing(config).valid()
            &&& plan.key@ == config.pool_key_text()
            &&& plan.sizing == session_sizing(config)
        },
        Err(e) => if !accepted {
            e == PoolInitError::BadEndpointUrl
        } else {
            e == PoolInitError::InvalidSizing && !session_sizing(config).valid()
        },
    }
}

/// `plans` holds what is planned for `configs`, one for one.
pub open spec fn all_planned(
    plans: Seq<Result<SessionPoolPlan, PoolInitError>>,
    configs: Seq<RedisConfig>,
) -> bool {
    &&& plans.len() == configs.len()
    &&& forall|i: int|
        0 <= i < plans.len() ==> planned(
            #[trigger] plans[i],
            configs[i],
            redis_url_accepted(configs[i].url_text()),
        )
}

/// The session-store endpoints of the configuration: the default ones,
/// then those of the tenants.
pub open spec fn session_pool_configs(config: WarpConfig) -> Seq<RedisConfig> {
    config.default_endpoints() + endpoints_of(config.tenants())
}

/// The plan for an endpoint, given what became of its URL: the manager
/// built from it, or the refusal.
pub fn session_pool_plan(config: &RedisConfig, manager: Result<RedisConnectionManager, RedisError>) -> (r: Result<SessionPoolPlan, PoolInitError>)
    ensures
        planned(r, *config, manager is Ok),
        r is Ok ==> r.unwrap().manager == manager.unwrap(),
{
    let manager = match manager {
        Ok(manager) => manager,
        Err(_) => {
            return Err(PoolInitError::BadEndpointUrl);
        },
    };
    match pool_sizing(config.idle_pool_size, config.max_pool_size, SESSION_POOL_MAX_SIZE) {
        Ok(sizing) => Ok(SessionPoolPlan { key: config.pool_key(), manager, sizing }),
        Err(e) => Err(e),
    }
}

/// The plan for the pool of one endpoint.
pub fn plan_session_pool(config: &RedisConfig) -> (r: Result<SessionPoolPlan, PoolInitError>)
    ensures
        planned(r, *config, redis_url_accepted(config.url_text())),
{
    let manager = redis_manager(config.redis_url());
    session_pool_plan(config, manager)
}

/// Adds the plans for `configs` to `plans`.
pub fn plan_session_pools(
    plans: &mut Vec<Result<SessionPoolPlan, PoolInitError>>,
    configs: &Vec<RedisConfig>,
)
    ensures
        final(plans)@.len() == old(plans)@.len() + configs@.len(),
        forall|i: int| 0 <= i < old(plans)@.len() ==> final(plans)@[i] == old(plans)@[i],
        forall|i: int|
            0 <= i < configs@.len() ==> planned(
                #[trigger] final(plans)@[old(plans)@.len() + i],
                configs@[i],
                redis_url_accepted(configs@[i].url_text()),
            ),
{
    let mut i: usize = 0;
    while i < configs.len()
        invariant
            i <= configs.len(),
            plans@.len() == old(plans)@.len() + i,
            forall|j: int| 0 <= j < old(plans)@.len() ==> plans@[j] == old(plans)@[j],
            forall|j: int|
                0 <= j < i ==> planned(
                    #[trigger] plans@[old(plans)@.len() + j],
                    configs@[j],
                    redis_url_accepted(configs@[j].url_text()),
                ),
        decreases configs.len() - i,
    {
        plans.push(plan_session_pool(&configs[i]));
        i += 1;
    }
}

/// The session-store pools that are to be built: one plan, or the reason
/// for none, for every configured endpoint, the default ones first.
pub fn initialize_redis_pools(config: &WarpConfig) -> (r: Vec<Result<SessionPoolPlan, PoolInitError>>)
    ensures
        all_planned(r@, session_pool_configs(*config)),
{
    let mut plans: Vec<Result<SessionPoolPlan, PoolInitError>> = Vec::new();
    match &config.default.redis_config {
        Some(list) => plan_session_pools(&mut plans, list),
        None => {},
    }
    let ghost defaults = plans@;
    let tenants = config.power_redis_configs();
    plan_session_pools(&mut plans, &tenants);
    proof {
        let all = session_pool_configs(*config);
        assert forall|i: int| 0 <= i < plans@.len() implies planned(
            #[trigger] plans@[i],
            all[i],
            redis_url_accepted(all[i].url_text()),
        ) by {
            if i < defaults.len() {
                assert(plans@[i] == defaults[i]);
                assert(defaults[0 + i] == defaults[i]);
            } else {
                assert(plans@[defaults.len() + (i - defaults.len())] == plans@[i]);
            }
        }
    }
    plans
}

/// The session-store key under which a tenant's storage settings may be
/// kept.
pub fn minio_config_key(config_key: &str) -> (r: String)
    ensures
        r@ == MINIO_CONFIG_KEY_PREFIX@ + config_key@,
{
    join(MINIO_CONFIG_KEY_PREFIX, config_key)
}

/// The text of the failure to find a pool for `key`.
pub open spec fn no_pool_text(key: Seq<char>) -> Seq<char> {
    "No Redis pool found for key: "@ + key
}

/// The session-store pools that were built, each under the key of its
/// endpoint.
#[derive(Debug)]
pub struct RedisPools<P> {
    pub pools: StringMap<P>,
}

impl<P> RedisPools<P> {
    /// A registry without pools.
    pub fn new() -> (r: Self)
        ensures
            r.pools.keys().len() == 0,
            r.pools.wf(),
    {
        RedisPools { pools: StringMap::new() }
    }

    /// Registers a pool under the key of its endpoint, in place of any
    /// pool registered under that key before.
    pub fn insert_pool(&mut self, key: String, pool: P)
        ensures
            final(self).pools@ == old(self).pools@.insert(key@, pool),
            final(self).pools.lookup(key@) == Some(pool),
            forall|k: Seq<char>| k != key@ ==> final(self).pools.lookup(k) == old(self).pools.lookup(k),
            old(self).pools.wf() ==> final(self).pools.wf(),
    {
        self.pools.insert(key, pool);
    }

    /// What `pool_for` returns for an endpoint.
    pub open spec fn found(&self, endpoint: Option<RedisConfig>, key: Seq<char>, r: Result<&P, String>) -> bool {
        let pool = match endpoint {
            Some(e) => self.pools.lookup(e.pool_key_text()),
            None => None,
        };
        match r {
            Ok(p) => pool == Some(*p),
            Err(message) => pool is None && message@ == no_pool_text(key),
        }
    }

    /// The pool of the endpoint that was picked for the tenant `key`.
    /// Without an endpoint, or without a pool for it, the lookup fails.
    pub fn pool_for(&self, endpoint: Option<&RedisConfig>, key: &str) -> (r: Result<&P, String>)
        ensures
            self.found(
                match endpoint {
                    Some(e) => Some(*e),
                    None => None,
                },
                key@,
                r,
            ),
    {
        if let Some(e) = endpoint {
            let pool_key = e.pool_key();
            if let Some(pool) = self.pools.get(pool_key.as_str()) {
                return Ok(pool);
            }
        }
        Err(join("No Redis pool found for key: ", key))
    }

    /// The pool of a session-store endpoint of the tenant `key`, the
    /// endpoint picked at random among the tenant's own or, where it has
    /// none, among the default ones.
    pub fn get_redis_pool(&self, config: &WarpConfig, key: &str) -> (r: Result<&P, String>)
        ensures
            match r {
                Ok(pool) => exists|i: int|
                    0 <= i < config.session_endpoints(key@).len() && self.pools.lookup(
                        (#[trigger] config.session_endpoints(key@)[i]).pool_key_text(),
                    ) == Some(*pool),
                Err(message) => message@ == no_pool_text(key@),
            },
            config.session_endpoints(key@).len() == 0 ==> r is Err,
            config.session_endpoints(key@).len() > 0 && (forall|i: int|
                0 <= i < config.session_endpoints(key@).len() ==> self.pools.lookup(
                    (#[trigger] config.session_endpoints(key@)[i]).pool_key_text(),
                ) is Some) ==> r is Ok,
    {
        let endpoint = config.get_redis_by_config_key(key);
        match &endpoint {
            Some(e) => self.pool_for(Some(e), key),
            None => self.pool_for(None, key),
        }
    }
}

} // verus!
