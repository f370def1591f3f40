//! What the two kinds of connection pool have in common: how a pool is
//! sized, and why an endpoint may end up without one.

use vstd::prelude::*;

verus! {

/// The largest size of a storage pool whose endpoint names none.
pub const BACKEND_POOL_MAX_SIZE: u32 = 8;

/// The largest size of a session-store pool whose endpoint names none.
pub const SESSION_POOL_MAX_SIZE: u32 = 50;

/// Why an endpoint has no pool. Such an endpoint is left out; the others
/// are served.
#[derive(Debug, Clone, Copy, PartialEq, Eq, Structural)]
pub enum PoolInitError {
    /// The endpoint's URL is not one the pool's driver accepts.
    BadEndpointUrl,
    /// The largest size is zero, or smaller than the idle minimum.
    InvalidSizing,
}

/// The bounds of a pool: it keeps at least `min_idle` idle connections,
/// where that is set, and never more than `max_size` connections.
#[derive(Debug, Clone, Copy, PartialEq, Eq, Structural)]
pub struct PoolSizing {
    pub min_idle: Option<u32>,
    pub max_size: u32,
}

impl PoolSizing {
    /// A pool can be built with these bounds: the size is positive and
    /// the idle minimum does not exceed it.
    pub open spec fn valid(&self) -> bool {
        &&& self.max_size > 0
        &&& self.min_idle is Some ==> self.min_idle.unwrap() <= self.max_size
    }
}

/// The bounds an endpoint asks for, with `default_max` where it names no
/// largest size.
pub open spec fn requested_sizing(
    min_idle: Option<u32>,
    max_size: Option<u32>,
    default_max: u32,
) -> PoolSizing {
    PoolSizing {
        min_idle,
        max_size: match max_size {
            Some(m) => m,
            None => default_max,
        },
    }
}

/// The bounds of an endpoint's pool.
pub fn pool_sizing(min_idle: Option<u32>, max_size: Option<u32>, default_max: u32) -> (r: Result<
    PoolSizing,
    PoolInitError,
>)
    ensures
        match r {
            Ok(sizing) => sizing == requested_sizing(min_idle, max_size, default_max)
                && sizing.valid(),
            Err(e) => e == PoolInitError::InvalidSizing && !requested_sizing(
                min_idle,
                max_size,
                default_max,
            ).valid(),
        },
{
    let max = match max_size {
        Some(m) => m,
        None => default_max,
    };
    if max == 0 {
        return Err(PoolInitError::InvalidSizing);
    }
    match min_idle {
        Some(idle) => if idle > max {
            return Err(PoolInitError::InvalidSizing);
        },
        None => {},
    }
    Ok(PoolSizing { min_idle, max_size: max })
}

} // verus!
