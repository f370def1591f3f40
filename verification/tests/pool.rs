use warp_minio::pool::{
    pool_sizing, PoolInitError, PoolSizing, BACKEND_POOL_MAX_SIZE, SESSION_POOL_MAX_SIZE,
};

#[test]
fn default_sizes() {
    assert_eq!(BACKEND_POOL_MAX_SIZE, 8);
    assert!(SESSION_POOL_MAX_SIZE > BACKEND_POOL_MAX_SIZE);
}

#[test]
fn sizing_takes_the_default_where_none_is_named() {
    assert_eq!(pool_sizing(None, None, 8), Ok(PoolSizing { min_idle: None, max_size: 8 }));
    assert_eq!(pool_sizing(Some(8), None, 8), Ok(PoolSizing { min_idle: Some(8), max_size: 8 }));
    assert_eq!(pool_sizing(Some(0), Some(1), 8), Ok(PoolSizing { min_idle: Some(0), max_size: 1 }));
    assert_eq!(
        pool_sizing(None, Some(4294967295), 8),
        Ok(PoolSizing { min_idle: None, max_size: 4294967295 })
    );
}

#[test]
fn sizing_refuses_what_no_pool_can_be_built_with() {
    assert_eq!(pool_sizing(None, Some(0), 8), Err(PoolInitError::InvalidSizing));
    assert_eq!(pool_sizing(None, None, 0), Err(PoolInitError::InvalidSizing));
    assert_eq!(pool_sizing(Some(9), None, 8), Err(PoolInitError::InvalidSizing));
    assert_eq!(pool_sizing(Some(3), Some(2), 8), Err(PoolInitError::InvalidSizing));
}
