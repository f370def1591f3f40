use warp_minio::config::default_config::DefaultConfig;
use warp_minio::config::minio_config::MinioConfig;
use warp_minio::config::power_config::PowerConfig;
use warp_minio::config::warp_config::WarpConfig;
use warp_minio::minio::minio_pool::{
    initialize_minio_pools, plan_backend_pool, select_in, MinioPool, MinioPoolInstance, PoolGroup,
    ProbeOutcome, ProbeReport, ProbeTarget,
};
use warp_minio::minio::r2d2_minio::MinioConnectionManager;
use warp_minio::pool::{PoolInitError, PoolSizing};
use warp_minio::string_map::StringMap;

fn registry(flags: &[bool]) -> MinioPool<char> {
    let mut pools = MinioPool::new();
    let names: Vec<char> = (0..flags.len()).map(|i| (b'A' + i as u8) as char).collect();
    assert!(pools.insert_pool("t1".to_string(), names));
    for (i, healthy) in flags.iter().enumerate() {
        let outcome = if *healthy { ProbeOutcome::Healthy } else { ProbeOutcome::ProbeFailed };
        pools.record_probe(ProbeReport { target: ProbeTarget { group: 0, instance: i }, outcome });
    }
    pools
}

fn chosen_pool(pools: &mut MinioPool<char>, key: &str) -> Option<char> {
    let group = pools.group_of(key)?;
    let instance = pools.get_minio_client(key)?;
    pools.pool_at(ProbeTarget { group, instance }).copied()
}

fn endpoint(url: &str, max: Option<u32>, idle: Option<u32>) -> MinioConfig {
    MinioConfig {
        access_key: "ak".to_string(),
        secret_key: "sk".to_string(),
        endpoint: url.to_string(),
        max_pool_size: max,
        idle_pool_size: idle,
    }
}

#[test]
fn selection_skips_the_unhealthy_instance() {
    let mut pools = registry(&[true, false, true]);
    let picks: Vec<Option<char>> = (0..7).map(|_| chosen_pool(&mut pools, "t1")).collect();
    assert_eq!(
        picks,
        vec![Some('A'), Some('C'), Some('C'), Some('A'), Some('C'), Some('C'), Some('A')]
    );
}

#[test]
fn selection_returns_none_when_all_are_unhealthy() {
    let mut pools = registry(&[false, false, false]);
    for _ in 0..3 {
        assert_eq!(pools.get_minio_client("t1"), None);
    }
    assert_eq!(pools.groups.value_at(0).cursor, 0);
}

#[test]
fn selection_rotates_over_healthy_instances() {
    let mut pools = registry(&[true, true, true]);
    let picks: Vec<Option<usize>> = (0..4).map(|_| pools.get_minio_client("t1")).collect();
    assert_eq!(picks, vec![Some(0), Some(1), Some(2), Some(0)]);
}

#[test]
fn selection_wraps_to_reach_a_healthy_instance() {
    let mut pools = registry(&[true, false, false]);
    assert_eq!(pools.get_minio_client("t1"), Some(0));
    assert_eq!(pools.get_minio_client("t1"), Some(0));
    assert_eq!(pools.get_minio_client("t1"), Some(0));
    assert_eq!(pools.groups.value_at(0).cursor, 0);
}

#[test]
fn selection_for_an_unknown_key_gives_none() {
    let mut pools = registry(&[true]);
    assert_eq!(pools.get_minio_client("other"), None);
    assert_eq!(pools.group_of("other"), None);
    assert_eq!(pools.groups.value_at(0).cursor, 0);
}

#[test]
fn selection_advances_the_cursor_by_one_per_call() {
    let mut pools = registry(&[false, true, false]);
    assert_eq!(pools.groups.value_at(0).cursor, 0);
    pools.get_minio_client("t1");
    assert_eq!(pools.groups.value_at(0).cursor, 1);
    pools.get_minio_client("t1");
    assert_eq!(pools.groups.value_at(0).cursor, 2);
    pools.get_minio_client("t1");
    assert_eq!(pools.groups.value_at(0).cursor, 0);
}

#[test]
fn select_in_brings_a_stray_cursor_back_into_the_ring() {
    let group = PoolGroup {
        instances: vec![
            MinioPoolInstance { pool: 'A', is_healthy: true },
            MinioPoolInstance { pool: 'B', is_healthy: true },
        ],
        cursor: 5,
    };
    assert_eq!(select_in(&group), Some(1));
    let empty: PoolGroup<char> = PoolGroup { instances: vec![], cursor: 0 };
    assert_eq!(select_in(&empty), None);
}

#[test]
fn insert_pool_without_pools_leaves_the_key_absent() {
    let mut pools: MinioPool<char> = MinioPool::new();
    assert!(!pools.insert_pool("t1".to_string(), vec![]));
    assert_eq!(pools.group_of("t1"), None);
    assert_eq!(pools.groups.len(), 0);
}

#[test]
fn insert_pool_registers_healthy_instances_in_order() {
    let mut pools: MinioPool<char> = MinioPool::new();
    assert!(pools.insert_pool("t1".to_string(), vec!['x', 'y']));
    assert!(pools.insert_pool("t2".to_string(), vec!['z']));
    assert_eq!(pools.group_of("t2"), Some(1));
    let group = pools.groups.value_at(0);
    assert_eq!(group.cursor, 0);
    assert_eq!(group.instances.len(), 2);
    assert!(group.instances.iter().all(|instance| instance.is_healthy));
    assert_eq!(pools.pool_at(ProbeTarget { group: 0, instance: 1 }), Some(&'y'));
    assert_eq!(pools.pool_at(ProbeTarget { group: 1, instance: 0 }), Some(&'z'));
    assert_eq!(pools.pool_at(ProbeTarget { group: 1, instance: 1 }), None);
    assert_eq!(pools.pool_at(ProbeTarget { group: 2, instance: 0 }), None);
}

#[test]
fn probe_targets_visit_every_instance_once() {
    let mut pools: MinioPool<char> = MinioPool::new();
    pools.insert_pool("a".to_string(), vec!['1', '2']);
    pools.insert_pool("b".to_string(), vec!['3']);
    assert_eq!(
        pools.probe_targets(),
        vec![
            ProbeTarget { group: 0, instance: 0 },
            ProbeTarget { group: 0, instance: 1 },
            ProbeTarget { group: 1, instance: 0 },
        ]
    );
    let empty: MinioPool<char> = MinioPool::new();
    assert_eq!(empty.probe_targets(), vec![]);
}

#[test]
fn health_checks_flip_flags_only() {
    let mut pools: MinioPool<char> = MinioPool::new();
    pools.insert_pool("a".to_string(), vec!['1', '2']);
    pools.insert_pool("b".to_string(), vec!['3']);
    pools.get_minio_client("a");
    let reports = vec![
        ProbeReport { target: ProbeTarget { group: 0, instance: 1 }, outcome: ProbeOutcome::CheckoutFailed },
        ProbeReport { target: ProbeTarget { group: 1, instance: 0 }, outcome: ProbeOutcome::ProbeFailed },
        ProbeReport { target: ProbeTarget { group: 1, instance: 0 }, outcome: ProbeOutcome::Healthy },
        ProbeReport { target: ProbeTarget { group: 7, instance: 0 }, outcome: ProbeOutcome::ProbeFailed },
        ProbeReport { target: ProbeTarget { group: 0, instance: 9 }, outcome: ProbeOutcome::ProbeFailed },
    ];
    pools.perform_health_checks(&reports);
    let a = pools.groups.value_at(0);
    assert_eq!(a.cursor, 1);
    assert_eq!(a.instances.len(), 2);
    assert!(a.instances[0].is_healthy);
    assert!(!a.instances[1].is_healthy);
    assert_eq!(a.instances[1].pool, '2');
    let b = pools.groups.value_at(1);
    assert!(b.instances[0].is_healthy);
    assert_eq!(pools.groups.len(), 2);
}

#[test]
fn an_instance_that_recovers_is_selected_again() {
    let mut pools = registry(&[false, false]);
    assert_eq!(pools.get_minio_client("t1"), None);
    pools.record_probe(ProbeReport {
        target: ProbeTarget { group: 0, instance: 1 },
        outcome: ProbeOutcome::Healthy,
    });
    assert_eq!(pools.get_minio_client("t1"), Some(1));
}

#[test]
fn plan_for_one_backend_endpoint() {
    let plan = plan_backend_pool("t1", &endpoint("http://s3.local:9000", None, Some(2)));
    assert_eq!(plan.config_key, "t1");
    assert_eq!(plan.manager.endpoint(), "http://s3.local:9000");
    assert_eq!(plan.manager.access_key(), "ak");
    assert_eq!(plan.manager.secret_key(), "sk");
    assert_eq!(plan.sizing, Ok(PoolSizing { min_idle: Some(2), max_size: 8 }));
}

#[test]
fn plan_with_invalid_sizing() {
    let zero = plan_backend_pool("t1", &endpoint("e", Some(0), None));
    assert_eq!(zero.sizing, Err(PoolInitError::InvalidSizing));
    let idle_too_large = plan_backend_pool("t1", &endpoint("e", Some(2), Some(3)));
    assert_eq!(idle_too_large.sizing, Err(PoolInitError::InvalidSizing));
    let idle_over_default = plan_backend_pool("t1", &endpoint("e", None, Some(9)));
    assert_eq!(idle_over_default.sizing, Err(PoolInitError::InvalidSizing));
}

#[test]
fn plans_cover_default_and_tenant_endpoints_in_order() {
    let mut power = StringMap::new();
    power.insert(
        "t1".to_string(),
        PowerConfig {
            bucket_name: Some("bkt".to_string()),
            redis_config: None,
            minio_config: Some(vec![endpoint("e1", Some(4), None), endpoint("e2", None, None)]),
            convert: None,
        },
    );
    power.insert("t2".to_string(), PowerConfig::default());
    power.insert(
        "t3".to_string(),
        PowerConfig {
            bucket_name: None,
            redis_config: None,
            minio_config: Some(vec![endpoint("e3", None, None)]),
            convert: None,
        },
    );
    let config = WarpConfig {
        server_port: None,
        auth_type: None,
        match_prefix: None,
        parsing_content_type: false,
        power: Some(power),
        default: DefaultConfig {
            bucket_name: None,
            redis_config: None,
            minio_config: Some(vec![endpoint("e0", None, None)]),
        },
    };
    let plans = initialize_minio_pools(&config);
    let seen: Vec<(String, String, u32)> = plans
        .iter()
        .map(|plan| {
            (
                plan.config_key.clone(),
                plan.manager.endpoint().clone(),
                plan.sizing.map(|sizing| sizing.max_size).unwrap_or(0),
            )
        })
        .collect();
    assert_eq!(
        seen,
        vec![
            ("default".to_string(), "e0".to_string(), 8),
            ("t1".to_string(), "e1".to_string(), 4),
            ("t1".to_string(), "e2".to_string(), 8),
            ("t3".to_string(), "e3".to_string(), 8),
        ]
    );
    assert!(initialize_minio_pools(&WarpConfig::default()).is_empty());
}

#[test]
fn connection_manager_keeps_what_it_was_given() {
    let manager =
        MinioConnectionManager::new("http://h".to_string(), "a".to_string(), "s".to_string());
    assert_eq!(manager.endpoint(), "http://h");
    assert_eq!(manager.access_key(), "a");
    assert_eq!(manager.secret_key(), "s");
}
