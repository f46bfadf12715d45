use sharded_kv::health::{
    build_routing_table, build_routing_table_with_positions, cluster_startup_decision,
    ProbeOutcome,
};
use sharded_kv::outcome::{classify_store_reply, Outcome, StartupError, StoreFailure};
use sharded_kv::pool::{BoundedPool, ConnectionAcquirer};
use sharded_kv::registry::parse_backend_hosts;
use sharded_kv::router::get_key_instance_index;
use sharded_kv::store::{
    fetch_with_acquirer, store_then_fetch, store_with_acquirer, InstanceModel, ShardedKv,
};

#[test]
fn route_key_a_over_three_instances() {
    // "a" is byte 97, and 97 % 3 == 1
    assert_eq!(get_key_instance_index("a", 3), 1);
}

#[test]
fn route_key_ab_over_three_instances() {
    // "ab" is bytes 97 and 98, summing to 195, and 195 % 3 == 0
    assert_eq!(get_key_instance_index("ab", 3), 0);
}

#[test]
fn route_is_deterministic() {
    for key in ["", "a", "user1", "some-much-longer-key-with-dashes"] {
        for n in [1, 2, 3, 7, 100] {
            let first = get_key_instance_index(key, n);
            let second = get_key_instance_index(key, n);
            assert_eq!(first, second);
            assert!(first < n);
        }
    }
}

#[test]
fn route_empty_key_is_valid() {
    assert_eq!(get_key_instance_index("", 5), 0);
}

#[test]
fn route_exact_sums() {
    // "user1": 117 + 115 + 101 + 114 + 49 == 596
    assert_eq!(get_key_instance_index("user1", 10), 6);
    assert_eq!(get_key_instance_index("user1", 1), 0);
}

#[test]
fn registry_parses_and_trims_entries() {
    let hosts = parse_backend_hosts("redis://a:6379; redis://b:6380 ;\tc").unwrap();
    assert_eq!(
        hosts,
        vec![
            "redis://a:6379".to_string(),
            "redis://b:6380".to_string(),
            "c".to_string()
        ]
    );
}

#[test]
fn registry_single_entry() {
    let hosts = parse_backend_hosts("  127.0.0.1:6379  ").unwrap();
    assert_eq!(hosts, vec!["127.0.0.1:6379".to_string()]);
}

#[test]
fn registry_trims_unicode_whitespace() {
    // vertical tab, no-break space and em space are whitespace too
    let hosts = parse_backend_hosts("\u{0B}a\u{0B};\u{A0}b\u{2003}").unwrap();
    assert_eq!(hosts, vec!["a".to_string(), "b".to_string()]);
}

#[test]
fn registry_rejects_empty_entry() {
    assert_eq!(
        parse_backend_hosts("a;;b"),
        Err(StartupError::ConfigurationError)
    );
    assert_eq!(
        parse_backend_hosts("a; ;b"),
        Err(StartupError::ConfigurationError)
    );
}

#[test]
fn registry_rejects_empty_config() {
    assert_eq!(parse_backend_hosts(""), Err(StartupError::ConfigurationError));
    assert_eq!(
        parse_backend_hosts("   "),
        Err(StartupError::ConfigurationError)
    );
}

#[test]
fn failed_probe_excludes_instance() {
    let hosts = vec![
        "h1".to_string(),
        "h2".to_string(),
        "h3".to_string(),
    ];
    let outcomes = vec![
        ProbeOutcome::ConnectFailed,
        ProbeOutcome::Passed,
        ProbeOutcome::ReadFailed,
    ];
    let table = build_routing_table(&hosts, &outcomes).unwrap();
    assert_eq!(table, vec!["h2".to_string()]);
}

#[test]
fn probe_order_is_kept() {
    let hosts = vec![
        "a".to_string(),
        "b".to_string(),
        "c".to_string(),
        "d".to_string(),
    ];
    let outcomes = vec![
        ProbeOutcome::Passed,
        ProbeOutcome::WriteFailed,
        ProbeOutcome::Passed,
        ProbeOutcome::Passed,
    ];
    let table = build_routing_table(&hosts, &outcomes).unwrap();
    assert_eq!(
        table,
        vec!["a".to_string(), "c".to_string(), "d".to_string()]
    );
}

#[test]
fn routing_table_positions_name_the_surviving_instances() {
    let hosts = vec![
        "a".to_string(),
        "b".to_string(),
        "c".to_string(),
        "d".to_string(),
    ];
    let outcomes = vec![
        ProbeOutcome::Passed,
        ProbeOutcome::WriteFailed,
        ProbeOutcome::Passed,
        ProbeOutcome::Passed,
    ];
    let (table, positions) = build_routing_table_with_positions(&hosts, &outcomes).unwrap();
    assert_eq!(
        table,
        vec!["a".to_string(), "c".to_string(), "d".to_string()]
    );
    assert_eq!(positions, vec![0, 2, 3]);
}

#[test]
fn all_probes_failing_aborts_startup() {
    let hosts = vec![
        "h1".to_string(),
        "h2".to_string(),
        "h3".to_string(),
    ];
    let outcomes = vec![
        ProbeOutcome::ConnectFailed,
        ProbeOutcome::WriteFailed,
        ProbeOutcome::ReadFailed,
    ];
    assert_eq!(
        build_routing_table(&hosts, &outcomes),
        Err(StartupError::ProbeFailure)
    );
}

#[test]
fn cluster_probe_decides_startup() {
    assert_eq!(cluster_startup_decision(ProbeOutcome::Passed), Ok(()));
    assert_eq!(
        cluster_startup_decision(ProbeOutcome::ConnectFailed),
        Err(StartupError::ProbeFailure)
    );
    assert_eq!(
        cluster_startup_decision(ProbeOutcome::WriteFailed),
        Err(StartupError::ProbeFailure)
    );
}

#[test]
fn pool_grants_at_most_capacity() {
    let mut pool = BoundedPool::new(2);
    assert!(pool.try_acquire());
    assert!(pool.try_acquire());
    assert!(!pool.try_acquire());
    assert_eq!(pool.in_use(), 2);
    assert_eq!(pool.capacity(), 2);
    pool.release();
    assert_eq!(pool.in_use(), 1);
    assert!(pool.try_acquire());
    assert!(!pool.try_acquire());
}

#[test]
fn pool_of_zero_capacity_never_grants() {
    let mut pool = BoundedPool::new(0);
    assert!(!pool.try_acquire());
    assert_eq!(pool.in_use(), 0);
}

#[test]
fn acquirer_strategies() {
    let mut multiplexed = ConnectionAcquirer::Multiplexed;
    assert!(multiplexed.try_lease(true));
    assert!(!multiplexed.try_lease(false));
    multiplexed.release();

    let mut cluster = ConnectionAcquirer::ClusterNative;
    assert!(cluster.try_lease(true));
    assert!(!cluster.try_lease(false));
    cluster.release();

    let mut pooled = ConnectionAcquirer::Pooled(BoundedPool::new(1));
    assert!(pooled.try_lease(false));
    assert!(!pooled.try_lease(false));
    pooled.release();
    assert!(pooled.try_lease(true));
}

#[test]
fn classification_of_store_replies() {
    assert_eq!(
        classify_store_reply(Ok("value".to_string())),
        Outcome::Success("value".to_string())
    );
    assert_eq!(
        classify_store_reply(Err(StoreFailure::WrongType)),
        Outcome::NotFound
    );
    assert_eq!(
        classify_store_reply(Err(StoreFailure::Other("boom".to_string()))),
        Outcome::StoreError("boom".to_string())
    );
}

#[test]
fn instance_set_then_get() {
    let mut instance = InstanceModel::new();
    let ack = instance.set(&"user1".to_string(), &"alice".to_string());
    assert_eq!(ack, "OK".to_string());
    assert_eq!(
        instance.get(&"user1".to_string()),
        Ok("alice".to_string())
    );
}

#[test]
fn instance_get_of_absent_key_is_wrong_type() {
    let instance = InstanceModel::new();
    assert_eq!(
        instance.get(&"ghost".to_string()),
        Err(StoreFailure::WrongType)
    );
}

#[test]
fn instance_later_write_wins() {
    let mut instance = InstanceModel::new();
    instance.set(&"k".to_string(), &"v1".to_string());
    instance.set(&"k".to_string(), &"v2".to_string());
    assert_eq!(instance.get(&"k".to_string()), Ok("v2".to_string()));
}

#[test]
fn set_then_get_returns_just_written_value() {
    let mut kv = ShardedKv::new(3);
    let stored = kv.store(&"user1".to_string(), &"alice".to_string(), true);
    assert_eq!(stored, Outcome::Success("OK".to_string()));
    let fetched = kv.fetch(&"user1".to_string(), true);
    assert_eq!(fetched, Outcome::Success("alice".to_string()));
}

#[test]
fn get_of_unset_key_is_not_found() {
    let kv = ShardedKv::new(3);
    assert_eq!(kv.fetch(&"ghost".to_string(), true), Outcome::NotFound);
}

#[test]
fn transport_down_is_backend_unavailable() {
    let mut kv = ShardedKv::new(2);
    assert_eq!(
        kv.fetch(&"k".to_string(), false),
        Outcome::BackendUnavailable
    );
    assert_eq!(
        kv.store(&"k".to_string(), &"v".to_string(), false),
        Outcome::BackendUnavailable
    );
    // the failed write left nothing behind
    assert_eq!(kv.fetch(&"k".to_string(), true), Outcome::NotFound);
}

#[test]
fn acquirer_scoped_operations_release_the_handle() {
    let mut kv = ShardedKv::new(2);
    let mut acquirer = ConnectionAcquirer::Pooled(BoundedPool::new(1));
    let stored = store_with_acquirer(
        &mut kv,
        &mut acquirer,
        &"k".to_string(),
        &"v".to_string(),
        true,
    );
    assert_eq!(stored, Outcome::Success("OK".to_string()));
    // the single pooled handle came back, so the next lease succeeds
    let fetched = fetch_with_acquirer(&kv, &mut acquirer, &"k".to_string(), true);
    assert_eq!(fetched, Outcome::Success("v".to_string()));

    let mut multiplexed = ConnectionAcquirer::Multiplexed;
    assert_eq!(
        fetch_with_acquirer(&kv, &mut multiplexed, &"k".to_string(), false),
        Outcome::BackendUnavailable
    );
}

#[test]
fn store_then_fetch_composes() {
    let mut kv = ShardedKv::new(5);
    let outcome = store_then_fetch(&mut kv, &"key".to_string(), &"value".to_string());
    assert_eq!(outcome, Outcome::Success("value".to_string()));
    // the write really went to the routed instance: it is still readable
    assert_eq!(
        kv.fetch(&"key".to_string(), true),
        Outcome::Success("value".to_string())
    );
}
