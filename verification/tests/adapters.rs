use std::sync::Arc;

use requests_native::adapter_state::{BehaviorProof, RoutingProof};
use requests_native::managers::{ManagerPools, ManagerProof, ManagerRecord};
use requests_native::registry::{
    confirm, find_record, visible_query, CloseStep, Commit, Confirmation, EntryProofs,
    PoolRefusal, ProxyRecord, Registry,
};

fn behavior(object: usize) -> BehaviorProof {
    BehaviorProof { object, facts: Vec::new() }
}

fn pools(container: usize) -> ManagerPools {
    ManagerPools {
        pools: container,
        namespace: Vec::new(),
        container: RoutingProof { mapping: container, entries: Vec::new(), facts: Vec::new() },
        count: 0,
    }
}

fn record(manager: usize) -> ManagerRecord {
    ManagerRecord {
        manager: Arc::new(ManagerProof {
            manager,
            manager_type: 1,
            class_behavior: behavior(1),
            objects: Vec::new(),
            mappings: Vec::new(),
            pools_behavior: behavior(2),
        }),
        pools: Arc::new(pools(manager + 100)),
    }
}

fn proofs(weak_adapter: usize) -> EntryProofs {
    EntryProofs {
        weak_adapter,
        proxy_mapping: 60,
        manager: record(70),
        proxy_managers: vec![ProxyRecord { url: String::from("http://proxy"), record: record(71) }],
    }
}

#[test]
fn a_pool_is_made_once_and_found_again() {
    let mut registry = Registry::new();
    assert_eq!(registry.register(5, proofs(50)), Vec::<usize>::new());
    let query = registry.query_pool(5, None, "key").unwrap();
    assert!(!query.has_pool);
    let made = match registry.adapter_pool(5, query, None, "key", 4, Some(900)) {
        Ok(selection) => selection,
        Err(refusal) => panic!("{}", refusal.message()),
    };
    assert_eq!(made.pool, 900);
    assert!(made.evicted.is_empty());
    let again = registry.query_pool(5, None, "key").unwrap();
    assert!(again.has_pool);
    let found = match registry.adapter_pool(5, again, None, "key", 4, None) {
        Ok(selection) => selection,
        Err(refusal) => panic!("{}", refusal.message()),
    };
    assert_eq!(found.pool, 900);
    assert_eq!(registry.adapters_with_pools(), 1);
}

#[test]
fn a_pool_is_refused_once_the_adapter_is_gone() {
    let mut registry = Registry::new();
    registry.register(5, proofs(50));
    let query = registry.query_pool(5, None, "key").unwrap();
    registry.drop_adapter(5);
    assert!(matches!(
        registry.adapter_pool(5, query, None, "key", 4, Some(900)),
        Err(PoolRefusal::NotRegistered) | Err(PoolRefusal::Disappeared)
    ));
    let stale = {
        registry.register(5, proofs(50));
        registry.query_pool(5, None, "key").unwrap()
    };
    registry.register(5, proofs(51));
    assert!(registry.adapter_pool(5, stale, None, "key", 4, Some(900)).is_err());
}

#[test]
fn other_adapters_keep_their_pools() {
    let mut registry = Registry::new();
    registry.register(5, proofs(50));
    registry.register(6, proofs(51));
    for identity in [5, 6] {
        let query = registry.query_pool(identity, Some("http://proxy"), "key").unwrap();
        assert!(registry
            .adapter_pool(identity, query, Some("http://proxy"), "key", 4, Some(900 + identity))
            .is_ok());
    }
    assert_eq!(registry.drop_adapter(5), vec![905]);
    let query = registry.query_pool(6, Some("http://proxy"), "key").unwrap();
    assert!(query.has_pool);
    assert!(registry.find(5).is_none());
}

#[test]
fn closing_gives_every_pool_back() {
    let mut registry = Registry::new();
    registry.register(5, proofs(50));
    for (proxy, pool) in [(None, 901), (Some("http://proxy"), 902)] {
        let query = registry.query_pool(5, proxy, "key").unwrap();
        assert!(registry.adapter_pool(5, query, proxy, "key", 4, Some(pool)).is_ok());
    }
    let query = registry.query_close(5).unwrap();
    assert_eq!(query.proxies.len(), 1);
    match registry.close(5, &query, pools(170), vec![pools(171)]) {
        CloseStep::Closed { count, pools } => {
            assert_eq!(count, 2);
            assert_eq!(pools.len(), 2);
            assert!(pools.contains(&901));
            assert!(pools.contains(&902));
        }
        _ => panic!("the adapter is known"),
    }
    assert_eq!(registry.adapters_with_pools(), 0);
    assert!(registry.find(5).is_some());
}

#[test]
fn closing_again_is_asked_for_after_a_change() {
    let mut registry = Registry::new();
    registry.register(5, proofs(50));
    let query = registry.query_close(5).unwrap();
    registry.register(5, proofs(50));
    assert!(!matches!(
        registry.close(5, &query, pools(170), vec![pools(171)]),
        CloseStep::Closed { .. }
    ));
    assert!(matches!(
        registry.close(9, &query, pools(170), vec![pools(171)]),
        CloseStep::Absent
    ));
}

#[test]
fn only_the_life_that_was_meant_is_reaped() {
    let mut registry = Registry::new();
    registry.register(5, proofs(50));
    let epoch = registry.find(5).unwrap().lifecycle_epoch;
    assert_eq!(registry.reap(5, epoch + 1), Vec::<usize>::new());
    assert!(registry.find(5).is_some());
    registry.reap(5, epoch);
    assert!(registry.find(5).is_none());
}

#[test]
fn visible_managers_are_recorded_for_the_life_that_was_seen() {
    let mut registry = Registry::new();
    registry.register(5, proofs(50));
    let (epoch, revision) = {
        let entry = registry.find(5).unwrap();
        (entry.lifecycle_epoch, entry.proof_revision)
    };
    assert!(matches!(
        registry.record_visible_direct_manager(5, epoch, revision, 70, pools(180)),
        Commit::Done
    ));
    assert!(matches!(
        registry.record_visible_direct_manager(5, epoch, revision, 70, pools(181)),
        Commit::Again
    ));
    assert!(matches!(
        confirm(&registry, 5, epoch, revision, 60, true),
        Confirmation::Again
    ));
}

#[test]
fn records_of_proxies_are_found_by_address() {
    let proofs = proofs(50);
    assert_eq!(
        find_record(&proofs.proxy_managers, "http://proxy").map(|record| record.manager.manager),
        Some(71)
    );
    assert!(find_record(&proofs.proxy_managers, "http://other").is_none());
    let shared = proofs.share();
    assert_eq!(shared.weak_adapter, 50);
    assert_eq!(shared.proxy_managers.len(), 1);
}

#[test]
fn pools_are_asked_for_by_the_registered_adapter() {
    let mut registry = Registry::new();
    registry.register(5, proofs(50));
    let query = registry.query_pool(5, None, "key");
    assert!(query.is_some());
    assert_eq!(visible_query(query, 7, 7, 70), Ok(query.unwrap()));
    assert_eq!(visible_query(query, 7, 8, 70), Err(PoolRefusal::IdentityChanged));
    assert_eq!(visible_query(query, 7, 7, 71), Err(PoolRefusal::IdentityChanged));
    let absent = registry.query_pool(6, None, "key");
    assert_eq!(visible_query(absent, 7, 7, 70), Err(PoolRefusal::NotRegistered));
    let proxied = registry.query_pool(5, Some("http://proxy"), "key");
    assert_eq!(visible_query(proxied, 7, 7, 70), Ok(proxied.unwrap()));
}
