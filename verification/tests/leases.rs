use fluxon_kv::error::LeaseMgrErrorOf;
use fluxon_kv::master_kv_router::routes::{KvRoutes, OneKvNodesRoutes};
use fluxon_kv::master_lease_manager::expire_heap::ExpireHeap;
use fluxon_kv::master_lease_manager::lease::{Lease, LeaseState};
use fluxon_kv::master_lease_manager::master_lease_manager::{
    handle_allocate_client_lease, handle_client_lease_keepalive, MasterLeaseManager,
    MasterLeaseManagerNewArg,
};
use fluxon_kv::master_lease_manager::msg_pack::{AllocateClientLeaseReq, ClientLeaseKeepaliveReq};

fn manager() -> MasterLeaseManager {
    MasterLeaseManager::construct(MasterLeaseManagerNewArg {
        cleanup_interval: 5,
        default_ttl: 30,
    })
}

/// Works off everything that has expired at a time; returns the keys to delete.
fn clean_up(manager: &mut MasterLeaseManager, routes: &KvRoutes, now: u64) -> Vec<String> {
    let mut deletions = manager.cleanup_expired(now, routes);
    deletions.sort();
    deletions
}

fn routes_of(keys: &[(&str, (u64, u32))]) -> KvRoutes {
    let mut routes = KvRoutes::new();
    for (at, (key, put_id)) in keys.iter().enumerate() {
        routes.insert(key.to_string(), OneKvNodesRoutes::new(*put_id, None, at as u64));
    }
    routes
}

#[test]
fn keys_of_an_expired_lease_are_deleted() {
    let mut manager = manager();
    let lease = manager.grant_lease_unchecked(3, 1_000);
    let keys: Vec<String> = (0..10).map(|i| format!("t1_key_{}", i)).collect();
    for (i, key) in keys.iter().enumerate() {
        manager
            .attach_key(lease, key.clone(), (7, i as u32))
            .expect("attach");
    }
    let entries: Vec<(&str, (u64, u32))> = keys
        .iter()
        .enumerate()
        .map(|(i, k)| (k.as_str(), (7u64, i as u32)))
        .collect();
    let routes = routes_of(&entries);
    assert!(clean_up(&mut manager, &routes, 3_999).is_empty());
    assert_eq!(clean_up(&mut manager, &routes, 4_000), keys);
    assert!(manager.list_leases().is_empty());
}

#[test]
fn a_key_that_was_put_again_survives_its_first_lease() {
    let mut manager = manager();
    let first = manager.grant_lease_unchecked(2, 0);
    let second = manager.grant_lease_unchecked(4, 0);
    manager
        .attach_key(first, "k".to_string(), (1, 0))
        .expect("attach");
    manager
        .attach_key(second, "k".to_string(), (2, 0))
        .expect("attach");
    let routes = routes_of(&[("k", (2, 0))]);
    assert!(clean_up(&mut manager, &routes, 2_000).is_empty());
    assert_eq!(clean_up(&mut manager, &routes, 4_000), vec!["k".to_string()]);
}

#[test]
fn keepalive_defers_the_cleanup() {
    let mut manager = manager();
    let lease = manager.grant_lease(100, 0).expect("lease");
    manager
        .attach_key(lease, "k".to_string(), (1, 0))
        .expect("attach");
    manager
        .client_lease_keepalive(lease, None, 50_000)
        .expect("kept");
    let routes = routes_of(&[("k", (1, 0))]);
    assert!(clean_up(&mut manager, &routes, 100_000).is_empty());
    assert_eq!(manager.list_leases(), vec![lease]);
    assert_eq!(clean_up(&mut manager, &routes, 150_000), vec!["k".to_string()]);
}

#[test]
fn a_short_ttl_is_refused() {
    let mut manager = manager();
    match manager.grant_lease(89, 0) {
        Err(LeaseMgrErrorOf::InvalidTTL { ttl, .. }) => assert_eq!(ttl, 89),
        other => panic!("unexpected: {:?}", other),
    }
    assert!(manager.grant_lease(90, 0).is_ok());
    assert!(matches!(
        handle_allocate_client_lease(
            &mut manager,
            &AllocateClientLeaseReq {
                requested_ttl_seconds: 0
            },
            0
        ),
        Err(LeaseMgrErrorOf::InvalidTTL { .. })
    ));
    let resp = handle_allocate_client_lease(
        &mut manager,
        &AllocateClientLeaseReq {
            requested_ttl_seconds: 120,
        },
        0,
    )
    .expect("granted");
    assert_eq!(resp.ttl_seconds, 120);
}

#[test]
fn an_unknown_lease_is_not_found() {
    let mut manager = manager();
    assert!(matches!(
        manager.attach_key(42, "k".to_string(), (1, 0)),
        Err(LeaseMgrErrorOf::LeaseNotFound { lease_id: 42, .. })
    ));
    assert!(matches!(
        handle_client_lease_keepalive(
            &mut manager,
            &ClientLeaseKeepaliveReq {
                lease_id: 42,
                custom_ttl: 0
            },
            0
        ),
        Err(LeaseMgrErrorOf::LeaseNotFound { lease_id: 42, .. })
    ));
}

#[test]
fn ids_count_up_and_can_be_given() {
    let mut manager = manager();
    let a = manager.grant_lease(90, 0).expect("lease");
    let b = manager.grant_lease(90, 0).expect("lease");
    assert_eq!((a, b), (1, 2));
    assert!(matches!(manager.grant_lease_with_id(90, 50, 0), Ok(50)));
    let mut ids = manager.list_leases();
    ids.sort();
    assert_eq!(ids, vec![1, 2, 50]);
}

#[test]
fn a_granted_id_is_never_that_of_another_lease() {
    let mut manager = manager();
    assert!(matches!(manager.grant_lease_with_id(120, 1, 0), Ok(1)));
    manager.attach_key(1, "k".to_string(), (1, 0)).expect("attach");
    assert!(matches!(manager.grant_lease_with_id(120, 2, 0), Ok(2)));
    assert!(matches!(manager.grant_lease(100, 0), Ok(3)));
    let mut ids = manager.list_leases();
    ids.sort();
    assert_eq!(ids, vec![1, 2, 3]);
    let routes = routes_of(&[("k", (1, 0))]);
    assert!(clean_up(&mut manager, &routes, 119_999).is_empty());
    assert_eq!(clean_up(&mut manager, &routes, 120_000), vec!["k".to_string()]);
}

#[test]
fn a_keepalive_is_held_to_the_least_term() {
    let mut manager = manager();
    let lease = manager.grant_lease(90, 0).expect("lease");
    for custom_ttl in [1, 89] {
        assert!(matches!(
            handle_client_lease_keepalive(
                &mut manager,
                &ClientLeaseKeepaliveReq { lease_id: lease, custom_ttl },
                50_000
            ),
            Err(LeaseMgrErrorOf::InvalidTTL { ttl, .. }) if ttl == custom_ttl
        ));
    }
    assert!(matches!(
        manager.client_lease_keepalive(lease, Some(0), 50_000),
        Err(LeaseMgrErrorOf::InvalidTTL { ttl: 0, .. })
    ));
    // Of a lease that is not there, that is what is said, whatever the term.
    assert!(matches!(
        handle_client_lease_keepalive(
            &mut manager,
            &ClientLeaseKeepaliveReq { lease_id: lease + 1, custom_ttl: 1 },
            50_000
        ),
        Err(LeaseMgrErrorOf::LeaseNotFound { lease_id, .. }) if lease_id == lease + 1
    ));
    let routes = routes_of(&[]);
    clean_up(&mut manager, &routes, 89_999);
    assert_eq!(manager.list_leases(), vec![lease]);
    handle_client_lease_keepalive(
        &mut manager,
        &ClientLeaseKeepaliveReq { lease_id: lease, custom_ttl: 90 },
        50_000,
    )
    .expect("kept");
    clean_up(&mut manager, &routes, 139_999);
    assert_eq!(manager.list_leases(), vec![lease]);
    clean_up(&mut manager, &routes, 140_000);
    assert!(manager.list_leases().is_empty());
}

#[test]
fn the_cleanup_task_is_woken_for_an_earlier_expiry() {
    let mut manager = manager();
    manager.grant_lease_unchecked(100, 0);
    assert!(manager.take_cleanup_notification());
    manager.grant_lease_unchecked(200, 0);
    assert!(!manager.take_cleanup_notification());
    manager.grant_lease_unchecked(50, 0);
    assert!(manager.take_cleanup_notification());
    assert_eq!(manager.next_sleep_ms(20_000), 30_000);
}

#[test]
fn leases_expire_once_and_refuse_work_afterwards() {
    let mut lease = Lease::new(7, 10, 1_000);
    assert_eq!(lease.get_expiration_time(), 11_000);
    assert_eq!(lease.get_remaining_ttl_ms(4_000), 7_000);
    lease.attach_key("k".to_string(), (1, 2)).expect("attach");
    assert_eq!(
        lease.get_keys_with_put_ids(),
        vec![("k".to_string(), (1, 2))]
    );
    lease.refresh(Some(1), 4_000).expect("refresh");
    assert_eq!(lease.get_expiration_time(), 5_000);
    lease.refresh(None, 4_000).expect("refresh");
    assert_eq!(lease.get_expiration_time(), 14_000);
    lease.expire().expect("expire");
    assert_eq!(lease.get_state(), LeaseState::Expired);
    assert!(matches!(
        lease.expire(),
        Err(LeaseMgrErrorOf::LeaseExpired { lease_id: 7, .. })
    ));
    assert!(matches!(
        lease.refresh(None, 5_000),
        Err(LeaseMgrErrorOf::LeaseExpired { lease_id: 7, .. })
    ));
    assert!(lease.attach_key("j".to_string(), (1, 3)).is_err());
    assert_eq!(lease.get_attributes().keys_count, 1);
    assert_eq!(
        lease.dbg_str(),
        "Lease { id: 7, ttl: 10s, state: Expired, keys_count: 1, expiration: 14000 }"
    );
}

#[test]
fn the_heap_gives_out_the_earliest_record() {
    let mut heap = ExpireHeap::new();
    assert_eq!(heap.peek(), None);
    for record in [(5, 1), (2, 9), (7, 3), (2, 1)] {
        heap.push(record);
    }
    let mut times = Vec::new();
    while let Some((time, _)) = heap.pop() {
        times.push(time);
    }
    assert_eq!(times, vec![2, 2, 5, 7]);
}

#[test]
fn records_are_worked_off_earliest_first() {
    let mut manager = manager();
    let late = manager.grant_lease_unchecked(3, 0);
    let early = manager.grant_lease_unchecked(1, 0);
    let tied = manager.grant_lease_unchecked(3, 0);
    manager.grant_lease_unchecked(9, 0);
    let expired = manager.collect_expired(3_000);
    assert_eq!(expired, vec![(1_000, early), (3_000, late), (3_000, tied)]);
    let routes = routes_of(&[]);
    manager
        .client_lease_keepalive(late, Some(90), 2_000)
        .expect("kept");
    assert!(manager.cleanup_single_lease(&expired, 0, &routes).is_some());
    assert!(manager.cleanup_single_lease(&expired, 1, &routes).is_none());
    assert!(manager.cleanup_single_lease(&expired, 2, &routes).is_some());
    assert_eq!(manager.list_leases().len(), 2);
}

#[test]
fn a_time_that_does_not_fit_is_noticed() {
    let mut manager = manager();
    let lease = manager.grant_lease(u64::MAX, 0).expect("lease");
    assert!(!manager.can_keep_alive(lease, None, 0));
    assert!(manager.can_keep_alive(lease, Some(90), 0));
    assert!(!manager.can_keep_alive(lease, Some(u64::MAX / 1000), 1_000));
    assert!(manager.can_keep_alive(lease + 1, None, u64::MAX));
}
