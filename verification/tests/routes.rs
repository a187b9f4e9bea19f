use fluxon_kv::cluster_manager::{ClusterMember, Metadata, NodeRole};
use fluxon_kv::master_kv_router::routes::{KvRouteInfo, KvRoutes, OneKvNodesRoutes};
use fluxon_kv::master_kv_router::MasterKvRouter;
use fluxon_kv::master_seg_manager::one_seg_allocator::Allocation;
use fluxon_kv::master_seg_manager::{NodeTombTag, TombBoard};

#[test]
fn one_kv_nodes_routes_only_reserves_two_get_durable_slots() {
    let mut routes = OneKvNodesRoutes::new((1, 0), None, 0);

    assert!(routes.try_reserve_get_durable_slot());
    assert!(routes.try_reserve_get_durable_slot());
    assert!(!routes.try_reserve_get_durable_slot());

    routes.release_get_durable_slot();
    assert!(routes.try_reserve_get_durable_slot());
}

fn new_test_member(pairs: &[(&str, &str)]) -> ClusterMember {
    let mut metadata = Metadata::new();
    for (key, value) in pairs {
        metadata.insert(key.to_string(), value.to_string());
    }
    ClusterMember {
        id: "node-a".to_string(),
        node_start_time: 1,
        role: NodeRole::Client,
        metadata,
        sub_cluster: Some("owner".to_string()),
    }
}

#[test]
fn segment_registration_readiness_accepts_owner_without_local_ipc_root() {
    let member = new_test_member(&[("client", "true"), ("p2p_relay", "true")]);

    assert!(MasterKvRouter::member_ready_for_segment_registration(
        &member
    ));
}

#[test]
fn segment_registration_readiness_rejects_external_and_side_worker() {
    let external = new_test_member(&[("external_client", "true")]);
    assert!(!MasterKvRouter::member_ready_for_segment_registration(
        &external
    ));

    let side_worker = new_test_member(&[
        ("client", "true"),
        ("side_transfer_worker", "true"),
        ("p2p_relay", "true"),
    ]);
    assert!(!MasterKvRouter::member_ready_for_segment_registration(
        &side_worker
    ));
}

fn block(addr: u64, size: u64) -> Allocation {
    Allocation {
        addr,
        size,
        capcity: size,
        base: 0x1000,
        allocator: 1,
        lease_reserved: false,
    }
}

fn replica(node: &str, tag: NodeTombTag, size: u64) -> KvRouteInfo {
    KvRouteInfo {
        node_id: node.to_string(),
        allocation: block(0, size),
        tomb_tag: tag,
    }
}

#[test]
fn replicas_of_gone_nodes_are_cleaned_up_and_others_stay() {
    let mut board = TombBoard::new();
    let a = NodeTombTag::new(&mut board);
    let b = NodeTombTag::new(&mut board);
    let mut route = OneKvNodesRoutes::new((5, 1), None, 7);
    assert!(route.insert_replica(replica("a", a, 10)).is_none());
    assert!(route.insert_replica(replica("b", b, 10)).is_none());
    a.set_tomb(&mut board);

    // Another version of the key is not touched.
    assert!(route
        .clean_up_tomb_nodes_replicas((5, 2), &vec!["a".to_string()])
        .is_none());
    assert_eq!(route.nodes_replicas.len(), 2);

    let dropped = route
        .clean_up_tomb_nodes_replicas((5, 1), &vec!["a".to_string()])
        .expect("same version");
    assert_eq!(dropped.len(), 1);
    assert_eq!(dropped[0].node_id, "a");
    assert_eq!(route.find_replica("a"), None);
    assert_eq!(route.find_replica("b"), Some(0));
    assert_eq!(route.living_size(&board), Some(10));
}

#[test]
fn a_route_without_living_replicas_has_no_size() {
    let mut board = TombBoard::new();
    let a = NodeTombTag::new(&mut board);
    let mut route = OneKvNodesRoutes::new((5, 1), None, 7);
    route.insert_replica(replica("a", a, 10));
    assert_eq!(route.living_size(&board), Some(10));
    a.set_tomb(&mut board);
    assert!(a.is_tomb(&board));
    assert_eq!(route.living_size(&board), None);
}

#[test]
fn a_second_replica_on_a_node_replaces_the_first() {
    let mut board = TombBoard::new();
    let a = NodeTombTag::new(&mut board);
    let mut route = OneKvNodesRoutes::new((5, 1), None, 7);
    route.insert_replica(replica("a", a, 10));
    let replaced = route.insert_replica(replica("a", a, 20)).expect("replaced");
    assert_eq!(replaced.allocation.size, 10);
    assert_eq!(route.nodes_replicas.len(), 1);
}

#[test]
fn routes_are_stored_and_taken_out_by_key() {
    let mut routes = KvRoutes::new();
    assert!(routes
        .insert("k".to_string(), OneKvNodesRoutes::new((1, 0), None, 0))
        .is_none());
    let replaced = routes
        .insert("k".to_string(), OneKvNodesRoutes::new((2, 0), Some(9), 1))
        .expect("earlier version");
    assert_eq!(replaced.put_id, (1, 0));
    assert_eq!(routes.get("k").expect("current").put_id, (2, 0));
    assert_eq!(routes.keys(), vec!["k".to_string()]);
    assert_eq!(routes.remove("k").expect("taken out").lease_id, Some(9));
    assert!(routes.get("k").is_none());
    assert!(routes.remove("k").is_none());
}
