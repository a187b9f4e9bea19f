use fluxon_kv::cluster_manager::{ClusterMember, Metadata, NodeRole};
use fluxon_kv::config::MasterTestSwitches;
use fluxon_kv::error::{ApiErrorOf, KvErrorOf, UnreachableErrorOf};
use fluxon_kv::external_client_api::put::{held_value, ExternalGetInfo, ExternalPutStartOk};
use fluxon_kv::master_kv_router::cache_capacity::{CacheResize, CapacityStep};
use fluxon_kv::master_kv_router::get::{GetStartOutcome, GetStartStep};
use fluxon_kv::master_kv_router::msg_pack::{
    CountPrefixReq, GetAllocationMode, GetDoneReq, GetMetaReq, GetRevokeReq, GetStartReq,
    PutDoneReq, PutRevokeReq, PutStartReq,
};
use fluxon_kv::master_kv_router::placement_metrics::PutPlacementMode;
use fluxon_kv::master_kv_router::put::{
    validate_put_start_source_node_override, PutDoneStep, PutStartStep,
    META_KEY_SHARED_STORAGE_NODE_ID, META_KEY_SHARED_STORAGE_NODE_START_TIME,
};
use fluxon_kv::master_kv_router::replica_cache::NodeReplicaCache;
use fluxon_kv::master_kv_router::version_ids::next_put_id;
use fluxon_kv::master_kv_router::{
    evicted_replica, saturated_weight, CacheRemoval, CacheUpdate, MasterKvRouter,
    MasterKvRouterNewArg, MasterKvRouterView, NodeValueReplicaDesc,
};
use fluxon_kv::master_lease_manager::master_lease_manager::{
    MasterLeaseManager, MasterLeaseManagerNewArg,
};
use fluxon_kv::master_seg_manager::msg_pack::{
    SegmentDeviceDescription, SegmentDeviceMemInfo, SegmentRegistration,
};
use fluxon_kv::master_seg_manager::one_seg_allocator::{Allocation, AllocationOutcome, CreatedAllocator, Region};
use fluxon_kv::master_seg_manager::{MasterSegManager, MasterSegManagerNewArg};
use moka::sync::SegmentedCache;

struct Cluster {
    router: MasterKvRouter,
    manager: MasterSegManager,
    leases: MasterLeaseManager,
    next_addr: u64,
    full: bool,
}

fn member(id: &str, pairs: &[(&str, &str)]) -> ClusterMember {
    let mut metadata = Metadata::new();
    for (key, value) in pairs {
        metadata.insert(key.to_string(), value.to_string());
    }
    ClusterMember {
        id: id.to_string(),
        node_start_time: 100,
        role: NodeRole::Client,
        metadata,
        sub_cluster: None,
    }
}

impl Cluster {
    fn new(nodes: &[&str]) -> Cluster {
        let mut cluster = Cluster {
            router: MasterKvRouter::construct(MasterKvRouterNewArg {
                test_spec_config: MasterTestSwitches::default(),
            }),
            manager: MasterSegManager::construct(MasterSegManagerNewArg),
            leases: MasterLeaseManager::construct(MasterLeaseManagerNewArg {
                cleanup_interval: 5,
                default_ttl: 30,
            }),
            next_addr: 0,
            full: false,
        };
        for (number, node) in nodes.iter().enumerate() {
            cluster
                .manager
                .register_node_segments(
                    node.to_string(),
                    vec![SegmentRegistration {
                        device_id: "cpu:0".to_string(),
                        desc: SegmentDeviceDescription::Cpu,
                        mem: SegmentDeviceMemInfo {
                            addr: 0x10000,
                            len: 1 << 20,
                        },
                        allocator: Ok(CreatedAllocator {
                            id: number as u64,
                            total_size: 1 << 20,
                        }),
                    }],
                )
                .expect("register");
        }
        cluster
    }

    fn allocate(&mut self, len: u64) -> AllocationOutcome {
        if self.full {
            return AllocationOutcome {
                used: 1 << 20,
                region: None,
            };
        }
        let start_addr = self.next_addr;
        self.next_addr += 4096;
        AllocationOutcome {
            used: self.next_addr,
            region: Some(Region {
                start_addr,
                size: len.max(64),
            }),
        }
    }

    fn put_start(&mut self, node: &str, req: &PutStartReq) -> PutStartStep {
        let requester = member(node, &[]);
        let mut step = self.router.handle_put_start(
            &self.manager,
            req,
            node.to_string(),
            Some(&requester),
            Some(&requester),
            1000,
        );
        loop {
            match step {
                PutStartStep::TryAllocate(pending) => {
                    let outcome = self.allocate(req.len);
                    step = self.router.put_start_allocated(
                        &mut self.manager,
                        pending,
                        &outcome,
                        &vec![],
                    );
                }
                done => return done,
            }
        }
    }

    /// Starts and commits a put; returns its id and the node that holds the value.
    fn put(&mut self, node: &str, key: &str, len: u64, lease_id: Option<u64>) -> ((u64, u32), String) {
        let req = put_req(key, len);
        let PutStartStep::Done { put_id, reply, .. } = self.put_start(node, &req) else {
            panic!("unreachable");
        };
        let resp = reply.expect("put start");
        let step = self.router.handle_put_done(
            &self.manager,
            &mut self.leases,
            &PutDoneReq {
                key: key.to_string(),
                put_id,
                lease_id,
            },
            800_000,
        );
        let outcome = match step {
            PutDoneStep::Done(outcome) => outcome,
            PutDoneStep::SetMaxCapacity { pending, .. } => {
                self.router.put_done_resized(pending, CacheResize::Resized)
            }
        };
        outcome.reply.expect("put done");
        (put_id, resp.node_id)
    }

    fn get_start(&mut self, node: &str, key: &str) -> GetStartOutcome {
        let mut step = self.router.handle_get_start(
            &self.manager,
            &GetStartReq {
                key: key.to_string(),
            },
            node.to_string(),
        );
        loop {
            match step {
                GetStartStep::TryAllocate(pending) => {
                    let outcome = self.allocate(64);
                    step = self.router.get_start_allocated(pending, &outcome);
                }
                GetStartStep::Done(outcome) => return outcome,
            }
        }
    }
}

fn put_req(key: &str, len: u64) -> PutStartReq {
    PutStartReq {
        key: key.to_string(),
        len,
        reject_if_inflight_same_key: false,
        preferred_sub_cluster: None,
        source_node_id: None,
    }
}

#[test]
fn a_committed_value_is_found_by_another_node() {
    let mut cluster = Cluster::new(&["n1", "n2"]);
    let (put_id, holder) = cluster.put("n1", "k", 64, None);
    let other = if holder == "n1" { "n2" } else { "n1" };
    let started = cluster.get_start(other, "k");
    let resp = started.reply.expect("found");
    assert_eq!(resp.put_id, put_id);
    assert_eq!(resp.node_id, holder);
    assert_eq!(resp.len, 64);
    assert_eq!(resp.src_base_addr, 0x10000);

    let done = cluster.router.handle_get_done(
        &cluster.manager,
        &GetDoneReq {
            get_id: started.get_id,
        },
    );
    let reply = done.reply.expect("done");
    // The requester's copy became a replica.
    assert_eq!(reply.allocation_mode, GetAllocationMode::DurableReplica);
    assert_eq!(done.holding.expect("held").holding_node_id, other);
    assert!(matches!(done.cache_update, Some(CacheUpdate::Insert { .. })));

    let again = cluster.get_start(other, "k");
    let get_id = again.get_id;
    assert!(again.reply.is_ok());
    let reused = cluster
        .router
        .handle_get_done(&cluster.manager, &GetDoneReq { get_id });
    assert_eq!(
        reused.reply.expect("done").allocation_mode,
        GetAllocationMode::ReuseReplica
    );
}

/// Copies `len` bytes from an address on one node to an address on another.
fn transfer(memory: &mut [Vec<u8>], from: (&str, u64), to: (&str, u64), len: u64) {
    let place = |(node, addr): (&str, u64)| {
        let number: usize = if node == "n1" { 0 } else { 1 };
        (number, (addr - 0x10000) as usize)
    };
    let (from_node, from_at) = place(from);
    let (to_node, to_at) = place(to);
    let value = memory[from_node][from_at..from_at + len as usize].to_vec();
    memory[to_node][to_at..to_at + len as usize].copy_from_slice(&value);
}

#[test]
fn what_an_external_client_put_is_what_it_gets() {
    let mut cluster = Cluster::new(&["n1", "n2"]);
    let mut memory = [vec![0u8; 1 << 20], vec![0u8; 1 << 20]];
    // The target is chosen at random: both nodes come up.
    for number in 0..40u8 {
        let key = format!("ext_client_test_key_{number}");
        let value: Vec<u8> = b"hello_external".iter().map(|byte| byte ^ number).collect();
        let PutStartStep::Done { put_id, reply, .. } =
            cluster.put_start("n1", &put_req(&key, value.len() as u64))
        else {
            panic!("unreachable");
        };
        let resp = reply.expect("put start");
        let answer = ExternalPutStartOk {
            put_id: Some(put_id),
            src_offset: resp.src_addr - resp.src_base_addr,
            target_offset: resp.target_addr - resp.target_base_addr,
            transfer_target_offset: None,
            peer_id: None,
            target_base_addr: resp.target_base_addr,
        };
        let at = (answer.write_addr(0x7000) - 0x7000) as usize;
        memory[0][at..at + value.len()].copy_from_slice(&value);
        let target = (resp.node_id.as_str(), resp.target_addr);
        transfer(&mut memory, ("n1", resp.src_addr), target, resp.len);
        let req = PutDoneReq { key: key.clone(), put_id, lease_id: None };
        let PutDoneStep::Done(outcome) =
            cluster.router.handle_put_done(&cluster.manager, &mut cluster.leases, &req, 800_000)
        else {
            panic!("there is no lease");
        };
        outcome.reply.expect("put done");

        // The first get may bring the value to the owner, the second finds it there.
        for _ in 0..2 {
            let started = cluster.get_start("n1", &key);
            let resp = started.reply.expect("found");
            let source = (resp.node_id.as_str(), resp.src_addr);
            transfer(&mut memory, source, ("n1", resp.target_addr), resp.len);
            let info = ExternalGetInfo {
                offset: resp.target_addr - resp.target_base_addr,
                len: resp.len,
                holder_id: 1,
            };
            let holder = held_value(Some(info), 0x9000, &key, "me", 7).expect("held");
            let at = (holder.addr - 0x9000) as usize;
            assert_eq!(memory[0][at..at + holder.len as usize], value[..]);
            let get_id = started.get_id;
            let done = cluster.router.handle_get_done(&cluster.manager, &GetDoneReq { get_id });
            assert!(done.reply.is_ok());
        }
    }
}

#[test]
fn only_two_gets_at_a_time_become_replicas() {
    let mut cluster = Cluster::new(&["n1", "n2", "n3", "n4", "n5"]);
    let (_, holder) = cluster.put("n1", "k", 64, None);
    let mut modes = Vec::new();
    for node in ["n1", "n2", "n3", "n4", "n5"] {
        if node == holder {
            continue;
        }
        let started = cluster.get_start(node, "k");
        assert!(started.reply.is_ok());
        modes.push(
            cluster
                .router
                .inflight_gets
                .get(&started.get_id)
                .expect("in flight")
                .allocation_mode,
        );
    }
    assert_eq!(
        modes,
        vec![
            GetAllocationMode::DurableReplica,
            GetAllocationMode::DurableReplica,
            GetAllocationMode::Temporary,
            GetAllocationMode::Temporary,
        ]
    );
}

#[test]
fn a_dropped_get_returns_its_slot() {
    let mut cluster = Cluster::new(&["n1", "n2", "n3", "n4", "n5"]);
    let (_, holder) = cluster.put("n1", "k", 64, None);
    let others: Vec<&str> = ["n1", "n2", "n3", "n4", "n5"]
        .into_iter()
        .filter(|n| *n != holder)
        .collect();
    let first = cluster.get_start(others[0], "k").get_id;
    let second = cluster.get_start(others[1], "k").get_id;
    let (_, revoked) = cluster.router.handle_get_revoke(&GetRevokeReq { get_id: first });
    assert!(revoked.is_some());
    let expired = cluster.router.expire_inflight_get(second);
    assert!(expired.is_some());
    assert!(cluster.router.expire_inflight_get(second).is_none());
    let third = cluster.get_start(others[2], "k").get_id;
    assert_eq!(
        cluster
            .router
            .inflight_gets
            .get(&third)
            .expect("in flight")
            .allocation_mode,
        GetAllocationMode::DurableReplica
    );
}

#[test]
fn blocks_are_in_use_until_the_last_user_is_gone() {
    let mut cluster = Cluster::new(&["n1", "n2"]);
    let (_, holder) = cluster.put("n1", "k", 64, None);
    let route = cluster.router.kv_routes.get("k").expect("route");
    let block = route.nodes_replicas[0].allocation;
    assert!(cluster.router.block_in_use("k", &block));
    assert!(!cluster.router.block_in_use("other", &block));

    // A get on the block's own node reads the value in place.
    let reading = cluster.get_start(&holder, "k").get_id;
    let dropped = cluster.router.expire_inflight_get(reading).expect("in flight");
    assert!(dropped.allocation.same_block(&block));
    assert!(cluster.router.block_in_use("k", &block));

    let other = if holder == "n1" { "n2" } else { "n1" };
    let filling = cluster.get_start(other, "k").get_id;
    let target = cluster.router.inflight_gets.get(&filling).expect("in flight").allocation;
    assert!(cluster.router.block_in_use("k", &target));
    let done = cluster
        .router
        .handle_get_done(&cluster.manager, &GetDoneReq { get_id: filling });
    let held = done.holding.expect("held");
    assert!(held.holds_block("k", &target));
    assert!(!held.holds_block("k", &block));
    assert!(cluster.router.block_in_use("k", &target));

    let third = cluster.get_start(other, "k").get_id;
    cluster.put("n1", "k", 64, None);
    assert!(!cluster.router.block_in_use("k", &block));
    assert!(cluster.router.block_in_use("k", &target));
    cluster.router.expire_inflight_get(third);
    assert!(!cluster.router.block_in_use("k", &target));
}

#[test]
fn a_key_that_was_not_put_is_not_found() {
    let mut cluster = Cluster::new(&["n1"]);
    let started = cluster.get_start("n1", "nothing");
    assert!(matches!(
        started.reply,
        Err(KvErrorOf::Api(ApiErrorOf::KeyNotFound { ref key })) if key == "nothing"
    ));
    let meta = cluster.router.handle_get_meta(
        &cluster.manager,
        &GetMetaReq {
            key: "nothing".to_string(),
        },
    );
    assert!(matches!(
        meta,
        Err(KvErrorOf::Api(ApiErrorOf::KeyNotFound { .. }))
    ));
}

#[test]
fn replicas_on_gone_nodes_are_not_served() {
    let mut cluster = Cluster::new(&["n1", "n2"]);
    let (_, holder) = cluster.put("n1", "k", 64, None);
    let other = if holder == "n1" { "n2" } else { "n1" };
    cluster.manager.mark_node_tomb(&holder);
    let started = cluster.get_start(other, "k");
    assert!(matches!(
        started.reply,
        Err(KvErrorOf::Api(ApiErrorOf::KeyNotFound { .. }))
    ));
    assert_eq!(started.dropped.len(), 1);
    assert_eq!(started.dropped[0].node_id, holder);
}

#[test]
fn prefixes_count_committed_keys() {
    let mut cluster = Cluster::new(&["n1"]);
    cluster.put("n1", "a/1", 64, None);
    cluster.put("n1", "a/2", 64, None);
    cluster.put("n1", "b", 64, None);
    let count = |router: &MasterKvRouter, prefix: &str| {
        router
            .handle_count_prefix(&CountPrefixReq {
                prefix: prefix.to_string(),
            })
            .count
    };
    assert_eq!(count(&cluster.router, "a/"), 2);
    assert_eq!(count(&cluster.router, ""), 3);
    assert_eq!(count(&cluster.router, "c"), 0);
}

#[test]
fn a_revoked_put_leaves_no_trace() {
    let mut cluster = Cluster::new(&["n1"]);
    let mut req = put_req("k", 64);
    req.reject_if_inflight_same_key = true;
    let PutStartStep::Done { put_id, reply, .. } = cluster.put_start("n1", &req) else {
        panic!("unreachable");
    };
    assert!(reply.is_ok());

    // A second put of the key is refused while the first is in flight.
    let PutStartStep::Done { reply, put_id: none, .. } = cluster.put_start("n1", &req) else {
        panic!("unreachable");
    };
    assert_eq!(none, (0, 0));
    assert!(matches!(
        reply,
        Err(KvErrorOf::Api(ApiErrorOf::KeyBeingWritten { ref key })) if key == "k"
    ));

    let (_, revoked) = cluster.router.handle_put_revoke(&PutRevokeReq {
        key: "k".to_string(),
        put_id,
    });
    assert!(revoked.is_some());
    assert!(cluster.router.inflight_puts.is_empty());
    let PutStartStep::Done { reply, .. } = cluster.put_start("n1", &req) else {
        panic!("unreachable");
    };
    assert!(reply.is_ok());
}

#[test]
fn a_put_that_was_not_completed_in_time_is_forgotten() {
    let mut cluster = Cluster::new(&["n1"]);
    let PutStartStep::Done { put_id, .. } = cluster.put_start("n1", &put_req("k", 64)) else {
        panic!("unreachable");
    };
    assert!(cluster.router.expire_inflight_put("k", put_id).is_some());
    let step = cluster.router.handle_put_done(
        &cluster.manager,
        &mut cluster.leases,
        &PutDoneReq {
            key: "k".to_string(),
            put_id,
            lease_id: None,
        },
        0,
    );
    let PutDoneStep::Done(outcome) = step else {
        panic!("unreachable");
    };
    assert!(matches!(
        outcome.reply,
        Err(KvErrorOf::Api(ApiErrorOf::InvalidPutMasterState { ref detail }))
            if detail == &format!("Put operation ({}, {}) not found for completion", put_id.0, put_id.1)
    ));
}

#[test]
fn a_put_without_memory_names_the_segment_that_is_full() {
    let mut cluster = Cluster::new(&["n1"]);
    cluster.full = true;
    let PutStartStep::Done { reply, released, .. } = cluster.put_start("n1", &put_req("k", 64))
    else {
        panic!("unreachable");
    };
    assert!(released.is_empty());
    match reply {
        Err(KvErrorOf::Api(ApiErrorOf::NoSpace {
            node,
            segment,
            total_capacity,
            free_capacity,
        })) => {
            assert_eq!(node, "n1");
            assert_eq!(segment, "cpu:0");
            assert_eq!(total_capacity, 1 << 20);
            assert_eq!(free_capacity, 0);
        }
        other => panic!("unexpected: {:?}", other),
    }
}

#[test]
fn a_put_from_a_node_without_segments_is_refused() {
    let mut cluster = Cluster::new(&["n1"]);
    let PutStartStep::Done { reply, .. } = cluster.put_start("n9", &put_req("k", 64)) else {
        panic!("unreachable");
    };
    assert!(matches!(
        reply,
        Err(KvErrorOf::Api(ApiErrorOf::RegisterSegmentFailed { ref detail }))
            if detail == "put_start source node has no registered segments: requester=n9 source=n9"
    ));
}

#[test]
fn a_leased_value_is_not_cached_and_shrinks_the_cache() {
    let mut cluster = Cluster::new(&["n1"]);
    let lease_id = cluster.leases.grant_lease(90, 0).expect("lease");
    let req = put_req("k", 100);
    let PutStartStep::Done { put_id, .. } = cluster.put_start("n1", &req) else {
        panic!("unreachable");
    };
    let step = cluster.router.handle_put_done(
        &cluster.manager,
        &mut cluster.leases,
        &PutDoneReq {
            key: "k".to_string(),
            put_id,
            lease_id: Some(lease_id),
        },
        800_000,
    );
    let PutDoneStep::SetMaxCapacity {
        new_capacity,
        pending,
    } = step
    else {
        panic!("a leased value reserves capacity");
    };
    assert_eq!(new_capacity, 800_000 - 100);
    let outcome = cluster
        .router
        .put_done_resized(pending, CacheResize::Resized);
    assert!(outcome.reply.is_ok());
    assert!(outcome.cache_update.is_none());
    assert_eq!(
        cluster.router.kv_routes.get("k").expect("route").lease_id,
        Some(lease_id)
    );
}

#[test]
fn capacity_adjustments_that_fail_are_undone() {
    let mut cluster = Cluster::new(&["n1"]);
    let step = cluster
        .router
        .adjust_node_cache_capacity_for_lease(&cluster.manager, "n1", 500, 1000);
    assert!(matches!(
        step,
        CapacityStep::SetMaxCapacity { new_capacity: 500 }
    ));
    let refused = cluster.router.finish_capacity_adjustment(
        "n1",
        500,
        CacheResize::Refused {
            new_capacity: 500,
            error: "busy".to_string(),
        },
    );
    assert!(matches!(
        refused,
        Err(KvErrorOf::Unreachable(UnreachableErrorOf::RpcDecodeError { ref rpc_input_json }))
            if rpc_input_json
                == "moka.set_max_capacity failed: node_id=n1, new_capacity=500, err=busy"
    ));
    let step = cluster
        .router
        .adjust_node_cache_capacity_for_lease(&cluster.manager, "n1", 100, 1000);
    assert!(matches!(
        step,
        CapacityStep::SetMaxCapacity { new_capacity: 900 }
    ));
    let missing = cluster
        .router
        .finish_capacity_adjustment("n1", 100, CacheResize::NoController);
    assert!(matches!(
        missing,
        Err(KvErrorOf::Unreachable(UnreachableErrorOf::OwnerNoSeg { ref detail }))
            if detail == "node_id=n1 cache_controller not found"
    ));
    let unknown = cluster
        .router
        .adjust_node_cache_capacity_for_lease(&cluster.manager, "n9", 1, 1000);
    assert!(matches!(
        unknown,
        CapacityStep::Done(Err(KvErrorOf::Unreachable(UnreachableErrorOf::OwnerNoSeg { ref detail })))
            if detail == "node_id=n9 has no segment (node_space_size=0) while adjusting cache capacity"
    ));
}

#[test]
fn a_reservation_that_is_released_restores_the_capacity() {
    let mut cluster = Cluster::new(&["n1"]);
    for (delta, capacity) in [(300i64, 700u64), (200, 500), (-300, 800), (-200, 1000)] {
        let step = cluster
            .router
            .adjust_node_cache_capacity_for_lease(&cluster.manager, "n1", delta, 1000);
        match step {
            CapacityStep::SetMaxCapacity { new_capacity } => assert_eq!(new_capacity, capacity),
            CapacityStep::Done(_) => panic!("the node has segments"),
        }
        cluster
            .router
            .finish_capacity_adjustment("n1", delta, CacheResize::Resized)
            .expect("resized");
    }
    let mut view = MasterKvRouterView { router: None };
    assert!(view
        .try_adjust_node_cache_capacity_for_lease(&cluster.manager, "n1", 1, 1000)
        .is_none());
}

#[test]
fn placements_are_counted() {
    let mut cluster = Cluster::new(&["n1"]);
    cluster.put("n1", "k", 64, None);
    assert_eq!(
        cluster
            .router
            .placement_counters
            .mode_count(PutPlacementMode::Local),
        Some(1)
    );
    assert_eq!(cluster.router.placement_counters.target_count("n1"), Some(1));
}

#[test]
fn a_second_put_replaces_the_first_version() {
    let mut cluster = Cluster::new(&["n1"]);
    let (first, _) = cluster.put("n1", "k", 64, None);
    let (second, _) = cluster.put("n1", "k", 64, None);
    assert_ne!(first, second);
    assert_eq!(cluster.router.kv_routes.get("k").expect("route").put_id, second);
    let meta = cluster
        .router
        .handle_get_meta(
            &cluster.manager,
            &GetMetaReq {
                key: "k".to_string(),
            },
        )
        .expect("meta");
    assert!(meta.exists);
    assert_eq!(meta.len, 64);
}

#[test]
fn versions_of_a_key_in_one_millisecond_differ() {
    let mut cluster = Cluster::new(&["n1"]);
    let a = cluster.router.get_recent_key_versionid("k".to_string(), 5);
    let b = cluster.router.get_recent_key_versionid("k".to_string(), 5);
    let c = cluster.router.get_recent_key_versionid("other".to_string(), 5);
    assert_eq!(a, (5, 0));
    assert_eq!(b, (5, 1));
    assert_eq!(c, (5, 0));
    assert_eq!(next_put_id(9, None), ((9, 0), 1));
    assert_eq!(next_put_id(9, Some(4)), ((9, 4), 5));
    assert_eq!(next_put_id(9, Some(u32::MAX)), ((9, u32::MAX), 0));
}

fn keys_under(router: &MasterKvRouter, prefix: &str) -> u64 {
    let resp = router.handle_count_prefix(&CountPrefixReq {
        prefix: prefix.to_string(),
    });
    assert_eq!((resp.error_code, resp.error_json.as_str()), (0, ""));
    resp.count
}

#[test]
fn an_overwritten_key_counts_once_with_and_without_the_index() {
    for disable_prefix_index in [false, true] {
        let mut cluster = Cluster::new(&["n1"]);
        cluster.router = MasterKvRouter::construct(MasterKvRouterNewArg {
            test_spec_config: MasterTestSwitches {
                skip_put_end_commit: false,
                disable_master_replica_cache: false,
                disable_prefix_index,
            },
        });
        cluster.put("n1", "a/1", 64, None);
        cluster.put("n1", "a/1", 64, None);
        cluster.put("n1", "a/2", 64, None);
        assert_eq!(keys_under(&cluster.router, "a/"), 2);
        let route = cluster.router.do_delete_one_kv_all_replicas("a/1").expect("route");
        assert_eq!(route.nodes_replicas.len(), 1);
        assert!(cluster.router.do_delete_one_kv_all_replicas("a/1").is_none());
        assert_eq!(keys_under(&cluster.router, "a/"), 1);
        cluster.put("n1", "a/1", 64, None);
        assert_eq!(keys_under(&cluster.router, "a/"), 2);
    }
}

#[test]
fn a_key_that_lost_its_replicas_is_not_counted() {
    let mut cluster = Cluster::new(&["n1"]);
    cluster.put("n1", "k", 64, None);
    assert_eq!(keys_under(&cluster.router, "k"), 1);
    cluster.manager.mark_node_tomb("n1");
    assert!(cluster.get_start("n2", "k").reply.is_err());
    assert!(cluster.router.kv_routes.get("k").is_none());
    assert_eq!(keys_under(&cluster.router, "k"), 0);
}

#[test]
fn a_put_is_completed_once() {
    let mut cluster = Cluster::new(&["n1"]);
    let (put_id, _) = cluster.put("n1", "k", 64, None);
    let step = cluster.router.handle_put_done(
        &cluster.manager,
        &mut cluster.leases,
        &PutDoneReq {
            key: "k".to_string(),
            put_id,
            lease_id: None,
        },
        800_000,
    );
    let PutDoneStep::Done(outcome) = step else {
        panic!("nothing is to be resized");
    };
    match outcome.reply {
        Err(KvErrorOf::Api(ApiErrorOf::InvalidPutMasterState { detail })) => assert_eq!(
            detail,
            format!("Put operation {:?} not found for completion", put_id)
        ),
        _ => panic!("the put is over"),
    }
    assert_eq!(cluster.router.kv_routes.get("k").expect("route").put_id, put_id);
}

#[test]
fn a_replica_cache_keeps_what_was_entered() {
    let mut cache = NodeReplicaCache::new(SegmentedCache::builder(8).max_capacity(1000).build());
    cache.update_moka_for_node(CacheUpdate::Touch {
        node_id: "n1".to_string(),
        key: "k".to_string(),
    });
    assert!(cache.used("k").is_none());
    cache.update_moka_for_node(CacheUpdate::Insert {
        node_id: "n1".to_string(),
        key: "k".to_string(),
        desc: NodeValueReplicaDesc {
            weight_bytes: 10,
            put_id: (7, 1),
        },
    });
    assert_eq!(cache.used("k").expect("entered").put_id, (7, 1));
    assert_eq!(cache.into_cache().get("k").expect("entered").weight_bytes, 10);
}

#[test]
fn switches_change_the_router() {
    let router = MasterKvRouter::construct(MasterKvRouterNewArg {
        test_spec_config: MasterTestSwitches {
            skip_put_end_commit: true,
            disable_master_replica_cache: true,
            disable_prefix_index: true,
        },
    });
    assert_eq!(router.inflight_put_ttl_seconds(), 5);
    assert!(!router.replica_cache_enabled());
    assert!(!router.prefix_index_enabled());
    let router = MasterKvRouter::construct(MasterKvRouterNewArg::default());
    assert_eq!(router.inflight_put_ttl_seconds(), 60);
    assert!(router.replica_cache_enabled());
    assert_eq!(saturated_weight(7), 7);
    assert_eq!(saturated_weight(u64::MAX), u32::MAX);
}

fn worker(owner: &str, start: &str, root: &str) -> ClusterMember {
    member(
        "w",
        &[
            ("side_transfer_worker", "true"),
            (META_KEY_SHARED_STORAGE_NODE_ID, owner),
            (META_KEY_SHARED_STORAGE_NODE_START_TIME, start),
            ("local_ipc_root", root),
        ],
    )
}

fn refusal(requester: Option<&ClusterMember>, source: Option<&ClusterMember>) -> String {
    match validate_put_start_source_node_override("w", "o", requester, source) {
        Err(KvErrorOf::Api(ApiErrorOf::Unknown { detail })) => detail,
        other => panic!("unexpected: {:?}", other),
    }
}

#[test]
fn only_a_side_worker_may_put_from_its_owners_memory() {
    let owner = member("o", &[("local_ipc_root", "/tmp/x")]);
    assert!(validate_put_start_source_node_override("o", "o", None, None).is_ok());
    assert!(validate_put_start_source_node_override(
        "w",
        "o",
        Some(&worker("o", "100", "/tmp/x")),
        Some(&owner)
    )
    .is_ok());
    assert_eq!(
        refusal(None, Some(&owner)),
        "put_start source override requester not found in cluster cache: requester=w source=o"
    );
    assert_eq!(
        refusal(Some(&worker("o", "100", "/tmp/x")), None),
        "put_start source override source node not found in cluster cache: requester=w source=o"
    );
    assert_eq!(
        refusal(Some(&member("w", &[])), Some(&owner)),
        "put_start source override is only allowed for side-transfer workers: requester=w source=o"
    );
    assert_eq!(
        refusal(Some(&worker("p", "100", "/tmp/x")), Some(&owner)),
        "put_start source override owner mismatch: requester=w source=o requester_owner=Some(\"p\")"
    );
    assert_eq!(
        refusal(Some(&worker("o", "99", "/tmp/x")), Some(&owner)),
        "put_start source override owner generation mismatch: requester=w source=o requester_owner_start=Some(99) source_start=100"
    );
    assert_eq!(
        refusal(Some(&worker("o", "100", "/tmp/y")), Some(&owner)),
        "put_start source override local_ipc_root mismatch: requester=w source=o requester_ipc_root=Some(\"/tmp/y\") source_ipc_root=Some(\"/tmp/x\")"
    );
}

#[test]
fn blocks_know_their_addresses() {
    let block = Allocation {
        addr: 16,
        size: 10,
        capcity: 64,
        base: 0x1000,
        allocator: 1,
        lease_reserved: false,
    };
    assert_eq!(block.absolute(), 0x1010);
    assert_eq!(block.capcity(), 64);
    assert_eq!(block.size(), 10);
}

#[test]
fn starts_that_could_not_be_answered_are_forgotten() {
    let mut cluster = Cluster::new(&["n1", "n2"]);
    let PutStartStep::Done { put_id, .. } = cluster.put_start("n1", &put_req("k", 64)) else {
        panic!("unreachable");
    };
    assert!(cluster.router.forget_unanswered_put("k", (0, 0)).is_none());
    let rejecting = PutStartReq {
        reject_if_inflight_same_key: true,
        ..put_req("k", 64)
    };
    assert!(matches!(
        cluster.put_start("n1", &rejecting),
        PutStartStep::Done { reply: Err(KvErrorOf::Api(ApiErrorOf::KeyBeingWritten { .. })), .. }
    ));
    assert!(cluster.router.forget_unanswered_put("k", put_id).is_some());
    assert_eq!(cluster.router.inflight_put_keys.count("k"), 0);
    // A put that has ended keeps no other out.
    assert!(matches!(
        cluster.put_start("n1", &rejecting),
        PutStartStep::Done { reply: Ok(_), .. }
    ));
    assert_eq!(cluster.router.inflight_put_keys.count("k"), 1);
    assert!(cluster.router.forget_unanswered_put("k", put_id).is_none());
    let (_, holder) = cluster.put("n1", "v", 64, None);
    let other = if holder == "n1" { "n2" } else { "n1" };
    assert_eq!(cluster.get_start(other, "v").get_id, 0);
    let second = cluster.get_start(other, "v").get_id;
    assert!(cluster.router.forget_unanswered_get(0).is_none());
    assert!(cluster.router.forget_unanswered_get(second).is_some());
    assert_eq!(cluster.router.inflight_gets.len(), 1);
}

#[test]
fn a_cache_that_drives_a_value_out_takes_the_replica_with_it() {
    let cluster = Cluster::new(&["n1"]);
    let router = &cluster.router;
    assert_eq!(
        router.get_node_cache_controller(&cluster.manager, "n1"),
        Some(1 << 20)
    );
    assert_eq!(router.get_node_cache_controller(&cluster.manager, "n2"), None);
    let without = MasterKvRouter::construct(MasterKvRouterNewArg {
        test_spec_config: MasterTestSwitches {
            skip_put_end_commit: false,
            disable_master_replica_cache: true,
            disable_prefix_index: false,
        },
    });
    assert_eq!(without.get_node_cache_controller(&cluster.manager, "n1"), None);
    for (removal, goes) in [
        (CacheRemoval::Size, true),
        (CacheRemoval::Expired, true),
        (CacheRemoval::Explicit, false),
        (CacheRemoval::Replaced, false),
    ] {
        let evicted = evicted_replica(
            "k".to_string(),
            "n1".to_string(),
            NodeValueReplicaDesc {
                weight_bytes: 1,
                put_id: (7, 1),
            },
            removal,
        );
        assert_eq!(evicted.is_some(), goes);
        if let Some(replica) = evicted {
            assert_eq!((replica.key.as_str(), replica.node_id.as_str()), ("k", "n1"));
            assert_eq!(replica.put_id, (7, 1));
        }
    }
}
