use fluxon_kv::cluster_manager::{ClusterEvent, ClusterMember, Metadata, NodeRole};
use fluxon_kv::error::{ApiErrorOf, KvErrorOf};
use fluxon_kv::master_kv_router::inflight_keys::InflightPutKeys;
use fluxon_kv::master_kv_router::placement::{
    members_in_sub_cluster, LocalFirstPlacementPolicy, PlacementPolicy, PlacementSearch,
    PlacementStep, PutPlacementTarget, RandomPlacementPolicy, PLACEMENT_ATTEMPTS,
};
use fluxon_kv::master_seg_manager::msg_pack::{
    SegmentDeviceDescription, SegmentDeviceMemInfo, SegmentRegistration,
};
use fluxon_kv::master_seg_manager::one_seg_allocator::{AllocationOutcome, CreatedAllocator, Region};
use fluxon_kv::master_seg_manager::{MasterSegManager, MasterSegManagerNewArg};

fn manager(nodes: &[&str]) -> MasterSegManager {
    let mut manager = MasterSegManager::construct(MasterSegManagerNewArg);
    for node in nodes {
        manager
            .register_node_segments(
                node.to_string(),
                vec![SegmentRegistration {
                    device_id: format!("{}:cpu", node),
                    desc: SegmentDeviceDescription::Cpu,
                    mem: SegmentDeviceMemInfo {
                        addr: 0x1000,
                        len: 100,
                    },
                    allocator: Ok(CreatedAllocator {
                        id: 1,
                        total_size: 100,
                    }),
                }],
            )
            .expect("register");
    }
    manager
}

fn member(id: &str, sub_cluster: Option<&str>) -> ClusterMember {
    ClusterMember {
        id: id.to_string(),
        node_start_time: 1,
        role: NodeRole::Client,
        metadata: Metadata::new(),
        sub_cluster: sub_cluster.map(|s| s.to_string()),
    }
}

/// Refuses every segment; lists the nodes that were tried and the error at the end.
fn refuse_all(
    manager: &mut MasterSegManager,
    mut search: PlacementSearch,
    mut step: PlacementStep,
) -> (Vec<String>, PlacementStep) {
    let mut tried = Vec::new();
    loop {
        match step {
            PlacementStep::TryAllocate { node_id, allocator } => {
                tried.push(node_id.clone());
                step = search.resume(
                    manager,
                    node_id,
                    allocator,
                    &AllocationOutcome {
                        used: 90,
                        region: None,
                    },
                );
            }
            end => return (tried, end),
        }
    }
}

#[test]
fn a_sub_cluster_lists_its_members_in_order() {
    let members = vec![
        member("a", Some("s")),
        member("b", None),
        member("c", Some("t")),
        member("d", Some("s")),
    ];
    assert_eq!(members_in_sub_cluster(&members, "s"), vec!["a", "d"]);
    assert!(members_in_sub_cluster(&members, "u").is_empty());
}

#[test]
fn local_first_stays_on_a_requester_with_segments() {
    let policy = LocalFirstPlacementPolicy::new();
    let mut with = manager(&["r", "o"]);
    let (_, step) = policy.select_put_target(&mut with, &"r".to_string(), &vec![], None, 8);
    assert!(matches!(
        step,
        PlacementStep::Placed(PutPlacementTarget::Local { ref node_id }) if node_id == "r"
    ));
    let mut without = manager(&["o"]);
    let (search, step) =
        policy.select_put_target(&mut without, &"r".to_string(), &vec![], None, 8);
    let (tried, end) = refuse_all(&mut without, search, step);
    assert_eq!(tried, vec!["o"; PLACEMENT_ATTEMPTS as usize]);
    assert!(matches!(
        end,
        PlacementStep::Failed(KvErrorOf::Api(ApiErrorOf::NoSpace {
            ref node,
            ref segment,
            total_capacity: 100,
            free_capacity: 10,
        })) if node == "o" && segment == "o:cpu"
    ));
}

#[test]
fn a_requester_in_the_preferred_sub_cluster_is_chosen() {
    let members = vec![member("o", Some("s")), member("r", Some("s"))];
    let mut segments = manager(&["o", "r"]);
    let (_, step) = RandomPlacementPolicy::new().select_put_target(
        &mut segments,
        &"r".to_string(),
        &members,
        Some("s"),
        8,
    );
    assert!(matches!(
        step,
        PlacementStep::Placed(PutPlacementTarget::Local { .. })
    ));
    // Local-first relies on the requester even where it has no segments yet.
    let mut segments = manager(&["o"]);
    let (_, step) = LocalFirstPlacementPolicy::new().select_put_target(
        &mut segments,
        &"r".to_string(),
        &members,
        Some("s"),
        8,
    );
    assert!(matches!(
        step,
        PlacementStep::Placed(PutPlacementTarget::Local { .. })
    ));
    let (_, step) = RandomPlacementPolicy::new().select_put_target(
        &mut segments,
        &"r".to_string(),
        &members,
        Some("s"),
        8,
    );
    assert!(matches!(
        step,
        PlacementStep::TryAllocate { ref node_id, .. } if node_id == "o"
    ));
}

#[test]
fn preferred_nodes_are_all_tried_before_others() {
    let members = vec![
        member("a", Some("s")),
        member("b", Some("s")),
        member("gone", Some("s")),
        member("c", Some("s")),
    ];
    let mut segments = manager(&["a", "b", "c", "x"]);
    for _ in 0..20 {
        let (search, step) = RandomPlacementPolicy::new().select_put_target(
            &mut segments,
            &"r".to_string(),
            &members,
            Some("s"),
            8,
        );
        let (tried, end) = refuse_all(&mut segments, search, step);
        assert_eq!(tried.len(), 3 + PLACEMENT_ATTEMPTS as usize);
        let first = tried[..3].to_vec();
        let mut sorted = first.clone();
        sorted.sort();
        assert_eq!(sorted, vec!["a", "b", "c"]);
        let mut round = vec!["a", "b", "c", "a", "b", "c"];
        let at = round.iter().position(|n| *n == first[0]).expect("listed");
        round.drain(..at);
        assert_eq!(first, round[..3].to_vec());
        assert!(matches!(end, PlacementStep::Failed(_)));
    }
}

#[test]
fn random_placement_reuses_the_requesters_block() {
    let mut segments = manager(&["r"]);
    let (_, step) =
        RandomPlacementPolicy::new().select_put_target(&mut segments, &"r".to_string(), &vec![], None, 8);
    assert!(matches!(
        step,
        PlacementStep::Placed(PutPlacementTarget::Local { ref node_id }) if node_id == "r"
    ));
}

#[test]
fn without_segments_there_is_no_target() {
    let mut segments = manager(&[]);
    let (_, step) =
        RandomPlacementPolicy::new().select_put_target(&mut segments, &"r".to_string(), &vec![], None, 8);
    assert!(matches!(
        step,
        PlacementStep::Failed(KvErrorOf::Api(ApiErrorOf::NoSpace {
            ref node,
            ref segment,
            total_capacity: 0,
            free_capacity: 0,
        })) if node == "unknown" && segment == "unknown"
    ));
}

#[test]
fn a_granted_block_is_the_target() {
    let mut segments = manager(&["o"]);
    let (mut search, step) =
        RandomPlacementPolicy::new().select_put_target(&mut segments, &"r".to_string(), &vec![], None, 8);
    let PlacementStep::TryAllocate { node_id, allocator } = step else {
        panic!("one segment");
    };
    let step = search.resume(
        &mut segments,
        node_id,
        allocator,
        &AllocationOutcome {
            used: 64,
            region: Some(Region {
                start_addr: 32,
                size: 16,
            }),
        },
    );
    match step {
        PlacementStep::Placed(PutPlacementTarget::Remote {
            node_id, allocation, ..
        }) => {
            assert_eq!(node_id, "o");
            assert_eq!((allocation.addr(), allocation.size(), allocation.capcity()), (32, 8, 16));
            assert_eq!(allocation.base_addr(), 0x1000);
        }
        _ => panic!("the block was granted"),
    }
}

#[test]
fn keys_in_flight_are_counted() {
    let mut keys = InflightPutKeys::new();
    assert!(keys.reserve_inflight_put_key("k", true).is_ok());
    assert!(matches!(
        keys.reserve_inflight_put_key("k", true),
        Err(KvErrorOf::Api(ApiErrorOf::KeyBeingWritten { ref key })) if key == "k"
    ));
    assert!(keys.reserve_inflight_put_key("k", false).is_ok());
    assert!(keys.reserve_inflight_put_key("l", true).is_ok());
    keys.release_inflight_put_key("k");
    assert!(keys.reserve_inflight_put_key("k", true).is_err());
    keys.release_inflight_put_key("k");
    assert!(keys.reserve_inflight_put_key("k", true).is_ok());
    keys.release_inflight_put_key("other");
    assert!(keys.reserve_inflight_put_key("l", true).is_err());
}

#[test]
fn metadata_has_one_value_for_a_key() {
    let mut metadata = Metadata::new();
    assert!(metadata.get("a").is_none());
    metadata.insert("a".to_string(), "1".to_string());
    metadata.insert("b".to_string(), "true".to_string());
    metadata.insert("a".to_string(), "2".to_string());
    assert_eq!(metadata.get("a").map(|v| v.as_str()), Some("2"));
    assert!(metadata.is_true("b"));
    assert!(!metadata.is_true("a"));
    assert_eq!(metadata.entries.len(), 2);
    assert_eq!(ClusterEvent::MemberLeft("n".to_string()).node_id(), "n");
}
