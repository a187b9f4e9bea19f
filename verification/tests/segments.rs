use fluxon_kv::cluster_manager::{ClusterEvent, ClusterMember, Metadata, NodeRole};
use fluxon_kv::error::{ApiErrorOf, KvErrorOf, UnreachableErrorOf};
use fluxon_kv::master_kv_router::registration::{RegistrationActor, RegistrationActors, Waiting};
use fluxon_kv::master_seg_manager::msg_pack::{
    SegmentDeviceDescription, SegmentDeviceMemInfo, SegmentRegistration,
};
use fluxon_kv::master_seg_manager::one_seg_allocator::{AllocationOutcome, CreatedAllocator, OneSegAllocator, Region};
use fluxon_kv::master_seg_manager::{MasterSegManager, MasterSegManagerNewArg};

fn segment(id: &str, len: u64) -> SegmentRegistration {
    SegmentRegistration {
        device_id: id.to_string(),
        desc: SegmentDeviceDescription::Cpu,
        mem: SegmentDeviceMemInfo { addr: 0x1000, len },
        allocator: Ok(CreatedAllocator {
            id: 7,
            total_size: len,
        }),
    }
}

fn manager() -> MasterSegManager {
    MasterSegManager::construct(MasterSegManagerNewArg)
}

#[test]
fn registered_segments_are_usable() {
    let mut manager = manager();
    manager
        .register_node_segments("n".to_string(), vec![segment("cpu:0", 100), segment("cpu:1", 50)])
        .expect("register");
    assert_eq!(manager.get_node_space_size("n"), 150);
    assert_eq!(manager.get_node_allocators("n").len(), 2);
    assert_eq!(manager.get_all_segments_allocator().len(), 2);
    assert_eq!(manager.get_node_space_size("other"), 0);
    assert!(manager.get_node_tomb_tag("other").is_none());
}

#[test]
fn registering_again_changes_nothing() {
    let mut manager = manager();
    manager
        .register_node_segments("n".to_string(), vec![segment("cpu:0", 100)])
        .expect("register");
    manager
        .register_node_segments("n".to_string(), vec![segment("cpu:0", 100)])
        .expect("again");
    assert_eq!(manager.get_node_space_size("n"), 100);
    assert_eq!(manager.get_node_allocators("n").len(), 1);
}

#[test]
fn a_segment_that_contradicts_an_earlier_one_is_refused() {
    let mut manager = manager();
    manager
        .register_node_segments("n".to_string(), vec![segment("cpu:0", 100)])
        .expect("register");
    let refused = manager.register_node_segments("n".to_string(), vec![segment("cpu:0", 200)]);
    assert!(matches!(
        refused,
        Err(KvErrorOf::Unreachable(UnreachableErrorOf::DuplicateSegId { ref device_id, ref node_id }))
            if device_id == "cpu:0" && node_id == "n"
    ));
}

#[test]
fn a_refused_allocator_registers_nothing() {
    let mut manager = manager();
    let mut bad = segment("cpu:1", 10);
    bad.allocator = Err(KvErrorOf::Api(ApiErrorOf::RegisterSegmentFailed {
        detail: "x".to_string(),
    }));
    let refused = manager.register_node_segments("n".to_string(), vec![segment("cpu:0", 100), bad]);
    assert!(matches!(
        refused,
        Err(KvErrorOf::Api(ApiErrorOf::RegisterSegmentFailed { .. }))
    ));
    assert_eq!(manager.get_node_space_size("n"), 0);
    assert!(manager
        .request_segment_registration("n".to_string(), Ok(vec![]))
        .is_ok());
    assert_eq!(manager.get_node_space_size("n"), 0);
}

#[test]
fn a_gone_node_offers_nothing_and_stays_gone_for_its_old_tag() {
    let mut manager = manager();
    manager
        .register_node_segments("n".to_string(), vec![segment("cpu:0", 100)])
        .expect("register");
    let old_tag = manager.get_node_tomb_tag("n").expect("tag");
    manager.mark_node_tomb("n");
    assert!(old_tag.is_tomb(manager.board()));
    assert!(manager.get_node_allocators("n").is_empty());
    manager
        .register_node_segments("n".to_string(), vec![segment("cpu:0", 70)])
        .expect("new incarnation");
    let new_tag = manager.get_node_tomb_tag("n").expect("tag");
    assert!(!new_tag.is_tomb(manager.board()));
    assert!(old_tag.is_tomb(manager.board()));
    assert_eq!(manager.get_node_space_size("n"), 70);
}

#[test]
fn an_allocator_turns_answers_into_blocks() {
    let allocator = OneSegAllocator::new(
        "cpu:0".to_string(),
        SegmentDeviceDescription::Cpu,
        0x1000,
        CreatedAllocator {
            id: 7,
            total_size: 100,
        },
    );
    let block = allocator
        .allocate(
            10,
            &AllocationOutcome {
                used: 10,
                region: Some(Region {
                    start_addr: 32,
                    size: 16,
                }),
            },
        )
        .expect("block");
    assert_eq!((block.addr, block.size, block.capcity, block.base), (32, 10, 16, 0x1000));
    assert_eq!(block.allocator, 7);
    assert!(allocator
        .allocate(
            10,
            &AllocationOutcome {
                used: 95,
                region: None
            }
        )
        .is_none());
    assert_eq!(allocator.total_size_bytes(), 100);
    assert_eq!(allocator.free_size_bytes(95), 5);
    assert_eq!(allocator.free_size_bytes(120), 0);
}

fn client(epoch: i64) -> ClusterMember {
    let mut metadata = Metadata::new();
    metadata.insert("client".to_string(), "true".to_string());
    metadata.insert("p2p_relay".to_string(), "true".to_string());
    ClusterMember {
        id: "n".to_string(),
        node_start_time: epoch,
        role: NodeRole::Client,
        metadata,
        sub_cluster: None,
    }
}

#[test]
fn a_client_that_joins_is_asked_for_its_segments() {
    let mut actor = RegistrationActor::new();
    assert!(actor.next_wait() == Waiting::Idle { seconds: 30 });
    let effect = actor.on_member(&client(1));
    assert!(!effect.mark_tomb && !effect.misrouted);
    assert!(actor.next_wait() == Waiting::Retry { seconds: 0 });
    assert_eq!(actor.on_retry_due(Some(&client(1))), Some(1));
    assert!(actor.next_wait() == Waiting::Reply { epoch: 1 });
    actor.on_reply(&Ok(()));
    assert_eq!(actor.registered_epoch, Some(1));
    actor.on_member(&client(1));
    assert!(actor.next_wait() == Waiting::Idle { seconds: 30 });
}

#[test]
fn failed_registrations_back_off_up_to_a_minute() {
    let mut actor = RegistrationActor::new();
    actor.on_member(&client(1));
    let mut waits = Vec::new();
    for _ in 0..7 {
        assert_eq!(actor.on_retry_due(Some(&client(1))), Some(1));
        actor.on_reply(&Err(KvErrorOf::Api(ApiErrorOf::Unknown {
            detail: "x".to_string(),
        })));
        match actor.next_wait() {
            Waiting::Retry { seconds } => waits.push(seconds),
            _ => panic!("a failed registration is retried"),
        }
    }
    assert!(waits.windows(2).all(|w| w[0] <= w[1]));
    assert_eq!(*waits.last().expect("waits"), 60);
}

#[test]
fn a_restarted_client_is_marked_and_asked_again() {
    let mut manager = manager();
    manager
        .register_node_segments("n".to_string(), vec![segment("cpu:0", 100)])
        .expect("register");
    let tag = manager.get_node_tomb_tag("n").expect("tag");
    let mut actors = RegistrationActors::new();
    let at = actors.deliver_event(&mut manager, &ClusterEvent::MemberJoined(client(1)));
    assert!(!tag.is_tomb(manager.board()));
    assert_eq!(actors.find("n"), Some(at));
    let again = actors.deliver_event(&mut manager, &ClusterEvent::MemberUpdated(client(2)));
    assert_eq!(again, at);
    assert!(tag.is_tomb(manager.board()));
    assert_eq!(actors.actors[at].1.desired_epoch, Some(2));
    actors.deliver_event(&mut manager, &ClusterEvent::MemberLeft("n".to_string()));
    assert_eq!(actors.actors[at].1.desired_epoch, None);
    assert!(!actors.end_idle("n", 29));
    assert!(!actors.end_idle("other", 30));
    assert!(actors.end_idle("n", 30));
    assert_eq!(actors.find("n"), None);
    let at = actors.deliver_event(&mut manager, &ClusterEvent::MemberJoined(client(2)));
    assert!(!actors.end_idle("n", 30));
    assert_eq!(actors.actors[at].1.desired_epoch, Some(2));
}
