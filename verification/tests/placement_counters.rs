use fluxon_kv::master_kv_router::placement_metrics::{
    sort_for_report, PlacementCounters, PutPlacementMode, RequesterTargetPair,
};

#[test]
fn requester_target_pair_formats_stably() {
    let pair = RequesterTargetPair::new("node-2a", "node-3b");
    assert_eq!(pair.as_log_key(), "node-2a->node-3b");
}

#[test]
fn placement_mode_label_is_stable() {
    let local = PutPlacementMode::Local.label();
    let remote = PutPlacementMode::Remote.label();
    assert_eq!(local, "local");
    assert_eq!(remote, "remote");
}

#[test]
fn placement_counters_accumulate_by_target_mode_and_requester_target() {
    let mut counters = PlacementCounters::new();

    counters.record_put_placement_decision("node-2a", "node-2a", PutPlacementMode::Local);
    counters.record_put_placement_decision("node-3a", "node-2a", PutPlacementMode::Remote);
    counters.record_put_placement_decision("node-3a", "node-4a", PutPlacementMode::Remote);

    assert_eq!(
        counters
            .target_count("node-2a")
            .expect("node-2a target counter must exist"),
        2
    );
    assert_eq!(
        counters
            .target_count("node-4a")
            .expect("node-4a target counter must exist"),
        1
    );
    assert_eq!(
        counters
            .mode_count(PutPlacementMode::Local)
            .expect("local mode counter must exist"),
        1
    );
    assert_eq!(
        counters
            .mode_count(PutPlacementMode::Remote)
            .expect("remote mode counter must exist"),
        2
    );
    assert_eq!(
        counters
            .requester_target_count(&RequesterTargetPair::new("node-3a", "node-2a"))
            .expect("requester-target counter must exist"),
        1
    );
}

#[test]
fn unknown_counters_are_absent() {
    let counters = PlacementCounters::new();
    assert_eq!(counters.target_count("node-x"), None);
    assert_eq!(counters.mode_count(PutPlacementMode::Local), None);
    assert_eq!(
        counters.requester_target_count(&RequesterTargetPair::new("a", "b")),
        None
    );
}

#[test]
fn report_lists_largest_counts_first_and_names_in_order() {
    let sorted = sort_for_report(vec![
        ("b".to_string(), 1),
        ("c".to_string(), 7),
        ("a".to_string(), 1),
    ]);
    assert_eq!(
        sorted,
        vec![
            ("c".to_string(), 7),
            ("a".to_string(), 1),
            ("b".to_string(), 1),
        ]
    );
}

#[test]
fn report_holds_all_three_tables() {
    let mut counters = PlacementCounters::new();
    counters.record_put_placement_decision("n1", "n2", PutPlacementMode::Remote);
    counters.record_put_placement_decision("n1", "n2", PutPlacementMode::Remote);
    counters.record_put_placement_decision("n2", "n2", PutPlacementMode::Local);
    let report = counters.report();
    assert_eq!(report.target_counts, vec![("n2".to_string(), 3)]);
    assert_eq!(
        report.mode_counts,
        vec![("remote".to_string(), 2), ("local".to_string(), 1)]
    );
    assert_eq!(
        report.requester_target_counts,
        vec![("n1->n2".to_string(), 2), ("n2->n2".to_string(), 1)]
    );
}
