use fluxon_kv::error::KvErrorOf;
use fluxon_kv::key_prefix::{count_prefix_request, count_prefix_result, init_for_p2p_owner};
use fluxon_kv::kvlease;
use fluxon_kv::error::ApiErrorOf;
use fluxon_kv::master_kv_router::count_prefix_index::PrefixRadixTree;
use fluxon_kv::master_kv_router::msg_pack::CountPrefixResp;
use fluxon_kv::master_lease_manager::msg_pack::AllocateClientLeaseResp;
use fluxon_kv::p2p::{MsgId, MsgPackSerializePart, P2pCallers};

#[test]
fn prefixes_count_the_keys_below_them() {
    let mut tree = PrefixRadixTree::new();
    for key in ["user/1", "user/2", "user/10", "session/1", ""] {
        tree.insert(key);
    }
    assert_eq!(tree.count_prefix(""), 5);
    assert_eq!(tree.count_prefix("user/"), 3);
    assert_eq!(tree.count_prefix("user/1"), 2);
    assert_eq!(tree.count_prefix("user/10"), 1);
    assert_eq!(tree.count_prefix("user/100"), 0);
    assert_eq!(tree.count_prefix("s"), 1);
    assert_eq!(tree.count_prefix("x"), 0);
}

#[test]
fn removing_undoes_inserting() {
    let mut tree = PrefixRadixTree::default();
    tree.insert("\u{4f60}\u{597d}");
    tree.insert("\u{4f60}");
    assert_eq!(tree.count_prefix("\u{4f60}"), 2);
    tree.remove("\u{4f60}\u{597d}");
    assert_eq!(tree.count_prefix("\u{4f60}"), 1);
    assert_eq!(tree.count_prefix("\u{4f60}\u{597d}"), 0);
    assert_eq!(tree.count_prefix(""), 1);
}

#[test]
fn a_key_can_be_inserted_again_once_it_was_removed() {
    let mut tree = PrefixRadixTree::new();
    tree.insert("k");
    assert_eq!(tree.count_prefix("k"), 1);
    tree.remove("k");
    assert_eq!(tree.count_prefix("k"), 0);
    tree.insert("k");
    assert_eq!(tree.count_prefix("k"), 1);
}

#[test]
fn clients_register_their_requests() {
    let mut callers = P2pCallers::new();
    init_for_p2p_owner(&mut callers);
    kvlease::init_for_p2p_owner(&mut callers);
    init_for_p2p_owner(&mut callers);
    assert_eq!(
        callers.registered,
        vec![
            MsgId::CountPrefixReq,
            MsgId::AllocateClientLeaseReq,
            MsgId::ClientLeaseKeepaliveReq,
        ]
    );
}

#[test]
fn requests_and_answers_of_clients() {
    let req = count_prefix_request("user/");
    assert_eq!(req.prefix, "user/");
    assert_eq!(req.msg_id(), MsgId::CountPrefixReq);
    let resp = CountPrefixResp {
        count: 12,
        error_code: 0,
        error_json: String::new(),
    };
    assert!(matches!(count_prefix_result(Ok(()), &resp), Ok(12)));
    let refused = count_prefix_result(
        Err(KvErrorOf::Api(ApiErrorOf::Unknown {
            detail: "x".to_string(),
        })),
        &resp,
    );
    assert!(matches!(
        refused,
        Err(KvErrorOf::Api(ApiErrorOf::Unknown { .. }))
    ));

    assert_eq!(kvlease::allocate_lease_request(120).requested_ttl_seconds, 120);
    let keepalive = kvlease::keepalive_lease_request(9);
    assert_eq!((keepalive.lease_id, keepalive.custom_ttl), (9, 0));
    let granted = AllocateClientLeaseResp {
        error_code: 0,
        error_json: String::new(),
        lease_id: 77,
        ttl_seconds: 120,
    };
    assert!(matches!(
        kvlease::allocate_lease_result(Ok(()), &granted),
        Ok(77)
    ));
}
