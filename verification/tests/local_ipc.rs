use fluxon_kv::config::TestSpecConfig;
use fluxon_kv::local_ipc::{
    check_share_mem_path, cluster_manager_local_ipc_root, derive_short_local_ipc_root,
    short_ipc_root, LocalIpcRootError,
};

#[test]
fn alias_holds_the_first_digits_of_the_sha256_digest() {
    // SHA-256 of "abc" begins with ba7816bf8f01cfea4141.
    assert_eq!(
        derive_short_local_ipc_root("abc"),
        "/tmp/fluxon_ipc/ba7816bf8f01cfea4141"
    );
    // SHA-256 of nothing begins with e3b0c44298fc1c149afb.
    assert_eq!(
        derive_short_local_ipc_root(""),
        "/tmp/fluxon_ipc/e3b0c44298fc1c149afb"
    );
}

#[test]
fn alias_of_a_given_digest() {
    let digest = [0u8, 1, 15, 16, 171, 205, 239, 255, 127, 128, 9];
    assert_eq!(
        short_ipc_root(&digest),
        "/tmp/fluxon_ipc/00010f10abcdefff7f80"
    );
}

#[test]
fn alias_is_stable_and_short() {
    let long = "/data/this_is_a_deliberately_long_share_mem_root_name_for_iceoryx_socket_length_checks/owner_shm";
    let alias = derive_short_local_ipc_root(long);
    assert_eq!(alias, derive_short_local_ipc_root(long));
    assert!(alias.starts_with("/tmp/fluxon_ipc/"));
    assert_ne!(alias, long);
    assert_eq!(alias.len(), 36);
    let example_event_path = format!("{}/iox2_254771654226413701181693419284.event", alias);
    assert!(example_event_path.len() < 108);
}

#[test]
fn local_ipc_can_be_switched_off() {
    assert!(cluster_manager_local_ipc_root("/dev/shm/a", &TestSpecConfig::default()).is_some());
    assert_eq!(
        cluster_manager_local_ipc_root(
            "/dev/shm/a",
            &TestSpecConfig {
                disable_local_ipc: true,
                ..Default::default()
            }
        ),
        None
    );
}

#[test]
fn a_blank_shared_directory_is_refused() {
    assert_eq!(
        check_share_mem_path(" \n\u{2003}"),
        Err(LocalIpcRootError::EmptyShareMemPath)
    );
    assert_eq!(check_share_mem_path(" x"), Ok(()));
}
