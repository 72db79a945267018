use microvisor::capability::{
    can_access_network, can_read_file, can_read_memory, can_send_to, can_spawn, can_write_file,
    can_write_memory, capability_grants, create_capability, find, matches_every_path,
    revoke_capability,
    validate_capability, Access, Capability, CapabilityId, CapabilityStore,
};

fn memory(base: usize, size: usize, read: bool, write: bool) -> Capability {
    Capability::Memory { base, size, read, write, execute: false }
}

fn files(prefix: &str, read: bool, write: bool) -> Capability {
    Capability::FileSystem { path_prefix: String::from(prefix), read, write }
}

#[test]
fn first_token_is_one_and_tokens_count_up() {
    let mut store = CapabilityStore::new();
    assert_eq!(store.next_id(), 1);
    let a = create_capability(&mut store, Capability::Network);
    let b = create_capability(&mut store, Capability::Interrupt { irq: 3 });
    let c = create_capability(&mut store, Capability::Port { port: 0x3f8 });
    assert_eq!(a, CapabilityId(1));
    assert_eq!(b, CapabilityId(2));
    assert_eq!(c, CapabilityId(3));
    assert_eq!(store.next_id(), 4);
}

#[test]
fn tokens_strictly_increase_across_many_creations() {
    let mut store = CapabilityStore::new();
    let mut last = 0u64;
    for n in 0..200u32 {
        let id = create_capability(&mut store, Capability::Spawn { max_children: n });
        assert!(id.0 > last);
        last = id.0;
    }
}

#[test]
fn a_token_is_never_issued_again_after_revocation() {
    let mut store = CapabilityStore::new();
    let a = create_capability(&mut store, Capability::Network);
    assert!(revoke_capability(&mut store, a));
    let b = create_capability(&mut store, Capability::Network);
    assert_ne!(a, b);
    assert!(b > a);
}

#[test]
fn validate_returns_the_record_stored() {
    let mut store = CapabilityStore::new();
    let id = create_capability(&mut store, files("/tmp/", true, false));
    match validate_capability(&store, id) {
        Some(Capability::FileSystem { path_prefix, read, write }) => {
            assert_eq!(path_prefix, "/tmp/");
            assert!(read);
            assert!(!write);
        }
        other => panic!("unexpected record: {:?}", other),
    }
    let p = create_capability(
        &mut store,
        Capability::Process { pid: 9, can_send: true, can_receive: false },
    );
    assert!(matches!(
        validate_capability(&store, p),
        Some(Capability::Process { pid: 9, can_send: true, can_receive: false })
    ));
}

#[test]
fn validate_of_unknown_token_is_none() {
    let store = CapabilityStore::new();
    assert!(validate_capability(&store, CapabilityId(1)).is_none());
    assert!(validate_capability(&store, CapabilityId(0)).is_none());
}

#[test]
fn revoke_reports_whether_the_record_existed() {
    let mut store = CapabilityStore::new();
    let id = create_capability(&mut store, Capability::Network);
    assert!(revoke_capability(&mut store, id));
    assert!(!revoke_capability(&mut store, id));
    assert!(!revoke_capability(&mut store, CapabilityId(77)));
    assert!(validate_capability(&store, id).is_none());
}

#[test]
fn memory_range_boundaries() {
    let mut store = CapabilityStore::new();
    let id = create_capability(&mut store, memory(0x1000, 0x1000, true, true));
    let bag = vec![id];
    assert!(!can_read_memory(&store, &bag, 0x0fff));
    assert!(can_read_memory(&store, &bag, 0x1000));
    assert!(can_read_memory(&store, &bag, 0x1fff));
    assert!(!can_read_memory(&store, &bag, 0x2000));
    assert!(can_write_memory(&store, &bag, 0x1000));
    assert!(can_write_memory(&store, &bag, 0x1fff));
    assert!(!can_write_memory(&store, &bag, 0x2000));
}

#[test]
fn denied_read_of_unmapped_memory() {
    let mut store = CapabilityStore::new();
    let id = create_capability(&mut store, memory(0x1000, 0x1000, true, false));
    let bag = vec![id];
    assert!(!can_read_memory(&store, &bag, 0x2000));
}

#[test]
fn address_outside_every_range_is_denied() {
    let mut store = CapabilityStore::new();
    let a = create_capability(&mut store, memory(0x1000, 0x100, true, true));
    let b = create_capability(&mut store, memory(0x4000, 0x10, true, true));
    let c = create_capability(&mut store, Capability::Network);
    let bag = vec![a, b, c];
    for addr in [0usize, 0xfff, 0x1100, 0x3fff, 0x4010, usize::MAX] {
        assert!(!can_read_memory(&store, &bag, addr));
        assert!(!can_write_memory(&store, &bag, addr));
    }
}

#[test]
fn memory_access_bits_are_separate() {
    let mut store = CapabilityStore::new();
    let r = create_capability(&mut store, memory(0, 16, true, false));
    let w = create_capability(&mut store, memory(32, 16, false, true));
    let bag = vec![r, w];
    assert!(can_read_memory(&store, &bag, 5));
    assert!(!can_write_memory(&store, &bag, 5));
    assert!(!can_read_memory(&store, &bag, 40));
    assert!(can_write_memory(&store, &bag, 40));
}

#[test]
fn memory_of_size_zero_covers_nothing() {
    let mut store = CapabilityStore::new();
    let id = create_capability(&mut store, memory(0x1000, 0, true, true));
    let bag = vec![id];
    assert!(!can_read_memory(&store, &bag, 0x1000));
    assert!(!can_write_memory(&store, &bag, 0x1000));
}

#[test]
fn memory_range_at_the_top_of_the_address_space() {
    let mut store = CapabilityStore::new();
    let id = create_capability(&mut store, memory(usize::MAX - 1, 16, true, false));
    let bag = vec![id];
    assert!(can_read_memory(&store, &bag, usize::MAX));
    assert!(can_read_memory(&store, &bag, usize::MAX - 1));
    assert!(!can_read_memory(&store, &bag, usize::MAX - 2));
}

#[test]
fn network_needs_a_network_token() {
    let mut store = CapabilityStore::new();
    let s = create_capability(&mut store, Capability::Spawn { max_children: 10 });
    let m = create_capability(&mut store, memory(0, 100, true, true));
    assert!(!can_access_network(&store, &vec![s, m]));
    let n = create_capability(&mut store, Capability::Network);
    assert!(can_access_network(&store, &vec![s, m, n]));
    assert!(can_access_network(&store, &vec![n]));
}

#[test]
fn file_prefix_is_matched_byte_for_byte() {
    let mut store = CapabilityStore::new();
    let id = create_capability(&mut store, files("/tmp/", true, true));
    let bag = vec![id];
    assert!(can_read_file(&store, &bag, "/tmp/x"));
    assert!(!can_read_file(&store, &bag, "/tmpx"));
    assert!(can_write_file(&store, &bag, "/tmp/x"));
    assert!(!can_write_file(&store, &bag, "/tmpx"));
    assert!(can_read_file(&store, &bag, "/tmp/"));
    assert!(!can_read_file(&store, &bag, "/tmp"));
    assert!(!can_read_file(&store, &bag, "/TMP/x"));
    assert!(can_read_file(&store, &bag, "/tmp/../etc"));
}

#[test]
fn file_access_bits_are_separate() {
    let mut store = CapabilityStore::new();
    let r = create_capability(&mut store, files("/ro/", true, false));
    let w = create_capability(&mut store, files("/wo/", false, true));
    let bag = vec![r, w];
    assert!(can_read_file(&store, &bag, "/ro/a"));
    assert!(!can_write_file(&store, &bag, "/ro/a"));
    assert!(!can_read_file(&store, &bag, "/wo/a"));
    assert!(can_write_file(&store, &bag, "/wo/a"));
}

#[test]
fn empty_prefix_matches_every_path() {
    let mut store = CapabilityStore::new();
    let id = create_capability(&mut store, files("", true, true));
    let bag = vec![id];
    assert!(can_read_file(&store, &bag, ""));
    assert!(can_read_file(&store, &bag, "/anything"));
    assert!(can_write_file(&store, &bag, "x"));
}

#[test]
fn prefix_with_multibyte_text() {
    let mut store = CapabilityStore::new();
    let id = create_capability(&mut store, files("/d\u{e9}/", true, false));
    let bag = vec![id];
    assert!(can_read_file(&store, &bag, "/d\u{e9}/x"));
    assert!(!can_read_file(&store, &bag, "/de/x"));
}

#[test]
fn send_needs_the_peer_and_the_send_bit() {
    let mut store = CapabilityStore::new();
    let a = create_capability(
        &mut store,
        Capability::Process { pid: 2, can_send: true, can_receive: false },
    );
    let b = create_capability(
        &mut store,
        Capability::Process { pid: 3, can_send: false, can_receive: true },
    );
    let bag = vec![a, b];
    assert!(can_send_to(&store, &bag, 2));
    assert!(!can_send_to(&store, &bag, 3));
    assert!(!can_send_to(&store, &bag, 4));
}

#[test]
fn spawn_needs_a_spawn_token() {
    let mut store = CapabilityStore::new();
    let n = create_capability(&mut store, Capability::Network);
    assert!(!can_spawn(&store, &vec![n]));
    let s = create_capability(&mut store, Capability::Spawn { max_children: 0 });
    assert!(can_spawn(&store, &vec![n, s]));
}

#[test]
fn empty_bag_refuses_every_predicate() {
    let mut store = CapabilityStore::new();
    create_capability(&mut store, Capability::Network);
    create_capability(&mut store, files("", true, true));
    create_capability(&mut store, memory(0, usize::MAX, true, true));
    let bag: Vec<CapabilityId> = Vec::new();
    assert!(!can_read_memory(&store, &bag, 0));
    assert!(!can_write_memory(&store, &bag, 0));
    assert!(!can_send_to(&store, &bag, 1));
    assert!(!can_spawn(&store, &bag));
    assert!(!can_access_network(&store, &bag));
    assert!(!can_read_file(&store, &bag, "/"));
    assert!(!can_write_file(&store, &bag, "/"));
    assert!(!find(&store, &bag, &Access::Network));
}

#[test]
fn unresolved_tokens_are_skipped() {
    let mut store = CapabilityStore::new();
    let n = create_capability(&mut store, Capability::Network);
    let bag = vec![CapabilityId(999), CapabilityId(0), n];
    assert!(can_access_network(&store, &bag));
    let dangling = vec![CapabilityId(999), CapabilityId(0)];
    assert!(!can_access_network(&store, &dangling));
}

#[test]
fn revocation_is_immediate() {
    let mut store = CapabilityStore::new();
    let c = create_capability(&mut store, Capability::Network);
    let bag = vec![c];
    assert!(can_access_network(&store, &bag));
    assert!(revoke_capability(&mut store, c));
    assert!(!can_access_network(&store, &bag));
    assert_eq!(bag, vec![c]);
}

#[test]
fn revocation_removes_authority_and_moves_none() {
    let mut store = CapabilityStore::new();
    let a = create_capability(&mut store, files("/a/", true, true));
    let b = create_capability(&mut store, files("/b/", true, true));
    let n = create_capability(&mut store, Capability::Network);
    let bag = vec![a, b, n];
    assert!(revoke_capability(&mut store, a));
    assert!(!can_read_file(&store, &bag, "/a/x"));
    assert!(!can_write_file(&store, &bag, "/a/x"));
    assert!(can_read_file(&store, &bag, "/b/x"));
    assert!(can_access_network(&store, &bag));
    assert!(!can_spawn(&store, &bag));
}

#[test]
fn find_is_the_predicates() {
    let mut store = CapabilityStore::new();
    let m = create_capability(&mut store, memory(10, 10, true, false));
    let bag = vec![m];
    assert!(find(&store, &bag, &Access::ReadMemory { addr: 12 }));
    assert!(!find(&store, &bag, &Access::WriteMemory { addr: 12 }));
    assert!(!find(&store, &bag, &Access::Spawn));
    assert!(!find(&store, &bag, &Access::SendTo { pid: 1 }));
    assert!(!find(&store, &bag, &Access::ReadFile { path: "/" }));
    assert!(!find(&store, &bag, &Access::WriteFile { path: "/" }));
}

#[test]
fn one_record_against_one_access() {
    assert!(capability_grants(&Capability::Network, &Access::Network));
    assert!(!capability_grants(&Capability::Network, &Access::Spawn));
    assert!(!capability_grants(&Capability::Interrupt { irq: 1 }, &Access::Network));
    assert!(!capability_grants(&Capability::Port { port: 1 }, &Access::ReadMemory { addr: 1 }));
    assert!(capability_grants(
        &Capability::Spawn { max_children: 3 },
        &Access::Spawn
    ));
}

#[test]
fn capability_clone_keeps_the_record() {
    let cap = files("/x/", true, false);
    match cap.clone() {
        Capability::FileSystem { path_prefix, read, write } => {
            assert_eq!(path_prefix, "/x/");
            assert!(read && !write);
        }
        other => panic!("unexpected clone: {:?}", other),
    }
}

#[test]
fn only_the_empty_prefix_matches_every_path() {
    assert!(matches_every_path(&files("", true, false)));
    assert!(matches_every_path(&files("", false, false)));
    assert!(!matches_every_path(&files("/", true, true)));
    assert!(!matches_every_path(&Capability::Network));
}
