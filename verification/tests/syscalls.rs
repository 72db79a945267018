use microvisor::capability::{
    can_access_network, can_read_file, can_spawn, create_capability, revoke_capability,
    validate_capability, Capability, CapabilityId,
};
use microvisor::ipc::{create_endpoint, receive_message, ProcessId};
use microvisor::kernel::Kernel;
use microvisor::task::{agent_capabilities, spawn_agent, terminate_agent, AgentId};
use microvisor::vfs::{list_files, open_file, register_file, write_file};
use microvisor::wasm::syscalls::{
    debug_log, escalation_policy, file_list, file_read, file_write, request_capability,
    resolve_dns, resolve_dns_finish, send_ipc, tcp_request, tcp_request_finish, NetworkCall,
    REQUEST_FILESYSTEM, REQUEST_NETWORK, REQUEST_SPAWN,
};
use microvisor::wasm::{HostError, WasmState};

fn code(result: Result<u32, HostError>) -> u32 {
    match result {
        Ok(code) => code,
        Err(HostError(reason)) => panic!("trap: {}", reason),
    }
}

fn trap(result: Result<u32, HostError>) -> String {
    match result {
        Ok(code) => panic!("no trap, code {}", code),
        Err(HostError(reason)) => reason,
    }
}

fn guest(size: usize, at: usize, bytes: &[u8]) -> Vec<u8> {
    let mut memory = vec![0u8; size];
    memory[at..at + bytes.len()].copy_from_slice(bytes);
    memory
}

fn agent_with(kernel: &mut Kernel, caps: Vec<Capability>) -> WasmState {
    let mut bag = Vec::new();
    for cap in caps {
        bag.push(create_capability(&mut kernel.capabilities, cap));
    }
    let id = spawn_agent(&mut kernel.agents, "agent", &bag);
    WasmState { agent_pid: id.0 }
}

fn files(prefix: &str, read: bool, write: bool) -> Capability {
    Capability::FileSystem { path_prefix: String::from(prefix), read, write }
}

#[test]
fn permitted_ipc_send_and_receive() {
    let mut kernel = Kernel::new();
    let a = agent_with(
        &mut kernel,
        vec![Capability::Process { pid: 2, can_send: true, can_receive: false }],
    );
    let b = agent_with(&mut kernel, vec![]);
    assert_eq!(a.agent_pid, 1);
    assert_eq!(b.agent_pid, 2);
    create_endpoint(&mut kernel.ipc, ProcessId(2)).unwrap();
    let memory = guest(64, 16, b"Hello");
    assert_eq!(code(send_ipc(&mut kernel, &a, &memory, 2, 16, 5)), 0);
    let message = receive_message(&mut kernel.ipc, ProcessId(2)).unwrap();
    assert_eq!(message.data, vec![b'H', b'e', b'l', b'l', b'o']);
    assert_eq!(message.sender, ProcessId(1));
    assert!(message.capabilities.is_empty());
}

#[test]
fn send_ipc_is_denied_without_the_token_and_delivers_nothing() {
    let mut kernel = Kernel::new();
    let a = agent_with(
        &mut kernel,
        vec![Capability::Process { pid: 3, can_send: true, can_receive: true }],
    );
    create_endpoint(&mut kernel.ipc, ProcessId(2)).unwrap();
    let memory = guest(64, 0, b"Hello");
    assert_eq!(code(send_ipc(&mut kernel, &a, &memory, 2, 0, 5)), 2);
    assert_eq!(kernel.ipc.pending(ProcessId(2)), 0);
}

#[test]
fn send_ipc_general_error_without_endpoint_and_on_full_queue() {
    let mut kernel = Kernel::new();
    let a = agent_with(
        &mut kernel,
        vec![Capability::Process { pid: 2, can_send: true, can_receive: false }],
    );
    let memory = guest(64, 0, b"x");
    assert_eq!(code(send_ipc(&mut kernel, &a, &memory, 2, 0, 1)), 1);
    create_endpoint(&mut kernel.ipc, ProcessId(2)).unwrap();
    for _ in 0..32 {
        assert_eq!(code(send_ipc(&mut kernel, &a, &memory, 2, 0, 1)), 0);
    }
    assert_eq!(code(send_ipc(&mut kernel, &a, &memory, 2, 0, 1)), 1);
    assert_eq!(kernel.ipc.pending(ProcessId(2)), 32);
}

#[test]
fn send_ipc_traps_on_a_pointer_outside_memory() {
    let mut kernel = Kernel::new();
    let a = agent_with(
        &mut kernel,
        vec![Capability::Process { pid: 2, can_send: true, can_receive: false }],
    );
    create_endpoint(&mut kernel.ipc, ProcessId(2)).unwrap();
    let memory = vec![0u8; 64];
    assert_eq!(trap(send_ipc(&mut kernel, &a, &memory, 2, 60, 5)), "Memory read failed");
    assert_eq!(trap(send_ipc(&mut kernel, &a, &memory, 2, 65, 0)), "Memory read failed");
    assert_eq!(
        trap(send_ipc(&mut kernel, &a, &memory, 2, u32::MAX, u32::MAX)),
        "Memory read failed"
    );
    assert_eq!(kernel.ipc.pending(ProcessId(2)), 0);
    assert_eq!(code(send_ipc(&mut kernel, &a, &memory, 2, 64, 0)), 0);
    assert_eq!(code(send_ipc(&mut kernel, &a, &memory, 2, 59, 5)), 0);
}

#[test]
fn send_ipc_by_an_unknown_agent_is_denied() {
    let mut kernel = Kernel::new();
    create_endpoint(&mut kernel.ipc, ProcessId(2)).unwrap();
    let memory = vec![0u8; 8];
    let ghost = WasmState { agent_pid: 40 };
    assert_eq!(code(send_ipc(&mut kernel, &ghost, &memory, 2, 0, 1)), 2);
}

#[test]
fn denied_network_without_network_cap() {
    let mut kernel = Kernel::new();
    let a = agent_with(&mut kernel, vec![Capability::Spawn { max_children: 10 }]);
    let memory = guest(64, 0, &[93, 184, 216, 34]);
    match tcp_request(&kernel, &a, &memory, 0, 80, 8, 0) {
        Ok(NetworkCall::Refused(code)) => assert_eq!(code, 2),
        _ => panic!("the request was not refused"),
    }
}

#[test]
fn tcp_request_with_network_cap_hands_out_the_target() {
    let mut kernel = Kernel::new();
    let a = agent_with(&mut kernel, vec![Capability::Network]);
    let mut memory = guest(64, 0, &[93, 184, 216, 34]);
    memory[8..11].copy_from_slice(b"GET");
    match tcp_request(&kernel, &a, &memory, 0, 80, 8, 3) {
        Ok(NetworkCall::Proceed(target)) => {
            assert_eq!(target.ip, [93, 184, 216, 34]);
            assert_eq!(target.port, 80);
            assert_eq!(target.payload, b"GET".to_vec());
        }
        _ => panic!("the request did not proceed"),
    }
    match tcp_request(&kernel, &a, &memory, 0, 65536 + 443, 8, 0) {
        Ok(NetworkCall::Proceed(target)) => assert_eq!(target.port, 443),
        _ => panic!("the request did not proceed"),
    }
    assert_eq!(tcp_request_finish(true), 0);
    assert_eq!(tcp_request_finish(false), 1);
}

#[test]
fn tcp_request_traps_on_unreadable_inputs() {
    let mut kernel = Kernel::new();
    let a = agent_with(&mut kernel, vec![Capability::Network]);
    let memory = vec![0u8; 16];
    match tcp_request(&kernel, &a, &memory, 13, 80, 0, 0) {
        Err(HostError(reason)) => assert_eq!(reason, "IP read failed"),
        _ => panic!("no trap"),
    }
    match tcp_request(&kernel, &a, &memory, 12, 80, 10, 7) {
        Err(HostError(reason)) => assert_eq!(reason, "Payload read failed"),
        _ => panic!("no trap"),
    }
}

#[test]
fn escalation_then_use() {
    let mut kernel = Kernel::new();
    create_endpoint(&mut kernel.ipc, ProcessId(0)).unwrap();
    let a = agent_with(&mut kernel, vec![]);
    let memory = guest(64, 0, &[93, 184, 216, 34]);
    assert!(matches!(
        tcp_request(&kernel, &a, &memory, 0, 80, 8, 0),
        Ok(NetworkCall::Refused(2))
    ));
    assert_eq!(code(request_capability(&mut kernel, &a, &memory, 0, 0, 0)), 0);
    let message = receive_message(&mut kernel.ipc, ProcessId(0)).unwrap();
    assert_eq!(message.data, format!("CAP_REQUEST:{}:0:", a.agent_pid).into_bytes());
    assert_eq!(message.sender, ProcessId(a.agent_pid));
    assert!(matches!(
        tcp_request(&kernel, &a, &memory, 0, 80, 8, 0),
        Ok(NetworkCall::Proceed(_))
    ));
    let bag = agent_capabilities(&kernel.agents, AgentId(a.agent_pid));
    assert_eq!(bag.len(), 1);
    assert!(matches!(
        validate_capability(&kernel.capabilities, bag[0]),
        Some(Capability::Network)
    ));
}

#[test]
fn request_for_files_grants_the_prefix_asked_for() {
    let mut kernel = Kernel::new();
    create_endpoint(&mut kernel.ipc, ProcessId(0)).unwrap();
    let a = agent_with(&mut kernel, vec![]);
    let memory = guest(64, 4, b"/data/");
    assert_eq!(code(request_capability(&mut kernel, &a, &memory, 1, 4, 6)), 0);
    let bag = agent_capabilities(&kernel.agents, AgentId(a.agent_pid));
    assert!(can_read_file(&kernel.capabilities, &bag, "/data/x"));
    assert!(!can_read_file(&kernel.capabilities, &bag, "/agent/x"));
    let message = receive_message(&mut kernel.ipc, ProcessId(0)).unwrap();
    assert_eq!(message.data, b"CAP_REQUEST:1:1:/data/".to_vec());
}

#[test]
fn request_for_files_without_detail_grants_the_agent_prefix() {
    let mut kernel = Kernel::new();
    let a = agent_with(&mut kernel, vec![]);
    let memory = vec![0u8; 8];
    assert_eq!(code(request_capability(&mut kernel, &a, &memory, 1, 1000, 0)), 0);
    let bag = agent_capabilities(&kernel.agents, AgentId(a.agent_pid));
    match validate_capability(&kernel.capabilities, bag[0]) {
        Some(Capability::FileSystem { path_prefix, read, write }) => {
            assert_eq!(path_prefix, "/agent/");
            assert!(read && write);
        }
        other => panic!("unexpected grant: {:?}", other),
    }
}

#[test]
fn request_with_detail_that_is_no_text_counts_as_no_detail() {
    let mut kernel = Kernel::new();
    create_endpoint(&mut kernel.ipc, ProcessId(0)).unwrap();
    let a = agent_with(&mut kernel, vec![]);
    let memory = guest(16, 0, &[0xff, 0xfe]);
    assert_eq!(code(request_capability(&mut kernel, &a, &memory, 1, 0, 2)), 0);
    let bag = agent_capabilities(&kernel.agents, AgentId(a.agent_pid));
    assert!(can_read_file(&kernel.capabilities, &bag, "/agent/x"));
    assert!(!can_read_file(&kernel.capabilities, &bag, "/other"));
    let message = receive_message(&mut kernel.ipc, ProcessId(0)).unwrap();
    assert_eq!(message.data, b"CAP_REQUEST:1:1:".to_vec());
}

#[test]
fn request_for_spawn_grants_five_children() {
    let mut kernel = Kernel::new();
    let a = agent_with(&mut kernel, vec![]);
    let memory = vec![0u8; 8];
    assert_eq!(code(request_capability(&mut kernel, &a, &memory, 2, 0, 0)), 0);
    let bag = agent_capabilities(&kernel.agents, AgentId(a.agent_pid));
    assert!(can_spawn(&kernel.capabilities, &bag));
    assert!(matches!(
        validate_capability(&kernel.capabilities, bag[0]),
        Some(Capability::Spawn { max_children: 5 })
    ));
}

#[test]
fn request_of_unknown_kind_returns_one_and_is_still_audited() {
    let mut kernel = Kernel::new();
    create_endpoint(&mut kernel.ipc, ProcessId(0)).unwrap();
    let a = agent_with(&mut kernel, vec![]);
    let memory = guest(16, 0, b"zz");
    let next = kernel.capabilities.next_id();
    assert_eq!(code(request_capability(&mut kernel, &a, &memory, 3, 0, 2)), 1);
    assert_eq!(code(request_capability(&mut kernel, &a, &memory, 4000000000, 0, 0)), 1);
    assert_eq!(kernel.capabilities.next_id(), next);
    assert!(agent_capabilities(&kernel.agents, AgentId(a.agent_pid)).is_empty());
    assert_eq!(
        receive_message(&mut kernel.ipc, ProcessId(0)).unwrap().data,
        b"CAP_REQUEST:1:3:zz".to_vec()
    );
    assert_eq!(
        receive_message(&mut kernel.ipc, ProcessId(0)).unwrap().data,
        b"CAP_REQUEST:1:4000000000:".to_vec()
    );
}

#[test]
fn request_traps_on_unreadable_detail() {
    let mut kernel = Kernel::new();
    create_endpoint(&mut kernel.ipc, ProcessId(0)).unwrap();
    let a = agent_with(&mut kernel, vec![]);
    let memory = vec![0u8; 8];
    assert_eq!(trap(request_capability(&mut kernel, &a, &memory, 0, 6, 3)), "Detail read failed");
    assert_eq!(kernel.ipc.pending(ProcessId(0)), 0);
    assert!(agent_capabilities(&kernel.agents, AgentId(a.agent_pid)).is_empty());
}

#[test]
fn request_by_a_terminated_agent_creates_but_does_not_grant() {
    let mut kernel = Kernel::new();
    let a = agent_with(&mut kernel, vec![]);
    terminate_agent(&mut kernel.agents, AgentId(a.agent_pid));
    let memory = vec![0u8; 8];
    assert_eq!(code(request_capability(&mut kernel, &a, &memory, 0, 0, 0)), 0);
    let bag = agent_capabilities(&kernel.agents, AgentId(a.agent_pid));
    assert!(bag.is_empty());
    assert!(!can_access_network(&kernel.capabilities, &bag));
}

#[test]
fn policy_in_one_place() {
    assert!(matches!(escalation_policy(REQUEST_NETWORK, "x"), Some(Capability::Network)));
    assert!(matches!(
        escalation_policy(REQUEST_SPAWN, ""),
        Some(Capability::Spawn { max_children: 5 })
    ));
    match escalation_policy(REQUEST_FILESYSTEM, "/p/") {
        Some(Capability::FileSystem { path_prefix, read: true, write: true }) => {
            assert_eq!(path_prefix, "/p/")
        }
        other => panic!("unexpected grant: {:?}", other),
    }
    assert!(escalation_policy(3, "").is_none());
    assert!(escalation_policy(u32::MAX, "/p/").is_none());
}

#[test]
fn vfs_write_blocked_on_system_file() {
    let mut kernel = Kernel::new();
    register_file(&mut kernel.vfs, "/sys/info", b"system");
    let a = agent_with(&mut kernel, vec![files("/sys/", true, true)]);
    let mut memory = guest(64, 0, b"/sys/info");
    memory[32..36].copy_from_slice(b"evil");
    assert_eq!(code(file_write(&mut kernel, &a, &memory, 0, 9, 32, 4)), 1);
    assert_eq!(open_file(&kernel.vfs, "/sys/info"), Some(b"system".to_vec()));
}

#[test]
fn file_write_creates_a_file_owned_by_the_caller() {
    let mut kernel = Kernel::new();
    let a = agent_with(&mut kernel, vec![files("/agent/", false, true)]);
    let mut memory = guest(64, 0, b"/agent/log");
    memory[32..37].copy_from_slice(b"entry");
    assert_eq!(code(file_write(&mut kernel, &a, &memory, 0, 10, 32, 5)), 0);
    assert_eq!(open_file(&kernel.vfs, "/agent/log"), Some(b"entry".to_vec()));
    assert_eq!(code(file_write(&mut kernel, &a, &memory, 0, 10, 32, 2)), 0);
    assert_eq!(open_file(&kernel.vfs, "/agent/log"), Some(b"en".to_vec()));
    assert_eq!(list_files(&kernel.vfs).len(), 1);
}

#[test]
fn file_calls_are_denied_without_a_matching_prefix() {
    let mut kernel = Kernel::new();
    register_file(&mut kernel.vfs, "/sys/info", b"system");
    write_file(&mut kernel.vfs, "/tmpx", b"t", 9);
    let bags: Vec<Vec<Capability>> = vec![
        vec![],
        vec![Capability::Network, Capability::Spawn { max_children: 1 }],
        vec![files("/tmp/", true, true)],
        vec![files("/sys/info/", true, true), files("/sys/infp", true, true)],
    ];
    for caps in bags {
        let a = agent_with(&mut kernel, caps);
        for path in ["/sys/info", "/tmpx"] {
            let mut memory = guest(128, 0, path.as_bytes());
            let len = path.len() as u32;
            let before = memory.clone();
            assert_eq!(code(file_read(&kernel, &a, &mut memory, 0, len, 64, 100)), 2);
            assert_eq!(code(file_list(&kernel, &a, &mut memory, 0, len, 64, 100)), 2);
            assert_eq!(code(file_write(&mut kernel, &a, &memory, 0, len, 64, 4)), 2);
            assert_eq!(memory, before);
        }
    }
    assert_eq!(open_file(&kernel.vfs, "/sys/info"), Some(b"system".to_vec()));
    assert_eq!(open_file(&kernel.vfs, "/tmpx"), Some(b"t".to_vec()));
    assert_eq!(list_files(&kernel.vfs).len(), 2);
}

#[test]
fn file_calls_need_the_right_access_bit() {
    let mut kernel = Kernel::new();
    register_file(&mut kernel.vfs, "/d/a", b"A");
    let reader = agent_with(&mut kernel, vec![files("/d/", true, false)]);
    let writer = agent_with(&mut kernel, vec![files("/d/", false, true)]);
    let mut memory = guest(128, 0, b"/d/b");
    assert_eq!(code(file_write(&mut kernel, &reader, &memory, 0, 4, 64, 1)), 2);
    assert_eq!(code(file_read(&kernel, &writer, &mut memory, 0, 4, 64, 100)), 2);
    assert_eq!(code(file_list(&kernel, &writer, &mut memory, 0, 3, 64, 100)), 2);
    assert_eq!(code(file_write(&mut kernel, &writer, &memory, 0, 4, 64, 1)), 0);
    assert_eq!(code(file_read(&kernel, &reader, &mut memory, 0, 4, 64, 100)), 0);
}

#[test]
fn file_read_writes_contents_and_length() {
    let mut kernel = Kernel::new();
    register_file(&mut kernel.vfs, "/sys/info", b"system");
    let a = agent_with(&mut kernel, vec![files("/sys/", true, false)]);
    let mut memory = guest(128, 0, b"/sys/info");
    memory[40..50].copy_from_slice(&[0xaa; 10]);
    assert_eq!(code(file_read(&kernel, &a, &mut memory, 0, 9, 40, 100)), 0);
    assert_eq!(&memory[40..46], b"system");
    assert_eq!(&memory[46..50], &[0xaa; 4]);
    assert_eq!(&memory[100..104], &[6, 0, 0, 0]);
    assert_eq!(&memory[0..9], b"/sys/info");
}

#[test]
fn file_read_length_is_little_endian() {
    let mut kernel = Kernel::new();
    let data = vec![7u8; 0x0203];
    register_file(&mut kernel.vfs, "/big", &data);
    let a = agent_with(&mut kernel, vec![files("/", true, false)]);
    let mut memory = guest(2048, 0, b"/big");
    assert_eq!(code(file_read(&kernel, &a, &mut memory, 0, 4, 16, 8)), 0);
    assert_eq!(&memory[8..12], &[0x03, 0x02, 0, 0]);
    assert_eq!(&memory[16..16 + 0x0203], &data[..]);
}

#[test]
fn file_read_of_missing_file_returns_not_found() {
    let mut kernel = Kernel::new();
    let a = agent_with(&mut kernel, vec![files("/", true, false)]);
    let mut memory = guest(64, 0, b"/nope");
    let before = memory.clone();
    assert_eq!(code(file_read(&kernel, &a, &mut memory, 0, 5, 32, 40)), 3);
    assert_eq!(memory, before);
}

#[test]
fn file_read_traps() {
    let mut kernel = Kernel::new();
    register_file(&mut kernel.vfs, "/f", b"0123456789");
    let a = agent_with(&mut kernel, vec![files("/", true, false)]);
    let mut memory = guest(64, 0, b"/f");
    assert_eq!(trap(file_read(&kernel, &a, &mut memory, 63, 2, 0, 0)), "Path read failed");
    let mut bad = guest(64, 0, &[b'/', 0xc3]);
    assert_eq!(trap(file_read(&kernel, &a, &mut bad, 0, 2, 0, 0)), "Invalid path");
    let before = memory.clone();
    assert_eq!(trap(file_read(&kernel, &a, &mut memory, 0, 2, 60, 8)), "Data write failed");
    assert_eq!(memory, before);
    assert_eq!(trap(file_read(&kernel, &a, &mut memory, 0, 2, 20, 62)), "Len write failed");
    assert_eq!(&memory[20..30], b"0123456789");
}

#[test]
fn file_write_traps() {
    let mut kernel = Kernel::new();
    let a = agent_with(&mut kernel, vec![files("/", true, true)]);
    let memory = guest(64, 0, b"/f");
    assert_eq!(trap(file_write(&mut kernel, &a, &memory, 64, 1, 0, 0)), "Path read failed");
    assert_eq!(trap(file_write(&mut kernel, &a, &memory, 0, 2, 60, 5)), "Data read failed");
    let bad = guest(64, 0, &[0x80]);
    assert_eq!(trap(file_write(&mut kernel, &a, &bad, 0, 1, 8, 1)), "Invalid path");
    assert!(list_files(&kernel.vfs).is_empty());
}

#[test]
fn file_list_writes_names_one_to_a_line() {
    let mut kernel = Kernel::new();
    register_file(&mut kernel.vfs, "/sys/a", b"");
    register_file(&mut kernel.vfs, "/tmp/z", b"");
    register_file(&mut kernel.vfs, "/sys/bb", b"");
    let a = agent_with(&mut kernel, vec![files("/sys/", true, false)]);
    let mut memory = guest(128, 0, b"/sys/");
    assert_eq!(code(file_list(&kernel, &a, &mut memory, 0, 5, 32, 100)), 0);
    assert_eq!(&memory[32..46], b"/sys/a\n/sys/bb");
    assert_eq!(&memory[100..104], &[14, 0, 0, 0]);
    assert_eq!(memory[46], 0);
}

#[test]
fn file_list_of_nothing_is_empty() {
    let mut kernel = Kernel::new();
    register_file(&mut kernel.vfs, "/tmp/z", b"");
    let a = agent_with(&mut kernel, vec![files("/sys/", true, false)]);
    let mut memory = guest(128, 0, b"/sys/");
    memory[100..104].copy_from_slice(&[9, 9, 9, 9]);
    assert_eq!(code(file_list(&kernel, &a, &mut memory, 0, 5, 32, 100)), 0);
    assert_eq!(&memory[100..104], &[0, 0, 0, 0]);
}

#[test]
fn file_list_traps() {
    let mut kernel = Kernel::new();
    register_file(&mut kernel.vfs, "/sys/a", b"");
    let a = agent_with(&mut kernel, vec![files("", true, false)]);
    let mut memory = guest(64, 0, b"/sys/");
    assert_eq!(trap(file_list(&kernel, &a, &mut memory, 62, 5, 0, 0)), "Prefix read failed");
    let mut bad = guest(64, 0, &[0xff]);
    assert_eq!(trap(file_list(&kernel, &a, &mut bad, 0, 1, 0, 0)), "Invalid prefix");
    assert_eq!(trap(file_list(&kernel, &a, &mut memory, 0, 5, 60, 0)), "List write failed");
    assert_eq!(trap(file_list(&kernel, &a, &mut memory, 0, 5, 10, 61)), "Len write failed");
}

#[test]
fn revoked_file_token_denies_at_once() {
    let mut kernel = Kernel::new();
    register_file(&mut kernel.vfs, "/sys/a", b"A");
    let a = agent_with(&mut kernel, vec![files("/sys/", true, true)]);
    let mut memory = guest(64, 0, b"/sys/a");
    assert_eq!(code(file_read(&kernel, &a, &mut memory, 0, 6, 32, 40)), 0);
    let bag = agent_capabilities(&kernel.agents, AgentId(a.agent_pid));
    assert!(revoke_capability(&mut kernel.capabilities, bag[0]));
    assert_eq!(code(file_read(&kernel, &a, &mut memory, 0, 6, 32, 40)), 2);
    assert_eq!(agent_capabilities(&kernel.agents, AgentId(a.agent_pid)), bag);
    assert_eq!(bag, vec![CapabilityId(1)]);
}

#[test]
fn debug_log_hands_out_text() {
    let memory = guest(32, 4, b"hi there");
    match debug_log(&memory, 4, 8) {
        Ok(Some(text)) => assert_eq!(text, "hi there"),
        _ => panic!("no text"),
    }
    match debug_log(&memory, 4, 0) {
        Ok(Some(text)) => assert_eq!(text, ""),
        _ => panic!("no text"),
    }
    let bad = guest(32, 0, &[0xe2, 0x82]);
    assert!(matches!(debug_log(&bad, 0, 2), Ok(None)));
    match debug_log(&memory, 30, 3) {
        Err(HostError(reason)) => assert_eq!(reason, "Memory read failed"),
        _ => panic!("no trap"),
    }
}

#[test]
fn resolve_dns_gate() {
    let mut kernel = Kernel::new();
    let plain = agent_with(&mut kernel, vec![files("", true, true)]);
    let net = agent_with(&mut kernel, vec![Capability::Network]);
    let memory = guest(64, 0, b"example.com");
    assert!(matches!(
        resolve_dns(&kernel, &plain, &memory, 0, 11),
        Ok(NetworkCall::Refused(2))
    ));
    match resolve_dns(&kernel, &net, &memory, 0, 11) {
        Ok(NetworkCall::Proceed(domain)) => assert_eq!(domain, "example.com"),
        _ => panic!("the call did not proceed"),
    }
    match resolve_dns(&kernel, &net, &memory, 60, 11) {
        Err(HostError(reason)) => assert_eq!(reason, "Name read failed"),
        _ => panic!("no trap"),
    }
    let bad = guest(64, 0, &[b'a', 0xc0]);
    match resolve_dns(&kernel, &net, &bad, 0, 2) {
        Err(HostError(reason)) => assert_eq!(reason, "Invalid UTF-8 domain"),
        _ => panic!("no trap"),
    }
}

#[test]
fn resolve_dns_finish_writes_the_address() {
    let mut memory = vec![0u8; 16];
    assert_eq!(code(resolve_dns_finish(&mut memory, 4, Some([1, 2, 3, 4]))), 0);
    assert_eq!(memory[3..9], [0, 1, 2, 3, 4, 0]);
    assert_eq!(code(resolve_dns_finish(&mut memory, 12, Some([9, 9, 9, 9]))), 0);
    let before = memory.clone();
    assert_eq!(code(resolve_dns_finish(&mut memory, 0, None)), 1);
    assert_eq!(code(resolve_dns_finish(&mut memory, 400, None)), 1);
    assert_eq!(trap(resolve_dns_finish(&mut memory, 13, Some([5, 6, 7, 8]))), "IP write failed");
    assert_eq!(memory, before);
}

#[test]
fn inputs_are_copied_before_the_bag_is_asked() {
    let mut kernel = Kernel::new();
    let a = agent_with(&mut kernel, vec![Capability::Spawn { max_children: 10 }]);
    let memory = guest(16, 0, b"/f");
    match tcp_request(&kernel, &a, &memory, 1000, 80, 0, 0) {
        Err(HostError(reason)) => assert_eq!(reason, "IP read failed"),
        _ => panic!("no trap"),
    }
    match tcp_request(&kernel, &a, &memory, 0, 80, 2000, 3000) {
        Err(HostError(reason)) => assert_eq!(reason, "Payload read failed"),
        _ => panic!("no trap"),
    }
    match resolve_dns(&kernel, &a, &memory, 1000, 2000) {
        Err(HostError(reason)) => assert_eq!(reason, "Name read failed"),
        _ => panic!("no trap"),
    }
    let bad = guest(16, 0, &[0xff, 0xff]);
    match resolve_dns(&kernel, &a, &bad, 0, 2) {
        Err(HostError(reason)) => assert_eq!(reason, "Invalid UTF-8 domain"),
        _ => panic!("no trap"),
    }
    assert_eq!(
        trap(file_write(&mut kernel, &a, &memory, 0, 2, 1000, 2000)),
        "Data read failed"
    );
    assert_eq!(code(file_write(&mut kernel, &a, &memory, 0, 2, 4, 2)), 2);
    assert!(matches!(
        tcp_request(&kernel, &a, &memory, 0, 80, 16, 0),
        Ok(NetworkCall::Refused(2))
    ));
    assert!(matches!(resolve_dns(&kernel, &a, &memory, 0, 2), Ok(NetworkCall::Refused(2))));
    assert!(list_files(&kernel.vfs).is_empty());
}
