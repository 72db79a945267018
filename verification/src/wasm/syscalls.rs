//! The host calls.
//!
//! Every call has the same shape. It copies its inputs out of the guest's
//! memory; a pointer that leaves the memory, or bytes that are no text where
//! text is required, end the guest with a trap. Then it asks whether the
//! caller's bag allows what is asked; if not, the call returns the code for
//! "permission denied" and nothing else has happened. Only then does it act,
//! copy its outputs back, and return the code for what came of it.
//!
//! What each call comes to is written down once, as a function of the state
//! before the call, and the call is proved to do exactly that.

use crate::capability::{
    can_access_network, can_read_file, can_send_to, can_write_file, create_capability,
    AccessModel, Capability, CapabilityId, CapabilityModel,
};
use crate::ipc::{send_message, MessageModel, ProcessId, KERNEL_SUPERVISOR_PID};
use crate::kernel::{Kernel, KernelModel};
use crate::syscall_errors::{ERR_GENERAL, ERR_NOT_FOUND, ERR_PERMISSION_DENIED, OK};
use crate::task::{agent_capabilities, grant_capability_to_agent, AgentId};
use crate::text::{
    decimal, is_path_prefix, join_lines, joined, push_bytes, push_decimal, utf8_text,
};
use crate::vfs::{
    after_write, has_file, index_of, is_protected, list_files_prefix, names, names_unique,
    open_file, write_file,
};
use crate::wasm::memory::{
    in_bounds, le_bytes, loaded, read_guest, stored, u32_le_bytes, write_guest,
};
use crate::wasm::{HostError, WasmState};
use vstd::prelude::*;
use vstd::utf8::{decode_utf8, encode_utf8, encode_utf8_decode_utf8, valid_utf8};

verus! {

/// What a host call comes to, for the guest: the code that it returns, or
/// the reason of the trap that ends the guest.
pub enum Verdict {
    Code(u32),
    Trap(Seq<char>),
}

/// What a host call that acts on the kernel comes to.
pub struct KernelOutcome {
    pub verdict: Verdict,
    pub kernel: KernelModel,
}

/// What a host call that writes to the guest's memory comes to.
pub struct MemoryOutcome {
    pub verdict: Verdict,
    pub memory: Seq<u8>,
}

/// Whether `result` is the verdict.
pub open spec fn agrees(result: Result<u32, HostError>, verdict: Verdict) -> bool {
    match result {
        Ok(code) => verdict == Verdict::Code(code),
        Err(trap) => verdict == Verdict::Trap(trap.0@),
    }
}

fn trap(reason: &str) -> (error: HostError)
    ensures
        error.0@ == reason@,
{
    HostError(reason.to_owned())
}

/// Why the text argument at `ptr` cannot be had: `unreadable` where the
/// bytes do not lie inside the memory, `malformed` where they are not
/// UTF-8, and `None` where it can.
pub open spec fn text_fault(
    memory: Seq<u8>,
    ptr: u32,
    len: u32,
    unreadable: Seq<char>,
    malformed: Seq<char>,
) -> Option<Seq<char>> {
    if !in_bounds(memory.len(), ptr, len as nat) {
        Some(unreadable)
    } else if !valid_utf8(loaded(memory, ptr, len as nat)) {
        Some(malformed)
    } else {
        None
    }
}

/// The text argument at `ptr`.
pub open spec fn text_at(memory: Seq<u8>, ptr: u32, len: u32) -> Seq<char> {
    decode_utf8(loaded(memory, ptr, len as nat))
}

fn read_text(memory: &[u8], ptr: u32, len: u32, unreadable: &str, malformed: &str) -> (result:
    Result<String, HostError>)
    ensures
        match result {
            Ok(text) => text_fault(memory@, ptr, len, unreadable@, malformed@) is None && text@
                == text_at(memory@, ptr, len),
            Err(error) => text_fault(memory@, ptr, len, unreadable@, malformed@) == Some(
                error.0@,
            ),
        },
{
    match read_guest(memory, ptr, len) {
        None => Err(trap(unreadable)),
        Some(bytes) => match utf8_text(bytes.as_slice()) {
            None => Err(trap(malformed)),
            Some(text) => {
                proof {
                    encode_utf8_decode_utf8(text@);
                }
                Ok(text.to_owned())
            },
        },
    }
}

/// The memory and the verdict after `data` was handed to the guest: the
/// bytes go to `out_ptr`, then their number, as four bytes with the lowest
/// first, to `out_len_ptr`. A write that does not fit is a trap, and what
/// was written before it stays written.
pub open spec fn reply_outcome(
    memory: Seq<u8>,
    out_ptr: u32,
    out_len_ptr: u32,
    data: Seq<u8>,
    data_reason: Seq<char>,
    len_reason: Seq<char>,
) -> MemoryOutcome {
    if !in_bounds(memory.len(), out_ptr, data.len()) {
        MemoryOutcome { verdict: Verdict::Trap(data_reason), memory }
    } else {
        let filled = stored(memory, out_ptr, data);
        if !in_bounds(memory.len(), out_len_ptr, 4) {
            MemoryOutcome { verdict: Verdict::Trap(len_reason), memory: filled }
        } else {
            MemoryOutcome {
                verdict: Verdict::Code(OK),
                memory: stored(filled, out_len_ptr, le_bytes((data.len() % 0x1_0000_0000) as u32)),
            }
        }
    }
}

fn reply(
    memory: &mut [u8],
    out_ptr: u32,
    out_len_ptr: u32,
    data: &[u8],
    data_reason: &str,
    len_reason: &str,
) -> (result: Result<u32, HostError>)
    ensures
        agrees(
            result,
            reply_outcome(
                old(memory)@,
                out_ptr,
                out_len_ptr,
                data@,
                data_reason@,
                len_reason@,
            ).verdict,
        ),
        final(memory)@ == reply_outcome(
            old(memory)@,
            out_ptr,
            out_len_ptr,
            data@,
            data_reason@,
            len_reason@,
        ).memory,
{
    if !write_guest(memory, out_ptr, data) {
        return Err(trap(data_reason));
    }
    let wide: u64 = data.len() as u64;
    let count: u32 = (wide % 0x1_0000_0000) as u32;
    let bytes = u32_le_bytes(count);
    if !write_guest(memory, out_len_ptr, bytes.as_slice()) {
        return Err(trap(len_reason));
    }
    Ok(OK)
}

/// The text that `debug_log` hands to the log: the bytes at `ptr`, if they
/// are text.
pub open spec fn logged_text(memory: Seq<u8>, ptr: u32, len: u32) -> Option<Seq<char>> {
    if valid_utf8(loaded(memory, ptr, len as nat)) {
        Some(text_at(memory, ptr, len))
    } else {
        None
    }
}

/// `debug_log(ptr, len)`: the guest asks for a line in the kernel's log.
///
/// Returns the text to log, or `None` where the bytes are no text. No
/// capability is asked for. Traps if the bytes do not lie inside the
/// memory.
pub fn debug_log(memory: &[u8], ptr: u32, len: u32) -> (result: Result<Option<String>, HostError>)
    ensures
        match result {
            Ok(line) => in_bounds(memory@.len(), ptr, len as nat) && (match line {
                Some(text) => logged_text(memory@, ptr, len) == Some(text@),
                None => logged_text(memory@, ptr, len) is None,
            }),
            Err(error) => !in_bounds(memory@.len(), ptr, len as nat) && error.0@
                == "Memory read failed"@,
        },
{
    match read_guest(memory, ptr, len) {
        None => Err(trap("Memory read failed")),
        Some(bytes) => match utf8_text(bytes.as_slice()) {
            None => Ok(None),
            Some(text) => {
                proof {
                    encode_utf8_decode_utf8(text@);
                }
                Ok(Some(text.to_owned()))
            },
        },
    }
}

/// What `send_ipc` comes to.
pub open spec fn send_ipc_outcome(
    kernel: KernelModel,
    agent: u64,
    memory: Seq<u8>,
    target_pid: u64,
    ptr: u32,
    len: u32,
) -> KernelOutcome {
    let no_tokens = Seq::<CapabilityId>::empty();
    if !in_bounds(memory.len(), ptr, len as nat) {
        KernelOutcome { verdict: Verdict::Trap("Memory read failed"@), kernel }
    } else if !kernel.allows(agent, AccessModel::SendTo { pid: target_pid }) {
        KernelOutcome { verdict: Verdict::Code(ERR_PERMISSION_DENIED), kernel }
    } else if kernel.ipc.send_error(kernel.capabilities, ProcessId(target_pid), no_tokens)
        is Some {
        KernelOutcome { verdict: Verdict::Code(ERR_GENERAL), kernel }
    } else {
        KernelOutcome {
            verdict: Verdict::Code(OK),
            kernel: KernelModel {
                ipc: kernel.ipc.deliver(
                    ProcessId(target_pid),
                    MessageModel {
                        sender: ProcessId(agent),
                        data: loaded(memory, ptr, len as nat),
                        capabilities: no_tokens,
                    },
                ),
                ..kernel
            },
        }
    }
}

/// `send_ipc(target_pid, ptr, len)`: the guest sends the bytes at `ptr`
/// to the agent `target_pid`.
///
/// Needs a token to send to that agent. Returns 0 when the message is in
/// the recipient's queue, 1 when the recipient has no mailbox or its queue
/// is full, 2 when the caller may not send to it.
pub fn send_ipc(
    kernel: &mut Kernel,
    state: &WasmState,
    memory: &[u8],
    target_pid: u64,
    ptr: u32,
    len: u32,
) -> (result: Result<u32, HostError>)
    ensures
        agrees(
            result,
            send_ipc_outcome(
                old(kernel)@,
                state.agent_pid,
                memory@,
                target_pid,
                ptr,
                len,
            ).verdict,
        ),
        final(kernel)@ == send_ipc_outcome(
            old(kernel)@,
            state.agent_pid,
            memory@,
            target_pid,
            ptr,
            len,
        ).kernel,
        old(kernel)@.wf() ==> final(kernel)@.wf(),
{
    let payload = match read_guest(memory, ptr, len) {
        Some(bytes) => bytes,
        None => {
            return Err(trap("Memory read failed"));
        },
    };
    let bag = agent_capabilities(&kernel.agents, AgentId(state.agent_pid));
    if !can_send_to(&kernel.capabilities, &bag, target_pid) {
        return Ok(ERR_PERMISSION_DENIED);
    }
    match send_message(
        &mut kernel.ipc,
        &kernel.capabilities,
        ProcessId(state.agent_pid),
        ProcessId(target_pid),
        payload,
        Vec::new(),
    ) {
        Ok(_) => Ok(OK),
        Err(_) => Ok(ERR_GENERAL),
    }
}

/// What a call that needs the network stack decides before the stack is
/// used.
pub enum NetworkCall<T> {
    /// The call ends here, with this code.
    Refused(u32),
    /// The caller may use the network, for this.
    Proceed(T),
}

/// Where a `tcp_request` goes, and what it carries.
pub struct TcpTarget {
    pub ip: [u8; 4],
    pub port: u16,
    pub payload: Vec<u8>,
}

/// Why the inputs of `tcp_request` cannot be had, or `None` where they
/// can.
pub open spec fn tcp_request_fault(memory: Seq<u8>, ip_ptr: u32, ptr: u32, len: u32) -> Option<
    Seq<char>,
> {
    if !in_bounds(memory.len(), ip_ptr, 4) {
        Some("IP read failed"@)
    } else if !in_bounds(memory.len(), ptr, len as nat) {
        Some("Payload read failed"@)
    } else {
        None
    }
}

/// `tcp_request(ip_ptr, port, ptr, len)`, up to the use of the network:
/// the guest asks for the bytes at `ptr` to be sent to the address whose
/// four bytes stand at `ip_ptr`.
///
/// The address and the payload are copied first, and a pointer that
/// leaves the memory is a trap. Then the call needs a `Network` token;
/// without one it is refused with code 2. With one, the result is what is
/// to be handed to the network stack; [`tcp_request_finish`] then turns
/// what the stack did into the code.
pub fn tcp_request(
    kernel: &Kernel,
    state: &WasmState,
    memory: &[u8],
    ip_ptr: u32,
    port: u32,
    ptr: u32,
    len: u32,
) -> (result: Result<NetworkCall<TcpTarget>, HostError>)
    ensures
        match result {
            Err(error) => tcp_request_fault(memory@, ip_ptr, ptr, len) == Some(error.0@),
            Ok(NetworkCall::Refused(code)) => tcp_request_fault(memory@, ip_ptr, ptr, len) is None
                && !kernel@.allows(state.agent_pid, AccessModel::Network) && code
                == ERR_PERMISSION_DENIED,
            Ok(NetworkCall::Proceed(target)) => tcp_request_fault(memory@, ip_ptr, ptr, len)
                is None && kernel@.allows(state.agent_pid, AccessModel::Network) && target.ip@
                == loaded(memory@, ip_ptr, 4) && target.port == port % 65536 && target.payload@
                == loaded(memory@, ptr, len as nat),
        },
{
    let address = match read_guest(memory, ip_ptr, 4) {
        Some(bytes) => bytes,
        None => {
            return Err(trap("IP read failed"));
        },
    };
    let payload = match read_guest(memory, ptr, len) {
        Some(bytes) => bytes,
        None => {
            return Err(trap("Payload read failed"));
        },
    };
    let bag = agent_capabilities(&kernel.agents, AgentId(state.agent_pid));
    if !can_access_network(&kernel.capabilities, &bag) {
        return Ok(NetworkCall::Refused(ERR_PERMISSION_DENIED));
    }
    let ip: [u8; 4] = [address[0], address[1], address[2], address[3]];
    assert(ip@ =~= loaded(memory@, ip_ptr, 4));
    Ok(NetworkCall::Proceed(TcpTarget { ip, port: (port % 65536) as u16, payload }))
}

/// The code of a `tcp_request` that reached the network stack: 0 if the
/// stack sent the request on its way, 1 if it could not.
pub fn tcp_request_finish(sent: bool) -> (code: u32)
    ensures
        code == if sent {
            OK
        } else {
            ERR_GENERAL
        },
{
    if sent {
        OK
    } else {
        ERR_GENERAL
    }
}

/// `resolve_dns(name_ptr, name_len, out_ip_ptr)`, up to the use of the
/// network: the guest asks for the address of the domain whose name
/// stands at `name_ptr`.
///
/// The name is copied first; a pointer that leaves the memory, or a name
/// that is no text, is a trap. Then the call needs a `Network` token;
/// without one it is refused with code 2. With one, the result is the name
/// to resolve; [`resolve_dns_finish`] then hands the answer to the guest.
pub fn resolve_dns(
    kernel: &Kernel,
    state: &WasmState,
    memory: &[u8],
    name_ptr: u32,
    name_len: u32,
) -> (result: Result<NetworkCall<String>, HostError>)
    ensures
        match result {
            Err(error) => text_fault(
                memory@,
                name_ptr,
                name_len,
                "Name read failed"@,
                "Invalid UTF-8 domain"@,
            ) == Some(error.0@),
            Ok(call) => text_fault(
                memory@,
                name_ptr,
                name_len,
                "Name read failed"@,
                "Invalid UTF-8 domain"@,
            ) is None && (match call {
                NetworkCall::Refused(code) => !kernel@.allows(
                    state.agent_pid,
                    AccessModel::Network,
                ) && code == ERR_PERMISSION_DENIED,
                NetworkCall::Proceed(domain) => kernel@.allows(
                    state.agent_pid,
                    AccessModel::Network,
                ) && domain@ == text_at(memory@, name_ptr, name_len),
            }),
        },
{
    let domain = match read_text(
        memory,
        name_ptr,
        name_len,
        "Name read failed",
        "Invalid UTF-8 domain",
    ) {
        Ok(text) => text,
        Err(error) => {
            return Err(error);
        },
    };
    let bag = agent_capabilities(&kernel.agents, AgentId(state.agent_pid));
    if !can_access_network(&kernel.capabilities, &bag) {
        return Ok(NetworkCall::Refused(ERR_PERMISSION_DENIED));
    }
    Ok(NetworkCall::Proceed(domain))
}

/// What the end of a `resolve_dns` comes to: without an answer code 1,
/// with one the four bytes at `out_ip_ptr` and code 0, or a trap if they do
/// not fit.
pub open spec fn resolve_dns_finish_outcome(
    memory: Seq<u8>,
    out_ip_ptr: u32,
    answer: Option<Seq<u8>>,
) -> MemoryOutcome {
    match answer {
        None => MemoryOutcome { verdict: Verdict::Code(ERR_GENERAL), memory },
        Some(ip) => if in_bounds(memory.len(), out_ip_ptr, ip.len()) {
            MemoryOutcome { verdict: Verdict::Code(OK), memory: stored(memory, out_ip_ptr, ip) }
        } else {
            MemoryOutcome { verdict: Verdict::Trap("IP write failed"@), memory }
        },
    }
}

/// Ends a `resolve_dns` that reached the network stack: hands the
/// resolver's answer to the guest.
pub fn resolve_dns_finish(memory: &mut [u8], out_ip_ptr: u32, answer: Option<[u8; 4]>) -> (result:
    Result<u32, HostError>)
    ensures
        agrees(
            result,
            resolve_dns_finish_outcome(
                old(memory)@,
                out_ip_ptr,
                match answer {
                    Some(ip) => Some(ip@),
                    None => None,
                },
            ).verdict,
        ),
        final(memory)@ == resolve_dns_finish_outcome(
            old(memory)@,
            out_ip_ptr,
            match answer {
                Some(ip) => Some(ip@),
                None => None,
            },
        ).memory,
{
    match answer {
        None => Ok(ERR_GENERAL),
        Some(ip) => {
            if write_guest(memory, out_ip_ptr, ip.as_slice()) {
                Ok(OK)
            } else {
                Err(trap("IP write failed"))
            }
        },
    }
}

/// What `file_read` comes to.
pub open spec fn file_read_outcome(
    kernel: KernelModel,
    agent: u64,
    memory: Seq<u8>,
    path_ptr: u32,
    path_len: u32,
    out_ptr: u32,
    out_len_ptr: u32,
) -> MemoryOutcome {
    match text_fault(memory, path_ptr, path_len, "Path read failed"@, "Invalid path"@) {
        Some(reason) => MemoryOutcome { verdict: Verdict::Trap(reason), memory },
        None => {
            let path = text_at(memory, path_ptr, path_len);
            if !kernel.allows(agent, AccessModel::ReadFile { path }) {
                MemoryOutcome { verdict: Verdict::Code(ERR_PERMISSION_DENIED), memory }
            } else if !has_file(kernel.vfs, path) {
                MemoryOutcome { verdict: Verdict::Code(ERR_NOT_FOUND), memory }
            } else {
                reply_outcome(
                    memory,
                    out_ptr,
                    out_len_ptr,
                    kernel.vfs[index_of(kernel.vfs, path)].data,
                    "Data write failed"@,
                    "Len write failed"@,
                )
            }
        },
    }
}

/// `file_read(path_ptr, path_len, out_ptr, out_len_ptr)`: the guest asks
/// for the contents of the file whose path stands at `path_ptr`.
///
/// Needs a token to read that path. Returns 0 with the contents at
/// `out_ptr` and their length at `out_len_ptr`, 2 when the caller may not
/// read the path, 3 when there is no such file.
pub fn file_read(
    kernel: &Kernel,
    state: &WasmState,
    memory: &mut [u8],
    path_ptr: u32,
    path_len: u32,
    out_ptr: u32,
    out_len_ptr: u32,
) -> (result: Result<u32, HostError>)
    requires
        names_unique(kernel@.vfs),
    ensures
        agrees(
            result,
            file_read_outcome(
                kernel@,
                state.agent_pid,
                old(memory)@,
                path_ptr,
                path_len,
                out_ptr,
                out_len_ptr,
            ).verdict,
        ),
        final(memory)@ == file_read_outcome(
            kernel@,
            state.agent_pid,
            old(memory)@,
            path_ptr,
            path_len,
            out_ptr,
            out_len_ptr,
        ).memory,
{
    let path = match read_text(memory, path_ptr, path_len, "Path read failed", "Invalid path") {
        Ok(text) => text,
        Err(error) => {
            return Err(error);
        },
    };
    let bag = agent_capabilities(&kernel.agents, AgentId(state.agent_pid));
    if !can_read_file(&kernel.capabilities, &bag, path.as_str()) {
        return Ok(ERR_PERMISSION_DENIED);
    }
    match open_file(&kernel.vfs, path.as_str()) {
        None => Ok(ERR_NOT_FOUND),
        Some(data) => reply(
            memory,
            out_ptr,
            out_len_ptr,
            data.as_slice(),
            "Data write failed",
            "Len write failed",
        ),
    }
}

/// Why the inputs of `file_write` cannot be had, or `None` where they
/// can: the path is read first, then the data.
pub open spec fn file_write_fault(
    memory: Seq<u8>,
    path_ptr: u32,
    path_len: u32,
    data_ptr: u32,
    data_len: u32,
) -> Option<Seq<char>> {
    match text_fault(memory, path_ptr, path_len, "Path read failed"@, "Invalid path"@) {
        Some(reason) => Some(reason),
        None => if !in_bounds(memory.len(), data_ptr, data_len as nat) {
            Some("Data read failed"@)
        } else {
            None
        },
    }
}

/// What `file_write` comes to.
pub open spec fn file_write_outcome(
    kernel: KernelModel,
    agent: u64,
    memory: Seq<u8>,
    path_ptr: u32,
    path_len: u32,
    data_ptr: u32,
    data_len: u32,
) -> KernelOutcome {
    match file_write_fault(memory, path_ptr, path_len, data_ptr, data_len) {
        Some(reason) => KernelOutcome { verdict: Verdict::Trap(reason), kernel },
        None => {
            let path = text_at(memory, path_ptr, path_len);
            if !kernel.allows(agent, AccessModel::WriteFile { path }) {
                KernelOutcome { verdict: Verdict::Code(ERR_PERMISSION_DENIED), kernel }
            } else if is_protected(kernel.vfs, path) {
                KernelOutcome { verdict: Verdict::Code(ERR_GENERAL), kernel }
            } else {
                KernelOutcome {
                    verdict: Verdict::Code(OK),
                    kernel: KernelModel {
                        vfs: after_write(
                            kernel.vfs,
                            path,
                            loaded(memory, data_ptr, data_len as nat),
                            agent,
                        ),
                        ..kernel
                    },
                }
            }
        },
    }
}

/// `file_write(path_ptr, path_len, data_ptr, data_len)`: the guest asks
/// for the bytes at `data_ptr` to become the contents of the file whose
/// path stands at `path_ptr`.
///
/// Needs a token to write that path. Returns 0 when the file holds the
/// bytes and belongs to the caller, 1 when the file system refuses because
/// the file is read-only, 2 when the caller may not write the path.
pub fn file_write(
    kernel: &mut Kernel,
    state: &WasmState,
    memory: &[u8],
    path_ptr: u32,
    path_len: u32,
    data_ptr: u32,
    data_len: u32,
) -> (result: Result<u32, HostError>)
    requires
        names_unique(old(kernel)@.vfs),
    ensures
        agrees(
            result,
            file_write_outcome(
                old(kernel)@,
                state.agent_pid,
                memory@,
                path_ptr,
                path_len,
                data_ptr,
                data_len,
            ).verdict,
        ),
        final(kernel)@ == file_write_outcome(
            old(kernel)@,
            state.agent_pid,
            memory@,
            path_ptr,
            path_len,
            data_ptr,
            data_len,
        ).kernel,
        old(kernel)@.wf() ==> final(kernel)@.wf(),
{
    let path = match read_text(memory, path_ptr, path_len, "Path read failed", "Invalid path") {
        Ok(text) => text,
        Err(error) => {
            return Err(error);
        },
    };
    let data = match read_guest(memory, data_ptr, data_len) {
        Some(bytes) => bytes,
        None => {
            return Err(trap("Data read failed"));
        },
    };
    let bag = agent_capabilities(&kernel.agents, AgentId(state.agent_pid));
    if !can_write_file(&kernel.capabilities, &bag, path.as_str()) {
        return Ok(ERR_PERMISSION_DENIED);
    }
    if write_file(&mut kernel.vfs, path.as_str(), data.as_slice(), state.agent_pid) {
        Ok(OK)
    } else {
        Ok(ERR_GENERAL)
    }
}

/// What `file_list` comes to.
pub open spec fn file_list_outcome(
    kernel: KernelModel,
    agent: u64,
    memory: Seq<u8>,
    prefix_ptr: u32,
    prefix_len: u32,
    out_ptr: u32,
    out_len_ptr: u32,
) -> MemoryOutcome {
    match text_fault(memory, prefix_ptr, prefix_len, "Prefix read failed"@, "Invalid prefix"@) {
        Some(reason) => MemoryOutcome { verdict: Verdict::Trap(reason), memory },
        None => {
            let prefix = text_at(memory, prefix_ptr, prefix_len);
            if !kernel.allows(agent, AccessModel::ReadFile { path: prefix }) {
                MemoryOutcome { verdict: Verdict::Code(ERR_PERMISSION_DENIED), memory }
            } else {
                reply_outcome(
                    memory,
                    out_ptr,
                    out_len_ptr,
                    joined(names(kernel.vfs).filter(|n: Seq<char>| is_path_prefix(prefix, n))),
                    "List write failed"@,
                    "Len write failed"@,
                )
            }
        },
    }
}

/// `file_list(prefix_ptr, prefix_len, out_ptr, out_len_ptr)`: the guest
/// asks for the names of the files under the prefix that stands at
/// `prefix_ptr`.
///
/// Needs a token to read the prefix as a path. Returns 0 with the names at
/// `out_ptr`, one to a line, and the length of the listing at
/// `out_len_ptr`; 2 when the caller may not read the prefix.
pub fn file_list(
    kernel: &Kernel,
    state: &WasmState,
    memory: &mut [u8],
    prefix_ptr: u32,
    prefix_len: u32,
    out_ptr: u32,
    out_len_ptr: u32,
) -> (result: Result<u32, HostError>)
    ensures
        agrees(
            result,
            file_list_outcome(
                kernel@,
                state.agent_pid,
                old(memory)@,
                prefix_ptr,
                prefix_len,
                out_ptr,
                out_len_ptr,
            ).verdict,
        ),
        final(memory)@ == file_list_outcome(
            kernel@,
            state.agent_pid,
            old(memory)@,
            prefix_ptr,
            prefix_len,
            out_ptr,
            out_len_ptr,
        ).memory,
{
    let prefix = match read_text(
        memory,
        prefix_ptr,
        prefix_len,
        "Prefix read failed",
        "Invalid prefix",
    ) {
        Ok(text) => text,
        Err(error) => {
            return Err(error);
        },
    };
    let bag = agent_capabilities(&kernel.agents, AgentId(state.agent_pid));
    if !can_read_file(&kernel.capabilities, &bag, prefix.as_str()) {
        return Ok(ERR_PERMISSION_DENIED);
    }
    let files = list_files_prefix(&kernel.vfs, prefix.as_str());
    let listing = join_lines(&files);
    assert((|n: Seq<char>| is_path_prefix(prefix@, n)) == (|n: Seq<char>|
        is_path_prefix(text_at(old(memory)@, prefix_ptr, prefix_len), n)));
    reply(
        memory,
        out_ptr,
        out_len_ptr,
        listing.as_slice(),
        "List write failed",
        "Len write failed",
    )
}

/// The kinds of capability that a guest can request.
pub const REQUEST_NETWORK: u32 = 0;

pub const REQUEST_FILESYSTEM: u32 = 1;

pub const REQUEST_SPAWN: u32 = 2;

/// The capability that the policy grants to a request of `kind` with
/// `detail`, or `None` where it grants nothing.
///
/// This policy grants whatever it understands: the network, the files
/// under the prefix that `detail` names (under `/agent/` where it names
/// none), the right to spawn five children. It refuses only a kind that it
/// does not know.
pub open spec fn policy_grant(kind: u32, detail: Seq<char>) -> Option<CapabilityModel> {
    if kind == REQUEST_NETWORK {
        Some(CapabilityModel::Network)
    } else if kind == REQUEST_FILESYSTEM {
        Some(
            CapabilityModel::FileSystem {
                path_prefix: if detail.len() == 0 {
                    "/agent/"@
                } else {
                    detail
                },
                read: true,
                write: true,
            },
        )
    } else if kind == REQUEST_SPAWN {
        Some(CapabilityModel::Spawn { max_children: 5 })
    } else {
        None
    }
}

/// The policy of escalation, in one place: decides what a request is
/// granted.
pub fn escalation_policy(kind: u32, detail: &str) -> (grant: Option<Capability>)
    ensures
        match grant {
            Some(cap) => policy_grant(kind, detail@) == Some(cap@),
            None => policy_grant(kind, detail@) is None,
        },
{
    if kind == REQUEST_NETWORK {
        Some(Capability::Network)
    } else if kind == REQUEST_FILESYSTEM {
        let prefix = if detail.is_empty() {
            "/agent/"
        } else {
            detail
        };
        Some(Capability::FileSystem { path_prefix: prefix.to_owned(), read: true, write: true })
    } else if kind == REQUEST_SPAWN {
        Some(Capability::Spawn { max_children: 5 })
    } else {
        None
    }
}

/// The detail of a request: the bytes at `ptr` as text, and the empty
/// text where there are none or they are no text.
pub open spec fn detail_text(memory: Seq<u8>, ptr: u32, len: u32) -> Seq<char> {
    if len > 0 && valid_utf8(loaded(memory, ptr, len as nat)) {
        text_at(memory, ptr, len)
    } else {
        Seq::empty()
    }
}

/// The message that tells the supervisor of a request:
/// `CAP_REQUEST:<agent>:<kind>:<detail>`, the numbers in decimal.
pub open spec fn audit_message(agent: u64, kind: u32, detail: Seq<char>) -> Seq<u8> {
    encode_utf8("CAP_REQUEST:"@) + decimal(agent as nat) + seq![58u8] + decimal(kind as nat)
        + seq![58u8] + encode_utf8(detail)
}

/// The kernel after `agent` sent `message` to the supervisor. A message
/// that the supervisor's mailbox does not take is lost.
pub open spec fn audited(kernel: KernelModel, agent: u64, message: Seq<u8>) -> KernelModel {
    let supervisor = ProcessId(KERNEL_SUPERVISOR_PID);
    let no_tokens = Seq::<CapabilityId>::empty();
    if kernel.ipc.send_error(kernel.capabilities, supervisor, no_tokens) is None {
        KernelModel {
            ipc: kernel.ipc.deliver(
                supervisor,
                MessageModel { sender: ProcessId(agent), data: message, capabilities: no_tokens },
            ),
            ..kernel
        }
    } else {
        kernel
    }
}

/// What `request_capability` comes to.
pub open spec fn request_capability_outcome(
    kernel: KernelModel,
    agent: u64,
    memory: Seq<u8>,
    kind: u32,
    detail_ptr: u32,
    detail_len: u32,
) -> KernelOutcome {
    if detail_len > 0 && !in_bounds(memory.len(), detail_ptr, detail_len as nat) {
        KernelOutcome { verdict: Verdict::Trap("Detail read failed"@), kernel }
    } else {
        let detail = detail_text(memory, detail_ptr, detail_len);
        let noted = audited(kernel, agent, audit_message(agent, kind, detail));
        match policy_grant(kind, detail) {
            None => KernelOutcome { verdict: Verdict::Code(ERR_GENERAL), kernel: noted },
            Some(cap) => KernelOutcome {
                verdict: Verdict::Code(OK),
                kernel: KernelModel {
                    capabilities: noted.capabilities.create(cap),
                    agents: noted.agents.grant(
                        AgentId(agent),
                        CapabilityId(noted.capabilities.next_id),
                    ),
                    ..noted
                },
            },
        }
    }
}

fn compose_audit_message(agent: u64, kind: u32, detail: &str) -> (message: Vec<u8>)
    ensures
        message@ == audit_message(agent, kind, detail@),
{
    let mut message: Vec<u8> = Vec::new();
    push_bytes(&mut message, "CAP_REQUEST:".as_bytes());
    push_decimal(&mut message, agent);
    message.push(58u8);
    push_decimal(&mut message, kind as u64);
    message.push(58u8);
    push_bytes(&mut message, detail.as_bytes());
    assert(message@ =~= audit_message(agent, kind, detail@));
    message
}

/// `request_capability(kind, detail_ptr, detail_len)`: the guest asks for
/// more authority.
///
/// Asks for no capability. The request is first made known to the
/// supervisor, as a message in its mailbox, and then decided by
/// [`escalation_policy`]. Returns 0 when a new capability was created and
/// its token offered to the caller's bag, 1 when the policy grants nothing.
pub fn request_capability(
    kernel: &mut Kernel,
    state: &WasmState,
    memory: &[u8],
    kind: u32,
    detail_ptr: u32,
    detail_len: u32,
) -> (result: Result<u32, HostError>)
    requires
        old(kernel)@.capabilities.next_id < u64::MAX,
    ensures
        agrees(
            result,
            request_capability_outcome(
                old(kernel)@,
                state.agent_pid,
                memory@,
                kind,
                detail_ptr,
                detail_len,
            ).verdict,
        ),
        final(kernel)@ == request_capability_outcome(
            old(kernel)@,
            state.agent_pid,
            memory@,
            kind,
            detail_ptr,
            detail_len,
        ).kernel,
        old(kernel)@.wf() ==> final(kernel)@.wf(),
{
    let bytes: Vec<u8> = if detail_len > 0 {
        match read_guest(memory, detail_ptr, detail_len) {
            Some(bytes) => bytes,
            None => {
                return Err(trap("Detail read failed"));
            },
        }
    } else {
        Vec::new()
    };
    let detail: &str = match utf8_text(bytes.as_slice()) {
        Some(text) => {
            proof {
                encode_utf8_decode_utf8(text@);
            }
            text
        },
        None => "",
    };
    proof {
        reveal_strlit("");
        if detail_len == 0 {
            assert(bytes@ =~= Seq::<u8>::empty());
            assert(encode_utf8(detail@) =~= Seq::<u8>::empty()) by {
                if valid_utf8(bytes@) {
                } else {
                    assert(encode_utf8(Seq::<char>::empty()) =~= Seq::<u8>::empty());
                }
            }
            assert(detail@.len() == 0) by {
                encode_utf8_decode_utf8(detail@);
                assert(decode_utf8(Seq::<u8>::empty()) =~= Seq::<char>::empty());
            }
        }
        assert(detail@ =~= detail_text(memory@, detail_ptr, detail_len));
    }
    let message = compose_audit_message(state.agent_pid, kind, detail);
    let _ = send_message(
        &mut kernel.ipc,
        &kernel.capabilities,
        ProcessId(state.agent_pid),
        ProcessId(KERNEL_SUPERVISOR_PID),
        message,
        Vec::new(),
    );
    match escalation_policy(kind, detail) {
        None => Ok(ERR_GENERAL),
        Some(cap) => {
            let id = create_capability(&mut kernel.capabilities, cap);
            grant_capability_to_agent(&mut kernel.agents, AgentId(state.agent_pid), id);
            Ok(OK)
        },
    }
}

/// A caller none of whose live `FileSystem` records has a prefix of the
/// path as its prefix is denied by every file call on that path whose
/// inputs can be had: each returns the code for "permission denied", and
/// neither the files nor the guest's memory change. The one input left is
/// the data of a write: where it does not lie inside the memory, the write
/// is a trap, and changes nothing either.
pub proof fn lemma_file_calls_denied_without_prefix(
    kernel: KernelModel,
    agent: u64,
    memory: Seq<u8>,
    path_ptr: u32,
    path_len: u32,
    second_ptr: u32,
    second_len: u32,
)
    requires
        in_bounds(memory.len(), path_ptr, path_len as nat),
        valid_utf8(loaded(memory, path_ptr, path_len as nat)),
        forall|i: int|
            0 <= i < kernel.bag(agent).len() && kernel.capabilities.resolves(
                #[trigger] kernel.bag(agent)[i],
            ) ==> (kernel.capabilities.record(
                kernel.bag(agent)[i],
            ) matches CapabilityModel::FileSystem { path_prefix, .. } ==> !is_path_prefix(
                path_prefix,
                text_at(memory, path_ptr, path_len),
            )),
    ensures
        file_read_outcome(kernel, agent, memory, path_ptr, path_len, second_ptr, second_len)
            == (MemoryOutcome { verdict: Verdict::Code(ERR_PERMISSION_DENIED), memory }),
        file_list_outcome(kernel, agent, memory, path_ptr, path_len, second_ptr, second_len)
            == (MemoryOutcome { verdict: Verdict::Code(ERR_PERMISSION_DENIED), memory }),
        file_write_outcome(kernel, agent, memory, path_ptr, path_len, second_ptr, second_len)
            == (KernelOutcome {
            verdict: if in_bounds(memory.len(), second_ptr, second_len as nat) {
                Verdict::Code(ERR_PERMISSION_DENIED)
            } else {
                Verdict::Trap("Data read failed"@)
            },
            kernel,
        }),
{
    crate::capability::lemma_no_matching_prefix_denies_path(
        kernel.capabilities,
        kernel.bag(agent),
        text_at(memory, path_ptr, path_len),
    );
}

/// A call that is not allowed does nothing: where the inputs can be had
/// and the caller's bag does not allow what is asked, the call returns the
/// code for "permission denied" and the kernel is as it was.
pub proof fn lemma_denied_calls_change_nothing(
    kernel: KernelModel,
    agent: u64,
    memory: Seq<u8>,
    target_pid: u64,
    ptr: u32,
    len: u32,
    second_ptr: u32,
    second_len: u32,
)
    requires
        in_bounds(memory.len(), ptr, len as nat),
        in_bounds(memory.len(), second_ptr, second_len as nat),
    ensures
        !kernel.allows(agent, AccessModel::SendTo { pid: target_pid }) ==> send_ipc_outcome(
            kernel,
            agent,
            memory,
            target_pid,
            ptr,
            len,
        ) == (KernelOutcome { verdict: Verdict::Code(ERR_PERMISSION_DENIED), kernel }),
        valid_utf8(loaded(memory, ptr, len as nat)) && !kernel.allows(
            agent,
            AccessModel::WriteFile { path: text_at(memory, ptr, len) },
        ) ==> file_write_outcome(kernel, agent, memory, ptr, len, second_ptr, second_len)
            == (KernelOutcome { verdict: Verdict::Code(ERR_PERMISSION_DENIED), kernel }),
        valid_utf8(loaded(memory, ptr, len as nat)) && !kernel.allows(
            agent,
            AccessModel::ReadFile { path: text_at(memory, ptr, len) },
        ) ==> file_read_outcome(kernel, agent, memory, ptr, len, second_ptr, second_len)
            == (MemoryOutcome { verdict: Verdict::Code(ERR_PERMISSION_DENIED), memory })
            && file_list_outcome(kernel, agent, memory, ptr, len, second_ptr, second_len)
            == (MemoryOutcome { verdict: Verdict::Code(ERR_PERMISSION_DENIED), memory }),
{
}

/// A request that the policy grants gives a running caller what it asked
/// for: after a request for the network, the caller's bag allows the
/// network.
pub proof fn lemma_escalation_grants_network(
    kernel: KernelModel,
    agent: u64,
    memory: Seq<u8>,
    detail_ptr: u32,
    detail_len: u32,
)
    requires
        kernel.agents.is_running(AgentId(agent)),
        kernel.capabilities.next_id < u64::MAX,
        detail_len > 0 ==> in_bounds(memory.len(), detail_ptr, detail_len as nat),
    ensures
        request_capability_outcome(
            kernel,
            agent,
            memory,
            REQUEST_NETWORK,
            detail_ptr,
            detail_len,
        ).verdict == Verdict::Code(OK),
        request_capability_outcome(
            kernel,
            agent,
            memory,
            REQUEST_NETWORK,
            detail_ptr,
            detail_len,
        ).kernel.allows(agent, AccessModel::Network),
{
    let after = request_capability_outcome(
        kernel,
        agent,
        memory,
        REQUEST_NETWORK,
        detail_ptr,
        detail_len,
    ).kernel;
    let position = kernel.bag(agent).len() as int;
    assert(after.bag(agent)[position] == CapabilityId(kernel.capabilities.next_id));
    assert(crate::capability::token_grants(
        after.capabilities,
        after.bag(agent),
        position,
        AccessModel::Network,
    ));
}

} // verus!
