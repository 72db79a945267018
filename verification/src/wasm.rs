//! The boundary between a guest module and the kernel.
//!
//! A guest is brought to run in stages: its bytes are compiled, the host
//! calls are bound under their names, the module is instantiated and its
//! start section run, and then its entry point is looked up, checked and
//! called. The engine does each stage; what is decided here is what the
//! stages are called, what a failure of each is reported as, and which
//! entry point is taken.

pub mod memory;
pub mod syscalls;

use vstd::prelude::*;
use vstd::string::StringExecFns;

verus! {

/// A trap: the fault that aborts a guest, with its reason in words.
#[derive(Debug)]
pub struct HostError(pub String);

/// What the host knows of the guest that is calling.
pub struct WasmState {
    pub agent_pid: u64,
}

/// The module name under which a guest imports the host calls.
pub const HOST_MODULE: &'static str = "env";

/// The name under which a guest exports its memory.
pub const MEMORY_EXPORT: &'static str = "memory";

/// The reason of the trap that ends a guest which exports no memory.
pub const MISSING_MEMORY: &'static str = "Failed to find 'memory' export";

/// How many host calls there are.
pub const HOST_CALLS: usize = 10;

/// The name of the host call number `index`, in the order in which the
/// calls are bound.
pub open spec fn host_call_text(index: usize) -> Seq<char> {
    if index == 0 {
        "debug_log"@
    } else if index == 1 {
        "send_ipc"@
    } else if index == 2 {
        "tcp_request"@
    } else if index == 3 {
        "resolve_dns"@
    } else if index == 4 {
        "file_read"@
    } else if index == 5 {
        "file_write"@
    } else if index == 6 {
        "file_list"@
    } else if index == 7 {
        "get_time"@
    } else if index == 8 {
        "get_uptime_ms"@
    } else {
        "request_capability"@
    }
}

/// The name of the host call number `index`.
pub fn host_call_name(index: usize) -> (name: &'static str)
    requires
        index < HOST_CALLS,
    ensures
        name@ == host_call_text(index),
{
    if index == 0 {
        "debug_log"
    } else if index == 1 {
        "send_ipc"
    } else if index == 2 {
        "tcp_request"
    } else if index == 3 {
        "resolve_dns"
    } else if index == 4 {
        "file_read"
    } else if index == 5 {
        "file_write"
    } else if index == 6 {
        "file_list"
    } else if index == 7 {
        "get_time"
    } else if index == 8 {
        "get_uptime_ms"
    } else {
        "request_capability"
    }
}

/// A stage of bringing a guest to run that can fail.
#[derive(Debug, Clone, Copy, PartialEq, Eq, Structural)]
pub enum Stage {
    /// Compiling the bytes of the module.
    Compile,
    /// Binding the host call with this number.
    Define(usize),
    /// Instantiating the module.
    Instantiate,
    /// Running the start section.
    Start,
    /// Looking up the entry point.
    Entry,
    /// Checking that the entry point takes and returns nothing.
    Signature,
    /// Running the entry point.
    Execute,
}

/// What the failure of `stage` is reported as, where the engine gave
/// `reason` for it.
pub open spec fn failure_text(stage: Stage, reason: Seq<char>) -> Seq<char> {
    match stage {
        Stage::Compile => "Failed to compile module: "@ + reason,
        Stage::Define(index) => "Failed to define "@ + host_call_text(index) + ": "@ + reason,
        Stage::Instantiate => "Failed to instantiate module: "@ + reason,
        Stage::Start => "Failed to start module: "@ + reason,
        Stage::Entry => "No _start or main function found in module"@,
        Stage::Signature => "Start func has wrong signature: "@ + reason,
        Stage::Execute => "Execution failed: "@ + reason,
    }
}

/// Words the failure of `stage`, where the engine gave `reason` for it.
/// The lookup of the entry point fails without a reason of the engine's.
pub fn failure_message(stage: Stage, reason: &str) -> (message: String)
    requires
        stage matches Stage::Define(index) ==> index < HOST_CALLS,
    ensures
        message@ == failure_text(stage, reason@),
{
    match stage {
        Stage::Compile => String::from_str("Failed to compile module: ").concat(reason),
        Stage::Define(index) => String::from_str("Failed to define ").concat(
            host_call_name(index),
        ).concat(": ").concat(reason),
        Stage::Instantiate => String::from_str("Failed to instantiate module: ").concat(reason),
        Stage::Start => String::from_str("Failed to start module: ").concat(reason),
        Stage::Entry => String::from_str("No _start or main function found in module"),
        Stage::Signature => String::from_str("Start func has wrong signature: ").concat(reason),
        Stage::Execute => String::from_str("Execution failed: ").concat(reason),
    }
}

/// The entry point of a module that exports a function `_start`, a
/// function `main`, both or neither: `_start` before `main`.
pub fn choose_entry(has_start: bool, has_main: bool) -> (entry: Option<&'static str>)
    ensures
        match entry {
            Some(name) => (has_start || has_main) && name@ == if has_start {
                "_start"@
            } else {
                "main"@
            },
            None => !has_start && !has_main,
        },
{
    if has_start {
        Some("_start")
    } else if has_main {
        Some("main")
    } else {
        None
    }
}

} // verus!
