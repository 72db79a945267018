//! Numeric result codes of the host calls, and their descriptions.

use vstd::prelude::*;

verus! {

pub const OK: u32 = 0;

pub const ERR_GENERAL: u32 = 1;

pub const ERR_PERMISSION_DENIED: u32 = 2;

pub const ERR_NOT_FOUND: u32 = 3;

pub const ERR_NETWORK_UNREACHABLE: u32 = 4;

pub const ERR_TIMEOUT: u32 = 5;

pub const ERR_INVALID_ARGUMENT: u32 = 6;

/// Codes from 100 on name the capability that a call was missing.
pub const ERR_CAPABILITY_MISSING: u32 = 100;

pub const ERR_CAPABILITY_NETWORK: u32 = 101;

pub const ERR_CAPABILITY_FILESYSTEM: u32 = 102;

pub const ERR_CAPABILITY_SPAWN: u32 = 103;

pub const ERR_CAPABILITY_PROCESS: u32 = 104;

/// The description of a result code, as a sequence of characters.
pub open spec fn error_text(code: u32) -> Seq<char> {
    if code == OK {
        "OK"@
    } else if code == ERR_GENERAL {
        "General error"@
    } else if code == ERR_PERMISSION_DENIED {
        "Permission denied"@
    } else if code == ERR_NOT_FOUND {
        "Resource not found"@
    } else if code == ERR_NETWORK_UNREACHABLE {
        "Network unreachable"@
    } else if code == ERR_TIMEOUT {
        "Operation timed out"@
    } else if code == ERR_INVALID_ARGUMENT {
        "Invalid argument"@
    } else if code == ERR_CAPABILITY_MISSING {
        "Missing required capability"@
    } else if code == ERR_CAPABILITY_NETWORK {
        "Missing Capability::Network"@
    } else if code == ERR_CAPABILITY_FILESYSTEM {
        "Missing Capability::FileSystem for this path"@
    } else if code == ERR_CAPABILITY_SPAWN {
        "Missing Capability::Spawn"@
    } else if code == ERR_CAPABILITY_PROCESS {
        "Missing Capability::Process for target PID"@
    } else {
        "Unknown error"@
    }
}

/// Describes a result code in words; a code outside the table is an
/// "Unknown error".
pub fn error_message(code: u32) -> (text: &'static str)
    ensures
        text@ == error_text(code),
{
    match code {
        OK => "OK",
        ERR_GENERAL => "General error",
        ERR_PERMISSION_DENIED => "Permission denied",
        ERR_NOT_FOUND => "Resource not found",
        ERR_NETWORK_UNREACHABLE => "Network unreachable",
        ERR_TIMEOUT => "Operation timed out",
        ERR_INVALID_ARGUMENT => "Invalid argument",
        ERR_CAPABILITY_MISSING => "Missing required capability",
        ERR_CAPABILITY_NETWORK => "Missing Capability::Network",
        ERR_CAPABILITY_FILESYSTEM => "Missing Capability::FileSystem for this path",
        ERR_CAPABILITY_SPAWN => "Missing Capability::Spawn",
        ERR_CAPABILITY_PROCESS => "Missing Capability::Process for target PID",
        _ => "Unknown error",
    }
}

} // verus!
