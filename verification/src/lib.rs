//! A capability-based microvisor core: the capability store, the agent
//! registry, the authorization predicates, and the kernel services that
//! sandboxed agents reach through host calls.

pub mod capability;
pub mod dns;
pub mod initramfs;
pub mod ipc;
pub mod kernel;
pub mod pci;
pub mod rtl8139;
pub mod syscall_errors;
pub mod task;
pub mod text;
pub mod time;
pub mod vfs;
pub mod wasm;
