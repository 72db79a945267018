//! The state of the kernel, in one value.

use crate::capability::{authorizes, AccessModel, CapabilityId, CapabilityStore, StoreModel};
use crate::ipc::{IpcModel, IpcRegistry};
use crate::task::{AgentId, AgentRegistry, RegistryModel};
use crate::vfs::{names_unique, FileModel, VfsRegistry};
use vstd::prelude::*;

verus! {

/// Everything that a host call may read or change.
pub struct Kernel {
    pub capabilities: CapabilityStore,
    pub agents: AgentRegistry,
    pub ipc: IpcRegistry,
    pub vfs: VfsRegistry,
}

/// The state of the kernel, as mathematics.
pub struct KernelModel {
    pub capabilities: StoreModel,
    pub agents: RegistryModel,
    pub ipc: IpcModel,
    pub vfs: Seq<FileModel>,
}

impl View for Kernel {
    type V = KernelModel;

    open spec fn view(&self) -> KernelModel {
        KernelModel {
            capabilities: self.capabilities@,
            agents: self.agents@,
            ipc: self.ipc@,
            vfs: self.vfs@,
        }
    }
}

impl KernelModel {
    /// Every part is well-formed.
    pub open spec fn wf(self) -> bool {
        &&& self.capabilities.wf()
        &&& self.agents.wf()
        &&& self.ipc.wf()
        &&& names_unique(self.vfs)
    }

    /// The bag of the agent `pid`; empty where no agent has that number.
    pub open spec fn bag(self, pid: u64) -> Seq<CapabilityId> {
        self.agents.capabilities(AgentId(pid))
    }

    /// Whether the agent `pid` holds, at this moment, a live token that is
    /// enough for `access`.
    pub open spec fn allows(self, pid: u64, access: AccessModel) -> bool {
        authorizes(self.capabilities, self.bag(pid), access)
    }
}

impl Kernel {
    /// A kernel with no capability, no agent, no mailbox and no file.
    pub fn new() -> (kernel: Self)
        ensures
            kernel@.wf(),
            kernel@.capabilities.entries == Map::<u64, crate::capability::CapabilityModel>::empty(),
            kernel@.capabilities.next_id == 1,
            kernel@.agents.agents == Map::<u64, crate::task::AgentModel>::empty(),
            kernel@.agents.next_id == 1,
            kernel@.ipc.endpoints == Map::<u64, crate::ipc::EndpointModel>::empty(),
            kernel@.vfs == Seq::<FileModel>::empty(),
    {
        Kernel {
            capabilities: CapabilityStore::new(),
            agents: AgentRegistry::new(),
            ipc: IpcRegistry::new(),
            vfs: VfsRegistry::new(),
        }
    }
}

} // verus!
