//! The agent registry: who runs, under which name, holding which tokens.
//!
//! Agents are never removed. An agent that is terminated stays in the
//! registry, with its bag readable, and never runs again.

pub mod keyboard;

use crate::capability::CapabilityId;
use std::collections::BTreeMap;
use vstd::prelude::*;

verus! {

broadcast use vstd::laws_cmp::group_laws_cmp;

/// The number of an agent. Number 0 is the kernel supervisor and is never
/// given to a spawned agent.
#[derive(Debug, Clone, Copy, PartialEq, Eq, PartialOrd, Ord, Hash, Structural)]
pub struct AgentId(pub u64);

/// Whether an agent may still act.
#[derive(Debug, Clone, Copy, PartialEq, Eq, Structural)]
pub enum AgentState {
    Running,
    Terminated,
}

/// One agent of the registry.
#[derive(Debug)]
pub struct Agent {
    pub id: AgentId,
    pub name: String,
    pub state: AgentState,
    pub capabilities: Vec<CapabilityId>,
}

/// An agent, as mathematics.
pub struct AgentModel {
    pub id: AgentId,
    pub name: Seq<char>,
    pub state: AgentState,
    pub capabilities: Seq<CapabilityId>,
}

impl View for Agent {
    type V = AgentModel;

    open spec fn view(&self) -> AgentModel {
        AgentModel {
            id: self.id,
            name: self.name@,
            state: self.state,
            capabilities: self.capabilities@,
        }
    }
}

/// The registry, as mathematics: the agents by number, and the number that
/// the next spawn will return.
pub struct RegistryModel {
    pub agents: Map<u64, AgentModel>,
    pub next_id: u64,
}

impl RegistryModel {
    /// Numbers start at 1, every agent was spawned before `next_id`, and
    /// each agent is filed under its own number.
    pub open spec fn wf(self) -> bool {
        &&& self.next_id >= 1
        &&& forall|id: u64| #[trigger]
            self.agents.contains_key(id) ==> 1 <= id < self.next_id && self.agents[id].id.0 == id
    }

    /// Whether an agent has the number `id`.
    pub open spec fn knows(self, id: AgentId) -> bool {
        self.agents.contains_key(id.0)
    }

    /// Whether `id` is an agent that may still act.
    pub open spec fn is_running(self, id: AgentId) -> bool {
        self.knows(id) && self.agents[id.0].state == AgentState::Running
    }

    /// Whether `id` is an agent that was terminated.
    pub open spec fn is_terminated(self, id: AgentId) -> bool {
        self.knows(id) && self.agents[id.0].state == AgentState::Terminated
    }

    /// The bag of `id`; empty for a number that no agent has.
    pub open spec fn capabilities(self, id: AgentId) -> Seq<CapabilityId> {
        if self.knows(id) {
            self.agents[id.0].capabilities
        } else {
            Seq::empty()
        }
    }

    /// The registry after a spawn.
    pub open spec fn spawn(self, name: Seq<char>, initial: Seq<CapabilityId>) -> RegistryModel
        recommends
            self.next_id < u64::MAX,
    {
        RegistryModel {
            agents: self.agents.insert(
                self.next_id,
                AgentModel {
                    id: AgentId(self.next_id),
                    name,
                    state: AgentState::Running,
                    capabilities: initial,
                },
            ),
            next_id: (self.next_id + 1) as u64,
        }
    }

    /// The registry after `cap` is granted to `id`: appended to the bag of
    /// a running agent, and nothing otherwise.
    pub open spec fn grant(self, id: AgentId, cap: CapabilityId) -> RegistryModel {
        if self.is_running(id) {
            let agent = self.agents[id.0];
            RegistryModel {
                agents: self.agents.insert(
                    id.0,
                    AgentModel { capabilities: agent.capabilities.push(cap), ..agent },
                ),
                next_id: self.next_id,
            }
        } else {
            self
        }
    }

    /// The registry after `id` is terminated.
    pub open spec fn terminate(self, id: AgentId) -> RegistryModel {
        if self.knows(id) {
            let agent = self.agents[id.0];
            RegistryModel {
                agents: self.agents.insert(
                    id.0,
                    AgentModel { state: AgentState::Terminated, ..agent },
                ),
                next_id: self.next_id,
            }
        } else {
            self
        }
    }
}

/// The agents of the kernel.
pub struct AgentRegistry {
    agents: BTreeMap<u64, Agent>,
    next_id: u64,
}

impl View for AgentRegistry {
    type V = RegistryModel;

    closed spec fn view(&self) -> RegistryModel {
        RegistryModel { agents: self.agents@.map_values(|a: Agent| a@), next_id: self.next_id }
    }
}

impl AgentRegistry {
    /// A registry without agents; the first spawn returns 1.
    pub fn new() -> (registry: Self)
        ensures
            registry@.agents == Map::<u64, AgentModel>::empty(),
            registry@.next_id == 1,
            registry@.wf(),
    {
        let registry = AgentRegistry { agents: BTreeMap::new(), next_id: 1 };
        assert(registry@.agents =~= Map::<u64, AgentModel>::empty());
        registry
    }

    /// The number that the next spawn returns.
    pub fn next_id(&self) -> (id: u64)
        ensures
            id == self@.next_id,
    {
        self.next_id
    }
}

fn copy_bag(bag: &Vec<CapabilityId>) -> (copy: Vec<CapabilityId>)
    ensures
        copy@ == bag@,
{
    let mut copy: Vec<CapabilityId> = Vec::new();
    let mut i: usize = 0;
    while i < bag.len()
        invariant
            0 <= i <= bag.len(),
            copy@ == bag@.take(i as int),
        decreases bag.len() - i,
    {
        copy.push(bag[i]);
        assert(bag@.take(i + 1) =~= bag@.take(i as int).push(bag@[i as int]));
        i += 1;
    }
    assert(bag@.take(bag@.len() as int) =~= bag@);
    copy
}

/// Registers a running agent called `name` that holds a copy of
/// `initial_caps`, under a number that no agent had before, and returns
/// the number.
pub fn spawn_agent(registry: &mut AgentRegistry, name: &str, initial_caps: &Vec<CapabilityId>) -> (id:
    AgentId)
    requires
        old(registry)@.next_id < u64::MAX,
    ensures
        id.0 == old(registry)@.next_id,
        final(registry)@ == old(registry)@.spawn(name@, initial_caps@),
        old(registry)@.wf() ==> !old(registry)@.knows(id) && final(registry)@.wf(),
{
    let id: u64 = registry.next_id;
    let agent = Agent {
        id: AgentId(id),
        name: name.to_owned(),
        state: AgentState::Running,
        capabilities: copy_bag(initial_caps),
    };
    registry.next_id = id + 1;
    registry.agents.insert(id, agent);
    assert(registry@.agents =~= old(registry)@.spawn(name@, initial_caps@).agents);
    AgentId(id)
}

/// A snapshot of the bag of `id`; empty for a number that no agent has.
pub fn agent_capabilities(registry: &AgentRegistry, id: AgentId) -> (bag: Vec<CapabilityId>)
    ensures
        bag@ == registry@.capabilities(id),
{
    match registry.agents.get(&id.0) {
        Some(agent) => copy_bag(&agent.capabilities),
        None => Vec::new(),
    }
}

/// The name of `id`, or `None` for a number that no agent has.
pub fn agent_name(registry: &AgentRegistry, id: AgentId) -> (name: Option<String>)
    ensures
        name is Some <==> registry@.knows(id),
        name matches Some(text) ==> text@ == registry@.agents[id.0].name,
{
    match registry.agents.get(&id.0) {
        Some(agent) => Some(agent.name.clone()),
        None => None,
    }
}

/// The state of `id`, or `None` for a number that no agent has.
pub fn agent_state(registry: &AgentRegistry, id: AgentId) -> (state: Option<AgentState>)
    ensures
        state == if registry@.knows(id) {
            Some(registry@.agents[id.0].state)
        } else {
            None
        },
{
    match registry.agents.get(&id.0) {
        Some(agent) => Some(agent.state),
        None => None,
    }
}

/// Appends `cap_id` to the bag of `id` if `id` is a running agent, and
/// changes nothing otherwise. Returns whether the token was appended.
pub fn grant_capability_to_agent(registry: &mut AgentRegistry, id: AgentId, cap_id: CapabilityId) -> (granted:
    bool)
    ensures
        granted == old(registry)@.is_running(id),
        final(registry)@ == old(registry)@.grant(id, cap_id),
        old(registry)@.wf() ==> final(registry)@.wf(),
{
    match registry.agents.remove(&id.0) {
        Some(agent) => {
            let mut agent = agent;
            let running = agent.state == AgentState::Running;
            if running {
                agent.capabilities.push(cap_id);
            }
            registry.agents.insert(id.0, agent);
            assert(registry@.agents =~= old(registry)@.grant(id, cap_id).agents);
            running
        },
        None => {
            assert(registry@.agents =~= old(registry)@.agents);
            false
        },
    }
}

/// Marks `id` as terminated. The agent stays in the registry and keeps
/// its bag; a number that no agent has changes nothing.
pub fn terminate_agent(registry: &mut AgentRegistry, id: AgentId)
    ensures
        final(registry)@ == old(registry)@.terminate(id),
        old(registry)@.wf() ==> final(registry)@.wf(),
{
    match registry.agents.remove(&id.0) {
        Some(agent) => {
            let mut agent = agent;
            agent.state = AgentState::Terminated;
            registry.agents.insert(id.0, agent);
            assert(registry@.agents =~= old(registry)@.terminate(id).agents);
        },
        None => {
            assert(registry@.agents =~= old(registry)@.agents);
        },
    }
}

/// Terminating twice is terminating once, and a terminated agent is
/// terminated after it.
pub proof fn lemma_terminate_is_idempotent(registry: RegistryModel, id: AgentId)
    ensures
        registry.terminate(id).terminate(id) == registry.terminate(id),
        registry.knows(id) ==> registry.terminate(id).is_terminated(id),
{
    assert(registry.terminate(id).terminate(id).agents =~= registry.terminate(id).agents);
}

/// No operation of the registry makes a terminated agent run again:
/// after a spawn, a grant or a termination, of this agent or another, it
/// is still terminated.
pub proof fn lemma_terminated_is_final(
    registry: RegistryModel,
    id: AgentId,
    other: AgentId,
    name: Seq<char>,
    bag: Seq<CapabilityId>,
    cap: CapabilityId,
)
    requires
        registry.wf(),
        registry.is_terminated(id),
    ensures
        registry.next_id < u64::MAX ==> registry.spawn(name, bag).is_terminated(id),
        registry.grant(other, cap).is_terminated(id),
        registry.terminate(other).is_terminated(id),
        !registry.grant(other, cap).is_running(id),
        !registry.terminate(other).is_running(id),
{
}

/// Spawning, granting and terminating keep a well-formed registry
/// well-formed, and a grant to an agent that does not run changes nothing.
pub proof fn lemma_registry_stays_well_formed(
    registry: RegistryModel,
    id: AgentId,
    name: Seq<char>,
    bag: Seq<CapabilityId>,
    cap: CapabilityId,
)
    requires
        registry.wf(),
    ensures
        registry.next_id < u64::MAX ==> registry.spawn(name, bag).wf(),
        registry.grant(id, cap).wf(),
        registry.terminate(id).wf(),
        !registry.is_running(id) ==> registry.grant(id, cap) == registry,
{
}

} // verus!
