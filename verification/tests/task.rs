use microvisor::capability::CapabilityId;
use microvisor::task::keyboard::{print_keypresses, SimpleTask};
use microvisor::task::{
    agent_capabilities, agent_name, agent_state, grant_capability_to_agent, spawn_agent,
    terminate_agent, AgentId, AgentRegistry, AgentState,
};

#[test]
fn agents_are_numbered_from_one() {
    let mut registry = AgentRegistry::new();
    assert_eq!(registry.next_id(), 1);
    let a = spawn_agent(&mut registry, "a", &vec![]);
    let b = spawn_agent(&mut registry, "b", &vec![]);
    assert_eq!(a, AgentId(1));
    assert_eq!(b, AgentId(2));
    assert_eq!(registry.next_id(), 3);
}

#[test]
fn spawn_records_name_state_and_a_copy_of_the_bag() {
    let mut registry = AgentRegistry::new();
    let mut bag = vec![CapabilityId(4), CapabilityId(2)];
    let id = spawn_agent(&mut registry, "worker", &bag);
    bag.push(CapabilityId(9));
    assert_eq!(agent_name(&registry, id), Some(String::from("worker")));
    assert_eq!(agent_state(&registry, id), Some(AgentState::Running));
    assert_eq!(agent_capabilities(&registry, id), vec![CapabilityId(4), CapabilityId(2)]);
}

#[test]
fn unknown_agent_has_no_name_no_state_and_an_empty_bag() {
    let registry = AgentRegistry::new();
    assert_eq!(agent_name(&registry, AgentId(1)), None);
    assert_eq!(agent_state(&registry, AgentId(0)), None);
    assert!(agent_capabilities(&registry, AgentId(5)).is_empty());
}

#[test]
fn grant_appends_to_the_bag_of_a_running_agent() {
    let mut registry = AgentRegistry::new();
    let id = spawn_agent(&mut registry, "a", &vec![CapabilityId(1)]);
    assert!(grant_capability_to_agent(&mut registry, id, CapabilityId(7)));
    assert!(grant_capability_to_agent(&mut registry, id, CapabilityId(3)));
    assert_eq!(
        agent_capabilities(&registry, id),
        vec![CapabilityId(1), CapabilityId(7), CapabilityId(3)]
    );
}

#[test]
fn grant_to_unknown_or_terminated_agent_does_nothing() {
    let mut registry = AgentRegistry::new();
    assert!(!grant_capability_to_agent(&mut registry, AgentId(1), CapabilityId(7)));
    let id = spawn_agent(&mut registry, "a", &vec![]);
    terminate_agent(&mut registry, id);
    assert!(!grant_capability_to_agent(&mut registry, id, CapabilityId(7)));
    assert!(agent_capabilities(&registry, id).is_empty());
}

#[test]
fn terminate_is_idempotent_and_one_way() {
    let mut registry = AgentRegistry::new();
    let a = spawn_agent(&mut registry, "a", &vec![CapabilityId(1)]);
    let b = spawn_agent(&mut registry, "b", &vec![]);
    terminate_agent(&mut registry, a);
    assert_eq!(agent_state(&registry, a), Some(AgentState::Terminated));
    terminate_agent(&mut registry, a);
    terminate_agent(&mut registry, a);
    assert_eq!(agent_state(&registry, a), Some(AgentState::Terminated));
    grant_capability_to_agent(&mut registry, a, CapabilityId(2));
    grant_capability_to_agent(&mut registry, b, CapabilityId(2));
    let c = spawn_agent(&mut registry, "c", &vec![]);
    terminate_agent(&mut registry, c);
    assert_eq!(agent_state(&registry, a), Some(AgentState::Terminated));
    assert_eq!(agent_state(&registry, b), Some(AgentState::Running));
}

#[test]
fn terminated_agent_stays_in_the_registry_with_its_bag() {
    let mut registry = AgentRegistry::new();
    let a = spawn_agent(&mut registry, "audit", &vec![CapabilityId(5)]);
    terminate_agent(&mut registry, a);
    assert_eq!(agent_name(&registry, a), Some(String::from("audit")));
    assert_eq!(agent_capabilities(&registry, a), vec![CapabilityId(5)]);
    let b = spawn_agent(&mut registry, "next", &vec![]);
    assert_eq!(b, AgentId(2));
}

#[test]
fn terminate_of_unknown_agent_changes_nothing() {
    let mut registry = AgentRegistry::new();
    terminate_agent(&mut registry, AgentId(3));
    assert_eq!(agent_state(&registry, AgentId(3)), None);
    assert_eq!(spawn_agent(&mut registry, "a", &vec![]), AgentId(1));
}

#[test]
fn keyboard_task_is_task_one() {
    let mut task: SimpleTask = print_keypresses();
    task.poll();
    let mut other = SimpleTask::new(42);
    other.poll();
}
