//! Message passing between agents.
//!
//! Each agent that wants mail has one endpoint: a bounded first-in,
//! first-out queue. An endpoint, once created, stays.

use crate::capability::{validate_capability, CapabilityId, CapabilityStore, StoreModel};
use std::collections::BTreeMap;
use vstd::prelude::*;

verus! {

broadcast use vstd::laws_cmp::group_laws_cmp;

/// The number of an agent, as the sender or the recipient of a message.
#[derive(Debug, Clone, Copy, PartialEq, Eq, PartialOrd, Ord, Hash, Structural)]
pub struct ProcessId(pub u64);

/// The number of the kernel supervisor, the recipient of every capability
/// request.
pub const KERNEL_SUPERVISOR_PID: u64 = 0;

/// How many messages a new endpoint holds at most.
pub const DEFAULT_MAX_MESSAGES: usize = 32;

/// One message. The tokens in it are references: delivery hands over no
/// authority.
#[derive(Debug, Clone)]
pub struct Message {
    pub sender: ProcessId,
    pub data: Vec<u8>,
    pub capabilities: Vec<CapabilityId>,
}

/// A message, as mathematics.
pub struct MessageModel {
    pub sender: ProcessId,
    pub data: Seq<u8>,
    pub capabilities: Seq<CapabilityId>,
}

impl View for Message {
    type V = MessageModel;

    open spec fn view(&self) -> MessageModel {
        MessageModel { sender: self.sender, data: self.data@, capabilities: self.capabilities@ }
    }
}

/// The mailbox of one agent.
#[derive(Debug)]
pub struct IpcEndpoint {
    pub messages: Vec<Message>,
    pub max_messages: usize,
}

/// A mailbox, as mathematics: the waiting messages, oldest first, and the
/// bound on their number.
pub struct EndpointModel {
    pub messages: Seq<MessageModel>,
    pub max_messages: usize,
}

impl View for IpcEndpoint {
    type V = EndpointModel;

    open spec fn view(&self) -> EndpointModel {
        EndpointModel {
            messages: self.messages@.map_values(|m: Message| m@),
            max_messages: self.max_messages,
        }
    }
}

/// Whether every token of `caps` resolves in `store`.
pub open spec fn all_resolve(store: StoreModel, caps: Seq<CapabilityId>) -> bool {
    forall|i: int| 0 <= i < caps.len() ==> store.resolves(#[trigger] caps[i])
}

/// All mailboxes, as mathematics.
pub struct IpcModel {
    pub endpoints: Map<u64, EndpointModel>,
}

impl IpcModel {
    /// Every mailbox has room for at least one message and holds no more
    /// than its bound.
    pub open spec fn wf(self) -> bool {
        forall|pid: u64| #[trigger]
            self.endpoints.contains_key(pid) ==> 1 <= self.endpoints[pid].max_messages
                && self.endpoints[pid].messages.len() <= self.endpoints[pid].max_messages
    }

    /// Whether `pid` has a mailbox.
    pub open spec fn has_endpoint(self, pid: ProcessId) -> bool {
        self.endpoints.contains_key(pid.0)
    }

    /// The messages waiting for `pid`, oldest first; none where `pid` has
    /// no mailbox.
    pub open spec fn queue(self, pid: ProcessId) -> Seq<MessageModel> {
        if self.has_endpoint(pid) {
            self.endpoints[pid.0].messages
        } else {
            Seq::empty()
        }
    }

    /// Whether the mailbox of `pid` is at its bound.
    pub open spec fn is_full(self, pid: ProcessId) -> bool {
        self.has_endpoint(pid) && self.endpoints[pid.0].messages.len()
            >= self.endpoints[pid.0].max_messages
    }

    /// The mailboxes after `pid` got a new, empty one.
    pub open spec fn with_endpoint(self, pid: ProcessId) -> IpcModel {
        IpcModel {
            endpoints: self.endpoints.insert(
                pid.0,
                EndpointModel { messages: Seq::empty(), max_messages: DEFAULT_MAX_MESSAGES },
            ),
        }
    }

    /// Why a message for `recipient` that carries `caps` is refused, or
    /// `None` if it is accepted. The tokens are checked first, then the
    /// mailbox, then its room.
    pub open spec fn send_error(
        self,
        store: StoreModel,
        recipient: ProcessId,
        caps: Seq<CapabilityId>,
    ) -> Option<Seq<char>> {
        if !all_resolve(store, caps) {
            Some("Invalid capability"@)
        } else if !self.has_endpoint(recipient) {
            Some("No such endpoint"@)
        } else if self.is_full(recipient) {
            Some("Message queue full"@)
        } else {
            None
        }
    }

    /// The mailboxes after `message` joined the end of the queue of
    /// `recipient`.
    pub open spec fn deliver(self, recipient: ProcessId, message: MessageModel) -> IpcModel
        recommends
            self.has_endpoint(recipient),
    {
        let endpoint = self.endpoints[recipient.0];
        IpcModel {
            endpoints: self.endpoints.insert(
                recipient.0,
                EndpointModel { messages: endpoint.messages.push(message), ..endpoint },
            ),
        }
    }

    /// The oldest message waiting for `pid`, if there is one.
    pub open spec fn head(self, pid: ProcessId) -> Option<MessageModel> {
        if self.queue(pid).len() > 0 {
            Some(self.queue(pid)[0])
        } else {
            None
        }
    }

    /// The mailboxes after the oldest message for `pid`, if there is one,
    /// was taken out.
    pub open spec fn receive(self, pid: ProcessId) -> IpcModel {
        if self.queue(pid).len() > 0 {
            let endpoint = self.endpoints[pid.0];
            IpcModel {
                endpoints: self.endpoints.insert(
                    pid.0,
                    EndpointModel { messages: endpoint.messages.drop_first(), ..endpoint },
                ),
            }
        } else {
            self
        }
    }
}

/// The mailboxes of the kernel.
pub struct IpcRegistry {
    endpoints: BTreeMap<u64, IpcEndpoint>,
}

impl View for IpcRegistry {
    type V = IpcModel;

    closed spec fn view(&self) -> IpcModel {
        IpcModel { endpoints: self.endpoints@.map_values(|e: IpcEndpoint| e@) }
    }
}

impl IpcRegistry {
    /// No mailboxes.
    pub fn new() -> (registry: Self)
        ensures
            registry@.endpoints == Map::<u64, EndpointModel>::empty(),
            registry@.wf(),
    {
        let registry = IpcRegistry { endpoints: BTreeMap::new() };
        assert(registry@.endpoints =~= Map::<u64, EndpointModel>::empty());
        registry
    }

    /// How many messages wait for `pid`; 0 where `pid` has no mailbox.
    pub fn pending(&self, pid: ProcessId) -> (count: usize)
        ensures
            count == self@.queue(pid).len(),
    {
        match self.endpoints.get(&pid.0) {
            Some(endpoint) => endpoint.messages.len(),
            None => 0,
        }
    }
}

/// Gives `process_id` a mailbox, empty and with room for
/// [`DEFAULT_MAX_MESSAGES`] messages. Fails, changing nothing, if it has
/// one already.
pub fn create_endpoint(registry: &mut IpcRegistry, process_id: ProcessId) -> (result: Result<
    (),
    &'static str,
>)
    ensures
        match result {
            Ok(_) => !old(registry)@.has_endpoint(process_id) && final(registry)@ == old(
                registry,
            )@.with_endpoint(process_id),
            Err(reason) => old(registry)@.has_endpoint(process_id) && reason@
                == "Endpoint already exists"@ && final(registry)@ == old(registry)@,
        },
        old(registry)@.wf() ==> final(registry)@.wf(),
{
    if registry.endpoints.contains_key(&process_id.0) {
        return Err("Endpoint already exists");
    }
    let endpoint = IpcEndpoint { messages: Vec::new(), max_messages: DEFAULT_MAX_MESSAGES };
    assert(endpoint@.messages =~= Seq::<MessageModel>::empty());
    registry.endpoints.insert(process_id.0, endpoint);
    assert(registry@.endpoints =~= old(registry)@.with_endpoint(process_id).endpoints);
    Ok(())
}

fn tokens_resolve(store: &CapabilityStore, capabilities: &Vec<CapabilityId>) -> (yes: bool)
    ensures
        yes == all_resolve(store@, capabilities@),
{
    let mut i: usize = 0;
    while i < capabilities.len()
        invariant
            0 <= i <= capabilities.len(),
            forall|j: int| 0 <= j < i ==> store@.resolves(#[trigger] capabilities@[j]),
        decreases capabilities.len() - i,
    {
        if validate_capability(store, capabilities[i]).is_none() {
            return false;
        }
        i += 1;
    }
    true
}

/// Puts a message from `sender` at the end of the queue of `recipient`.
///
/// The message is refused, and nothing changes, if one of its tokens does
/// not resolve, if the recipient has no mailbox, or if the mailbox is full;
/// the reasons are tried in this order.
pub fn send_message(
    registry: &mut IpcRegistry,
    store: &CapabilityStore,
    sender: ProcessId,
    recipient: ProcessId,
    data: Vec<u8>,
    capabilities: Vec<CapabilityId>,
) -> (result: Result<(), &'static str>)
    ensures
        match result {
            Ok(_) => old(registry)@.send_error(store@, recipient, capabilities@) is None
                && final(registry)@ == old(registry)@.deliver(
                recipient,
                MessageModel { sender, data: data@, capabilities: capabilities@ },
            ),
            Err(reason) => old(registry)@.send_error(store@, recipient, capabilities@) == Some(
                reason@,
            ) && final(registry)@ == old(registry)@,
        },
        old(registry)@.wf() ==> final(registry)@.wf(),
{
    if !tokens_resolve(store, &capabilities) {
        return Err("Invalid capability");
    }
    match registry.endpoints.remove(&recipient.0) {
        None => {
            assert(registry@.endpoints =~= old(registry)@.endpoints);
            Err("No such endpoint")
        },
        Some(endpoint) => {
            let mut endpoint = endpoint;
            assert(endpoint@ == old(registry)@.endpoints[recipient.0]);
            if endpoint.messages.len() >= endpoint.max_messages {
                registry.endpoints.insert(recipient.0, endpoint);
                assert(registry@.endpoints =~= old(registry)@.endpoints);
                Err("Message queue full")
            } else {
                let ghost message = MessageModel {
                    sender,
                    data: data@,
                    capabilities: capabilities@,
                };
                let ghost before = endpoint@;
                endpoint.messages.push(Message { sender, data, capabilities });
                assert(endpoint@.messages =~= before.messages.push(message));
                registry.endpoints.insert(recipient.0, endpoint);
                assert(registry@.endpoints =~= old(registry)@.deliver(
                    recipient,
                    message,
                ).endpoints);
                Ok(())
            }
        },
    }
}

/// Takes the oldest message out of the queue of `process_id`. `None`
/// where the queue is empty or `process_id` has no mailbox.
pub fn receive_message(registry: &mut IpcRegistry, process_id: ProcessId) -> (message: Option<
    Message,
>)
    ensures
        message is Some <==> old(registry)@.head(process_id) is Some,
        message matches Some(m) ==> Some(m@) == old(registry)@.head(process_id),
        final(registry)@ == old(registry)@.receive(process_id),
        old(registry)@.wf() ==> final(registry)@.wf(),
{
    match registry.endpoints.remove(&process_id.0) {
        None => {
            assert(registry@.endpoints =~= old(registry)@.endpoints);
            None
        },
        Some(endpoint) => {
            let mut endpoint = endpoint;
            assert(endpoint@ == old(registry)@.endpoints[process_id.0]);
            if endpoint.messages.len() > 0 {
                let ghost before = endpoint@;
                let message = endpoint.messages.remove(0);
                assert(message@ == before.messages[0]);
                assert(endpoint@.messages =~= before.messages.drop_first());
                registry.endpoints.insert(process_id.0, endpoint);
                assert(registry@.endpoints =~= old(registry)@.receive(process_id).endpoints);
                Some(message)
            } else {
                registry.endpoints.insert(process_id.0, endpoint);
                assert(registry@.endpoints =~= old(registry)@.endpoints);
                None
            }
        },
    }
}

/// A message sent without tokens to a mailbox that is empty comes back
/// out of the next receive, whole, and the mailbox is empty again.
pub proof fn lemma_send_then_receive_round_trip(
    ipc: IpcModel,
    store: StoreModel,
    sender: ProcessId,
    recipient: ProcessId,
    data: Seq<u8>,
)
    requires
        ipc.wf(),
        ipc.has_endpoint(recipient),
        ipc.queue(recipient).len() == 0,
    ensures
        ipc.send_error(store, recipient, Seq::empty()) is None,
        ({
            let message = MessageModel { sender, data, capabilities: Seq::empty() };
            let sent = ipc.deliver(recipient, message);
            &&& sent.head(recipient) == Some(message)
            &&& sent.head(recipient)->0.data == data
            &&& sent.receive(recipient) == ipc
        }),
{
    let message = MessageModel { sender, data, capabilities: Seq::empty() };
    let sent = ipc.deliver(recipient, message);
    let before = ipc.endpoints[recipient.0];
    assert(sent.queue(recipient) == before.messages.push(message));
    assert(before.messages.push(message).drop_first() =~= before.messages);
    assert(sent.receive(recipient).endpoints =~= ipc.endpoints);
}

/// Messages leave a mailbox in the order in which they came: a delivery
/// joins the end of the queue, a receive takes from its front, and neither
/// touches another mailbox.
pub proof fn lemma_queue_is_first_in_first_out(
    ipc: IpcModel,
    pid: ProcessId,
    other: ProcessId,
    message: MessageModel,
)
    requires
        ipc.has_endpoint(pid),
        other != pid,
    ensures
        ipc.deliver(pid, message).queue(pid) == ipc.queue(pid).push(message),
        ipc.queue(pid).len() > 0 ==> ipc.deliver(pid, message).head(pid) == ipc.head(pid),
        ipc.queue(pid).len() > 0 ==> ipc.receive(pid).queue(pid) == ipc.queue(pid).drop_first(),
        ipc.deliver(pid, message).queue(other) == ipc.queue(other),
        ipc.receive(pid).queue(other) == ipc.queue(other),
{
}

/// A mailbox never holds more than its bound: a delivery that
/// `send_error` accepts, a receive and a new mailbox keep the mailboxes
/// well-formed.
pub proof fn lemma_queues_stay_bounded(
    ipc: IpcModel,
    store: StoreModel,
    pid: ProcessId,
    caps: Seq<CapabilityId>,
    message: MessageModel,
)
    requires
        ipc.wf(),
    ensures
        ipc.send_error(store, pid, caps) is None ==> ipc.deliver(pid, message).wf(),
        ipc.receive(pid).wf(),
        ipc.with_endpoint(pid).wf(),
{
}

} // verus!
