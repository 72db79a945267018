//! The capability store and the authorization predicates.
//!
//! A capability is a typed record of authority. The store issues an opaque
//! token for each record; holding the token is holding the authority, for as
//! long as the record stays in the store. Every authorization decision in the
//! kernel is one call of [`find`] on the caller's bag of tokens.

use crate::text::{has_path_prefix, is_path_prefix};
use std::collections::BTreeMap;
use vstd::prelude::*;

verus! {

broadcast use vstd::laws_cmp::group_laws_cmp;

/// An opaque token naming one record of the capability store.
#[derive(Debug, Clone, Copy, PartialEq, Eq, PartialOrd, Ord, Structural)]
pub struct CapabilityId(pub u64);

/// A typed record of authority.
#[derive(Debug)]
pub enum Capability {
    /// Access to the addresses `base <= a < base + size`, per access bit.
    Memory { base: usize, size: usize, read: bool, write: bool, execute: bool },
    /// The right to handle one interrupt line.
    Interrupt { irq: u8 },
    /// The right to use one I/O port.
    Port { port: u16 },
    /// The right to exchange messages with one peer.
    Process { pid: u64, can_send: bool, can_receive: bool },
    /// The right to create child agents.
    Spawn { max_children: u32 },
    /// The right to use the network stack.
    Network,
    /// Access to the files whose path begins with `path_prefix`.
    FileSystem { path_prefix: String, read: bool, write: bool },
}

impl Clone for Capability {
    fn clone(&self) -> (copy: Self)
        ensures
            copy == *self,
    {
        match self {
            Capability::Memory { base, size, read, write, execute } => Capability::Memory {
                base: *base,
                size: *size,
                read: *read,
                write: *write,
                execute: *execute,
            },
            Capability::Interrupt { irq } => Capability::Interrupt { irq: *irq },
            Capability::Port { port } => Capability::Port { port: *port },
            Capability::Process { pid, can_send, can_receive } => Capability::Process {
                pid: *pid,
                can_send: *can_send,
                can_receive: *can_receive,
            },
            Capability::Spawn { max_children } => Capability::Spawn { max_children: *max_children },
            Capability::Network => Capability::Network,
            Capability::FileSystem { path_prefix, read, write } => Capability::FileSystem {
                path_prefix: path_prefix.clone(),
                read: *read,
                write: *write,
            },
        }
    }
}

/// A record of authority, as mathematics.
pub enum CapabilityModel {
    Memory { base: usize, size: usize, read: bool, write: bool, execute: bool },
    Interrupt { irq: u8 },
    Port { port: u16 },
    Process { pid: u64, can_send: bool, can_receive: bool },
    Spawn { max_children: u32 },
    Network,
    FileSystem { path_prefix: Seq<char>, read: bool, write: bool },
}

impl View for Capability {
    type V = CapabilityModel;

    open spec fn view(&self) -> CapabilityModel {
        match *self {
            Capability::Memory { base, size, read, write, execute } => CapabilityModel::Memory {
                base,
                size,
                read,
                write,
                execute,
            },
            Capability::Interrupt { irq } => CapabilityModel::Interrupt { irq },
            Capability::Port { port } => CapabilityModel::Port { port },
            Capability::Process { pid, can_send, can_receive } => CapabilityModel::Process {
                pid,
                can_send,
                can_receive,
            },
            Capability::Spawn { max_children } => CapabilityModel::Spawn { max_children },
            Capability::Network => CapabilityModel::Network,
            Capability::FileSystem { path_prefix, read, write } => CapabilityModel::FileSystem {
                path_prefix: path_prefix@,
                read,
                write,
            },
        }
    }
}

/// What the store holds, as mathematics: the live records by token, and the
/// token that the next creation will return.
pub struct StoreModel {
    pub entries: Map<u64, CapabilityModel>,
    pub next_id: u64,
}

impl StoreModel {
    /// The first token is 1, and every live token was issued before
    /// `next_id`.
    pub open spec fn wf(self) -> bool {
        &&& self.next_id >= 1
        &&& forall|id: u64| #[trigger] self.entries.contains_key(id) ==> 1 <= id < self.next_id
    }

    /// Whether `id` names a live record.
    pub open spec fn resolves(self, id: CapabilityId) -> bool {
        self.entries.contains_key(id.0)
    }

    /// The record that `id` names.
    pub open spec fn record(self, id: CapabilityId) -> CapabilityModel
        recommends
            self.resolves(id),
    {
        self.entries[id.0]
    }

    /// The store after one creation.
    pub open spec fn create(self, cap: CapabilityModel) -> StoreModel
        recommends
            self.next_id < u64::MAX,
    {
        StoreModel {
            entries: self.entries.insert(self.next_id, cap),
            next_id: (self.next_id + 1) as u64,
        }
    }

    /// The store after `id` is revoked.
    pub open spec fn revoke(self, id: CapabilityId) -> StoreModel {
        StoreModel { entries: self.entries.remove(id.0), next_id: self.next_id }
    }

    /// The store after the records in `caps` are created in order.
    pub open spec fn create_all(self, caps: Seq<CapabilityModel>) -> StoreModel
        decreases caps.len(),
    {
        if caps.len() == 0 {
            self
        } else {
            self.create_all(caps.drop_last()).create(caps.last())
        }
    }

    /// The token returned by the creation number `k` of a run of creations
    /// that starts from this store.
    pub open spec fn issued(self, caps: Seq<CapabilityModel>, k: int) -> u64
        recommends
            0 <= k < caps.len(),
    {
        self.create_all(caps.take(k)).next_id
    }
}

/// The registry of live capabilities.
pub struct CapabilityStore {
    entries: BTreeMap<u64, Capability>,
    next_id: u64,
}

impl View for CapabilityStore {
    type V = StoreModel;

    closed spec fn view(&self) -> StoreModel {
        StoreModel {
            entries: self.entries@.map_values(|c: Capability| c@),
            next_id: self.next_id,
        }
    }
}

impl CapabilityStore {
    /// An empty store; its first token will be 1.
    pub fn new() -> (store: Self)
        ensures
            store@.entries == Map::<u64, CapabilityModel>::empty(),
            store@.next_id == 1,
            store@.wf(),
    {
        let store = CapabilityStore { entries: BTreeMap::new(), next_id: 1 };
        assert(store@.entries =~= Map::<u64, CapabilityModel>::empty());
        store
    }

    /// The token that the next creation returns.
    pub fn next_id(&self) -> (id: u64)
        ensures
            id == self@.next_id,
    {
        self.next_id
    }
}

/// Records `cap` under a token that was never issued before, and returns
/// the token.
pub fn create_capability(store: &mut CapabilityStore, cap: Capability) -> (id: CapabilityId)
    requires
        old(store)@.next_id < u64::MAX,
    ensures
        id.0 == old(store)@.next_id,
        final(store)@ == old(store)@.create(cap@),
        old(store)@.wf() ==> !old(store)@.resolves(id) && final(store)@.wf(),
{
    let id: u64 = store.next_id;
    store.next_id = id + 1;
    store.entries.insert(id, cap);
    assert(store@.entries =~= old(store)@.create(cap@).entries);
    CapabilityId(id)
}

/// The record that `cap_id` names, or `None` if it was never issued or has
/// been revoked.
pub fn validate_capability(store: &CapabilityStore, cap_id: CapabilityId) -> (found: Option<
    Capability,
>)
    ensures
        found is Some <==> store@.resolves(cap_id),
        found matches Some(cap) ==> cap@ == store@.record(cap_id),
{
    match store.entries.get(&cap_id.0) {
        Some(cap) => Some(cap.clone()),
        None => None,
    }
}

/// Removes the record that `cap_id` names. Returns whether there was one.
pub fn revoke_capability(store: &mut CapabilityStore, cap_id: CapabilityId) -> (existed: bool)
    ensures
        existed == old(store)@.resolves(cap_id),
        final(store)@ == old(store)@.revoke(cap_id),
        old(store)@.wf() ==> final(store)@.wf(),
{
    let existed = store.entries.remove(&cap_id.0).is_some();
    assert(store@.entries =~= old(store)@.revoke(cap_id).entries);
    existed
}

/// What a caller asks leave to do.
#[derive(Debug, Clone, Copy)]
pub enum Access<'a> {
    /// Read the byte at `addr`.
    ReadMemory { addr: usize },
    /// Write the byte at `addr`.
    WriteMemory { addr: usize },
    /// Send a message to the agent `pid`.
    SendTo { pid: u64 },
    /// Create a child agent.
    Spawn,
    /// Use the network stack.
    Network,
    /// Read the file at `path`, or list the files under it.
    ReadFile { path: &'a str },
    /// Create or overwrite the file at `path`.
    WriteFile { path: &'a str },
}

/// What a caller asks leave to do, as mathematics.
pub enum AccessModel {
    ReadMemory { addr: usize },
    WriteMemory { addr: usize },
    SendTo { pid: u64 },
    Spawn,
    Network,
    ReadFile { path: Seq<char> },
    WriteFile { path: Seq<char> },
}

impl<'a> View for Access<'a> {
    type V = AccessModel;

    open spec fn view(&self) -> AccessModel {
        match *self {
            Access::ReadMemory { addr } => AccessModel::ReadMemory { addr },
            Access::WriteMemory { addr } => AccessModel::WriteMemory { addr },
            Access::SendTo { pid } => AccessModel::SendTo { pid },
            Access::Spawn => AccessModel::Spawn,
            Access::Network => AccessModel::Network,
            Access::ReadFile { path } => AccessModel::ReadFile { path: path@ },
            Access::WriteFile { path } => AccessModel::WriteFile { path: path@ },
        }
    }
}

/// Whether the range that starts at `base` and holds `size` addresses
/// contains `addr`. An empty range contains nothing.
pub open spec fn covers(base: usize, size: usize, addr: usize) -> bool {
    base <= addr < base + size
}

/// Whether the one record `cap` is enough for `access`.
pub open spec fn grants(cap: CapabilityModel, access: AccessModel) -> bool {
    match access {
        AccessModel::ReadMemory { addr } => cap matches CapabilityModel::Memory {
            base,
            size,
            read,
            ..
        } && read && covers(base, size, addr),
        AccessModel::WriteMemory { addr } => cap matches CapabilityModel::Memory {
            base,
            size,
            write,
            ..
        } && write && covers(base, size, addr),
        AccessModel::SendTo { pid } => cap matches CapabilityModel::Process {
            pid: peer,
            can_send,
            ..
        } && can_send && peer == pid,
        AccessModel::Spawn => cap is Spawn,
        AccessModel::Network => cap is Network,
        AccessModel::ReadFile { path } => cap matches CapabilityModel::FileSystem {
            path_prefix,
            read,
            ..
        } && read && is_path_prefix(path_prefix, path),
        AccessModel::WriteFile { path } => cap matches CapabilityModel::FileSystem {
            path_prefix,
            write,
            ..
        } && write && is_path_prefix(path_prefix, path),
    }
}

/// Whether the token at position `i` of `bag` is live and its record is
/// enough for `access`.
pub open spec fn token_grants(
    store: StoreModel,
    bag: Seq<CapabilityId>,
    i: int,
    access: AccessModel,
) -> bool {
    &&& 0 <= i < bag.len()
    &&& store.resolves(bag[i])
    &&& grants(store.record(bag[i]), access)
}

/// Whether `bag` authorizes `access`: some token in it is live and its
/// record is enough. A token that does not resolve grants nothing.
pub open spec fn authorizes(store: StoreModel, bag: Seq<CapabilityId>, access: AccessModel) -> bool {
    exists|i: int| token_grants(store, bag, i, access)
}

/// Decides whether the record `cap` is enough for `access`.
pub fn capability_grants(cap: &Capability, access: &Access<'_>) -> (yes: bool)
    ensures
        yes == grants(cap@, access@),
{
    match access {
        Access::ReadMemory { addr } => match cap {
            Capability::Memory { base, size, read, .. } => *read && *base <= *addr && *addr - *base
                < *size,
            _ => false,
        },
        Access::WriteMemory { addr } => match cap {
            Capability::Memory { base, size, write, .. } => *write && *base <= *addr && *addr
                - *base < *size,
            _ => false,
        },
        Access::SendTo { pid } => match cap {
            Capability::Process { pid: peer, can_send, .. } => *can_send && *peer == *pid,
            _ => false,
        },
        Access::Spawn => match cap {
            Capability::Spawn { .. } => true,
            _ => false,
        },
        Access::Network => match cap {
            Capability::Network => true,
            _ => false,
        },
        Access::ReadFile { path } => match cap {
            Capability::FileSystem { path_prefix, read, .. } => *read && has_path_prefix(
                path,
                path_prefix.as_str(),
            ),
            _ => false,
        },
        Access::WriteFile { path } => match cap {
            Capability::FileSystem { path_prefix, write, .. } => *write && has_path_prefix(
                path,
                path_prefix.as_str(),
            ),
            _ => false,
        },
    }
}

/// Whether `cap` is a `FileSystem` record with the empty prefix. Such a
/// record matches every path: whoever issues one makes its holder a
/// superuser of the files, and should say so in the log.
pub fn matches_every_path(cap: &Capability) -> (yes: bool)
    ensures
        yes == (cap@ matches CapabilityModel::FileSystem { path_prefix, .. } && path_prefix.len()
            == 0),
        yes ==> forall|path: Seq<char>|
            is_path_prefix(cap@->FileSystem_path_prefix, path),
{
    match cap {
        Capability::FileSystem { path_prefix, .. } => {
            let empty = path_prefix.as_str().is_empty();
            proof {
                if empty {
                    assert forall|path: Seq<char>|
                        is_path_prefix(path_prefix@, path) by {
                        assert(path_prefix@ =~= Seq::<char>::empty());
                        assert(vstd::utf8::encode_utf8(Seq::<char>::empty()) =~= Seq::<u8>::empty());
                    }
                }
            }
            empty
        },
        _ => false,
    }
}

/// The one authorization primitive: whether some live token of `bag` is
/// enough for `access`. Tokens that do not resolve are skipped.
pub fn find(store: &CapabilityStore, bag: &Vec<CapabilityId>, access: &Access<'_>) -> (yes: bool)
    ensures
        yes == authorizes(store@, bag@, access@),
{
    let mut i: usize = 0;
    while i < bag.len()
        invariant
            0 <= i <= bag.len(),
            forall|j: int| 0 <= j < i ==> !token_grants(store@, bag@, j, access@),
        decreases bag.len() - i,
    {
        match store.entries.get(&bag[i].0) {
            Some(cap) => {
                if capability_grants(cap, access) {
                    assert(token_grants(store@, bag@, i as int, access@));
                    return true;
                }
            },
            None => {},
        }
        i += 1;
    }
    false
}

/// Whether `bag` allows reading the byte at `addr`.
pub fn can_read_memory(store: &CapabilityStore, bag: &Vec<CapabilityId>, addr: usize) -> (yes: bool)
    ensures
        yes == authorizes(store@, bag@, AccessModel::ReadMemory { addr }),
{
    find(store, bag, &Access::ReadMemory { addr })
}

/// Whether `bag` allows writing the byte at `addr`.
pub fn can_write_memory(store: &CapabilityStore, bag: &Vec<CapabilityId>, addr: usize) -> (yes:
    bool)
    ensures
        yes == authorizes(store@, bag@, AccessModel::WriteMemory { addr }),
{
    find(store, bag, &Access::WriteMemory { addr })
}

/// Whether `bag` allows sending a message to the agent `pid`.
pub fn can_send_to(store: &CapabilityStore, bag: &Vec<CapabilityId>, pid: u64) -> (yes: bool)
    ensures
        yes == authorizes(store@, bag@, AccessModel::SendTo { pid }),
{
    find(store, bag, &Access::SendTo { pid })
}

/// Whether `bag` allows creating a child agent.
pub fn can_spawn(store: &CapabilityStore, bag: &Vec<CapabilityId>) -> (yes: bool)
    ensures
        yes == authorizes(store@, bag@, AccessModel::Spawn),
{
    find(store, bag, &Access::Spawn)
}

/// Whether `bag` allows using the network stack.
pub fn can_access_network(store: &CapabilityStore, bag: &Vec<CapabilityId>) -> (yes: bool)
    ensures
        yes == authorizes(store@, bag@, AccessModel::Network),
{
    find(store, bag, &Access::Network)
}

/// Whether `bag` allows reading the file at `path`.
pub fn can_read_file(store: &CapabilityStore, bag: &Vec<CapabilityId>, path: &str) -> (yes: bool)
    ensures
        yes == authorizes(store@, bag@, AccessModel::ReadFile { path: path@ }),
{
    find(store, bag, &Access::ReadFile { path })
}

/// Whether `bag` allows creating or overwriting the file at `path`.
pub fn can_write_file(store: &CapabilityStore, bag: &Vec<CapabilityId>, path: &str) -> (yes: bool)
    ensures
        yes == authorizes(store@, bag@, AccessModel::WriteFile { path: path@ }),
{
    find(store, bag, &Access::WriteFile { path })
}

/// An address that lies outside every memory range described by a live
/// token of the bag can be neither read nor written.
pub proof fn lemma_outside_every_range_denied(
    store: StoreModel,
    bag: Seq<CapabilityId>,
    addr: usize,
)
    requires
        forall|i: int|
            0 <= i < bag.len() && store.resolves(#[trigger] bag[i]) ==> (store.record(
                bag[i],
            ) matches CapabilityModel::Memory { base, size, .. } ==> !covers(base, size, addr)),
    ensures
        !authorizes(store, bag, AccessModel::ReadMemory { addr }),
        !authorizes(store, bag, AccessModel::WriteMemory { addr }),
{
    assert forall|i: int| !token_grants(store, bag, i, AccessModel::ReadMemory { addr }) by {
        if 0 <= i < bag.len() {
            let _ = bag[i];
        }
    }
    assert forall|i: int| !token_grants(store, bag, i, AccessModel::WriteMemory { addr }) by {
        if 0 <= i < bag.len() {
            let _ = bag[i];
        }
    }
}

/// A bag reaches the network exactly when one of its live tokens names a
/// `Network` record.
pub proof fn lemma_network_needs_network_token(store: StoreModel, bag: Seq<CapabilityId>)
    ensures
        authorizes(store, bag, AccessModel::Network) <==> exists|i: int|
            0 <= i < bag.len() && store.resolves(#[trigger] bag[i]) && store.record(
                bag[i],
            ) is Network,
{
    if authorizes(store, bag, AccessModel::Network) {
        let i = choose|i: int| token_grants(store, bag, i, AccessModel::Network);
        assert(0 <= i < bag.len() && store.resolves(bag[i]) && store.record(bag[i]) is Network);
    }
    if exists|i: int|
        0 <= i < bag.len() && store.resolves(#[trigger] bag[i]) && store.record(bag[i]) is Network {
        let i = choose|i: int|
            0 <= i < bag.len() && store.resolves(#[trigger] bag[i]) && store.record(
                bag[i],
            ) is Network;
        assert(token_grants(store, bag, i, AccessModel::Network));
    }
}

/// A bag none of whose live `FileSystem` records has a prefix of `path`
/// as its prefix can neither read nor write `path`.
pub proof fn lemma_no_matching_prefix_denies_path(
    store: StoreModel,
    bag: Seq<CapabilityId>,
    path: Seq<char>,
)
    requires
        forall|i: int|
            0 <= i < bag.len() && store.resolves(#[trigger] bag[i]) ==> (store.record(
                bag[i],
            ) matches CapabilityModel::FileSystem { path_prefix, .. } ==> !is_path_prefix(
                path_prefix,
                path,
            )),
    ensures
        !authorizes(store, bag, AccessModel::ReadFile { path }),
        !authorizes(store, bag, AccessModel::WriteFile { path }),
{
    assert forall|i: int| !token_grants(store, bag, i, AccessModel::ReadFile { path }) by {
        if 0 <= i < bag.len() {
            let _ = bag[i];
        }
    }
    assert forall|i: int| !token_grants(store, bag, i, AccessModel::WriteFile { path }) by {
        if 0 <= i < bag.len() {
            let _ = bag[i];
        }
    }
}

/// An empty bag authorizes nothing.
pub proof fn lemma_empty_bag_denied(store: StoreModel, access: AccessModel)
    ensures
        !authorizes(store, Seq::<CapabilityId>::empty(), access),
{
}

/// After `k` creations the next token is `k` above where it started.
pub proof fn lemma_create_all_advances(store: StoreModel, caps: Seq<CapabilityModel>)
    requires
        store.next_id + caps.len() <= u64::MAX,
    ensures
        store.create_all(caps).next_id == store.next_id + caps.len(),
    decreases caps.len(),
{
    if caps.len() > 0 {
        lemma_create_all_advances(store, caps.drop_last());
    }
}

/// Across a run of creations the returned tokens strictly increase: an
/// earlier creation always returns the smaller token.
pub proof fn lemma_issued_ids_strictly_increase(
    store: StoreModel,
    caps: Seq<CapabilityModel>,
    j: int,
    k: int,
)
    requires
        store.next_id + caps.len() <= u64::MAX,
        0 <= j < k < caps.len(),
    ensures
        store.issued(caps, j) < store.issued(caps, k),
{
    lemma_create_all_advances(store, caps.take(j));
    lemma_create_all_advances(store, caps.take(k));
}

/// Revoking removes authority and moves none: the revoked token no longer
/// resolves, no position of a bag that holds it grants anything, and what a
/// bag still authorizes is what its other tokens authorized before.
pub proof fn lemma_revocation_removes_authority(
    store: StoreModel,
    id: CapabilityId,
    bag: Seq<CapabilityId>,
    access: AccessModel,
)
    ensures
        !store.revoke(id).resolves(id),
        forall|i: int| 0 <= i < bag.len() && bag[i] == id ==> !token_grants(
            store.revoke(id),
            bag,
            i,
            access,
        ),
        authorizes(store.revoke(id), bag, access) <==> exists|i: int|
            token_grants(store, bag, i, access) && bag[i] != id,
        authorizes(store.revoke(id), bag, access) ==> authorizes(store, bag, access),
{
    let after = store.revoke(id);
    if authorizes(after, bag, access) {
        let i = choose|i: int| token_grants(after, bag, i, access);
        assert(token_grants(store, bag, i, access) && bag[i] != id);
    }
    if exists|i: int| token_grants(store, bag, i, access) && bag[i] != id {
        let i = choose|i: int| token_grants(store, bag, i, access) && bag[i] != id;
        assert(token_grants(after, bag, i, access));
    }
}

/// Creating and revoking keep a well-formed store well-formed.
pub proof fn lemma_store_stays_well_formed(store: StoreModel, cap: CapabilityModel, id: CapabilityId)
    requires
        store.wf(),
    ensures
        store.next_id < u64::MAX ==> store.create(cap).wf(),
        store.revoke(id).wf(),
{
}

} // verus!
