//! The provider state that every session works from: the catalog it
//! serves, the groups it accepts readers into, and the tuples it
//! creates for those groups.

use std::collections::HashMap;

use vstd::prelude::*;

use crate::error::Error;
use crate::meta;
use crate::meta::{Message, MessageView, RegionDesc, RegionDescView, TupleDesc};
use crate::rdma::calls;
use crate::rdma::calls::Handle;
use crate::rdma::listener::Listener;
use crate::rdma::setup::Setup;
use crate::rdma::verbs;
use crate::rdma::verbs::{Connection, MemoryRegion, ProtectionDomain, Registration};

verus! {

broadcast use vstd::std_specs::hash::group_hash_axioms;

/// A region's entry in the catalog the metadata channel serves: what
/// the readers see, plus the byte address and size tuple creation works
/// from. Plain data, deliberately without the buffer itself: tuples are
/// created from the address captured at registration, so the service
/// never touches a buffer the application may be borrowing.
#[derive(Debug, PartialEq, Eq)]
pub struct RegionInfo {
    pub name: String,
    /// The region's buffer address, in bytes, captured at registration.
    pub remote_addr: u64,
    /// The region's buffer size, in bytes.
    pub size: usize,
    /// `size_of` of the element type the region is shared as.
    pub elem_size: u32,
    /// `align_of` of the element type the region is shared as.
    pub elem_align: u32,
    /// `std::any::type_name` of the element type, for diagnostics.
    pub elem_type: String,
}

impl RegionInfo {
    /// The region as the catalog advertises it.
    pub open spec fn advertised(self, id: u32) -> RegionDescView {
        RegionDescView {
            id,
            name: self.name@,
            size: self.size as u64,
            elem_size: self.elem_size,
            elem_align: self.elem_align,
            elem_type: self.elem_type@,
        }
    }

    fn describe(&self, id: u32) -> (desc: RegionDesc)
        ensures
            desc@ == self.advertised(id),
    {
        RegionDesc {
            id,
            name: self.name.clone(),
            size: self.size as u64,
            elem_size: self.elem_size,
            elem_align: self.elem_align,
            elem_type: self.elem_type.clone(),
        }
    }
}

/// One group of readers: they share the group's protection domain, so
/// they share the rkeys of the tuples created for the group.
#[derive(Debug, PartialEq, Eq)]
pub struct GroupEntry {
    /// The group's protection domain, created with the group's first
    /// accepted connection; the queue pairs of all the group's
    /// connections live in it.
    pub pd: ProtectionDomain,
    /// The group's accepted reader connections.
    pub connections: Vec<Connection>,
}

impl GroupEntry {
    /// The group has a domain, and all its connections live in it.
    pub open spec fn wf(self) -> bool {
        &&& self.pd.pd != 0
        &&& forall|i: int|
            0 <= i < self.connections@.len() ==> (#[trigger] self.connections@[i]).pd == Some(
                self.pd,
            )
    }
}

/// What a request for a tuple finds.
#[derive(Debug, Clone, Copy, PartialEq, Eq)]
pub enum SharedTuple {
    /// The (remote_addr, size, rkey) tuple.
    Ready(u64, usize, u32),
    /// No tuple yet: this registration creates it.
    Pending(Registration),
}

/// The provider state shared by the sessions.
#[derive(Debug)]
pub struct Shared {
    /// The region catalog, by id.
    pub catalog: Vec<RegionInfo>,
    /// Reader groups by group id.
    pub groups: HashMap<u32, GroupEntry>,
    /// Tuples by region and group: the registration of each region's
    /// buffer in a group's protection domain, kept until the provider
    /// is closed.
    pub tuples: HashMap<u64, MemoryRegion>,
}

/// Region and group in one number.
pub open spec fn pair(id: u32, group: u32) -> u64 {
    (id * 0x1_0000_0000 + group) as u64
}

/// A pair stands for its region and its group, and for no others.
pub proof fn lemma_pair_injective(id: u32, group: u32, other_id: u32, other_group: u32)
    ensures
        pair(id, group) == pair(other_id, other_group) <==> id == other_id && group == other_group,
{
}

fn pair_of(id: u32, group: u32) -> (n: u64)
    ensures
        n == pair(id, group),
{
    id as u64 * 0x1_0000_0000 + group as u64
}

/// The tuple that `registration` gives with the handle `mr` and its
/// keys; without a handle it failed.
pub open spec fn registered_tuple(
    registration: Registration,
    mr: Handle,
    lkey: u32,
    rkey: u32,
    result: Result<(u64, usize, u32), Error>,
) -> bool {
    if mr == 0 {
        result matches Err(e) && calls::failed(e, "ibv_reg_mr"@, None)
    } else {
        let region = registration.region(mr, lkey, rkey);
        result == Ok::<(u64, usize, u32), Error>((region.addr, region.size, region.rkey))
    }
}

impl Shared {
    /// The registration that makes region `id` accessible to `group`,
    /// if there is one.
    pub open spec fn registered(self, id: u32, group: u32) -> Option<MemoryRegion> {
        if self.tuples@.contains_key(pair(id, group)) {
            Some(self.tuples@[pair(id, group)])
        } else {
            None
        }
    }

    /// A tuple of region `id` for `group`, if there is one, is of a
    /// region and a group that exist: made from the region's captured
    /// address and size, in the group's domain.
    pub open spec fn is_grounded(self, id: u32, group: u32) -> bool {
        self.registered(id, group) matches Some(mr) ==> {
            &&& id < self.catalog@.len()
            &&& self.groups@.contains_key(group)
            &&& mr.addr == self.catalog@[id as int].remote_addr
            &&& mr.size == self.catalog@[id as int].size
            &&& mr.pd == self.groups@[group].pd.pd
        }
    }

    /// The regions can be counted, the groups' connections live in
    /// their domains, and the tuples are of regions and groups that
    /// exist.
    pub open spec fn wf(self) -> bool {
        &&& self.catalog@.len() <= u32::MAX
        &&& forall|group: u32| #[trigger]
            self.groups@.contains_key(group) ==> self.groups@[group].wf()
        &&& forall|id: u32, group: u32| #[trigger] self.is_grounded(id, group)
    }

    /// What a request for the tuple of region `id` for `group` finds:
    /// the tuple, or what creates it; nothing for an unknown region or
    /// group. A region without bytes cannot be registered.
    pub open spec fn lookup(self, id: u32, group: u32) -> Result<Option<SharedTuple>, Error> {
        match self.registered(id, group) {
            Some(mr) => Ok(Some(SharedTuple::Ready(mr.addr, mr.size, mr.rkey))),
            None => if !self.groups@.contains_key(group) || id >= self.catalog@.len() {
                Ok(None)
            } else if self.catalog@[id as int].size == 0 {
                Err(Error::EmptyRegistration)
            } else {
                Ok(Some(SharedTuple::Pending(self.registration(id, group))))
            },
        }
    }

    /// The registration of region `id`'s buffer in `group`'s domain.
    pub open spec fn registration(self, id: u32, group: u32) -> Registration {
        verbs::open_registration(
            self.groups@[group].pd.pd,
            self.catalog@[id as int].remote_addr,
            self.catalog@[id as int].size,
        )
    }

    /// Nothing shared, and nobody to share it with.
    pub fn new() -> (shared: Shared)
        ensures
            shared.wf(),
            shared.catalog@ == Seq::<RegionInfo>::empty(),
            shared.groups@ == Map::<u32, GroupEntry>::empty(),
            shared.tuples@ == Map::<u64, MemoryRegion>::empty(),
    {
        Shared { catalog: Vec::new(), groups: HashMap::new(), tuples: HashMap::new() }
    }

    /// Add a region to the catalog: its id is the next one.
    pub fn add_region(&mut self, info: RegionInfo) -> (id: u32)
        requires
            old(self).wf(),
            old(self).catalog@.len() < u32::MAX,
        ensures
            final(self).wf(),
            id == old(self).catalog@.len(),
            final(self).catalog@ == old(self).catalog@.push(info),
            final(self).groups == old(self).groups,
            final(self).tuples == old(self).tuples,
    {
        let id: u32 = self.catalog.len() as u32;
        self.catalog.push(info);
        proof {
            assert forall|i: u32, g: u32| #[trigger] self.is_grounded(i, g) by {
                assert(old(self).is_grounded(i, g));
            }
        }
        id
    }

    /// The (remote_addr, size, rkey) tuple of region `id` for `group`,
    /// or the registration that creates it on first request.
    ///
    /// Creating a tuple registers the region's buffer in the group's
    /// protection domain: the rkey is a real one, usable by every
    /// reader of the group. The buffer is never touched: its address
    /// and size were captured at registration time.
    pub fn tuple_of(&self, id: u32, group: u32) -> (result: Result<Option<SharedTuple>, Error>)
        ensures
            result == self.lookup(id, group),
    {
        if let Some(mr) = self.tuples.get(&pair_of(id, group)) {
            return Ok(Some(SharedTuple::Ready(mr.addr(), mr.size(), mr.rkey())));
        }
        let pd: ProtectionDomain = match self.groups.get(&group) {
            Some(entry) => entry.pd,
            None => {
                return Ok(None);
            },
        };
        if id as usize >= self.catalog.len() {
            return Ok(None);
        }
        let info: &RegionInfo = &self.catalog[id as usize];
        let registration: Registration = pd.register_addr(info.remote_addr, info.size)?;
        Ok(Some(SharedTuple::Pending(registration)))
    }

    /// Take what `registration`, which [`Self::tuple_of`] asked for,
    /// gave: the registration's handle, and behind it the keys. Gives
    /// the tuple.
    pub fn tuple_registered(
        &mut self,
        id: u32,
        group: u32,
        registration: Registration,
        mr: Handle,
        lkey: u32,
        rkey: u32,
    ) -> (result: Result<(u64, usize, u32), Error>)
        requires
            old(self).wf(),
            old(self).is_pending(id, group),
            registration == old(self).registration(id, group),
        ensures
            final(self).wf(),
            Self::takes(*old(self), *final(self), id, group, mr, lkey, rkey),
            registered_tuple(registration, mr, lkey, rkey, result),
    {
        let region: MemoryRegion = registration.complete(mr, lkey, rkey)?;
        let tuple: (u64, usize, u32) = region.tuple();
        self.tuples.insert(pair_of(id, group), region);
        proof {
            assert forall|i: u32, g: u32| #[trigger] self.is_grounded(i, g) by {
                lemma_pair_injective(i, g, id, group);
                assert(old(self).is_grounded(i, g));
            }
        }
        Ok(tuple)
    }

    /// Whether the tuple of region `id` for `group` is still to be
    /// created, and can be.
    pub open spec fn is_pending(self, id: u32, group: u32) -> bool {
        &&& self.groups@.contains_key(group)
        &&& id < self.catalog@.len()
        &&& self.catalog@[id as int].size != 0
        &&& self.registered(id, group) is None
    }

    /// Whether `after` is what `before` becomes when the registration of
    /// region `id` for `group` gave the handle `mr`, and behind it the
    /// keys: the tuple is there, unless the registration failed.
    pub open spec fn takes(
        before: Shared,
        after: Shared,
        id: u32,
        group: u32,
        mr: Handle,
        lkey: u32,
        rkey: u32,
    ) -> bool {
        &&& after.catalog == before.catalog
        &&& after.groups == before.groups
        &&& after.tuples@ == if mr == 0 {
            before.tuples@
        } else {
            before.tuples@.insert(
                pair(id, group),
                before.registration(id, group).region(mr, lkey, rkey),
            )
        }
    }

    /// The catalog as it is advertised: every registered region.
    pub open spec fn advertised(self) -> Seq<RegionDescView> {
        Seq::new(
            self.catalog@.len(),
            |i: int| self.catalog@[i].advertised(i as u32),
        )
    }

    /// The tuples that are served for `group`, of the first `n` regions:
    /// one for each region that has one.
    pub open spec fn served(self, group: u32, n: nat) -> Seq<TupleDesc>
        decreases n,
    {
        if n == 0 {
            Seq::empty()
        } else {
            let id = (n - 1) as u32;
            let front = self.served(group, (n - 1) as nat);
            match self.registered(id, group) {
                Some(mr) => front.push(
                    TupleDesc {
                        region_id: id,
                        remote_addr: mr.addr,
                        size: mr.size as u64,
                        rkey: mr.rkey,
                    },
                ),
                None => front,
            }
        }
    }

    /// The catalog and the tuples of `group`, as the two messages of a
    /// session's exchange: every registered region, each with its tuple
    /// for the group. The tuples are created first, see
    /// [`Registrations`]; a region that could not be
    /// registered has none.
    pub fn catalog_and_tuples(&self, group: u32) -> (exchange: (Message, Message))
        requires
            self.wf(),
        ensures
            exchange.0@ == (MessageView::Metadata { regions: self.advertised() }),
            exchange.1@ == (MessageView::Tuples {
                group,
                tuples: self.served(group, self.catalog@.len()),
            }),
    {
        let mut regions: Vec<RegionDesc> = Vec::new();
        let mut tuples: Vec<TupleDesc> = Vec::new();
        let mut i: usize = 0;
        while i < self.catalog.len()
            invariant
                i <= self.catalog.len(),
                self.wf(),
                regions@.len() == i,
                forall|j: int|
                    0 <= j < i ==> (#[trigger] regions@[j])@ == self.catalog@[j].advertised(
                        j as u32,
                    ),
                tuples@ == self.served(group, i as nat),
            decreases self.catalog.len() - i,
        {
            let id: u32 = i as u32;
            regions.push(self.catalog[i].describe(id));
            if let Some(mr) = self.tuples.get(&pair_of(id, group)) {
                let tuple: (u64, usize, u32) = mr.tuple();
                tuples.push(
                    TupleDesc {
                        region_id: id,
                        remote_addr: tuple.0,
                        size: tuple.1 as u64,
                        rkey: tuple.2,
                    },
                );
            }
            i += 1;
        }
        assert(meta::descs_view(regions@) =~= self.advertised());
        (Message::Metadata { regions }, Message::Tuples { group, tuples })
    }

    /// The protection domain of `group`, if the group exists.
    pub open spec fn group_domain(self, group: u32) -> Option<ProtectionDomain> {
        if self.groups@.contains_key(group) {
            Some(self.groups@[group].pd)
        } else {
            None
        }
    }

    /// The rendezvous of a reader that joins `group`: its RDMA
    /// connection is accepted into the group's domain; the group's
    /// first reader creates it.
    pub fn rendezvous(&self, listener: &Listener, group: u32) -> (setup: Setup)
        requires
            self.wf(),
        ensures
            setup.wf(),
            setup == listener.accepting(self.group_domain(group)),
    {
        match self.groups.get(&group) {
            Some(entry) => listener.accept_into(&entry.pd),
            None => listener.accept(),
        }
    }

    /// Whether `connection` can join `group`: it is established, and in
    /// the group's domain if the group has one.
    pub open spec fn admits(self, group: u32, connection: Connection) -> bool {
        &&& connection.pd is Some
        &&& connection.pd->0.pd != 0
        &&& self.groups@.contains_key(group) ==> connection.pd == Some(self.groups@[group].pd)
    }

    /// `group` with one more connection; a new group takes the
    /// connection's domain for its own.
    pub open spec fn joined(self, group: u32, connection: Connection) -> (
        ProtectionDomain,
        Seq<Connection>,
    ) {
        if self.groups@.contains_key(group) {
            (self.groups@[group].pd, self.groups@[group].connections@.push(connection))
        } else {
            (connection.pd->0, seq![connection])
        }
    }

    /// Add an accepted connection to `group`, which the group's first
    /// connection creates.
    pub fn join(&mut self, group: u32, connection: Connection)
        requires
            old(self).wf(),
            old(self).admits(group, connection),
        ensures
            final(self).wf(),
            final(self).catalog == old(self).catalog,
            final(self).tuples == old(self).tuples,
            final(self).groups@.dom() == old(self).groups@.dom().insert(group),
            forall|g: u32|
                g != group && old(self).groups@.contains_key(g) ==> (
                #[trigger] final(self).groups@[g]) == old(self).groups@[g],
            final(self).groups@[group].pd == old(self).joined(group, connection).0,
            final(self).groups@[group].connections@ == old(self).joined(group, connection).1,
    {
        let ghost before: Map<u32, GroupEntry> = self.groups@;
        let mut entry: GroupEntry = match self.groups.remove(&group) {
            Some(entry) => entry,
            None => GroupEntry { pd: connection.protection_domain(), connections: Vec::new() },
        };
        entry.connections.push(connection);
        self.groups.insert(group, entry);
        proof {
            assert(self.groups@.dom() =~= before.dom().insert(group));
            assert(self.groups@[group].connections@ =~= old(self).joined(group, connection).1);
            assert forall|g: u32| #[trigger]
                self.groups@.contains_key(g) implies self.groups@[g].wf() by {
                if g != group {
                    assert(before.contains_key(g));
                } else if before.contains_key(group) {
                    assert(before[group].wf());
                }
            }
            assert forall|i: u32, g: u32| #[trigger] self.is_grounded(i, g) by {
                assert(old(self).is_grounded(i, g));
            }
        }
    }

    /// Forget the tuples, whose registrations are given up.
    pub fn clear_tuples(&mut self)
        requires
            old(self).wf(),
        ensures
            final(self).wf(),
            final(self).catalog == old(self).catalog,
            final(self).groups == old(self).groups,
            final(self).tuples@ == Map::<u64, MemoryRegion>::empty(),
    {
        self.tuples.clear();
    }
}

/// A pass over the catalog that creates the tuples a group lacks, one
/// registration at a time: [`Self::next`] names the registration to
/// make, and [`Self::absorb`] takes what it gave. A registration that
/// fails is reported, and the pass goes on behind it.
#[derive(Debug, PartialEq, Eq)]
pub struct Registrations {
    /// The group the tuples are for.
    pub group: u32,
    /// The first region the pass has not been through.
    pub from: u32,
}

impl Registrations {
    /// Whether `next` is the first region, from the cursor on, whose
    /// tuple is still to be created.
    pub open spec fn asks(self, shared: Shared, next: Option<u32>) -> bool {
        match next {
            Some(id) => {
                &&& self.from <= id
                &&& shared.is_pending(id, self.group)
                &&& forall|i: u32|
                    self.from <= i < id ==> !#[trigger] shared.is_pending(i, self.group)
            },
            None => forall|i: u32| self.from <= i ==> !#[trigger] shared.is_pending(i, self.group),
        }
    }

    /// The pass once it is through region `id`.
    pub open spec fn past(self, id: u32) -> Self {
        Registrations { group: self.group, from: (id + 1) as u32 }
    }

    /// A pass for `group`, before the first region.
    pub fn new(group: u32) -> (pass: Self)
        ensures
            pass.group == group,
            pass.from == 0,
    {
        Registrations { group, from: 0 }
    }

    /// The next registration to make, if one is left.
    pub fn next(&self, shared: &Shared) -> (next: Option<(u32, Registration)>)
        requires
            shared.wf(),
        ensures
            match next {
                Some((id, registration)) => {
                    &&& self.asks(*shared, Some(id))
                    &&& registration == shared.registration(id, self.group)
                },
                None => self.asks(*shared, None),
            },
    {
        let mut id: u32 = self.from;
        while (id as usize) < shared.catalog.len()
            invariant
                self.from <= id,
                shared.wf(),
                forall|i: u32|
                    self.from <= i < id ==> !#[trigger] shared.is_pending(i, self.group),
            decreases shared.catalog.len() - id,
        {
            if let Ok(Some(SharedTuple::Pending(registration))) = shared.tuple_of(id, self.group) {
                return Some((id, registration));
            }
            assert(!shared.is_pending(id, self.group));
            id += 1;
        }
        None
    }

    /// Take what `registration`, which [`Self::next`] named for region
    /// `id`, gave: its handle, and behind it the keys. Gives the tuple,
    /// or why there is none; the pass is through the region either way.
    pub fn absorb(
        &mut self,
        shared: &mut Shared,
        id: u32,
        registration: Registration,
        mr: Handle,
        lkey: u32,
        rkey: u32,
    ) -> (result: Result<(u64, usize, u32), Error>)
        requires
            old(shared).wf(),
            old(shared).is_pending(id, old(self).group),
            registration == old(shared).registration(id, old(self).group),
        ensures
            final(shared).wf(),
            *final(self) == old(self).past(id),
            Shared::takes(*old(shared), *final(shared), id, old(self).group, mr, lkey, rkey),
            registered_tuple(registration, mr, lkey, rkey, result),
    {
        self.from = id + 1;
        shared.tuple_registered(id, self.group, registration, mr, lkey, rkey)
    }
}

} // verus!
