//! What holds of a provider's tuples, whatever its sessions do.

use vstd::prelude::*;

use crate::cache;
use crate::error::Error;
use crate::meta::TupleDesc;
use crate::pod::RemoteSafe;
use crate::providers::{SharedMemoryRegionHandle, SharedMemoryRegionProvider};
use crate::rdma::calls::Handle;
use crate::rdma::verbs::MemoryRegion;
use crate::shared;
use crate::shared::{RegionInfo, Registrations, Shared, SharedTuple};

verus! {

/// A tuple that was created is what every later request finds, and
/// creating it changes what no other request finds once its own tuple
/// is there: repeated requests for the same region and group return the
/// same tuple.
pub proof fn law_repeated_requests_find_the_same_tuple(
    before: Shared,
    after: Shared,
    id: u32,
    group: u32,
    mr: MemoryRegion,
)
    requires
        before.is_pending(id, group),
        after.catalog == before.catalog,
        after.groups == before.groups,
        after.tuples@ == before.tuples@.insert(shared::pair(id, group), mr),
    ensures
        after.lookup(id, group) == Ok::<Option<SharedTuple>, Error>(
            Some(SharedTuple::Ready(mr.addr, mr.size, mr.rkey)),
        ),
        forall|i: u32, g: u32|
            i != id || g != group ==> #[trigger] after.lookup(i, g) == before.lookup(i, g),
{
    assert forall|i: u32, g: u32| i != id || g != group implies #[trigger] after.lookup(i, g)
        == before.lookup(i, g) by {
        shared::lemma_pair_injective(i, g, id, group);
    }
}

/// Registering regions and accepting readers leaves every tuple that
/// there is: it is found as before.
pub proof fn law_tuples_outlast_other_changes(before: Shared, after: Shared, id: u32, group: u32)
    requires
        after.tuples@ == before.tuples@,
        before.registered(id, group) is Some,
    ensures
        after.lookup(id, group) == before.lookup(id, group),
{
}

/// A tuple works through every connection of its group: it is
/// registered in the domain that they all live in.
pub proof fn law_groups_share_their_tuples(shared: Shared, id: u32, group: u32, i: int)
    requires
        shared.wf(),
        shared.registered(id, group) is Some,
        0 <= i < shared.groups@[group].connections@.len(),
    ensures
        shared.groups@.contains_key(group),
        shared.groups@[group].connections@[i].pd == Some(shared.groups@[group].pd),
        shared.groups@[group].pd.pd == shared.registered(id, group)->0.pd,
{
    assert(shared.is_grounded(id, group));
    assert(shared.groups@[group].wf());
}

/// A registered buffer keeps its length: whatever is written through
/// the handle, the region's catalog entry describes the buffer as it
/// did at registration.
pub proof fn law_registered_buffers_keep_their_size<T: RemoteSafe>(
    info: RegionInfo,
    name: Seq<char>,
    before: SharedMemoryRegionHandle<T>,
    after: SharedMemoryRegionHandle<T>,
)
    requires
        SharedMemoryRegionProvider::catalogs::<T>(info, name, before.contents().len()),
        after.contents().len() == before.contents().len(),
    ensures
        SharedMemoryRegionProvider::catalogs::<T>(info, name, after.contents().len()),
        info.size == after.contents().len() * vstd::layout::size_of::<T>(),
{
}

/// No tuple exists without a reader that was accepted into its group.
pub proof fn law_tuples_need_an_accepted_group(shared: Shared, id: u32, group: u32)
    requires
        !shared.groups@.contains_key(group),
        shared.wf(),
    ensures
        shared.lookup(id, group) == Ok::<Option<SharedTuple>, Error>(None),
{
    assert(shared.is_grounded(id, group));
}

/// The tuple that is served for a region, found among all that are
/// served.
pub open spec fn served_tuple(shared: Shared, id: u32, group: u32) -> Option<TupleDesc> {
    match shared.registered(id, group) {
        Some(mr) => Some(
            TupleDesc {
                region_id: id,
                remote_addr: mr.addr,
                size: mr.size as u64,
                rkey: mr.rkey,
            },
        ),
        None => None,
    }
}

/// What is served for a group has each region's tuple, and no other.
pub proof fn law_served_tuples_are_the_groups(shared: Shared, group: u32, n: nat, id: u32)
    requires
        n <= u32::MAX,
    ensures
        cache::last_tuple(shared.served(group, n), id) == if id < n {
            served_tuple(shared, id, group)
        } else {
            None
        },
    decreases n,
{
    if n > 0 {
        let front = shared.served(group, (n - 1) as nat);
        law_served_tuples_are_the_groups(shared, group, (n - 1) as nat, id);
        let last = (n - 1) as u32;
        if let Some(tuple) = served_tuple(shared, last, group) {
            assert(shared.served(group, n) == front.push(tuple));
            assert(front.push(tuple).drop_last() =~= front);
        }
    }
}

/// Once no registration is pending for a group, every region that has
/// bytes is served with its tuple: the region's captured address and
/// size.
pub proof fn law_every_region_is_served(shared: Shared, group: u32, id: u32)
    requires
        shared.wf(),
        shared.groups@.contains_key(group),
        !shared.is_pending(id, group),
        id < shared.catalog@.len(),
        shared.catalog@[id as int].size != 0,
    ensures
        cache::last_tuple(shared.served(group, shared.catalog@.len()), id) matches Some(tuple)
            && tuple.region_id == id && tuple.remote_addr == shared.catalog@[id as int].remote_addr
            && tuple.size == shared.catalog@[id as int].size,
{
    assert(shared.is_grounded(id, group));
    law_served_tuples_are_the_groups(shared, group, shared.catalog@.len(), id);
}

/// What a registration gave: its handle, which is zero if it failed, and
/// behind it the local and the remote key.
pub type Registered = (Handle, u32, u32);

/// Whether a pass from `cursor` on asks for the regions `asked`, one
/// after the other, and is then over: each is given `replies`, which
/// takes the provider through `states`.
pub open spec fn is_pass(
    cursor: Registrations,
    states: Seq<Shared>,
    asked: Seq<u32>,
    replies: Seq<Registered>,
) -> bool
    decreases asked.len(),
{
    &&& states.len() == asked.len() + 1
    &&& replies.len() == asked.len()
    &&& if asked.len() == 0 {
        cursor.asks(states[0], None)
    } else {
        let (mr, lkey, rkey) = replies[0];
        &&& cursor.asks(states[0], Some(asked[0]))
        &&& Shared::takes(states[0], states[1], asked[0], cursor.group, mr, lkey, rkey)
        &&& is_pass(
            cursor.past(asked[0]),
            states.drop_first(),
            asked.drop_first(),
            replies.drop_first(),
        )
    }
}

/// What a reply leaves of a region's tuple.
pub open spec fn registered_by(
    before: Shared,
    id: u32,
    group: u32,
    reply: Registered,
) -> Option<MemoryRegion> {
    if reply.0 == 0 {
        None
    } else {
        Some(before.registration(id, group).region(reply.0, reply.1, reply.2))
    }
}

/// A pass asks once for each region whose tuple is to be created, and
/// for no other; each gets the tuple its own registration gave, so that
/// one that fails keeps no other from being served. All other tuples
/// stay as they are.
pub proof fn law_each_pending_region_is_asked_for_once(
    cursor: Registrations,
    states: Seq<Shared>,
    asked: Seq<u32>,
    replies: Seq<Registered>,
)
    requires
        is_pass(cursor, states, asked, replies),
        states[0].catalog@.len() <= u32::MAX,
    ensures
        asked.no_duplicates(),
        forall|id: u32| #[trigger]
            asked.contains(id) <==> cursor.from <= id && states[0].is_pending(id, cursor.group),
        states.last().catalog == states[0].catalog,
        states.last().groups == states[0].groups,
        forall|k: int|
            0 <= k < asked.len() ==> states.last().registered(#[trigger] asked[k], cursor.group)
                == registered_by(states[0], asked[k], cursor.group, replies[k]),
        forall|id: u32, group: u32|
            group != cursor.group || !asked.contains(id) ==> #[trigger] states.last().registered(
                id,
                group,
            ) == states[0].registered(id, group),
    decreases asked.len(),
{
    let group = cursor.group;
    if asked.len() > 0 {
        let id = asked[0];
        let (mr, lkey, rkey) = replies[0];
        let rest = asked.drop_first();
        let later = states.drop_first();
        law_each_pending_region_is_asked_for_once(
            cursor.past(id),
            later,
            rest,
            replies.drop_first(),
        );
        assert forall|i: u32, g: u32| i != id || g != group implies #[trigger] later[0].registered(
            i,
            g,
        ) == states[0].registered(i, g) by {
            shared::lemma_pair_injective(i, g, id, group);
        }
        assert forall|i: u32| i != id implies #[trigger] later[0].is_pending(i, group)
            == states[0].is_pending(i, group) by {
            assert(later[0].registered(i, group) == states[0].registered(i, group));
        }
        assert(later.last() == states.last());
        assert forall|i: u32| #[trigger] asked.contains(i) <==> i == id || rest.contains(i) by {
            if rest.contains(i) {
                let k = choose|k: int| 0 <= k < rest.len() && rest[k] == i;
                assert(asked[k + 1] == i);
            }
            if asked.contains(i) && i != id {
                let k = choose|k: int| 0 <= k < asked.len() && asked[k] == i;
                assert(rest[k - 1] == i);
            }
        }
        assert(!rest.contains(id));
        assert forall|i: int, j: int| 0 <= i < j < asked.len() implies asked[i] != asked[j] by {
            assert(rest[j - 1] == asked[j]);
            if i > 0 {
                assert(rest[i - 1] == asked[i]);
            }
        }
        assert forall|k: int| 0 <= k < asked.len() implies states.last().registered(
            #[trigger] asked[k],
            group,
        ) == registered_by(states[0], asked[k], group, replies[k]) by {
            if k > 0 {
                assert(rest[k - 1] == asked[k]);
                assert(replies.drop_first()[k - 1] == replies[k]);
            } else {
                assert(states.last().registered(id, group) == later[0].registered(id, group));
            }
        }
        assert forall|i: u32, g: u32|
            g != group || !asked.contains(i) implies #[trigger] states.last().registered(i, g)
            == states[0].registered(i, g) by {
            assert(later[0].registered(i, g) == states[0].registered(i, g));
        }
    }
}

} // verus!
