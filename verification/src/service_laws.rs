//! What the provider's side gives, said of the calls themselves: what
//! registering shares, what a request for a tuple finds, what is served,
//! and how a session goes from step to step.

use vstd::prelude::*;

use crate::access_laws;
use crate::error::{Error, Expected};
use crate::meta;
use crate::meta::{Message, RegionDesc, TupleDesc};
use crate::pod::RemoteSafe;
use crate::providers::{
    Endpoints, SharedMemoryRegionHandle, SharedMemoryRegionMetadata, SharedMemoryRegionProvider,
};
use crate::rdma::calls::Handle;
use crate::rdma::listener::Listener;
use crate::rdma::setup::{Role, Setup, Step};
use crate::rdma::verbs::{address_of_vec, Connection, MemoryRegion, Registration};
use crate::sessions::{Session, SessionCall, SessionReply, SessionStep};
use crate::shared;
use crate::shared::{Registrations, Shared, SharedTuple};

verus! {

/// Registering a `Vec`, of whatever length, shares that very buffer: the
/// handle holds the `Vec` that was moved in, and the catalog's new last
/// entry has its address, its size in bytes and its elements' layout.
/// The id is the entry's position, and nothing else changes.
pub proof fn law_registered_buffers_are_shared_in_place<T: RemoteSafe>(
    provider: &mut SharedMemoryRegionProvider,
    name: &str,
    buffer: Vec<T>,
    handle: SharedMemoryRegionHandle<T>,
    id: u32,
    borrowed: &[T],
)
    requires
        call_ensures(
            SharedMemoryRegionProvider::register_typed::<T>,
            (provider, name, buffer),
            handle,
        ),
        call_ensures(SharedMemoryRegionHandle::<T>::id, (&handle,), id),
        call_ensures(SharedMemoryRegionHandle::<T>::borrow, (&handle,), borrowed),
        vstd::layout::size_of::<T>() <= usize::MAX,
        vstd::layout::align_of::<T>() <= usize::MAX,
    ensures
        handle.held() == buffer,
        borrowed@ == buffer@,
        id == old(provider).shared.catalog@.len(),
        final(provider).shared.catalog@.len() == id + 1,
        forall|i: int|
            0 <= i < id ==> #[trigger] final(provider).shared.catalog@[i]
                == old(provider).shared.catalog@[i],
        ({
            let info = final(provider).shared.catalog@[id as int];
            &&& info.name@ == name@
            &&& call_ensures(address_of_vec::<T>, (&buffer,), info.remote_addr)
            &&& info.size == buffer@.len() * vstd::layout::size_of::<T>()
            &&& info.elem_size == vstd::layout::size_of::<T>() % 0x1_0000_0000
            &&& info.elem_align == vstd::layout::align_of::<T>() % 0x1_0000_0000
            &&& call_ensures(T::elem_type, (), info.elem_type)
        }),
        final(provider).shared.groups == old(provider).shared.groups,
        final(provider).shared.tuples == old(provider).shared.tuples,
        final(provider).addr == old(provider).addr,
        final(provider).serving == old(provider).serving,
{
    access_laws::lemma_layout_words::<T>();
    let before = old(provider).shared.catalog@;
    let after = final(provider).shared.catalog@;
    assert forall|i: int| 0 <= i < before.len() implies #[trigger] after[i] == before[i] by {
        assert(after.drop_last()[i] == before[i]);
    }
}

/// Registering bytes is registering a `Vec` of single bytes, as
/// [`law_registered_buffers_are_shared_in_place`] says.
pub proof fn law_registered_bytes_are_shared_in_place(
    provider: &mut SharedMemoryRegionProvider,
    metadata: SharedMemoryRegionMetadata,
    handle: SharedMemoryRegionHandle,
    id: u32,
)
    requires
        call_ensures(SharedMemoryRegionProvider::register, (provider, metadata), handle),
        call_ensures(SharedMemoryRegionHandle::<u8>::id, (&handle,), id),
        vstd::layout::align_of::<u8>() <= usize::MAX,
    ensures
        handle.held() == metadata.buffer,
        id == old(provider).shared.catalog@.len(),
        final(provider).shared.catalog@.len() == id + 1,
        forall|i: int|
            0 <= i < id ==> #[trigger] final(provider).shared.catalog@[i]
                == old(provider).shared.catalog@[i],
        ({
            let info = final(provider).shared.catalog@[id as int];
            &&& info.name@ == metadata.name@
            &&& call_ensures(address_of_vec::<u8>, (&metadata.buffer,), info.remote_addr)
            &&& info.size == metadata.buffer@.len()
            &&& info.elem_size == 1
            &&& info.elem_align == vstd::layout::align_of::<u8>() % 0x1_0000_0000
            &&& info.elem_type@ == "u8"@
        }),
        final(provider).shared.groups == old(provider).shared.groups,
        final(provider).shared.tuples == old(provider).shared.tuples,
        final(provider).addr == old(provider).addr,
        final(provider).serving == old(provider).serving,
{
    broadcast use vstd::layout::layout_of_primitives;

    assert(vstd::layout::size_of::<u8>() == 1);
    access_laws::lemma_layout_words::<u8>();
    let before = old(provider).shared.catalog@;
    let after = final(provider).shared.catalog@;
    assert forall|i: int| 0 <= i < before.len() implies #[trigger] after[i] == before[i] by {
        assert(after.drop_last()[i] == before[i]);
    }
}

/// Cataloging elements at an address adds one entry with that address,
/// the elements' size in bytes and their layout, and changes nothing
/// else.
pub proof fn law_regions_are_cataloged_at_their_address<T: RemoteSafe>(
    provider: &mut SharedMemoryRegionProvider,
    name: &str,
    len: usize,
    remote_addr: u64,
    id: u32,
)
    requires
        call_ensures(
            SharedMemoryRegionProvider::register_at::<T>,
            (provider, name, len, remote_addr),
            id,
        ),
        vstd::layout::size_of::<T>() <= usize::MAX,
        vstd::layout::align_of::<T>() <= usize::MAX,
    ensures
        id == old(provider).shared.catalog@.len(),
        final(provider).shared.catalog@.len() == id + 1,
        forall|i: int|
            0 <= i < id ==> #[trigger] final(provider).shared.catalog@[i]
                == old(provider).shared.catalog@[i],
        ({
            let info = final(provider).shared.catalog@[id as int];
            &&& info.name@ == name@
            &&& info.remote_addr == remote_addr
            &&& info.size == len * vstd::layout::size_of::<T>()
            &&& info.elem_size == vstd::layout::size_of::<T>() % 0x1_0000_0000
            &&& info.elem_align == vstd::layout::align_of::<T>() % 0x1_0000_0000
            &&& call_ensures(T::elem_type, (), info.elem_type)
        }),
        final(provider).shared.groups == old(provider).shared.groups,
        final(provider).shared.tuples == old(provider).shared.tuples,
        final(provider).addr == old(provider).addr,
        final(provider).serving == old(provider).serving,
{
    access_laws::lemma_layout_words::<T>();
}

/// What is written through a handle is what the handle's next borrow
/// shows, and the buffer keeps its length and the handle its id.
pub proof fn law_borrows_show_what_was_written<T: RemoteSafe>(
    handle: &mut SharedMemoryRegionHandle<T>,
    slice: &mut [T],
    later: &[T],
    id: u32,
    later_id: u32,
)
    requires
        call_ensures(SharedMemoryRegionHandle::<T>::borrow_mut, (handle,), slice),
        call_ensures(SharedMemoryRegionHandle::<T>::borrow, (&*final(handle),), later),
        call_ensures(SharedMemoryRegionHandle::<T>::id, (&*old(handle),), id),
        call_ensures(SharedMemoryRegionHandle::<T>::id, (&*final(handle),), later_id),
    ensures
        later@ == final(slice)@,
        old(slice)@ == old(handle).held()@,
        later@.len() == old(slice)@.len(),
        later_id == id,
{
}

/// Whatever is written through a handle, its buffer stays at the address
/// that the catalog has: readers and the handle keep to the same memory.
pub proof fn law_written_buffers_stay_in_place<T: RemoteSafe>(
    provider: &mut SharedMemoryRegionProvider,
    name: &str,
    buffer: Vec<T>,
    handle: &mut SharedMemoryRegionHandle<T>,
    slice: &mut [T],
)
    requires
        call_ensures(
            SharedMemoryRegionProvider::register_typed::<T>,
            (provider, name, buffer),
            *old(handle),
        ),
        call_ensures(SharedMemoryRegionHandle::<T>::borrow_mut, (handle,), slice),
    ensures
        call_ensures(
            address_of_vec::<T>,
            (&final(handle).held(),),
            final(provider).shared.catalog@.last().remote_addr,
        ),
        final(handle).held()@ == final(slice)@,
        final(handle).held()@.len() == buffer@.len(),
{
}

/// A request for a region's tuple finds the tuple of that region and
/// group, if there is one; otherwise nothing for an unknown region or
/// group, an error for a region without bytes, and for every other the
/// registration of the region's buffer in the group's domain, open to
/// reads, writes and atomic operations (which the device writes as 15).
pub proof fn law_requests_find_their_tuple(
    provider: &SharedMemoryRegionProvider,
    id: u32,
    group: u32,
    result: Result<Option<SharedTuple>, Error>,
)
    requires
        call_ensures(SharedMemoryRegionProvider::get_shared_mr, (provider, id, group), result),
    ensures
        ({
            let key = (id * 0x1_0000_0000 + group) as u64;
            let tuples = provider.shared.tuples@;
            let groups = provider.shared.groups@;
            let catalog = provider.shared.catalog@;
            if tuples.contains_key(key) {
                result == Ok::<Option<SharedTuple>, Error>(
                    Some(SharedTuple::Ready(tuples[key].addr, tuples[key].size, tuples[key].rkey)),
                )
            } else if !groups.contains_key(group) || id >= catalog.len() {
                result == Ok::<Option<SharedTuple>, Error>(None)
            } else if catalog[id as int].size == 0 {
                result == Err::<Option<SharedTuple>, Error>(Error::EmptyRegistration)
            } else {
                result matches Ok(Some(SharedTuple::Pending(registration))) && registration.pd
                    == groups[group].pd.pd && registration.addr == catalog[id as int].remote_addr
                    && registration.length == catalog[id as int].size && registration.access == 15
            }
        }),
{
}

/// Once a registration is made its tuple, with the region's address and
/// size and the key that the registration gave, is what requests find;
/// what they find of other regions and groups does not change. A
/// registration that failed changes nothing.
pub proof fn law_registrations_become_tuples(
    shared: &mut Shared,
    id: u32,
    group: u32,
    registration: Registration,
    mr: Handle,
    lkey: u32,
    rkey: u32,
    result: Result<(u64, usize, u32), Error>,
    any_id: u32,
    any_group: u32,
    was: Result<Option<SharedTuple>, Error>,
    found: Result<Option<SharedTuple>, Error>,
)
    requires
        call_ensures(Shared::tuple_of, (&*old(shared), id, group), Ok(
            Some(SharedTuple::Pending(registration)),
        )),
        call_ensures(
            Shared::tuple_registered,
            (shared, id, group, registration, mr, lkey, rkey),
            result,
        ),
        call_ensures(Shared::tuple_of, (&*old(shared), any_id, any_group), was),
        call_ensures(Shared::tuple_of, (&*final(shared), any_id, any_group), found),
    ensures
        final(shared).catalog == old(shared).catalog,
        final(shared).groups == old(shared).groups,
        mr == 0 ==> {
            &&& result matches Err(Error::CallFailed { call, code, .. })
            &&& call@ == "ibv_reg_mr"@
            &&& code is None
            &&& found == was
        },
        mr != 0 ==> {
            let info = old(shared).catalog@[id as int];
            &&& result == Ok::<(u64, usize, u32), Error>((info.remote_addr, info.size, rkey))
            &&& any_id == id && any_group == group ==> found == Ok::<
                Option<SharedTuple>,
                Error,
            >(Some(SharedTuple::Ready(info.remote_addr, info.size, rkey)))
            &&& any_id != id || any_group != group ==> found == was
        },
{
    shared::lemma_pair_injective(any_id, any_group, id, group);
}

/// A pass over the catalog names the first region, from its cursor on,
/// that has bytes and no tuple for the group, if the group exists; and
/// it is through a region whatever its registration gave.
pub proof fn law_passes_name_the_first_missing_tuple(
    pass: &mut Registrations,
    shared: &mut Shared,
    next: Option<(u32, Registration)>,
    mr: Handle,
    lkey: u32,
    rkey: u32,
    result: Result<(u64, usize, u32), Error>,
)
    requires
        call_ensures(Registrations::next, (&*old(pass), &*old(shared)), next),
        next matches Some((id, registration)) ==> call_ensures(
            Registrations::absorb,
            (pass, shared, id, registration, mr, lkey, rkey),
            result,
        ),
        old(shared).catalog@.len() <= u32::MAX,
    ensures
        ({
            let from = old(pass).from;
            let group = old(pass).group;
            let catalog = old(shared).catalog@;
            let tuples = old(shared).tuples@;
            let groups = old(shared).groups@;
            match next {
                Some((id, registration)) => {
                    &&& from <= id < catalog.len()
                    &&& groups.contains_key(group)
                    &&& catalog[id as int].size != 0
                    &&& !tuples.contains_key((id * 0x1_0000_0000 + group) as u64)
                    &&& forall|i: u32|
                        from <= i < id && (#[trigger] catalog[i as int]).size != 0
                            ==> tuples.contains_key((i * 0x1_0000_0000 + group) as u64)
                    &&& registration.pd == groups[group].pd.pd
                    &&& registration.addr == catalog[id as int].remote_addr
                    &&& registration.length == catalog[id as int].size
                    &&& registration.access == 15
                    &&& final(pass).group == group
                    &&& final(pass).from == id + 1
                    &&& result is Ok <==> mr != 0
                    &&& mr == 0 ==> final(shared).tuples@ == tuples
                    &&& mr != 0 ==> final(shared).tuples@ == tuples.insert(
                        (id * 0x1_0000_0000 + group) as u64,
                        MemoryRegion {
                            mr,
                            pd: groups[group].pd.pd,
                            addr: catalog[id as int].remote_addr,
                            size: catalog[id as int].size,
                            lkey,
                            rkey,
                        },
                    )
                    &&& final(shared).catalog == old(shared).catalog
                    &&& final(shared).groups == old(shared).groups
                },
                None => !groups.contains_key(group) || forall|i: u32|
                    from <= i < catalog.len() && (#[trigger] catalog[i as int]).size != 0
                        ==> tuples.contains_key((i * 0x1_0000_0000 + group) as u64),
            }
        }),
{
    let from = old(pass).from;
    let group = old(pass).group;
    let catalog = old(shared).catalog@;
    let tuples = old(shared).tuples@;
    match next {
        Some((id, _)) => {
            assert forall|i: u32|
                from <= i < id && (#[trigger] catalog[i as int]).size
                    != 0 implies tuples.contains_key((i * 0x1_0000_0000 + group) as u64) by {
                assert(!old(shared).is_pending(i, group));
            }
        },
        None => {
            if old(shared).groups@.contains_key(group) {
                assert forall|i: u32|
                    from <= i < catalog.len() && (#[trigger] catalog[i as int]).size
                        != 0 implies tuples.contains_key((i * 0x1_0000_0000 + group) as u64) by {
                    assert(!old(shared).is_pending(i, group));
                }
            }
        },
    }
}

/// The tuples served for the first `n` regions, by their positions.
proof fn lemma_served(shared: Shared, group: u32, n: nat)
    requires
        n <= u32::MAX,
    ensures
        forall|i: int|
            0 <= i < shared.served(group, n).len() ==> {
                let tuple = #[trigger] shared.served(group, n)[i];
                &&& tuple.region_id < n
                &&& shared.tuples@.contains_key(shared::pair(tuple.region_id, group))
                &&& tuple.remote_addr == shared.tuples@[shared::pair(
                    tuple.region_id,
                    group,
                )].addr
                &&& tuple.size == shared.tuples@[shared::pair(tuple.region_id, group)].size
                &&& tuple.rkey == shared.tuples@[shared::pair(tuple.region_id, group)].rkey
            },
        forall|i: int, j: int|
            0 <= i < j < shared.served(group, n).len() ==> (
            #[trigger] shared.served(group, n)[i]).region_id < (
            #[trigger] shared.served(group, n)[j]).region_id,
        forall|id: u32|
            id < n && #[trigger] shared.tuples@.contains_key(shared::pair(id, group))
                ==> exists|i: int|
                0 <= i < shared.served(group, n).len() && (
                #[trigger] shared.served(group, n)[i]).region_id == id,
    decreases n,
{
    if n > 0 {
        let m = (n - 1) as nat;
        let last = m as u32;
        let front = shared.served(group, m);
        let all = shared.served(group, n);
        lemma_served(shared, group, m);
        assert forall|i: int| 0 <= i < front.len() implies #[trigger] all[i] == front[i] by {}
        assert forall|id: u32|
            id < n && #[trigger] shared.tuples@.contains_key(
                shared::pair(id, group),
            ) implies exists|i: int| 0 <= i < all.len() && (#[trigger] all[i]).region_id == id by {
            if id < m {
                let i = choose|i: int| 0 <= i < front.len() && (#[trigger] front[i]).region_id
                    == id;
                assert(all[i].region_id == id);
            } else {
                assert(all[all.len() - 1].region_id == id);
            }
        }
        assert forall|i: int, j: int| 0 <= i < j < all.len() implies (
        #[trigger] all[i]).region_id < (#[trigger] all[j]).region_id by {
            if j < front.len() {
                assert(front[i].region_id < front[j].region_id);
            } else {
                assert(front[i].region_id < m);
            }
        }
    }
}

/// What is served for a group is the whole catalog, region by region
/// under its id, and the tuple of every region that has one for the
/// group, once, and no other.
pub proof fn law_everything_is_served(
    shared: &Shared,
    group: u32,
    descs: Vec<RegionDesc>,
    served: u32,
    tuples: Vec<TupleDesc>,
)
    requires
        call_ensures(
            Shared::catalog_and_tuples,
            (shared, group),
            (Message::Metadata { regions: descs }, Message::Tuples { group: served, tuples }),
        ),
        shared.catalog@.len() <= u32::MAX,
    ensures
        served == group,
        descs@.len() == shared.catalog@.len(),
        forall|i: int|
            0 <= i < descs@.len() ==> {
                &&& (#[trigger] descs@[i]).id == i
                &&& descs@[i].name@ == shared.catalog@[i].name@
                &&& descs@[i].size == shared.catalog@[i].size
                &&& descs@[i].elem_size == shared.catalog@[i].elem_size
                &&& descs@[i].elem_align == shared.catalog@[i].elem_align
                &&& descs@[i].elem_type@ == shared.catalog@[i].elem_type@
            },
        forall|i: int|
            0 <= i < tuples@.len() ==> {
                let tuple = #[trigger] tuples@[i];
                let key = (tuple.region_id * 0x1_0000_0000 + group) as u64;
                &&& tuple.region_id < shared.catalog@.len()
                &&& shared.tuples@.contains_key(key)
                &&& tuple.remote_addr == shared.tuples@[key].addr
                &&& tuple.size == shared.tuples@[key].size
                &&& tuple.rkey == shared.tuples@[key].rkey
            },
        forall|i: int, j: int|
            0 <= i < j < tuples@.len() ==> (#[trigger] tuples@[i]).region_id != (
            #[trigger] tuples@[j]).region_id,
        forall|id: u32|
            id < shared.catalog@.len() && shared.tuples@.contains_key(
                #[trigger] ((id * 0x1_0000_0000 + group) as u64),
            ) ==> exists|i: int| 0 <= i < tuples@.len() && (#[trigger] tuples@[i]).region_id == id,
{
    let n = shared.catalog@.len();
    lemma_served(*shared, group, n);
    assert(tuples@ == shared.served(group, n));
    let views = meta::descs_view(descs@);
    assert(views.len() == descs@.len());
    assert forall|i: int| 0 <= i < descs@.len() implies {
        &&& (#[trigger] descs@[i]).id == i
        &&& descs@[i].name@ == shared.catalog@[i].name@
        &&& descs@[i].size == shared.catalog@[i].size
        &&& descs@[i].elem_size == shared.catalog@[i].elem_size
        &&& descs@[i].elem_align == shared.catalog@[i].elem_align
        &&& descs@[i].elem_type@ == shared.catalog@[i].elem_type@
    } by {
        assert(views[i] == descs@[i]@);
        assert(views[i] == shared.advertised()[i]);
    }
    assert forall|id: u32|
        id < n && shared.tuples@.contains_key(
            #[trigger] ((id * 0x1_0000_0000 + group) as u64),
        ) implies exists|i: int| 0 <= i < tuples@.len() && (#[trigger] tuples@[i]).region_id
        == id by {
        assert(shared.tuples@.contains_key(shared::pair(id, group)));
    }
}

/// A reader joins a group with its connection: the group keeps its
/// domain and its connections, and has the new one behind them; a new
/// group takes the connection's domain for its own. The other groups,
/// the catalog and the tuples stay.
pub proof fn law_readers_join_their_group(shared: &mut Shared, group: u32, connection: Connection)
    requires
        call_ensures(Shared::join, (shared, group, connection), ()),
    ensures
        final(shared).groups@.contains_key(group),
        old(shared).groups@.contains_key(group) ==> {
            let was = old(shared).groups@[group];
            let now = final(shared).groups@[group];
            &&& now.pd == was.pd
            &&& now.connections@.len() == was.connections@.len() + 1
            &&& forall|i: int|
                0 <= i < was.connections@.len() ==> #[trigger] now.connections@[i]
                    == was.connections@[i]
            &&& now.connections@[was.connections@.len() as int] == connection
        },
        !old(shared).groups@.contains_key(group) ==> {
            let now = final(shared).groups@[group];
            &&& Some(now.pd) == connection.pd || connection.pd is None
            &&& now.connections@.len() == 1
            &&& now.connections@[0] == connection
        },
        forall|g: u32|
            g != group ==> (#[trigger] final(shared).groups@.contains_key(g))
                == old(shared).groups@.contains_key(g),
        forall|g: u32|
            g != group && old(shared).groups@.contains_key(g)
                ==> #[trigger] final(shared).groups@[g] == old(shared).groups@[g],
        final(shared).catalog == old(shared).catalog,
        final(shared).tuples == old(shared).tuples,
{
    assert forall|g: u32| g != group implies (#[trigger] final(shared).groups@.contains_key(g))
        == old(shared).groups@.contains_key(g) by {
        assert(final(shared).groups@.dom().contains(g) == old(shared).groups@.dom().insert(
            group,
        ).contains(g));
    }
    assert(final(shared).groups@.dom().contains(group));
}

/// A reader's rendezvous is accepted on the listener's channel, into the
/// group's domain if the group has one and into a domain of its own
/// otherwise.
pub proof fn law_rendezvous_are_in_the_groups_domain(
    shared: &Shared,
    listener: &Listener,
    group: u32,
    setup: Setup,
)
    requires
        call_ensures(Shared::rendezvous, (shared, listener, group), setup),
    ensures
        setup.role == Role::Accept,
        setup.step == Step::AwaitRequest,
        setup.events == listener.event_channel,
        setup.domain == if shared.groups@.contains_key(group) {
            Some(shared.groups@[group].pd)
        } else {
            None
        },
        setup.connection == (Connection {
            id: 0,
            cq: 0,
            pd: None,
            event_channel: 0,
            next_wr_id: 0,
        }),
{
}

/// A provider is served once, at its own ports, on every interface.
pub proof fn law_providers_are_served_once(
    provider: &mut SharedMemoryRegionProvider,
    first: Result<Endpoints, Error>,
    again: Result<Endpoints, Error>,
)
    requires
        call_ensures(SharedMemoryRegionProvider::serve, (&*old(provider),), first),
        call_ensures(SharedMemoryRegionProvider::bound, (provider,), ()),
        call_ensures(SharedMemoryRegionProvider::serve, (&*final(provider),), again),
    ensures
        again == Err::<Endpoints, Error>(Error::AlreadyServing),
        old(provider).serving ==> first == Err::<Endpoints, Error>(Error::AlreadyServing),
        !old(provider).serving ==> {
            &&& first matches Ok(endpoints)
            &&& endpoints.tcp.port == old(provider).addr.tcp_port
            &&& endpoints.rdma.port == old(provider).addr.rdma_port
            &&& endpoints.tcp.ip@ == seq![0u8, 0u8, 0u8, 0u8]
            &&& endpoints.rdma.ip@ == seq![0u8, 0u8, 0u8, 0u8]
        },
        final(provider).addr == old(provider).addr,
        final(provider).shared == old(provider).shared,
{
}

/// Closing a provider gives every tuple up, and keeps the regions and
/// the groups.
pub proof fn law_closed_providers_have_no_tuples(
    provider: &mut SharedMemoryRegionProvider,
    id: u32,
    group: u32,
    found: Result<Option<SharedTuple>, Error>,
)
    requires
        call_ensures(SharedMemoryRegionProvider::close, (provider,), ()),
        call_ensures(
            SharedMemoryRegionProvider::get_shared_mr,
            (&*final(provider), id, group),
            found,
        ),
    ensures
        !(found matches Ok(Some(SharedTuple::Ready(_, _, _)))),
        final(provider).shared.tuples@ == Map::<u64, MemoryRegion>::empty(),
        final(provider).shared.catalog == old(provider).shared.catalog,
        final(provider).shared.groups == old(provider).shared.groups,
        final(provider).addr == old(provider).addr,
        !final(provider).serving,
{
}

/// What each step of a session does.
pub proof fn law_session_steps_do_their_calls(session: &Session, call: Option<SessionCall>)
    requires
        call_ensures(Session::next, (session,), call),
    ensures
        match session.step {
            SessionStep::AwaitGreeting => call == Some(SessionCall::Receive),
            SessionStep::Welcome { version } => call matches Some(SessionCall::Send { message })
                && message == (Message::Welcome { version }),
            SessionStep::AwaitGroup => call == Some(SessionCall::Receive),
            SessionStep::Rendezvous { group } => call == Some(SessionCall::Accept { group }),
            SessionStep::Serve { group } => call == Some(SessionCall::Serve { group }),
            SessionStep::AwaitUpdate { .. } => call == Some(SessionCall::Receive),
            SessionStep::Ended => call is None,
        },
{
}

/// Where each step of a session leads, and when it fails: a greeting of
/// version 1 is answered, a group join is followed by the rendezvous of
/// that group, and the group is then served, and served again as often
/// as it is asked for. Only the rendezvous changes the provider's state.
pub proof fn law_session_steps_lead_on(
    session: &mut Session,
    shared: &mut Shared,
    reply: SessionReply,
    result: Result<(), Error>,
)
    requires
        call_ensures(Session::advance, (session, shared, reply), result),
    ensures
        final(shared).catalog == old(shared).catalog,
        final(shared).tuples == old(shared).tuples,
        !(old(session).step is Rendezvous) ==> *final(shared) == *old(shared),
        result is Err ==> final(session).step == SessionStep::Ended,
        match old(session).step {
            SessionStep::AwaitGreeting => match reply {
                SessionReply::Received { message: Message::Hello { version } } => if version == 1 {
                    result is Ok && final(session).step == (SessionStep::Welcome { version: 1 })
                } else {
                    result == Err::<(), Error>(Error::ReaderVersion { version })
                },
                SessionReply::Received { message } => result == Err::<(), Error>(
                    Error::UnexpectedMessage { expected: Expected::Greeting, got: message },
                ),
                _ => true,
            },
            SessionStep::Welcome { .. } => result is Ok && final(session).step
                == SessionStep::AwaitGroup,
            SessionStep::AwaitGroup => match reply {
                SessionReply::Received { message: Message::WantGroup { group } } => result is Ok
                    && final(session).step == (SessionStep::Rendezvous { group }),
                SessionReply::Received { message } => result == Err::<(), Error>(
                    Error::UnexpectedMessage { expected: Expected::GroupJoin, got: message },
                ),
                _ => true,
            },
            SessionStep::Rendezvous { group } => reply matches SessionReply::Accepted { connection }
                ==> {
                &&& result is Ok
                &&& final(session).step == (SessionStep::Serve { group })
                &&& final(shared).groups@.contains_key(group)
                &&& final(shared).groups@[group].connections@.last() == connection
                &&& old(shared).groups@.contains_key(group) ==> {
                    &&& final(shared).groups@[group].pd == old(shared).groups@[group].pd
                    &&& final(shared).groups@[group].connections@
                        == old(shared).groups@[group].connections@.push(connection)
                }
                &&& !old(shared).groups@.contains_key(group) ==> {
                    &&& final(shared).groups@[group].pd == connection.pd->0
                    &&& final(shared).groups@[group].connections@.len() == 1
                }
                &&& forall|g: u32|
                    g != group && old(shared).groups@.contains_key(g)
                        ==> #[trigger] final(shared).groups@[g] == old(shared).groups@[g]
            },
            SessionStep::Serve { group } => result is Ok && final(session).step == (
            SessionStep::AwaitUpdate { group }),
            SessionStep::AwaitUpdate { group } => reply matches SessionReply::Received { message }
                ==> {
                &&& result is Ok
                &&& final(session).step == if message == Message::Update {
                    SessionStep::Serve { group }
                } else {
                    SessionStep::Ended
                }
            },
            SessionStep::Ended => result is Ok && final(session).step == SessionStep::Ended,
        },
{
    if let SessionStep::Rendezvous { group } = old(session).step {
        assert(final(shared).groups@.dom().contains(group));
    }
}

} // verus!
