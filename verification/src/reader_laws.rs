//! What holds of a reader's cache across updates.

use vstd::prelude::*;

use crate::cache;
use crate::cache::{CachedRegionView, Key};
use crate::error::Access;
use crate::meta::{RegionDescView, TupleDesc};
use crate::rdma::calls::Handle;
use crate::rdma::verbs::Connection;
use crate::readers;
use crate::readers::{RemoteMemoryProvider, Update, UpdateReply};
use crate::regions::RemoteMemoryRegion;

verus! {

/// No cached tuple of other groups is of `group`.
proof fn lemma_others_are_others(cached: Seq<CachedRegionView>, group: u32)
    ensures
        forall|i: int|
            0 <= i < cache::of_other_groups(cached, group).len() ==> (
            #[trigger] cache::of_other_groups(cached, group)[i]).group != group,
    decreases cached.len(),
{
    if cached.len() > 0 {
        let front = cache::of_other_groups(cached.drop_last(), group);
        let all = cache::of_other_groups(cached, group);
        lemma_others_are_others(cached.drop_last(), group);
        assert forall|i: int| 0 <= i < all.len() implies (#[trigger] all[i]).group != group by {
            if i < front.len() {
                assert(all[i] == front[i]);
            }
        }
    }
}

/// Where no cached tuple is of `group`, none is left out.
proof fn lemma_nothing_left_out(cached: Seq<CachedRegionView>, group: u32)
    requires
        forall|i: int| 0 <= i < cached.len() ==> (#[trigger] cached[i]).group != group,
    ensures
        cache::of_other_groups(cached, group) == cached,
    decreases cached.len(),
{
    if cached.len() > 0 {
        let front = cached.drop_last();
        assert forall|i: int| 0 <= i < front.len() implies (#[trigger] front[i]).group != group by {
            assert(cached[i].group != group);
        }
        lemma_nothing_left_out(front, group);
        assert(cached[cached.len() - 1].group != group);
        assert(cache::of_other_groups(cached, group) =~= cached);
    } else {
        assert(cache::of_other_groups(cached, group) =~= cached);
    }
}

/// Searching past tuples of other groups.
proof fn lemma_first_behind(
    before: Seq<CachedRegionView>,
    cached: CachedRegionView,
    group: u32,
)
    requires
        forall|i: int| 0 <= i < before.len() ==> (#[trigger] before[i]).group != group,
        cached.group == group,
    ensures
        readers::first_cached(before.push(cached), Some(group)) == Some(cached),
    decreases before.len(),
{
    let all = before.push(cached);
    if before.len() > 0 {
        let rest = before.drop_first();
        assert forall|i: int| 0 <= i < rest.len() implies (#[trigger] rest[i]).group != group by {
            assert(before[i + 1].group != group);
        }
        lemma_first_behind(rest, cached, group);
        assert(all.drop_first() =~= rest.push(cached));
        assert(all[0] == before[0]);
    }
}

proof fn lemma_first_of_none(cached: Seq<CachedRegionView>, group: u32)
    requires
        forall|i: int| 0 <= i < cached.len() ==> (#[trigger] cached[i]).group != group,
    ensures
        readers::first_cached(cached, Some(group)) is None,
    decreases cached.len(),
{
    if cached.len() > 0 {
        let rest = cached.drop_first();
        assert forall|i: int| 0 <= i < rest.len() implies (#[trigger] rest[i]).group != group by {
            assert(cached[i + 1].group != group);
        }
        lemma_first_of_none(rest, group);
        assert(cached[0].group != group);
    }
}

/// The last region that a key tells is told by that key.
pub proof fn lemma_last_desc_is_of(catalog: Seq<RegionDescView>, key: Key)
    ensures
        cache::last_desc(catalog, key) matches Some(region) ==> cache::is_of(region, key),
    decreases catalog.len(),
{
    if catalog.len() > 0 {
        lemma_last_desc_is_of(catalog.drop_last(), key);
    }
}

/// After an update of `group` exactly the regions of the catalog are
/// known: those gone from the catalog are gone from the cache.
pub proof fn law_updates_leave_the_catalogs_regions(
    before: Map<Key, Seq<CachedRegionView>>,
    group: u32,
    catalog: Seq<RegionDescView>,
    tuples: Seq<TupleDesc>,
    key: Key,
)
    ensures
        cache::ingested(before, group, catalog, tuples).contains_key(key) <==> exists|i: int|
            0 <= i < catalog.len() && cache::is_of(#[trigger] catalog[i], key),
    decreases catalog.len(),
{
    if catalog.len() > 0 {
        let front = catalog.drop_last();
        law_updates_leave_the_catalogs_regions(before, group, front, tuples, key);
        if cache::is_of(catalog.last(), key) {
            assert(cache::is_of(catalog[catalog.len() - 1], key));
        } else {
            assert(cache::last_desc(catalog, key) == cache::last_desc(front, key));
            if exists|i: int| 0 <= i < front.len() && cache::is_of(#[trigger] front[i], key) {
                let i = choose|i: int|
                    0 <= i < front.len() && cache::is_of(#[trigger] front[i], key);
                assert(cache::is_of(catalog[i], key));
            }
            if exists|i: int| 0 <= i < catalog.len() && cache::is_of(#[trigger] catalog[i], key) {
                let i = choose|i: int|
                    0 <= i < catalog.len() && cache::is_of(#[trigger] catalog[i], key);
                assert(cache::is_of(front[i], key));
            }
        }
    }
}

/// After an update of `group`, looking a region of the catalog up for
/// the group finds the tuple that was served for it, with the layout
/// the catalog advertises; a region without a tuple is not found.
pub proof fn law_updated_regions_are_found(
    before: Map<Key, Seq<CachedRegionView>>,
    group: u32,
    catalog: Seq<RegionDescView>,
    tuples: Seq<TupleDesc>,
    key: Key,
)
    requires
        cache::last_desc(catalog, key) is Some,
    ensures
        ({
            let after = cache::ingested(before, group, catalog, tuples);
            let region = cache::last_desc(catalog, key)->0;
            readers::first_cached(cache::known(after, key), Some(group)) == match cache::last_tuple(
                tuples,
                key.1,
            ) {
                Some(tuple) => Some(cache::cached_tuple(region, tuple, group)),
                None => None,
            }
        }),
{
    lemma_last_desc_is_of(catalog, key);
    let region = cache::last_desc(catalog, key)->0;
    let others = cache::of_other_groups(cache::known(before, key), group);
    lemma_others_are_others(cache::known(before, key), group);
    match cache::last_tuple(tuples, key.1) {
        Some(tuple) => {
            lemma_first_behind(others, cache::cached_tuple(region, tuple, group), group);
        },
        None => {
            lemma_first_of_none(others, group);
        },
    }
}

/// An update of one group keeps what is cached for the others, as long
/// as their regions are in the catalog.
pub proof fn law_updates_keep_other_groups(
    before: Map<Key, Seq<CachedRegionView>>,
    group: u32,
    catalog: Seq<RegionDescView>,
    tuples: Seq<TupleDesc>,
    key: Key,
)
    requires
        cache::last_desc(catalog, key) is Some,
    ensures
        cache::of_other_groups(
            cache::known(cache::ingested(before, group, catalog, tuples), key),
            group,
        ) == cache::of_other_groups(cache::known(before, key), group),
{
    lemma_last_desc_is_of(catalog, key);
    let region = cache::last_desc(catalog, key)->0;
    let others = cache::of_other_groups(cache::known(before, key), group);
    lemma_others_are_others(cache::known(before, key), group);
    lemma_nothing_left_out(others, group);
    match cache::last_tuple(tuples, key.1) {
        Some(tuple) => {
            let cached = cache::cached_tuple(region, tuple, group);
            assert(others.push(cached).drop_last() =~= others);
        },
        None => {},
    }
}

/// An update that finds nothing new changes nothing: ingesting an
/// exchange twice is ingesting it once.
pub proof fn law_repeated_updates_change_nothing(
    before: Map<Key, Seq<CachedRegionView>>,
    group: u32,
    catalog: Seq<RegionDescView>,
    tuples: Seq<TupleDesc>,
)
    ensures
        cache::ingested(
            cache::ingested(before, group, catalog, tuples),
            group,
            catalog,
            tuples,
        ) == cache::ingested(before, group, catalog, tuples),
{
    let once = cache::ingested(before, group, catalog, tuples);
    let twice = cache::ingested(once, group, catalog, tuples);
    assert forall|key: Key| #[trigger] once.contains_key(key) implies twice[key] == once[key] by {
        lemma_last_desc_is_of(catalog, key);
        law_updates_keep_other_groups(before, group, catalog, tuples, key);
    }
    assert(twice =~= once);
}

/// An exchange that is refused drops its channel, whether the session
/// was fresh or not, so that the next update runs a fresh session; the
/// RDMA connection stays, and so do the sessions of other groups.
pub proof fn law_failed_exchanges_lead_to_fresh_sessions(
    before: RemoteMemoryProvider,
    after: RemoteMemoryProvider,
    update: Update,
    reply: UpdateReply,
)
    requires
        update.step is AwaitTuples,
        before.refusal(update, reply) is Some,
        after.sessions@ == before.sessions_after(update, reply),
    ensures
        !after.session(update.group).channel,
        after.session(update.group).connection == before.session(update.group).connection,
        forall|group: u32|
            group != update.group ==> #[trigger] after.session(group) == before.session(group),
{
}

/// An exchange that is taken leaves its channel open, so that the next
/// update re-requests over it.
pub proof fn law_taken_exchanges_keep_the_channel(
    before: RemoteMemoryProvider,
    after: RemoteMemoryProvider,
    update: Update,
    reply: UpdateReply,
)
    requires
        update.step is AwaitTuples,
        before.refusal(update, reply) is None,
        after.sessions@ == before.sessions_after(update, reply),
    ensures
        after.session(update.group).channel,
        after.session(update.group).connection == before.session(update.group).connection,
{
}

/// A region that was handed out goes through the connection of a later
/// session of its group: behind the rendezvous that gave `connection`,
/// an access to it is planned in that connection's domain, and the
/// connection takes it.
pub proof fn law_regions_follow_their_group(
    before: RemoteMemoryProvider,
    after: RemoteMemoryProvider,
    update: Update,
    connection: Connection,
    region: RemoteMemoryRegion,
    access: Access,
    local: u64,
    offset: u64,
    size: usize,
    mr: Handle,
    lkey: u32,
    rkey: u32,
)
    requires
        update.step is Rendezvous,
        region.group == update.group,
        connection.pd is Some,
        after.sessions@ == before.sessions_after(update, UpdateReply::Connected { connection }),
        0 < size,
        !region.exceeded_by(offset, size as int),
    ensures
        ({
            let slot = region.slot_in(after);
            let plan = region.plan(slot, access, local, offset, size);
            &&& slot.connection == Some(connection)
            &&& region.byte_refusal(slot, access, offset, size) is None
            &&& plan.registration.pd == connection.pd->0.pd
            &&& connection.refusal(access, plan.registration.region(mr, lkey, rkey), size) is None
        }),
{
}

/// At most one tuple per group is cached for each region.
pub open spec fn one_per_group(cached: Seq<CachedRegionView>) -> bool {
    forall|i: int, j: int|
        0 <= i < j < cached.len() ==> (#[trigger] cached[i]).group != (#[trigger] cached[j]).group
}

proof fn lemma_others_keep_one_per_group(cached: Seq<CachedRegionView>, group: u32)
    requires
        one_per_group(cached),
    ensures
        one_per_group(cache::of_other_groups(cached, group)),
        forall|i: int|
            0 <= i < cache::of_other_groups(cached, group).len() ==> cached.contains(
                #[trigger] cache::of_other_groups(cached, group)[i],
            ),
    decreases cached.len(),
{
    if cached.len() > 0 {
        let front = cached.drop_last();
        let others = cache::of_other_groups(front, group);
        assert(one_per_group(front)) by {
            assert forall|i: int, j: int| 0 <= i < j < front.len() implies (
            #[trigger] front[i]).group != (#[trigger] front[j]).group by {
                assert(cached[i].group != cached[j].group);
            }
        }
        lemma_others_keep_one_per_group(front, group);
        let all = cache::of_other_groups(cached, group);
        assert forall|i: int| 0 <= i < all.len() implies cached.contains(#[trigger] all[i]) by {
            if i < others.len() {
                assert(front.contains(others[i]));
                let k = choose|k: int| 0 <= k < front.len() && front[k] == others[i];
                assert(cached[k] == all[i]);
            } else {
                assert(cached[cached.len() - 1] == all[i]);
            }
        }
        assert forall|i: int, j: int| 0 <= i < j < all.len() implies (#[trigger] all[i]).group != (
        #[trigger] all[j]).group by {
            if j < others.len() {
                assert(others[i].group != others[j].group);
            } else {
                assert(front.contains(others[i]));
                let k = choose|k: int| 0 <= k < front.len() && front[k] == others[i];
                assert(cached[k].group != cached[cached.len() - 1].group);
            }
        }
    }
}

/// Updates keep at most one tuple per group and region.
pub proof fn law_updates_keep_one_tuple_per_group(
    before: Map<Key, Seq<CachedRegionView>>,
    group: u32,
    catalog: Seq<RegionDescView>,
    tuples: Seq<TupleDesc>,
    key: Key,
)
    requires
        one_per_group(cache::known(before, key)),
    ensures
        one_per_group(cache::known(cache::ingested(before, group, catalog, tuples), key)),
{
    lemma_last_desc_is_of(catalog, key);
    lemma_others_keep_one_per_group(cache::known(before, key), group);
    lemma_others_are_others(cache::known(before, key), group);
}

} // verus!
