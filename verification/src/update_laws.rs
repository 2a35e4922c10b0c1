//! What an update leaves behind, said of the calls themselves: what is
//! found after it, group by group, and how it goes from step to step.

use vstd::prelude::*;

use crate::cache;
use crate::cache::{CachedRegionView, Key};
use crate::error::{Error, Expected};
use crate::meta;
use crate::meta::{Message, RegionDesc, TupleDesc};
use crate::reader_laws;
use crate::readers;
use crate::readers::{
    RemoteMemoryProvider, RemoteMemoryRegionMetadata, Update, UpdateCall, UpdateReply, UpdateStep,
};
use crate::regions::{GroupConnection, RemoteMemoryRegion};

verus! {

/// The tuple found for a region is the last of the list that names it.
proof fn lemma_last_tuple_index(tuples: Seq<TupleDesc>, id: u32)
    ensures
        match cache::last_tuple(tuples, id) {
            Some(tuple) => exists|i: int|
                0 <= i < tuples.len() && #[trigger] tuples[i] == tuple && tuple.region_id == id
                    && forall|j: int|
                    i < j < tuples.len() ==> (#[trigger] tuples[j]).region_id != id,
            None => forall|i: int|
                0 <= i < tuples.len() ==> (#[trigger] tuples[i]).region_id != id,
        },
    decreases tuples.len(),
{
    if tuples.len() > 0 {
        let front = tuples.drop_last();
        let last = tuples.len() - 1;
        lemma_last_tuple_index(front, id);
        if tuples[last].region_id == id {
            assert(tuples[last] == tuples.last());
        } else {
            match cache::last_tuple(front, id) {
                Some(tuple) => {
                    let i = choose|i: int|
                        0 <= i < front.len() && #[trigger] front[i] == tuple && tuple.region_id
                            == id && forall|j: int|
                            i < j < front.len() ==> (#[trigger] front[j]).region_id != id;
                    assert(tuples[i] == tuple);
                    assert forall|j: int| i < j < tuples.len() implies (
                    #[trigger] tuples[j]).region_id != id by {
                        if j < last {
                            assert(front[j].region_id != id);
                        }
                    }
                },
                None => {
                    assert forall|i: int| 0 <= i < tuples.len() implies (
                    #[trigger] tuples[i]).region_id != id by {
                        if i < last {
                            assert(front[i].region_id != id);
                        }
                    }
                },
            }
        }
    }
}

/// The region found in a catalog is the last that has the name and the
/// id.
proof fn lemma_last_desc_index(descs: Seq<RegionDesc>, name: Seq<char>, id: u32)
    ensures
        match cache::last_desc(meta::descs_view(descs), (name, id)) {
            Some(desc) => exists|k: int|
                0 <= k < descs.len() && (#[trigger] descs[k])@ == desc && descs[k].name@ == name
                    && descs[k].id == id && forall|l: int|
                    k < l < descs.len() ==> (#[trigger] descs[l]).name@ != name || descs[l].id
                        != id,
            None => forall|k: int|
                0 <= k < descs.len() ==> (#[trigger] descs[k]).name@ != name || descs[k].id != id,
        },
    decreases descs.len(),
{
    let key: Key = (name, id);
    let views = meta::descs_view(descs);
    if descs.len() > 0 {
        let front = descs.drop_last();
        let last = descs.len() - 1;
        lemma_last_desc_index(front, name, id);
        assert(views.drop_last() =~= meta::descs_view(front));
        assert(views.last() == descs[last]@);
        if !(descs[last].name@ == name && descs[last].id == id) {
            match cache::last_desc(views, key) {
                Some(desc) => {
                    let k = choose|k: int|
                        0 <= k < front.len() && (#[trigger] front[k])@ == desc && front[k].name@
                            == name && front[k].id == id && forall|l: int|
                            k < l < front.len() ==> (#[trigger] front[l]).name@ != name
                                || front[l].id != id;
                    assert(descs[k]@ == desc);
                    assert forall|l: int| k < l < descs.len() implies (
                    #[trigger] descs[l]).name@ != name || descs[l].id != id by {
                        if l < last {
                            assert(front[l].name@ != name || front[l].id != id);
                        }
                    }
                },
                None => {
                    assert forall|k: int| 0 <= k < descs.len() implies (
                    #[trigger] descs[k]).name@ != name || descs[k].id != id by {
                        if k < last {
                            assert(front[k].name@ != name || front[k].id != id);
                        }
                    }
                },
            }
        }
    }
}

/// A search goes on behind what it does not stop at.
proof fn lemma_first_of_push(
    cached: Seq<CachedRegionView>,
    more: CachedRegionView,
    group: Option<u32>,
)
    ensures
        readers::first_cached(cached.push(more), group) == if readers::first_cached(
            cached,
            group,
        ) is Some {
            readers::first_cached(cached, group)
        } else if group is None || more.group == group->0 {
            Some(more)
        } else {
            None
        },
    decreases cached.len(),
{
    let all = cached.push(more);
    reveal_with_fuel(readers::first_cached, 2);
    if cached.len() > 0 {
        assert(all[0] == cached[0]);
        assert(all.drop_first() =~= cached.drop_first().push(more));
        lemma_first_of_push(cached.drop_first(), more, group);
    } else {
        assert(all.drop_first() =~= Seq::empty());
    }
}

/// Leaving one group's tuples out does not change what is found for
/// another.
proof fn lemma_first_among_others(cached: Seq<CachedRegionView>, left_out: u32, group: u32)
    requires
        group != left_out,
    ensures
        readers::first_cached(cache::of_other_groups(cached, left_out), Some(group))
            == readers::first_cached(cached, Some(group)),
    decreases cached.len(),
{
    if cached.len() > 0 {
        let front = cached.drop_last();
        lemma_first_among_others(front, left_out, group);
        assert(cached =~= front.push(cached.last()));
        lemma_first_of_push(front, cached.last(), Some(group));
        lemma_first_of_push(cache::of_other_groups(front, left_out), cached.last(), Some(group));
    }
}

/// What a search stops at is the first cached tuple of the group.
proof fn lemma_first_cached_index(cached: Seq<CachedRegionView>, group: Option<u32>)
    ensures
        match readers::first_cached(cached, group) {
            Some(found) => exists|j: int|
                0 <= j < cached.len() && #[trigger] cached[j] == found && (group matches Some(g)
                    ==> found.group == g) && forall|k: int|
                    0 <= k < j ==> group is Some && (#[trigger] cached[k]).group != group->0,
            None => forall|j: int|
                0 <= j < cached.len() ==> group is Some && (#[trigger] cached[j]).group
                    != group->0,
        },
    decreases cached.len(),
{
    if cached.len() > 0 {
        let rest = cached.drop_first();
        lemma_first_cached_index(rest, group);
        if group is None || cached[0].group == group->0 {
        } else {
            match readers::first_cached(rest, group) {
                Some(found) => {
                    let j = choose|j: int|
                        0 <= j < rest.len() && #[trigger] rest[j] == found && (group matches Some(g)
                            ==> found.group == g) && forall|k: int|
                            0 <= k < j ==> group is Some && (#[trigger] rest[k]).group
                                != group->0;
                    assert(cached[j + 1] == found);
                    assert forall|k: int| 0 <= k < j + 1 implies group is Some && (
                    #[trigger] cached[k]).group != group->0 by {
                        if k > 0 {
                            assert(rest[k - 1].group != group->0);
                        }
                    }
                },
                None => {
                    assert forall|j: int| 0 <= j < cached.len() implies group is Some && (
                    #[trigger] cached[j]).group != group->0 by {
                        if j > 0 {
                            assert(rest[j - 1].group != group->0);
                        }
                    }
                },
            }
        }
    }
}

/// Looking a region up gives the first tuple cached for it that is of
/// the group asked for, or of any, field by field; it gives none only if
/// there is none.
pub proof fn law_lookups_find_the_first_tuple(
    provider: &RemoteMemoryProvider,
    metadata: &RemoteMemoryRegionMetadata,
    group: Option<u32>,
    found: Option<RemoteMemoryRegion>,
)
    requires
        call_ensures(RemoteMemoryProvider::get_remote_mr, (provider, metadata, group), found),
        provider.wf(),
    ensures
        match found {
            Some(region) => exists|i: int, j: int|
                {
                    &&& 0 <= i < provider.regions@.len()
                    &&& provider.regions@[i].name@ == metadata.name@
                    &&& provider.regions@[i].id == metadata.id
                    &&& 0 <= j < provider.regions@[i].cached@.len()
                    &&& region.remote_addr == (
                    #[trigger] provider.regions@[i].cached@[j]).remote_addr
                    &&& region.size == provider.regions@[i].cached@[j].size
                    &&& region.rkey == provider.regions@[i].cached@[j].rkey
                    &&& region.group == provider.regions@[i].cached@[j].group
                    &&& region.elem_size == provider.regions@[i].cached@[j].elem_size
                    &&& region.elem_align == provider.regions@[i].cached@[j].elem_align
                    &&& region.elem_type@ == provider.regions@[i].cached@[j].elem_type@
                    &&& group matches Some(g) ==> region.group == g
                    &&& forall|k: int|
                        0 <= k < j ==> group is Some && (
                        #[trigger] provider.regions@[i].cached@[k]).group != group->0
                },
            None => forall|i: int, j: int|
                0 <= i < provider.regions@.len() && provider.regions@[i].name@ == metadata.name@
                    && provider.regions@[i].id == metadata.id && 0 <= j
                    < provider.regions@[i].cached@.len() ==> group is Some && (
                #[trigger] provider.regions@[i].cached@[j]).group != group->0,
        },
{
    let entries = provider.regions@;
    let key: Key = (metadata.name@, metadata.id);
    cache::lemma_entries_keys(entries);
    let known = cache::known(provider.cached(), key);
    lemma_first_cached_index(known, group);
    assert forall|i: int| 0 <= i < entries.len()
        && (#[trigger] entries[i]).key() == key implies known
        == cache::cached_view(entries[i].cached@) by {
        cache::lemma_entry_of(entries, i);
    }
    match readers::first_cached(known, group) {
        Some(cached) => {
            let j = choose|j: int|
                0 <= j < known.len() && #[trigger] known[j] == cached && (group matches Some(g)
                    ==> cached.group == g) && forall|k: int|
                    0 <= k < j ==> group is Some && (#[trigger] known[k]).group != group->0;
            assert(provider.cached().contains_key(key));
            let i = choose|i: int| 0 <= i < entries.len() && (#[trigger] entries[i]).key() == key;
            assert(known[j] == entries[i].cached@[j]@);
            assert forall|k: int| 0 <= k < j implies group is Some && (
            #[trigger] provider.regions@[i].cached@[k]).group != group->0 by {
                assert(known[k] == entries[i].cached@[k]@);
            }
        },
        None => {
            assert forall|i: int, j: int|
                0 <= i < entries.len() && entries[i].name@ == metadata.name@ && entries[i].id
                    == metadata.id && 0 <= j < entries[i].cached@.len() implies group is Some && (
            #[trigger] provider.regions@[i].cached@[j]).group != group->0 by {
                assert(entries[i].key() == key);
                assert(known[j] == entries[i].cached@[j]@);
            }
        },
    }
}

/// What is found for any group is what is found for its own; where
/// nothing is, no group has a tuple.
pub proof fn law_any_group_is_some_group(
    provider: &RemoteMemoryProvider,
    metadata: &RemoteMemoryRegionMetadata,
    any: Option<RemoteMemoryRegion>,
    group: u32,
    own: Option<RemoteMemoryRegion>,
)
    requires
        call_ensures(RemoteMemoryProvider::get_remote_mr, (provider, metadata, None), any),
        call_ensures(RemoteMemoryProvider::get_remote_mr, (provider, metadata, Some(group)), own),
    ensures
        any is None ==> own is None,
        own matches Some(region) ==> region.group == group,
        any matches Some(region) ==> region.group == group ==> {
            &&& own matches Some(same)
            &&& same.remote_addr == region.remote_addr
            &&& same.size == region.size
            &&& same.rkey == region.rkey
            &&& same.elem_size == region.elem_size
            &&& same.elem_align == region.elem_align
            &&& same.elem_type@ == region.elem_type@
        },
{
    let known = cache::known(provider.cached(), (metadata.name@, metadata.id));
    lemma_first_cached_index(known, Some(group));
}

/// What is found behind an exchange for its group.
proof fn lemma_found_for_the_group(
    before: RemoteMemoryProvider,
    after: RemoteMemoryProvider,
    group: u32,
    descs: Seq<RegionDesc>,
    tuples: Seq<TupleDesc>,
    metadata: RemoteMemoryRegionMetadata,
    found: Option<RemoteMemoryRegion>,
)
    requires
        after.cached() == cache::ingested(
            before.cached(),
            group,
            meta::descs_view(descs),
            tuples,
        ),
        call_ensures(
            RemoteMemoryProvider::get_remote_mr,
            (&after, &metadata, Some(group)),
            found,
        ),
    ensures
        match found {
            Some(region) => exists|i: int, k: int|
                {
                    &&& 0 <= i < tuples.len()
                    &&& 0 <= k < descs.len()
                    &&& (#[trigger] tuples[i]).region_id == metadata.id
                    &&& forall|j: int|
                        i < j < tuples.len() ==> (#[trigger] tuples[j]).region_id != metadata.id
                    &&& (#[trigger] descs[k]).name@ == metadata.name@
                    &&& descs[k].id == metadata.id
                    &&& forall|l: int|
                        k < l < descs.len() ==> (#[trigger] descs[l]).name@ != metadata.name@
                            || descs[l].id != metadata.id
                    &&& region.group == group
                    &&& region.remote_addr == tuples[i].remote_addr
                    &&& tuples[i].size <= usize::MAX ==> region.size == tuples[i].size
                    &&& region.rkey == tuples[i].rkey
                    &&& region.elem_size == descs[k].elem_size
                    &&& region.elem_align == descs[k].elem_align
                    &&& region.elem_type@ == descs[k].elem_type@
                },
            None => {
                ||| forall|i: int|
                    0 <= i < tuples.len() ==> (#[trigger] tuples[i]).region_id != metadata.id
                ||| forall|k: int|
                    0 <= k < descs.len() ==> (#[trigger] descs[k]).name@ != metadata.name@
                        || descs[k].id != metadata.id
            },
        },
{
    let views = meta::descs_view(descs);
    let key: Key = (metadata.name@, metadata.id);
    lemma_last_tuple_index(tuples, metadata.id);
    lemma_last_desc_index(descs, metadata.name@, metadata.id);
    match cache::last_desc(views, key) {
        Some(desc) => {
            reader_laws::law_updated_regions_are_found(
                before.cached(),
                group,
                views,
                tuples,
                key,
            );
            let k = choose|k: int|
                0 <= k < descs.len() && (#[trigger] descs[k])@ == desc && descs[k].name@
                    == metadata.name@ && descs[k].id == metadata.id && forall|l: int|
                    k < l < descs.len() ==> (#[trigger] descs[l]).name@ != metadata.name@
                        || descs[l].id != metadata.id;
            match cache::last_tuple(tuples, metadata.id) {
                Some(tuple) => {
                    let i = choose|i: int|
                        0 <= i < tuples.len() && #[trigger] tuples[i] == tuple
                            && tuple.region_id == metadata.id && forall|j: int|
                            i < j < tuples.len() ==> (#[trigger] tuples[j]).region_id
                                != metadata.id;
                    assert(tuples[i].region_id == metadata.id && descs[k].id == metadata.id);
                },
                None => {},
            }
        },
        None => {
            assert(!after.cached().contains_key(key));
        },
    }
}

/// What is found behind an exchange for another group is what was found
/// before it, as long as the region is in the catalog.
proof fn lemma_found_for_others(
    before: RemoteMemoryProvider,
    after: RemoteMemoryProvider,
    group: u32,
    descs: Seq<RegionDesc>,
    tuples: Seq<TupleDesc>,
    metadata: RemoteMemoryRegionMetadata,
    other: u32,
    was: Option<RemoteMemoryRegion>,
    found: Option<RemoteMemoryRegion>,
)
    requires
        other != group,
        after.cached() == cache::ingested(
            before.cached(),
            group,
            meta::descs_view(descs),
            tuples,
        ),
        call_ensures(RemoteMemoryProvider::get_remote_mr, (&before, &metadata, Some(other)), was),
        call_ensures(RemoteMemoryProvider::get_remote_mr, (&after, &metadata, Some(other)), found),
    ensures
        if exists|k: int|
            0 <= k < descs.len() && (#[trigger] descs[k]).name@ == metadata.name@ && descs[k].id
                == metadata.id {
            match (was, found) {
                (Some(old_region), Some(region)) => {
                    &&& region.remote_addr == old_region.remote_addr
                    &&& region.size == old_region.size
                    &&& region.rkey == old_region.rkey
                    &&& region.group == old_region.group
                    &&& region.elem_size == old_region.elem_size
                    &&& region.elem_align == old_region.elem_align
                    &&& region.elem_type@ == old_region.elem_type@
                },
                (None, None) => true,
                _ => false,
            }
        } else {
            found is None
        },
{
    let views = meta::descs_view(descs);
    let key: Key = (metadata.name@, metadata.id);
    lemma_last_desc_index(descs, metadata.name@, metadata.id);
    reader_laws::lemma_last_desc_is_of(views, key);
    let known = cache::known(before.cached(), key);
    let others = cache::of_other_groups(known, group);
    lemma_first_among_others(known, group, other);
    match cache::last_desc(views, key) {
        Some(desc) => {
            if let Some(tuple) = cache::last_tuple(tuples, metadata.id) {
                lemma_first_of_push(others, cache::cached_tuple(desc, tuple, group), Some(other));
            }
        },
        None => {
            assert(!after.cached().contains_key(key));
        },
    }
}

/// Once an exchange is taken, looking a region up for its group gives
/// the last tuple of the list that names the region's id, in whatever
/// order the tuples came, with the layout that the catalog says; it
/// gives none only if no tuple names the id, or the catalog does not
/// have the region.
pub proof fn law_exchanges_give_each_region_its_tuple(
    provider: &mut RemoteMemoryProvider,
    group: u32,
    descs: Vec<RegionDesc>,
    served: u32,
    tuples: Vec<TupleDesc>,
    result: Result<(), Error>,
    metadata: &RemoteMemoryRegionMetadata,
    found: Option<RemoteMemoryRegion>,
)
    requires
        call_ensures(
            RemoteMemoryProvider::ingest,
            (
                provider,
                group,
                Message::Metadata { regions: descs },
                Message::Tuples { group: served, tuples },
            ),
            result,
        ),
        call_ensures(
            RemoteMemoryProvider::get_remote_mr,
            (&*final(provider), metadata, Some(group)),
            found,
        ),
    ensures
        result is Ok <==> served == group,
        result is Err ==> result == Err::<(), Error>(Error::WrongGroup { served, group })
            && *final(provider) == *old(provider),
        served == group ==> match found {
            Some(region) => exists|i: int, k: int|
                {
                    &&& 0 <= i < tuples@.len()
                    &&& 0 <= k < descs@.len()
                    &&& (#[trigger] tuples@[i]).region_id == metadata.id
                    &&& forall|j: int|
                        i < j < tuples@.len() ==> (#[trigger] tuples@[j]).region_id != metadata.id
                    &&& (#[trigger] descs@[k]).name@ == metadata.name@
                    &&& descs@[k].id == metadata.id
                    &&& forall|l: int|
                        k < l < descs@.len() ==> (#[trigger] descs@[l]).name@ != metadata.name@
                            || descs@[l].id != metadata.id
                    &&& region.group == group
                    &&& region.remote_addr == tuples@[i].remote_addr
                    &&& tuples@[i].size <= usize::MAX ==> region.size == tuples@[i].size
                    &&& region.rkey == tuples@[i].rkey
                    &&& region.elem_size == descs@[k].elem_size
                    &&& region.elem_align == descs@[k].elem_align
                    &&& region.elem_type@ == descs@[k].elem_type@
                },
            None => {
                ||| forall|i: int|
                    0 <= i < tuples@.len() ==> (#[trigger] tuples@[i]).region_id != metadata.id
                ||| forall|k: int|
                    0 <= k < descs@.len() ==> (#[trigger] descs@[k]).name@ != metadata.name@
                        || descs@[k].id != metadata.id
            },
        },
{
    if served == group {
        lemma_found_for_the_group(
            *old(provider),
            *final(provider),
            group,
            descs@,
            tuples@,
            *metadata,
            found,
        );
    }
}

/// The last step of an update takes the exchange as
/// [`law_exchanges_give_each_region_its_tuple`] says, for the update's
/// group.
pub proof fn law_updates_give_each_region_its_tuple(
    provider: &mut RemoteMemoryProvider,
    update: &mut Update,
    descs: Vec<RegionDesc>,
    served: u32,
    tuples: Vec<TupleDesc>,
    result: Result<(), Error>,
    metadata: &RemoteMemoryRegionMetadata,
    found: Option<RemoteMemoryRegion>,
)
    requires
        old(update).step == (UpdateStep::AwaitTuples {
            catalog: Message::Metadata { regions: descs },
        }),
        call_ensures(
            RemoteMemoryProvider::advance,
            (
                provider,
                update,
                UpdateReply::Received { message: Message::Tuples { group: served, tuples } },
            ),
            result,
        ),
        call_ensures(
            RemoteMemoryProvider::get_remote_mr,
            (&*final(provider), metadata, Some(old(update).group)),
            found,
        ),
    ensures
        result is Ok <==> served == old(update).group,
        result is Err ==> final(provider).metadata == old(provider).metadata
            && final(provider).regions == old(provider).regions,
        served == old(update).group ==> match found {
            Some(region) => exists|i: int, k: int|
                {
                    &&& 0 <= i < tuples@.len()
                    &&& 0 <= k < descs@.len()
                    &&& (#[trigger] tuples@[i]).region_id == metadata.id
                    &&& forall|j: int|
                        i < j < tuples@.len() ==> (#[trigger] tuples@[j]).region_id != metadata.id
                    &&& (#[trigger] descs@[k]).name@ == metadata.name@
                    &&& descs@[k].id == metadata.id
                    &&& forall|l: int|
                        k < l < descs@.len() ==> (#[trigger] descs@[l]).name@ != metadata.name@
                            || descs@[l].id != metadata.id
                    &&& region.group == old(update).group
                    &&& region.remote_addr == tuples@[i].remote_addr
                    &&& tuples@[i].size <= usize::MAX ==> region.size == tuples@[i].size
                    &&& region.rkey == tuples@[i].rkey
                    &&& region.elem_size == descs@[k].elem_size
                    &&& region.elem_align == descs@[k].elem_align
                    &&& region.elem_type@ == descs@[k].elem_type@
                },
            None => {
                ||| forall|i: int|
                    0 <= i < tuples@.len() ==> (#[trigger] tuples@[i]).region_id != metadata.id
                ||| forall|k: int|
                    0 <= k < descs@.len() ==> (#[trigger] descs@[k]).name@ != metadata.name@
                        || descs@[k].id != metadata.id
            },
        },
{
    if served == old(update).group {
        lemma_found_for_the_group(
            *old(provider),
            *final(provider),
            old(update).group,
            descs@,
            tuples@,
            *metadata,
            found,
        );
    }
}

/// Taking an exchange of one group leaves what is found for another as
/// it was, field by field, for every region of the catalog; a region
/// that the catalog does not have is found for no group.
pub proof fn law_exchanges_leave_other_groups_alone(
    provider: &mut RemoteMemoryProvider,
    group: u32,
    descs: Vec<RegionDesc>,
    tuples: Vec<TupleDesc>,
    result: Result<(), Error>,
    metadata: &RemoteMemoryRegionMetadata,
    other: u32,
    was: Option<RemoteMemoryRegion>,
    found: Option<RemoteMemoryRegion>,
)
    requires
        other != group,
        call_ensures(
            RemoteMemoryProvider::ingest,
            (
                provider,
                group,
                Message::Metadata { regions: descs },
                Message::Tuples { group, tuples },
            ),
            result,
        ),
        call_ensures(
            RemoteMemoryProvider::get_remote_mr,
            (&*old(provider), metadata, Some(other)),
            was,
        ),
        call_ensures(
            RemoteMemoryProvider::get_remote_mr,
            (&*final(provider), metadata, Some(other)),
            found,
        ),
    ensures
        if exists|k: int|
            0 <= k < descs@.len() && (#[trigger] descs@[k]).name@ == metadata.name@
                && descs@[k].id == metadata.id {
            match (was, found) {
                (Some(old_region), Some(region)) => {
                    &&& region.remote_addr == old_region.remote_addr
                    &&& region.size == old_region.size
                    &&& region.rkey == old_region.rkey
                    &&& region.group == old_region.group
                    &&& region.elem_size == old_region.elem_size
                    &&& region.elem_align == old_region.elem_align
                    &&& region.elem_type@ == old_region.elem_type@
                },
                (None, None) => true,
                _ => false,
            }
        } else {
            found is None
        },
{
    lemma_found_for_others(
        *old(provider),
        *final(provider),
        group,
        descs@,
        tuples@,
        *metadata,
        other,
        was,
        found,
    );
}

/// Behind an exchange the known metadata is the catalog's, region by
/// region and field by field, in the catalog's order.
pub proof fn law_exchanges_replace_the_metadata(
    provider: &mut RemoteMemoryProvider,
    group: u32,
    descs: Vec<RegionDesc>,
    tuples: Vec<TupleDesc>,
    result: Result<(), Error>,
    known: Vec<RemoteMemoryRegionMetadata>,
)
    requires
        call_ensures(
            RemoteMemoryProvider::ingest,
            (
                provider,
                group,
                Message::Metadata { regions: descs },
                Message::Tuples { group, tuples },
            ),
            result,
        ),
        call_ensures(RemoteMemoryProvider::get_remote_mr_metadata, (&*final(provider),), known),
    ensures
        known@.len() == descs@.len(),
        forall|k: int|
            0 <= k < descs@.len() ==> {
                &&& (#[trigger] known@[k]).name@ == descs@[k].name@
                &&& known@[k].id == descs@[k].id
                &&& descs@[k].size <= usize::MAX ==> known@[k].size == descs@[k].size
                &&& known@[k].elem_size == descs@[k].elem_size
                &&& known@[k].elem_align == descs@[k].elem_align
                &&& known@[k].elem_type@ == descs@[k].elem_type@
            },
{
    let views = readers::metadata_view(known@);
    assert(views.len() == known@.len());
    assert(readers::metadata_view(final(provider).metadata@).len() == descs@.len());
    assert forall|k: int| 0 <= k < descs@.len() implies {
        &&& (#[trigger] known@[k]).name@ == descs@[k].name@
        &&& known@[k].id == descs@[k].id
        &&& descs@[k].size <= usize::MAX ==> known@[k].size == descs@[k].size
        &&& known@[k].elem_size == descs@[k].elem_size
        &&& known@[k].elem_align == descs@[k].elem_align
        &&& known@[k].elem_type@ == descs@[k].elem_type@
    } by {
        assert(views[k] == known@[k]@);
        assert(meta::descs_view(descs@)[k] == descs@[k]@);
    }
}

/// An update starts with an open channel's re-request, or with a fresh
/// session; it knows its group, and starting it changes nothing that is
/// known.
pub proof fn law_updates_start(
    provider: &mut RemoteMemoryProvider,
    group: u32,
    update: Update,
)
    requires
        call_ensures(RemoteMemoryProvider::update, (provider, group), update),
    ensures
        ({
            let open = old(provider).sessions@.contains_key(group)
                && old(provider).sessions@[group].channel;
            &&& update.group == group
            &&& update.fresh == !open
            &&& update.step == if open {
                UpdateStep::Request
            } else {
                UpdateStep::Connect
            }
        }),
        final(provider).sessions@.contains_key(group),
        old(provider).sessions@.contains_key(group)
            ==> final(provider).sessions@ == old(provider).sessions@,
        !old(provider).sessions@.contains_key(group) ==> {
            &&& !final(provider).sessions@[group].channel
            &&& final(provider).sessions@[group].connection.connection is None
            &&& final(provider).sessions@.remove(group) == old(provider).sessions@
        },
        final(provider).addr == old(provider).addr,
        final(provider).metadata == old(provider).metadata,
        final(provider).regions == old(provider).regions,
{
    if old(provider).sessions@.contains_key(group) {
        assert(final(provider).sessions@ =~= old(provider).sessions@);
    } else {
        assert(final(provider).sessions@.remove(group) =~= old(provider).sessions@);
    }
}

/// What each step of an update does: it opens a channel to the remote's
/// TCP port, greets with version 1, joins its group, connects to the
/// remote's RDMA port, re-requests, and otherwise receives.
pub proof fn law_steps_do_their_calls(
    provider: &RemoteMemoryProvider,
    update: &Update,
    call: Option<UpdateCall>,
)
    requires
        call_ensures(RemoteMemoryProvider::next, (provider, update), call),
    ensures
        match update.step {
            UpdateStep::Connect => call matches Some(UpdateCall::OpenChannel { address, port })
                && address@ == provider.addr.address@ && port == provider.addr.tcp_port,
            UpdateStep::Greet => call matches Some(UpdateCall::Send { message }) && message == (
            Message::Hello { version: 1 }),
            UpdateStep::AwaitWelcome => call == Some(UpdateCall::Receive),
            UpdateStep::JoinGroup => call matches Some(UpdateCall::Send { message }) && message
                == (Message::WantGroup { group: update.group }),
            UpdateStep::Rendezvous => call matches Some(UpdateCall::ConnectRdma { address, port })
                && address@ == provider.addr.address@ && port == provider.addr.rdma_port,
            UpdateStep::Request => call matches Some(UpdateCall::Send { message }) && message
                == Message::Update,
            UpdateStep::AwaitCatalog => call == Some(UpdateCall::Receive),
            UpdateStep::AwaitTuples { .. } => call == Some(UpdateCall::Receive),
            UpdateStep::Finished => call is None,
        },
{
}

/// Where each step of an update leads, what it changes, and when it
/// fails.
pub proof fn law_steps_lead_on(
    provider: &mut RemoteMemoryProvider,
    update: &mut Update,
    reply: UpdateReply,
    result: Result<(), Error>,
)
    requires
        call_ensures(RemoteMemoryProvider::advance, (provider, update, reply), result),
    ensures
        final(update).group == old(update).group,
        final(update).fresh == old(update).fresh,
        final(provider).addr == old(provider).addr,
        forall|group: u32|
            group != old(update).group ==> {
                &&& (#[trigger] final(provider).sessions@.contains_key(group))
                    == old(provider).sessions@.contains_key(group)
                &&& old(provider).sessions@.contains_key(group)
                    ==> final(provider).sessions@[group] == old(provider).sessions@[group]
            },
        !(old(update).step is AwaitTuples) ==> final(provider).metadata == old(provider).metadata
            && final(provider).regions == old(provider).regions,
        !(old(update).step is AwaitTuples)
            && !(old(update).step is Rendezvous)
            ==> final(provider).sessions@ == old(provider).sessions@,
        match old(update).step {
            UpdateStep::Connect => result is Ok && final(update).step == UpdateStep::Greet,
            UpdateStep::Greet => result is Ok && final(update).step == UpdateStep::AwaitWelcome,
            UpdateStep::AwaitWelcome => match reply {
                UpdateReply::Received { message: Message::Welcome { version } } => if version == 1 {
                    result is Ok && final(update).step == UpdateStep::JoinGroup
                } else {
                    result == Err::<(), Error>(Error::RemoteVersion { version })
                        && final(update).step == UpdateStep::Finished
                },
                UpdateReply::Received { message } => {
                    &&& result == Err::<(), Error>(
                        Error::UnexpectedMessage {
                            expected: Expected::GreetingReply,
                            got: message,
                        },
                    )
                    &&& final(update).step == UpdateStep::Finished
                },
                _ => true,
            },
            UpdateStep::JoinGroup => result is Ok && final(update).step == UpdateStep::Rendezvous,
            UpdateStep::Rendezvous => reply matches UpdateReply::Connected { connection } ==> {
                let open = old(provider).sessions@.contains_key(old(update).group)
                    && old(provider).sessions@[old(update).group].channel;
                &&& result is Ok
                &&& final(update).step == UpdateStep::AwaitCatalog
                &&& final(provider).sessions@.contains_key(old(update).group)
                &&& final(provider).sessions@[old(update).group].connection.connection == Some(
                    connection,
                )
                &&& final(provider).sessions@[old(update).group].channel == open
            },
            UpdateStep::Request => result is Ok && final(update).step == UpdateStep::AwaitCatalog,
            UpdateStep::AwaitCatalog => reply matches UpdateReply::Received { message }
                ==> result is Ok
                && final(update).step == (UpdateStep::AwaitTuples { catalog: message }),
            UpdateStep::AwaitTuples { catalog } => reply matches UpdateReply::Received { message }
                ==> {
                &&& final(update).step == UpdateStep::Finished
                &&& final(provider).sessions@.contains_key(old(update).group)
                &&& final(provider).sessions@[old(update).group].channel == result is Ok
                &&& old(provider).sessions@.contains_key(old(update).group)
                    ==> final(provider).sessions@[old(update).group].connection
                    == old(provider).sessions@[old(update).group].connection
                &&& match (catalog, message) {
                    (Message::Metadata { .. }, Message::Tuples { group, .. }) => if group
                        == old(update).group {
                        result is Ok
                    } else {
                        result == Err::<(), Error>(
                            Error::WrongGroup { served: group, group: old(update).group },
                        )
                    },
                    _ => result == Err::<(), Error>(Error::NotAnExchange),
                }
            },
            UpdateStep::Finished => result is Ok && final(update).step == UpdateStep::Finished,
        },
{
}

/// Giving an update up drops a channel that was open before it, and
/// nothing else.
pub proof fn law_given_up_updates_drop_their_channel(
    provider: &mut RemoteMemoryProvider,
    update: Update,
)
    requires
        call_ensures(RemoteMemoryProvider::give_up, (provider, update), ()),
    ensures
        final(provider).addr == old(provider).addr,
        final(provider).metadata == old(provider).metadata,
        final(provider).regions == old(provider).regions,
        update.fresh ==> final(provider).sessions@ == old(provider).sessions@,
        !update.fresh ==> {
            &&& final(provider).sessions@.contains_key(update.group)
            &&& !final(provider).sessions@[update.group].channel
            &&& old(provider).sessions@.contains_key(update.group)
                ==> final(provider).sessions@[update.group].connection
                == old(provider).sessions@[update.group].connection
            &&& final(provider).sessions@.remove(update.group) == old(provider).sessions@.remove(
                update.group,
            )
        },
{
    assert(!update.fresh
        ==> final(provider).sessions@.remove(update.group) =~= old(provider).sessions@.remove(update.group));
}

/// A group's slot is its session's; one without a session is empty.
pub proof fn law_slots_are_the_sessions(
    provider: &RemoteMemoryProvider,
    group: u32,
    slot: &GroupConnection,
)
    requires
        call_ensures(RemoteMemoryProvider::slot, (provider, group), slot),
    ensures
        if provider.sessions@.contains_key(group) {
            *slot == provider.sessions@[group].connection
        } else {
            slot.connection is None
        },
{
}

} // verus!
