//! The reader's cache of what a remote machine exports: for each region
//! of the catalog, the tuples of the groups that have been updated.

use vstd::prelude::*;

use crate::meta::{RegionDesc, RegionDescView, TupleDesc};

verus! {

/// A region's (remote_addr, size, rkey) tuple for one group, as cached
/// from the metadata exchange, with the element layout the region is
/// shared as.
#[derive(Debug, Clone, PartialEq, Eq)]
pub struct CachedRegion {
    pub remote_addr: u64,
    pub size: usize,
    pub rkey: u32,
    pub group: u32,
    /// `size_of` of the element type the region is shared as.
    pub elem_size: u32,
    /// `align_of` of the element type the region is shared as.
    pub elem_align: u32,
    /// `std::any::type_name` of the element type, for diagnostics.
    pub elem_type: String,
}

/// What a [`CachedRegion`] says.
pub struct CachedRegionView {
    pub remote_addr: u64,
    pub size: usize,
    pub rkey: u32,
    pub group: u32,
    pub elem_size: u32,
    pub elem_align: u32,
    pub elem_type: Seq<char>,
}

impl View for CachedRegion {
    type V = CachedRegionView;

    open spec fn view(&self) -> CachedRegionView {
        CachedRegionView {
            remote_addr: self.remote_addr,
            size: self.size,
            rkey: self.rkey,
            group: self.group,
            elem_size: self.elem_size,
            elem_align: self.elem_align,
            elem_type: self.elem_type@,
        }
    }
}

/// What a list of cached regions says, one by one.
pub open spec fn cached_view(cached: Seq<CachedRegion>) -> Seq<CachedRegionView> {
    cached.map_values(|region: CachedRegion| region@)
}

/// The cached tuples of one region, which its name and id tell from
/// the others; at most one per group.
#[derive(Debug, PartialEq, Eq)]
pub struct RegionEntry {
    pub name: String,
    pub id: u32,
    pub cached: Vec<CachedRegion>,
}

/// What tells a region from the others: its name and its id.
pub type Key = (Seq<char>, u32);

impl RegionEntry {
    /// What tells the entry's region from the others.
    pub open spec fn key(self) -> Key {
        (self.name@, self.id)
    }
}

/// The entries as a map from regions to their cached tuples.
pub open spec fn entries_map(entries: Seq<RegionEntry>) -> Map<Key, Seq<CachedRegionView>>
    decreases entries.len(),
{
    if entries.len() == 0 {
        Map::empty()
    } else {
        entries_map(entries.drop_last()).insert(
            entries.last().key(),
            cached_view(entries.last().cached@),
        )
    }
}

/// No two entries are of the same region.
pub open spec fn distinct_keys(entries: Seq<RegionEntry>) -> bool {
    forall|i: int, j: int|
        0 <= i < j < entries.len() ==> (#[trigger] entries[i]).key() != (
        #[trigger] entries[j]).key()
}

/// The map holds the regions of the entries, and no others.
pub proof fn lemma_entries_keys(entries: Seq<RegionEntry>)
    ensures
        forall|k: Key| #[trigger]
            entries_map(entries).contains_key(k) <==> exists|i: int|
                0 <= i < entries.len() && (#[trigger] entries[i]).key() == k,
    decreases entries.len(),
{
    if entries.len() > 0 {
        let front = entries.drop_last();
        lemma_entries_keys(front);
        assert forall|k: Key| #[trigger]
            entries_map(entries).contains_key(k) <==> exists|i: int|
                0 <= i < entries.len() && (#[trigger] entries[i]).key() == k by {
            assert(entries_map(entries).contains_key(k) <==> entries_map(front).contains_key(k) || k
                == entries.last().key());
            if entries_map(entries).contains_key(k) {
                if k == entries.last().key() {
                    assert(entries[entries.len() - 1].key() == k);
                } else {
                    let i = choose|i: int| 0 <= i < front.len() && (#[trigger] front[i]).key() == k;
                    assert(entries[i].key() == k);
                }
            }
            if exists|i: int| 0 <= i < entries.len() && (#[trigger] entries[i]).key() == k {
                let i = choose|i: int| 0 <= i < entries.len() && (#[trigger] entries[i]).key() == k;
                if i < front.len() {
                    assert(front[i].key() == k);
                }
            }
        }
    }
}

/// An entry's tuples are what the map holds for its region.
pub proof fn lemma_entry_of(entries: Seq<RegionEntry>, i: int)
    requires
        distinct_keys(entries),
        0 <= i < entries.len(),
    ensures
        entries_map(entries).contains_key(entries[i].key()),
        entries_map(entries)[entries[i].key()] == cached_view(entries[i].cached@),
    decreases entries.len(),
{
    let front = entries.drop_last();
    if i < front.len() {
        assert(distinct_keys(front)) by {
            assert forall|a: int, b: int| 0 <= a < b < front.len() implies (
            #[trigger] front[a]).key() != (#[trigger] front[b]).key() by {
                assert(entries[a].key() != entries[b].key());
            }
        }
        lemma_entry_of(front, i);
        assert(front[i] == entries[i]);
        assert(entries[i].key() != entries[entries.len() - 1].key());
    }
}

/// Giving an entry other tuples changes the map at its region only.
pub proof fn lemma_entry_replaced(entries: Seq<RegionEntry>, i: int, entry: RegionEntry)
    requires
        distinct_keys(entries),
        0 <= i < entries.len(),
        entry.key() == entries[i].key(),
    ensures
        distinct_keys(entries.update(i, entry)),
        entries_map(entries.update(i, entry)) == entries_map(entries).insert(
            entry.key(),
            cached_view(entry.cached@),
        ),
    decreases entries.len(),
{
    let updated = entries.update(i, entry);
    let front = entries.drop_last();
    assert(distinct_keys(updated)) by {
        assert forall|a: int, b: int| 0 <= a < b < updated.len() implies (
        #[trigger] updated[a]).key() != (#[trigger] updated[b]).key() by {
            assert(entries[a].key() != entries[b].key());
        }
    }
    if i < front.len() {
        assert(distinct_keys(front)) by {
            assert forall|a: int, b: int| 0 <= a < b < front.len() implies (
            #[trigger] front[a]).key() != (#[trigger] front[b]).key() by {
                assert(entries[a].key() != entries[b].key());
            }
        }
        lemma_entry_replaced(front, i, entry);
        assert(updated.drop_last() =~= front.update(i, entry));
        assert(entries[i].key() != entries[entries.len() - 1].key());
        assert(entries_map(updated) =~= entries_map(entries).insert(
            entry.key(),
            cached_view(entry.cached@),
        ));
    } else {
        assert(updated.drop_last() =~= front);
        assert(entries_map(updated) =~= entries_map(entries).insert(
            entry.key(),
            cached_view(entry.cached@),
        ));
    }
}

/// Adding an entry of a new region adds the region to the map.
pub proof fn lemma_entry_added(entries: Seq<RegionEntry>, entry: RegionEntry)
    requires
        distinct_keys(entries),
        !entries_map(entries).contains_key(entry.key()),
    ensures
        distinct_keys(entries.push(entry)),
        entries_map(entries.push(entry)) == entries_map(entries).insert(
            entry.key(),
            cached_view(entry.cached@),
        ),
{
    let more = entries.push(entry);
    assert(more.drop_last() =~= entries);
    lemma_entries_keys(entries);
    assert forall|a: int, b: int| 0 <= a < b < more.len() implies (#[trigger] more[a]).key() != (
    #[trigger] more[b]).key() by {
        if b < entries.len() {
            assert(entries[a].key() != entries[b].key());
        } else if entries[a].key() == entry.key() {
            assert(entries_map(entries).contains_key(entry.key()));
        }
    }
}

/// Whether `region` is the region told by `key`.
pub open spec fn is_of(region: RegionDescView, key: Key) -> bool {
    region.name == key.0 && region.id == key.1
}

/// The last region of a catalog that `key` tells.
pub open spec fn last_desc(catalog: Seq<RegionDescView>, key: Key) -> Option<RegionDescView>
    decreases catalog.len(),
{
    if catalog.len() == 0 {
        None
    } else if is_of(catalog.last(), key) {
        Some(catalog.last())
    } else {
        last_desc(catalog.drop_last(), key)
    }
}

/// The last tuple in a list that is of region `id`.
pub open spec fn last_tuple(tuples: Seq<TupleDesc>, id: u32) -> Option<TupleDesc>
    decreases tuples.len(),
{
    if tuples.len() == 0 {
        None
    } else if tuples.last().region_id == id {
        Some(tuples.last())
    } else {
        last_tuple(tuples.drop_last(), id)
    }
}

/// A tuple of `group` as it is cached, for a region as the catalog
/// advertises it.
pub open spec fn cached_tuple(
    region: RegionDescView,
    tuple: TupleDesc,
    group: u32,
) -> CachedRegionView {
    CachedRegionView {
        remote_addr: tuple.remote_addr,
        size: tuple.size as usize,
        rkey: tuple.rkey,
        group,
        elem_size: region.elem_size,
        elem_align: region.elem_align,
        elem_type: region.elem_type,
    }
}

/// The cached tuples of groups other than `group`.
pub open spec fn of_other_groups(
    cached: Seq<CachedRegionView>,
    group: u32,
) -> Seq<CachedRegionView>
    decreases cached.len(),
{
    if cached.len() == 0 {
        Seq::empty()
    } else {
        let front = of_other_groups(cached.drop_last(), group);
        if cached.last().group != group {
            front.push(cached.last())
        } else {
            front
        }
    }
}

/// What is cached for a region; nothing if it is not known.
pub open spec fn known(cache: Map<Key, Seq<CachedRegionView>>, key: Key) -> Seq<CachedRegionView> {
    if cache.contains_key(key) {
        cache[key]
    } else {
        Seq::empty()
    }
}

/// What an exchange of `group` caches for a region that the catalog
/// advertises: the tuples of other groups as they were, and the tuple
/// of this group, if there is one, behind them.
pub open spec fn refreshed(
    cache: Map<Key, Seq<CachedRegionView>>,
    group: u32,
    region: RegionDescView,
    tuples: Seq<TupleDesc>,
) -> Seq<CachedRegionView> {
    let others = of_other_groups(known(cache, (region.name, region.id)), group);
    match last_tuple(tuples, region.id) {
        Some(tuple) => others.push(cached_tuple(region, tuple, group)),
        None => others,
    }
}

/// The cache behind an exchange of `group`: exactly the regions of the
/// catalog, each refreshed.
pub open spec fn ingested(
    cache: Map<Key, Seq<CachedRegionView>>,
    group: u32,
    catalog: Seq<RegionDescView>,
    tuples: Seq<TupleDesc>,
) -> Map<Key, Seq<CachedRegionView>> {
    Map::new(
        |key: Key| last_desc(catalog, key) is Some,
        |key: Key| refreshed(cache, group, last_desc(catalog, key)->0, tuples),
    )
}

/// One more region at the end of the catalog sets what is cached for
/// it, and for no other.
pub proof fn lemma_ingested_push(
    cache: Map<Key, Seq<CachedRegionView>>,
    group: u32,
    catalog: Seq<RegionDescView>,
    region: RegionDescView,
    tuples: Seq<TupleDesc>,
)
    ensures
        ingested(cache, group, catalog.push(region), tuples) == ingested(
            cache,
            group,
            catalog,
            tuples,
        ).insert((region.name, region.id), refreshed(cache, group, region, tuples)),
{
    assert(catalog.push(region).drop_last() =~= catalog);
    assert(ingested(cache, group, catalog.push(region), tuples) =~= ingested(
        cache,
        group,
        catalog,
        tuples,
    ).insert((region.name, region.id), refreshed(cache, group, region, tuples)));
}

/// The position of the entry of a region, if there is one.
pub fn find_entry(entries: &Vec<RegionEntry>, name: &String, id: u32) -> (found: Option<usize>)
    requires
        distinct_keys(entries@),
    ensures
        match found {
            Some(i) => {
                &&& i < entries@.len()
                &&& entries@[i as int].key() == (name@, id)
                &&& entries_map(entries@).contains_key((name@, id))
                &&& entries_map(entries@)[(name@, id)] == cached_view(entries@[i as int].cached@)
            },
            None => !entries_map(entries@).contains_key((name@, id)),
        },
{
    let mut i: usize = 0;
    while i < entries.len()
        invariant
            i <= entries.len(),
            distinct_keys(entries@),
            forall|j: int| 0 <= j < i ==> (#[trigger] entries@[j]).key() != (name@, id),
        decreases entries.len() - i,
    {
        if entries[i].id == id && entries[i].name == *name {
            proof {
                lemma_entry_of(entries@, i as int);
            }
            return Some(i);
        }
        i += 1;
    }
    proof {
        lemma_entries_keys(entries@);
    }
    None
}

/// The last tuple in a list that is of region `id`.
fn find_tuple(tuples: &Vec<TupleDesc>, id: u32) -> (found: Option<TupleDesc>)
    ensures
        found == last_tuple(tuples@, id),
{
    let mut i: usize = tuples.len();
    assert(tuples@.take(i as int) =~= tuples@);
    while i > 0
        invariant
            i <= tuples.len(),
            last_tuple(tuples@.take(i as int), id) == last_tuple(tuples@, id),
        decreases i,
    {
        assert(tuples@.take(i as int).drop_last() =~= tuples@.take(i - 1));
        i -= 1;
        if tuples[i].region_id == id {
            return Some(tuples[i]);
        }
    }
    None
}

impl CachedRegion {
    /// The same once more.
    fn copy(&self) -> (copy: CachedRegion)
        ensures
            copy@ == self@,
    {
        CachedRegion {
            remote_addr: self.remote_addr,
            size: self.size,
            rkey: self.rkey,
            group: self.group,
            elem_size: self.elem_size,
            elem_align: self.elem_align,
            elem_type: self.elem_type.clone(),
        }
    }
}

/// The cached tuples of groups other than `group`.
fn retain_others(cached: &Vec<CachedRegion>, group: u32) -> (others: Vec<CachedRegion>)
    ensures
        cached_view(others@) == of_other_groups(cached_view(cached@), group),
{
    let mut others: Vec<CachedRegion> = Vec::new();
    let ghost all: Seq<CachedRegionView> = cached_view(cached@);
    let mut i: usize = 0;
    assert(cached_view(others@) =~= of_other_groups(all.take(0), group));
    while i < cached.len()
        invariant
            i <= cached.len(),
            all == cached_view(cached@),
            cached_view(others@) == of_other_groups(all.take(i as int), group),
        decreases cached.len() - i,
    {
        assert(all.take(i + 1).drop_last() =~= all.take(i as int));
        let ghost before: Seq<CachedRegion> = others@;
        if cached[i].group != group {
            others.push(cached[i].copy());
            assert(cached_view(others@) =~= cached_view(before).push(all[i as int]));
        }
        i += 1;
    }
    assert(all.take(i as int) =~= all);
    others
}

/// What an exchange of `group` caches for a region of the catalog.
fn refresh_region(
    entries: &Vec<RegionEntry>,
    group: u32,
    region: &RegionDesc,
    tuples: &Vec<TupleDesc>,
) -> (cached: Vec<CachedRegion>)
    requires
        distinct_keys(entries@),
    ensures
        cached_view(cached@) == refreshed(entries_map(entries@), group, region@, tuples@),
{
    let mut cached: Vec<CachedRegion> = match find_entry(entries, &region.name, region.id) {
        Some(i) => retain_others(&entries[i].cached, group),
        None => Vec::new(),
    };
    assert(cached_view(cached@) =~= of_other_groups(
        known(entries_map(entries@), (region@.name, region@.id)),
        group,
    ));
    let ghost before: Seq<CachedRegion> = cached@;
    if let Some(tuple) = find_tuple(tuples, region.id) {
        cached.push(
            CachedRegion {
                remote_addr: tuple.remote_addr,
                size: tuple.size as usize,
                rkey: tuple.rkey,
                group,
                elem_size: region.elem_size,
                elem_align: region.elem_align,
                elem_type: region.elem_type.clone(),
            },
        );
        assert(cached_view(cached@) =~= cached_view(before).push(
            cached_tuple(region@, tuple, group),
        ));
    }
    cached
}

/// The entries behind an exchange of `group`: exactly the regions of
/// the catalog, each refreshed.
pub fn ingest_regions(
    entries: &Vec<RegionEntry>,
    group: u32,
    catalog: &Vec<RegionDesc>,
    tuples: &Vec<TupleDesc>,
) -> (after: Vec<RegionEntry>)
    requires
        distinct_keys(entries@),
    ensures
        distinct_keys(after@),
        entries_map(after@) == ingested(
            entries_map(entries@),
            group,
            crate::meta::descs_view(catalog@),
            tuples@,
        ),
{
    let ghost cache: Map<Key, Seq<CachedRegionView>> = entries_map(entries@);
    let ghost all: Seq<RegionDescView> = crate::meta::descs_view(catalog@);
    let mut after: Vec<RegionEntry> = Vec::new();
    let mut i: usize = 0;
    assert(entries_map(after@) =~= ingested(cache, group, all.take(0), tuples@));
    while i < catalog.len()
        invariant
            i <= catalog.len(),
            distinct_keys(entries@),
            cache == entries_map(entries@),
            all == crate::meta::descs_view(catalog@),
            distinct_keys(after@),
            entries_map(after@) == ingested(cache, group, all.take(i as int), tuples@),
        decreases catalog.len() - i,
    {
        let region: &RegionDesc = &catalog[i];
        let cached: Vec<CachedRegion> = refresh_region(entries, group, region, tuples);
        let ghost before: Seq<RegionEntry> = after@;
        proof {
            lemma_ingested_push(cache, group, all.take(i as int), region@, tuples@);
            assert(all.take(i + 1) =~= all.take(i as int).push(region@));
        }
        let entry: RegionEntry = RegionEntry {
            name: region.name.clone(),
            id: region.id,
            cached,
        };
        match find_entry(&after, &region.name, region.id) {
            Some(at) => {
                proof {
                    lemma_entry_replaced(before, at as int, entry);
                }
                after.set(at, entry);
            },
            None => {
                proof {
                    lemma_entry_added(before, entry);
                }
                after.push(entry);
            },
        }
        i += 1;
    }
    assert(all.take(i as int) =~= all);
    after
}

} // verus!
