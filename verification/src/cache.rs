//! The refresh cache: a time-boxed, process-local map from item keys to
//! the last fetched record. The read path consults it to avoid refetching
//! on every request; it is derived, disposable state, never the store of
//! record.
//!
//! The cache itself never fetches: `lookup` is the decision. A caller that
//! gets `None` performs the fetch and hands the result to `insert`. Two
//! concurrent readers of the same stale key may therefore both fetch —
//! at-most-one-fetch-per-key is deliberately not promised.
use vstd::prelude::*;

use crate::store::ItemInfo;
use crate::strutil::eqStr;

verus! {

/// Seconds a cached record stays fresh.
pub const CACHE_TTL_SECONDS: i64 = 3600;

/// One cached record: the key it was fetched for, the record, and the
/// time it was inserted.
pub struct CacheEntry {
    pub store: String,
    pub id: String,
    pub item: ItemInfo,
    pub cachedAt: i64,
}

pub open spec fn spec_entry_key(e: CacheEntry) -> (Seq<char>, Seq<char>) {
    (e.store@, e.id@)
}

/// The mapping a sequence of cache entries denotes: a later entry for a
/// key overrides an earlier one.
pub open spec fn spec_cache_map(entries: Seq<CacheEntry>) -> Map<(Seq<char>, Seq<char>), CacheEntry>
    decreases entries.len(),
{
    if entries.len() == 0 {
        Map::empty()
    } else {
        spec_cache_map(entries.drop_last()).insert(spec_entry_key(entries.last()), entries.last())
    }
}

proof fn lemma_cache_map_found(entries: Seq<CacheEntry>, i: int)
    requires
        0 <= i < entries.len(),
        forall|j: int|
            0 <= j < entries.len() && j != i ==> spec_entry_key(#[trigger] entries[j])
                != spec_entry_key(entries[i]),
    ensures
        spec_cache_map(entries).contains_key(spec_entry_key(entries[i])),
        spec_cache_map(entries)[spec_entry_key(entries[i])] == entries[i],
    decreases entries.len(),
{
    if i == entries.len() - 1 {
    } else {
        let prefix = entries.drop_last();
        assert(forall|j: int|
            0 <= j < prefix.len() && j != i ==> spec_entry_key(#[trigger] prefix[j])
                != spec_entry_key(prefix[i])) by {
            assert(forall|j: int| 0 <= j < prefix.len() ==> #[trigger] prefix[j] == entries[j]);
        }
        lemma_cache_map_found(prefix, i);
        assert(spec_entry_key(entries.last()) != spec_entry_key(entries[i]));
    }
}

proof fn lemma_cache_map_absent(entries: Seq<CacheEntry>, key: (Seq<char>, Seq<char>))
    requires
        forall|j: int| 0 <= j < entries.len() ==> spec_entry_key(#[trigger] entries[j]) != key,
    ensures
        !spec_cache_map(entries).contains_key(key),
    decreases entries.len(),
{
    if entries.len() > 0 {
        let prefix = entries.drop_last();
        assert(forall|j: int| 0 <= j < prefix.len() ==> #[trigger] prefix[j] == entries[j]);
        lemma_cache_map_absent(prefix, key);
        assert(spec_entry_key(entries[entries.len() - 1]) != key);
    }
}

proof fn lemma_cache_map_update(entries: Seq<CacheEntry>, i: int, e: CacheEntry)
    requires
        0 <= i < entries.len(),
        spec_entry_key(entries[i]) == spec_entry_key(e),
        forall|j: int|
            0 <= j < entries.len() && j != i ==> spec_entry_key(#[trigger] entries[j])
                != spec_entry_key(entries[i]),
    ensures
        spec_cache_map(entries.update(i, e)) == spec_cache_map(entries).insert(
            spec_entry_key(e),
            e,
        ),
    decreases entries.len(),
{
    let updated = entries.update(i, e);
    if i == entries.len() - 1 {
        assert(updated.drop_last() =~= entries.drop_last());
        assert(updated.last() == e);
        assert(spec_cache_map(updated) =~= spec_cache_map(entries).insert(spec_entry_key(e), e));
    } else {
        let prefix = entries.drop_last();
        assert(updated.drop_last() =~= prefix.update(i, e));
        assert(updated.last() == entries.last());
        assert(prefix[i] == entries[i]);
        assert(forall|j: int|
            0 <= j < prefix.len() && j != i ==> spec_entry_key(#[trigger] prefix[j])
                != spec_entry_key(prefix[i])) by {
            assert(forall|j: int| 0 <= j < prefix.len() ==> #[trigger] prefix[j] == entries[j]);
        }
        lemma_cache_map_update(prefix, i, e);
        assert(spec_entry_key(entries.last()) != spec_entry_key(e));
        assert(spec_cache_map(updated) =~= spec_cache_map(entries).insert(spec_entry_key(e), e));
    }
}

/// The in-memory refresh cache.
pub struct RefreshCache {
    entries: Vec<CacheEntry>,
}

impl RefreshCache {
    pub closed spec fn spec_entries(&self) -> Seq<CacheEntry> {
        self.entries@
    }

    /// The mapping this cache denotes.
    pub open spec fn view_map(&self) -> Map<(Seq<char>, Seq<char>), CacheEntry> {
        spec_cache_map(self.spec_entries())
    }

    /// No key stands on two entries.
    pub open spec fn wf(&self) -> bool {
        forall|i: int, j: int|
            0 <= i < j < self.spec_entries().len() ==> spec_entry_key(
                #[trigger] self.spec_entries()[i],
            ) != spec_entry_key(#[trigger] self.spec_entries()[j])
    }

    /// An empty cache.
    pub fn new() -> (r: Self)
        ensures
            r.wf(),
            r.view_map() == Map::<(Seq<char>, Seq<char>), CacheEntry>::empty(),
    {
        let r = RefreshCache { entries: Vec::new() };
        proof {
            assert(r.view_map() =~= Map::<(Seq<char>, Seq<char>), CacheEntry>::empty());
        }
        r
    }

    /// The cached record for a key, if one was inserted at most
    /// `CACHE_TTL_SECONDS` before `now`. `None` means the caller must
    /// fetch; a stale entry is never returned.
    pub fn lookup(&self, store: &str, id: &str, now: i64) -> (r: Option<ItemInfo>)
        requires
            self.wf(),
        ensures
            r == spec_cache_lookup(self.view_map(), store@, id@, now as int),
    {
        let n = self.entries.len();
        let mut i: usize = 0;
        while i < n
            invariant
                self.wf(),
                n == self.spec_entries().len(),
                i <= n,
                forall|k: int|
                    0 <= k < i ==> spec_entry_key(#[trigger] self.spec_entries()[k]) != (
                    store@,
                    id@,
                ),
            decreases n - i,
        {
            let e = &self.entries[i];
            if eqStr(e.store.as_str(), store) && eqStr(e.id.as_str(), id) {
                proof {
                    lemma_cache_map_found(self.spec_entries(), i as int);
                }
                let age: i128 = (now as i128) - (e.cachedAt as i128);
                if age <= CACHE_TTL_SECONDS as i128 {
                    return Some(e.item.clone());
                } else {
                    return None;
                }
            }
            i = i + 1;
        }
        proof {
            lemma_cache_map_absent(self.spec_entries(), (store@, id@));
        }
        None
    }

    /// Inserts or overwrites the record for the item's own key, stamped
    /// with the given time.
    pub fn insert(&mut self, item: &ItemInfo, now: i64)
        requires
            old(self).wf(),
        ensures
            final(self).wf(),
            final(self).view_map() == old(self).view_map().insert(
                (item.store@, item.id@),
                (CacheEntry { store: item.store, id: item.id, item: *item, cachedAt: now }),
            ),
    {
        let e = CacheEntry {
            store: item.store.clone(),
            id: item.id.clone(),
            item: item.clone(),
            cachedAt: now,
        };
        let n = self.entries.len();
        let mut i: usize = 0;
        while i < n
            invariant
                old(self).wf(),
                *self == *old(self),
                e.store@ == item.store@,
                e.id@ == item.id@,
                n == self.spec_entries().len(),
                i <= n,
                e == (CacheEntry { store: item.store, id: item.id, item: *item, cachedAt: now }),
                forall|k: int|
                    0 <= k < i ==> spec_entry_key(#[trigger] self.spec_entries()[k]) != (
                    item.store@,
                    item.id@,
                ),
            decreases n - i,
        {
            let hit = {
                let cur = &self.entries[i];
                eqStr(cur.store.as_str(), item.store.as_str()) && eqStr(
                    cur.id.as_str(),
                    item.id.as_str(),
                )
            };
            if hit {
                let ghost pre = self.spec_entries();
                proof {
                    lemma_cache_map_update(pre, i as int, e);
                }
                self.entries[i] = e;
                proof {
                    assert(self.spec_entries() == pre.update(i as int, e));
                    assert(forall|k: int|
                        0 <= k < self.spec_entries().len() ==> spec_entry_key(
                            #[trigger] self.spec_entries()[k],
                        ) == spec_entry_key(pre[k]));
                }
                return ;
            }
            i = i + 1;
        }
        proof {
            let pushed = self.spec_entries().push(e);
            assert(pushed.drop_last() =~= self.spec_entries());
            assert(pushed.last() == e);
        }
        self.entries.push(e);
    }
}

/// What a cache read yields at time `now`: the record inserted for the
/// key, if it is at most `CACHE_TTL_SECONDS` old; nothing otherwise.
pub open spec fn spec_cache_lookup(
    m: Map<(Seq<char>, Seq<char>), CacheEntry>,
    store: Seq<char>,
    id: Seq<char>,
    now: int,
) -> Option<ItemInfo> {
    if m.contains_key((store, id)) && now - m[(store, id)].cachedAt <= CACHE_TTL_SECONDS as int {
        Some(m[(store, id)].item)
    } else {
        None
    }
}

/// Freshness: a record inserted at time `t` is returned by every lookup
/// at a time `t2` with `t2 - t <= CACHE_TTL_SECONDS` and by none with
/// `t2 - t > CACHE_TTL_SECONDS` — the latter is exactly when the caller
/// fetches.
pub proof fn lemma_cache_freshness(c: RefreshCache, item: ItemInfo, t: i64, t2: i64)
    ensures
        ({
            let m = c.view_map().insert(
                (item.store@, item.id@),
                (CacheEntry { store: item.store, id: item.id, item: item, cachedAt: t }),
            );
            &&& t2 - t <= CACHE_TTL_SECONDS ==> spec_cache_lookup(m, item.store@, item.id@, t2 as int)
                == Some(item)
            &&& t2 - t > CACHE_TTL_SECONDS ==> spec_cache_lookup(m, item.store@, item.id@, t2 as int)
                is None
        }),
{
}

} // verus!
