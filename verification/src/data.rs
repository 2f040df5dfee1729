//! The item repository: tracked items and their append-only price history.
//!
//! The repository deduplicates items by their composite key and never
//! mutates history, only appends to it. Durable storage sits outside the
//! core; this is the in-memory store of record the core reasons about.
use vstd::prelude::*;

use crate::clock;
use crate::error::Error;
use crate::store::ItemInfo;
use crate::strutil::eqStr;

verus! {

/// Composite identity of a tracked item: store name plus the item's
/// storefront-specific id.
pub struct ItemKey {
    pub store: String,
    pub id: String,
}

impl ItemKey {
    pub fn fromItem(item: &ItemInfo) -> (r: Self)
        ensures
            r.store == item.store,
            r.id == item.id,
    {
        ItemKey { store: item.store.clone(), id: item.id.clone() }
    }
}

impl Clone for ItemKey {
    fn clone(&self) -> (r: Self)
        ensures
            r == *self,
    {
        ItemKey { store: self.store.clone(), id: self.id.clone() }
    }
}

/// One tracked item, as the wishlist table stores it.
pub struct WishlistRow {
    pub internal_id: i64,
    pub store: String,
    pub id: String,
    pub name: String,
    pub url: String,
}

impl Clone for WishlistRow {
    fn clone(&self) -> (r: Self)
        ensures
            r == *self,
    {
        WishlistRow {
            internal_id: self.internal_id,
            store: self.store.clone(),
            id: self.id.clone(),
            name: self.name.clone(),
            url: self.url.clone(),
        }
    }
}

/// One observed price sample. `item_id` references the wishlist row the
/// sample was taken for; the key is stored alongside for direct lookup.
pub struct PricePoint {
    pub time: i64,
    pub price: i64,
    pub price_str: String,
    pub store: String,
    pub id: String,
    pub item_id: i64,
}

impl Clone for PricePoint {
    fn clone(&self) -> (r: Self)
        ensures
            r == *self,
    {
        PricePoint {
            time: self.time,
            price: self.price,
            price_str: self.price_str.clone(),
            store: self.store.clone(),
            id: self.id.clone(),
            item_id: self.item_id,
        }
    }
}

pub open spec fn spec_row_has_key(r: WishlistRow, store: Seq<char>, id: Seq<char>) -> bool {
    r.store@ == store && r.id@ == id
}

pub open spec fn spec_has_key(rows: Seq<WishlistRow>, store: Seq<char>, id: Seq<char>) -> bool {
    exists|i: int| 0 <= i < rows.len() && spec_row_has_key(#[trigger] rows[i], store, id)
}

/// How many rows carry the given key.
pub open spec fn spec_key_count(rows: Seq<WishlistRow>, store: Seq<char>, id: Seq<char>) -> int
    decreases rows.len(),
{
    if rows.len() == 0 {
        0
    } else {
        spec_key_count(rows.drop_last(), store, id) + if spec_row_has_key(
            rows.last(),
            store,
            id,
        ) {
            1int
        } else {
            0int
        }
    }
}

/// The wishlist row `addItem` inserts for an item.
pub open spec fn spec_row_for(item: ItemInfo, iid: i64) -> WishlistRow {
    WishlistRow {
        internal_id: iid,
        store: item.store,
        id: item.id,
        name: item.name,
        url: item.url,
    }
}

/// The price row `addPrice` appends for an item at a given time.
pub open spec fn spec_point_for(item: ItemInfo, t: i64, iid: i64) -> PricePoint {
    PricePoint {
        time: t,
        price: item.price,
        price_str: item.price_str,
        store: item.store,
        id: item.id,
        item_id: iid,
    }
}

/// What tracking an item does to the wishlist: nothing if the key is
/// already present, otherwise one appended row under a fresh internal id.
pub open spec fn spec_add_item(rows: Seq<WishlistRow>, next_id: int, item: ItemInfo) -> (
    Seq<WishlistRow>,
    int,
) {
    if spec_has_key(rows, item.store@, item.id@) {
        (rows, next_id)
    } else {
        (rows.push(spec_row_for(item, next_id as i64)), next_id + 1)
    }
}

/// The in-memory store of record for tracked items and price history.
pub struct DataManager {
    rows: Vec<WishlistRow>,
    prices: Vec<PricePoint>,
    next_id: i64,
}

impl DataManager {
    pub closed spec fn spec_rows(&self) -> Seq<WishlistRow> {
        self.rows@
    }

    pub closed spec fn spec_prices(&self) -> Seq<PricePoint> {
        self.prices@
    }

    pub closed spec fn spec_next_id(&self) -> int {
        self.next_id as int
    }

    /// Internal ids are positive, strictly increasing with row order, all
    /// below the next free id, and no key occurs on two rows.
    pub open spec fn wf(&self) -> bool {
        &&& 1 <= self.spec_next_id() <= i64::MAX
        &&& forall|i: int, j: int|
            0 <= i < j < self.spec_rows().len() ==> (#[trigger] self.spec_rows()[i].internal_id)
                < (#[trigger] self.spec_rows()[j].internal_id)
        &&& forall|i: int|
            0 <= i < self.spec_rows().len() ==> (#[trigger] self.spec_rows()[i].internal_id)
                < self.spec_next_id()
        &&& forall|i: int, j: int|
            0 <= i < j < self.spec_rows().len() ==> !spec_row_has_key(
                #[trigger] self.spec_rows()[j],
                (#[trigger] self.spec_rows()[i]).store@,
                self.spec_rows()[i].id@,
            )
    }

    /// An empty repository.
    pub fn new() -> (r: Self)
        ensures
            r.wf(),
            r.spec_rows() == Seq::<WishlistRow>::empty(),
            r.spec_prices() == Seq::<PricePoint>::empty(),
            r.spec_next_id() == 1,
    {
        let r = DataManager { rows: Vec::new(), prices: Vec::new(), next_id: 1 };
        proof {
            assert(r.spec_rows() =~= Seq::<WishlistRow>::empty());
            assert(r.spec_prices() =~= Seq::<PricePoint>::empty());
        }
        r
    }

    /// The internal id of the row with the given key, if one is tracked.
    pub fn findItem(&self, key: ItemKey) -> (r: Result<Option<i64>, Error>)
        requires
            self.wf(),
        ensures
            match r {
                Ok(Some(iid)) => exists|i: int|
                    0 <= i < self.spec_rows().len() && spec_row_has_key(
                        #[trigger] self.spec_rows()[i],
                        key.store@,
                        key.id@,
                    ) && self.spec_rows()[i].internal_id == iid,
                Ok(None) => !spec_has_key(self.spec_rows(), key.store@, key.id@),
                Err(_) => false,
            },
    {
        let n = self.rows.len();
        let mut i: usize = 0;
        while i < n
            invariant
                n == self.spec_rows().len(),
                i <= n,
                forall|k: int|
                    0 <= k < i ==> !spec_row_has_key(
                        #[trigger] self.spec_rows()[k],
                        key.store@,
                        key.id@,
                    ),
            decreases n - i,
        {
            let row = &self.rows[i];
            if eqStr(row.store.as_str(), key.store.as_str()) && eqStr(
                row.id.as_str(),
                key.id.as_str(),
            ) {
                return Ok(Some(row.internal_id));
            }
            i = i + 1;
        }
        Ok(None)
    }

    /// Tracks an item: inserts a wishlist row if the key is absent, and is
    /// a no-op — not an error — if it is already present.
    pub fn addItem(&mut self, item: &ItemInfo) -> (r: Result<(), Error>)
        requires
            old(self).wf(),
        ensures
            final(self).wf(),
            final(self).spec_prices() == old(self).spec_prices(),
            match r {
                Ok(()) => (final(self).spec_rows(), final(self).spec_next_id()) == spec_add_item(
                    old(self).spec_rows(),
                    old(self).spec_next_id(),
                    *item,
                ),
                Err(e) => {
                    &&& *final(self) == *old(self)
                    &&& e is DataError
                    &&& old(self).spec_next_id() == i64::MAX
                    &&& !spec_has_key(old(self).spec_rows(), item.store@, item.id@)
                },
            },
    {
        let found = match self.findItem(ItemKey::fromItem(item))? {
            Some(_) => true,
            None => false,
        };
        if found {
            return Ok(());
        }
        if self.next_id == i64::MAX {
            return Err(Error::DataError(String::from_str("Item id space exhausted")));
        }
        let row = WishlistRow {
            internal_id: self.next_id,
            store: item.store.clone(),
            id: item.id.clone(),
            name: item.name.clone(),
            url: item.url.clone(),
        };
        assert(row == spec_row_for(*item, self.next_id));
        let ghost old_rows = self.rows@;
        self.rows.push(row);
        self.next_id = self.next_id + 1;
        proof {
            assert forall|i: int, j: int| 0 <= i < j < self.spec_rows().len() implies
                !spec_row_has_key(
                    self.spec_rows()[j],
                    self.spec_rows()[i].store@,
                    self.spec_rows()[i].id@,
                ) by {
                if j == old_rows.len() {
                    assert(!spec_row_has_key(old_rows[i], item.store@, item.id@));
                }
            }
        }
        Ok(())
    }

    /// Appends one price sample, stamped with the given time, for an item
    /// that must already be tracked; fails with `NotFoundError` otherwise.
    pub fn addPriceAt(&mut self, item: &ItemInfo, time: i64) -> (r: Result<(), Error>)
        requires
            old(self).wf(),
        ensures
            final(self).wf(),
            final(self).spec_rows() == old(self).spec_rows(),
            final(self).spec_next_id() == old(self).spec_next_id(),
            match r {
                Ok(()) => exists|i: int|
                    0 <= i < final(self).spec_rows().len() && spec_row_has_key(
                        #[trigger] final(self).spec_rows()[i],
                        item.store@,
                        item.id@,
                    ) && final(self).spec_prices() == old(self).spec_prices().push(
                        spec_point_for(*item, time, final(self).spec_rows()[i].internal_id),
                    ),
                Err(e) => {
                    &&& *final(self) == *old(self)
                    &&& e is NotFoundError
                    &&& !spec_has_key(final(self).spec_rows(), item.store@, item.id@)
                },
            },
    {
        let iid = match self.findItem(ItemKey::fromItem(item))? {
            Some(iid) => iid,
            None => {
                return Err(Error::NotFoundError(String::from_str("Unknown item")));
            },
        };
        let point = PricePoint {
            time,
            price: item.price,
            price_str: item.price_str.clone(),
            store: item.store.clone(),
            id: item.id.clone(),
            item_id: iid,
        };
        self.prices.push(point);
        Ok(())
    }

    /// Appends one price sample stamped with the current wall-clock time.
    pub fn addPrice(&mut self, item: &ItemInfo) -> (r: Result<(), Error>)
        requires
            old(self).wf(),
        ensures
            final(self).wf(),
            final(self).spec_rows() == old(self).spec_rows(),
            final(self).spec_next_id() == old(self).spec_next_id(),
            match r {
                Ok(()) => exists|t: i64, i: int|
                    0 <= i < final(self).spec_rows().len() && spec_row_has_key(
                        final(self).spec_rows()[i],
                        item.store@,
                        item.id@,
                    ) && final(self).spec_prices() == old(self).spec_prices().push(
                        #[trigger] spec_point_for(*item, t, final(self).spec_rows()[i].internal_id),
                    ),
                Err(e) => {
                    &&& *final(self) == *old(self)
                    &&& e is NotFoundError
                    &&& !spec_has_key(final(self).spec_rows(), item.store@, item.id@)
                },
            },
    {
        let t = clock::nowSeconds();
        self.addPriceAt(item, t)
    }
}

pub open spec fn spec_point_has_key(p: PricePoint, store: Seq<char>, id: Seq<char>) -> bool {
    p.store@ == store && p.id@ == id
}

/// The price samples carrying the given key, in stored (appended) order.
pub open spec fn spec_points_for(prices: Seq<PricePoint>, store: Seq<char>, id: Seq<char>) -> Seq<
    PricePoint,
>
    decreases prices.len(),
{
    if prices.len() == 0 {
        Seq::empty()
    } else {
        let rest = spec_points_for(prices.drop_last(), store, id);
        if spec_point_has_key(prices.last(), store, id) {
            rest.push(prices.last())
        } else {
            rest
        }
    }
}

/// Inserts a sample into a time-ordered sequence, after every sample with
/// the same or an earlier time.
pub open spec fn spec_insert_by_time(p: PricePoint, s: Seq<PricePoint>) -> Seq<PricePoint>
    decreases s.len(),
{
    if s.len() == 0 {
        seq![p]
    } else if s.last().time <= p.time {
        s.push(p)
    } else {
        spec_insert_by_time(p, s.drop_last()).push(s.last())
    }
}

/// Stable sort by time: samples with equal times keep their stored order.
pub open spec fn spec_sorted_by_time(s: Seq<PricePoint>) -> Seq<PricePoint>
    decreases s.len(),
{
    if s.len() == 0 {
        Seq::empty()
    } else {
        spec_insert_by_time(s.last(), spec_sorted_by_time(s.drop_last()))
    }
}

pub open spec fn spec_time_ordered(s: Seq<PricePoint>) -> bool {
    forall|i: int, j: int| 0 <= i < j < s.len() ==> (#[trigger] s[i]).time <= (#[trigger] s[j]).time
}

proof fn lemma_insert_by_time_bound(p: PricePoint, s: Seq<PricePoint>, t: int)
    requires
        p.time <= t,
        forall|k: int| 0 <= k < s.len() ==> (#[trigger] s[k]).time <= t,
    ensures
        spec_insert_by_time(p, s).len() == s.len() + 1,
        forall|k: int|
            0 <= k < spec_insert_by_time(p, s).len() ==> (#[trigger] spec_insert_by_time(p, s)[k]).time
                <= t,
    decreases s.len(),
{
    if s.len() == 0 {
    } else if s.last().time <= p.time {
    } else {
        assert(forall|k: int|
            0 <= k < s.drop_last().len() ==> (#[trigger] s.drop_last()[k]).time <= t);
        lemma_insert_by_time_bound(p, s.drop_last(), t);
    }
}

proof fn lemma_insert_by_time_ordered(p: PricePoint, s: Seq<PricePoint>)
    requires
        spec_time_ordered(s),
    ensures
        spec_time_ordered(spec_insert_by_time(p, s)),
        spec_insert_by_time(p, s).len() == s.len() + 1,
    decreases s.len(),
{
    if s.len() == 0 {
    } else if s.last().time <= p.time {
        assert(forall|k: int| 0 <= k < s.len() ==> (#[trigger] s[k]).time <= p.time);
    } else {
        let prefix = s.drop_last();
        assert(spec_time_ordered(prefix)) by {
            assert(forall|k: int| 0 <= k < prefix.len() ==> #[trigger] prefix[k] == s[k]);
        }
        lemma_insert_by_time_ordered(p, prefix);
        assert(forall|k: int| 0 <= k < prefix.len() ==> (#[trigger] prefix[k]).time
            <= s.last().time);
        lemma_insert_by_time_bound(p, prefix, s.last().time as int);
        let r = spec_insert_by_time(p, prefix).push(s.last());
        assert(forall|i: int, j: int|
            0 <= i < j < r.len() ==> (#[trigger] r[i]).time <= (#[trigger] r[j]).time) by {
            assert(forall|i: int|
                0 <= i < spec_insert_by_time(p, prefix).len() ==> (#[trigger] r[i]).time
                    == spec_insert_by_time(p, prefix)[i].time);
        }
    }
}

/// Price history is returned in non-decreasing time order: the stable sort
/// by time yields a time-ordered sequence, whatever order the samples were
/// stored in.
pub proof fn lemma_priceHistory_ordered(s: Seq<PricePoint>)
    ensures
        spec_time_ordered(spec_sorted_by_time(s)),
        spec_sorted_by_time(s).len() == s.len(),
    decreases s.len(),
{
    if s.len() > 0 {
        lemma_priceHistory_ordered(s.drop_last());
        lemma_insert_by_time_ordered(s.last(), spec_sorted_by_time(s.drop_last()));
    }
}

proof fn lemma_insert_by_time_multiset(p: PricePoint, s: Seq<PricePoint>)
    ensures
        spec_insert_by_time(p, s).to_multiset() == s.to_multiset().insert(p),
    decreases s.len(),
{
    broadcast use vstd::seq_lib::group_to_multiset_ensures;

    if s.len() == 0 {
        assert(s.push(p) =~= seq![p]);
        assert(s.push(p).to_multiset() =~= s.to_multiset().insert(p));
    } else if s.last().time <= p.time {
        assert(s.push(p).to_multiset() =~= s.to_multiset().insert(p));
    } else {
        let prefix = s.drop_last();
        lemma_insert_by_time_multiset(p, prefix);
        let inner = spec_insert_by_time(p, prefix);
        assert(inner.push(s.last()).to_multiset() =~= inner.to_multiset().insert(s.last()));
        assert(s =~= prefix.push(s.last()));
        assert(prefix.push(s.last()).to_multiset() =~= prefix.to_multiset().insert(s.last()));
        assert(prefix.to_multiset().insert(p).insert(s.last()) =~= prefix.to_multiset().insert(
            s.last(),
        ).insert(p));
    }
}

/// The sorted history holds exactly the stored samples for the key:
/// sorting by time neither drops nor invents a sample.
pub proof fn lemma_priceHistory_complete(s: Seq<PricePoint>)
    ensures
        spec_sorted_by_time(s).to_multiset() == s.to_multiset(),
    decreases s.len(),
{
    broadcast use vstd::seq_lib::group_to_multiset_ensures;

    if s.len() > 0 {
        let prefix = s.drop_last();
        lemma_priceHistory_complete(prefix);
        lemma_insert_by_time_multiset(s.last(), spec_sorted_by_time(prefix));
        assert(s =~= prefix.push(s.last()));
        assert(prefix.push(s.last()).to_multiset() =~= prefix.to_multiset().insert(s.last()));
    }
}

proof fn lemma_insert_at_pos(p: PricePoint, s: Seq<PricePoint>, pos: int)
    requires
        0 <= pos <= s.len(),
        forall|k: int| pos <= k < s.len() ==> (#[trigger] s[k]).time > p.time,
        pos > 0 ==> s[pos - 1].time <= p.time,
    ensures
        spec_insert_by_time(p, s) == s.insert(pos, p),
    decreases s.len(),
{
    if s.len() == 0 {
        assert(spec_insert_by_time(p, s) =~= s.insert(0, p));
    } else if pos == s.len() {
        assert(s.last().time <= p.time);
        assert(s.push(p) =~= s.insert(pos, p));
    } else {
        assert(s[s.len() - 1].time > p.time);
        let prefix = s.drop_last();
        assert(forall|k: int| pos <= k < prefix.len() ==> (#[trigger] prefix[k]).time > p.time)
            by {
            assert(forall|k: int| 0 <= k < prefix.len() ==> #[trigger] prefix[k] == s[k]);
        }
        if pos > 0 {
            assert(prefix[pos - 1] == s[pos - 1]);
        }
        lemma_insert_at_pos(p, prefix, pos);
        assert(prefix.insert(pos, p).push(s.last()) =~= s.insert(pos, p));
    }
}

/// The listed form of one tracked row: identity and naming from the
/// wishlist row, price fields and the update stamp joined in from the
/// most recent sample for that row, bare fields when the row has no
/// history yet. Carrying the sample's time as `last_update` lets the
/// batch updater gate on when the price was really observed.
pub open spec fn spec_listed_item(it: ItemInfo, row: WishlistRow, prices: Seq<PricePoint>) -> bool {
    &&& it.store == row.store
    &&& it.id == row.id
    &&& it.name == row.name
    &&& it.url == row.url
    &&& it.alert_price is None
    &&& it.update_interval is None
    &&& match spec_latest(prices, row.internal_id) {
        Some(p) => it.price == p.price && it.price_str == p.price_str && it.last_update
            == p.time,
        None => it.price == 0 && it.price_str@ == Seq::<char>::empty() && it.last_update == 0,
    }
}

/// The most recent sample stored for a wishlist row, by time; among equal
/// times, the one appended last.
pub open spec fn spec_latest(prices: Seq<PricePoint>, item_id: i64) -> Option<PricePoint>
    decreases prices.len(),
{
    if prices.len() == 0 {
        None
    } else {
        let prev = spec_latest(prices.drop_last(), item_id);
        let p = prices.last();
        if p.item_id == item_id && (prev is None || prev->Some_0.time <= p.time) {
            Some(p)
        } else {
            prev
        }
    }
}

/// What a listing joins in is genuinely the most recent sample: the
/// chosen sample carries the row's id, stands in the stored history, and
/// no stored sample for that row is later; nothing is chosen exactly when
/// no stored sample carries the id.
pub proof fn lemma_latest_is_most_recent(prices: Seq<PricePoint>, item_id: i64)
    ensures
        match spec_latest(prices, item_id) {
            Some(p) => {
                &&& p.item_id == item_id
                &&& exists|k: int| 0 <= k < prices.len() && #[trigger] prices[k] == p
                &&& forall|k: int|
                    0 <= k < prices.len() && (#[trigger] prices[k]).item_id == item_id
                        ==> prices[k].time <= p.time
            },
            None => forall|k: int|
                0 <= k < prices.len() ==> (#[trigger] prices[k]).item_id != item_id,
        },
    decreases prices.len(),
{
    if prices.len() > 0 {
        let prefix = prices.drop_last();
        lemma_latest_is_most_recent(prefix, item_id);
        assert(prices[prices.len() - 1] == prices.last());
        match spec_latest(prices, item_id) {
            Some(p) => {
                match spec_latest(prefix, item_id) {
                    Some(q) => {
                        let kk = choose|k: int|
                            0 <= k < prefix.len() && #[trigger] prefix[k] == q;
                        assert(prices[kk] == q);
                    },
                    None => {},
                }
                assert forall|k: int|
                    0 <= k < prices.len() && (#[trigger] prices[k]).item_id == item_id implies
                    prices[k].time <= p.time by {
                    if k < prices.len() - 1 {
                        assert(prefix[k] == prices[k]);
                    }
                }
            },
            None => {
                assert forall|k: int| 0 <= k < prices.len() implies (#[trigger] prices[k]).item_id
                    != item_id by {
                    if k < prices.len() - 1 {
                        assert(prefix[k] == prices[k]);
                    }
                }
            },
        }
    }
}

fn latestPrice(prices: &Vec<PricePoint>, item_id: i64) -> (r: Option<PricePoint>)
    ensures
        r == spec_latest(prices@, item_id),
{
    let mut best: Option<PricePoint> = None;
    let mut j: usize = 0;
    proof {
        assert(prices@.subrange(0, 0) =~= Seq::<PricePoint>::empty());
    }
    while j < prices.len()
        invariant
            j <= prices@.len(),
            best == spec_latest(prices@.subrange(0, j as int), item_id),
        decreases prices@.len() - j,
    {
        proof {
            assert(prices@.subrange(0, (j + 1) as int).drop_last() =~= prices@.subrange(
                0,
                j as int,
            ));
            assert(prices@.subrange(0, (j + 1) as int).last() == prices@[j as int]);
        }
        let p = &prices[j];
        let replace = p.item_id == item_id && (match &best {
            Option::None => true,
            Option::Some(b) => b.time <= p.time,
        });
        if replace {
            best = Some(p.clone());
        }
        j = j + 1;
    }
    proof {
        assert(prices@.subrange(0, prices@.len() as int) =~= prices@);
    }
    best
}

impl DataManager {
    /// Lists every tracked item, in tracking order, joining in the price
    /// and time of its most recent sample; items with no history yet
    /// surface bare.
    pub fn getItems(&self) -> (r: Result<Vec<ItemInfo>, Error>)
        requires
            self.wf(),
        ensures
            match r {
                Ok(items) => {
                    &&& items@.len() == self.spec_rows().len()
                    &&& forall|i: int|
                        0 <= i < items@.len() ==> spec_listed_item(
                            #[trigger] items@[i],
                            self.spec_rows()[i],
                            self.spec_prices(),
                        )
                },
                Err(_) => false,
            },
    {
        let mut items: Vec<ItemInfo> = Vec::new();
        let mut i: usize = 0;
        while i < self.rows.len()
            invariant
                self.wf(),
                i <= self.spec_rows().len(),
                items@.len() == i,
                forall|k: int|
                    0 <= k < i ==> spec_listed_item(
                        #[trigger] items@[k],
                        self.spec_rows()[k],
                        self.spec_prices(),
                    ),
            decreases self.spec_rows().len() - i,
        {
            let row = &self.rows[i];
            let (price, price_str, last_update) = match latestPrice(&self.prices, row.internal_id) {
                Some(p) => (p.price, p.price_str, p.time),
                None => (0i64, String::new(), 0i64),
            };
            let it = ItemInfo {
                name: row.name.clone(),
                store: row.store.clone(),
                id: row.id.clone(),
                url: row.url.clone(),
                price,
                price_str,
                alert_price: None,
                update_interval: None,
                last_update,
            };
            items.push(it);
            i = i + 1;
        }
        Ok(items)
    }

    /// All samples for the key, ordered by time ascending; samples with
    /// equal times keep their stored order. Samples orphaned by an earlier
    /// removal of the key still surface, deliberately.
    pub fn priceHistory(&self, key: ItemKey) -> (r: Result<Vec<PricePoint>, Error>)
        requires
            self.wf(),
        ensures
            match r {
                Ok(pts) => pts@ == spec_sorted_by_time(
                    spec_points_for(self.spec_prices(), key.store@, key.id@),
                ),
                Err(_) => false,
            },
    {
        let mut out: Vec<PricePoint> = Vec::new();
        let mut i: usize = 0;
        proof {
            assert(self.spec_prices().subrange(0, 0) =~= Seq::<PricePoint>::empty());
        }
        while i < self.prices.len()
            invariant
                i <= self.spec_prices().len(),
                self.spec_prices() == self.prices@,
                out@ == spec_sorted_by_time(
                    spec_points_for(
                        self.spec_prices().subrange(0, i as int),
                        key.store@,
                        key.id@,
                    ),
                ),
            decreases self.spec_prices().len() - i,
        {
            proof {
                assert(self.spec_prices().subrange(0, (i + 1) as int).drop_last()
                    =~= self.spec_prices().subrange(0, i as int));
                assert(self.spec_prices().subrange(0, (i + 1) as int).last()
                    == self.spec_prices()[i as int]);
            }
            let p = &self.prices[i];
            if eqStr(p.store.as_str(), key.store.as_str()) && eqStr(
                p.id.as_str(),
                key.id.as_str(),
            ) {
                let cp = p.clone();
                let ghost pre = out@;
                let mut pos: usize = out.len();
                while pos > 0 && out[pos - 1].time > cp.time
                    invariant
                        pos <= out@.len(),
                        out@ == pre,
                        forall|k: int|
                            pos <= k < out@.len() ==> (#[trigger] out@[k]).time > cp.time,
                    decreases pos,
                {
                    pos = pos - 1;
                }
                proof {
                    lemma_insert_at_pos(cp, pre, pos as int);
                    let pts0 = spec_points_for(
                        self.spec_prices().subrange(0, i as int),
                        key.store@,
                        key.id@,
                    );
                    assert(pts0.push(cp).drop_last() =~= pts0);
                    assert(pts0.push(cp).last() == cp);
                }
                out.insert(pos, cp);
            }
            i = i + 1;
        }
        proof {
            assert(self.spec_prices().subrange(0, self.spec_prices().len() as int)
                =~= self.spec_prices());
        }
        Ok(out)
    }

    /// Untracks the item with the given key, if tracked; a no-op when the
    /// key is unknown. Its price history is deliberately kept: history is
    /// never deleted by the core, so the samples are orphaned and still
    /// surface in `priceHistory`.
    pub fn removeItem(&mut self, key: ItemKey) -> (r: Result<(), Error>)
        requires
            old(self).wf(),
        ensures
            final(self).wf(),
            final(self).spec_prices() == old(self).spec_prices(),
            final(self).spec_next_id() == old(self).spec_next_id(),
            r is Ok,
            if spec_has_key(old(self).spec_rows(), key.store@, key.id@) {
                exists|i: int|
                    0 <= i < old(self).spec_rows().len() && spec_row_has_key(
                        #[trigger] old(self).spec_rows()[i],
                        key.store@,
                        key.id@,
                    ) && final(self).spec_rows() == old(self).spec_rows().remove(i)
            } else {
                final(self).spec_rows() == old(self).spec_rows()
            },
    {
        let n = self.rows.len();
        let mut i: usize = 0;
        while i < n
            invariant
                old(self).wf(),
                *self == *old(self),
                n == self.spec_rows().len(),
                i <= n,
                forall|k: int|
                    0 <= k < i ==> !spec_row_has_key(
                        #[trigger] self.spec_rows()[k],
                        key.store@,
                        key.id@,
                    ),
            decreases n - i,
        {
            let hit = {
                let row = &self.rows[i];
                eqStr(row.store.as_str(), key.store.as_str()) && eqStr(
                    row.id.as_str(),
                    key.id.as_str(),
                )
            };
            if hit {
                let ghost pre = self.rows@;
                self.rows.remove(i);
                proof {
                    assert(forall|k: int|
                        0 <= k < pre.remove(i as int).len() ==> #[trigger] pre.remove(
                            i as int,
                        )[k] == (if k < i { pre[k] } else { pre[k + 1] }));
                }
                return Ok(());
            }
            i = i + 1;
        }
        Ok(())
    }
}

/// Tracking the same key twice leaves the wishlist exactly as one tracking
/// left it: `spec_add_item` is idempotent.
pub proof fn lemma_addItem_idempotent(rows: Seq<WishlistRow>, next_id: int, item: ItemInfo)
    ensures
        ({
            let (r1, n1) = spec_add_item(rows, next_id, item);
            spec_add_item(r1, n1, item) == (r1, n1)
        }),
{
    if !spec_has_key(rows, item.store@, item.id@) {
        let r1 = rows.push(spec_row_for(item, next_id as i64));
        assert(spec_row_has_key(r1[rows.len() as int], item.store@, item.id@));
        assert(spec_has_key(r1, item.store@, item.id@));
    }
}

proof fn lemma_key_count_push(rows: Seq<WishlistRow>, r: WishlistRow, store: Seq<char>, id: Seq<char>)
    ensures
        spec_key_count(rows.push(r), store, id) == spec_key_count(rows, store, id)
            + if spec_row_has_key(r, store, id) { 1int } else { 0int },
{
    assert(rows.push(r).drop_last() =~= rows);
    assert(rows.push(r).last() == r);
}

proof fn lemma_key_count_zero_when_absent(rows: Seq<WishlistRow>, store: Seq<char>, id: Seq<char>)
    requires
        !spec_has_key(rows, store, id),
    ensures
        spec_key_count(rows, store, id) == 0,
    decreases rows.len(),
{
    if rows.len() > 0 {
        assert(!spec_has_key(rows.drop_last(), store, id)) by {
            assert(forall|i: int|
                0 <= i < rows.drop_last().len() ==> #[trigger] rows.drop_last()[i] == rows[i]);
        }
        lemma_key_count_zero_when_absent(rows.drop_last(), store, id);
        assert(!spec_row_has_key(rows.last(), store, id)) by {
            assert(rows[rows.len() - 1] == rows.last());
        }
    }
}

proof fn lemma_key_count_at_most_one(rows: Seq<WishlistRow>, store: Seq<char>, id: Seq<char>)
    requires
        forall|i: int, j: int|
            0 <= i < j < rows.len() ==> !spec_row_has_key(
                #[trigger] rows[j],
                (#[trigger] rows[i]).store@,
                rows[i].id@,
            ),
    ensures
        spec_key_count(rows, store, id) <= 1,
    decreases rows.len(),
{
    if rows.len() > 0 {
        let prefix = rows.drop_last();
        assert(forall|i: int, j: int|
            0 <= i < j < prefix.len() ==> !spec_row_has_key(
                #[trigger] prefix[j],
                (#[trigger] prefix[i]).store@,
                prefix[i].id@,
            )) by {
            assert(forall|i: int| 0 <= i < prefix.len() ==> #[trigger] prefix[i] == rows[i]);
        }
        lemma_key_count_at_most_one(prefix, store, id);
        if spec_row_has_key(rows.last(), store, id) {
            assert(!spec_has_key(prefix, store, id)) by {
                if spec_has_key(prefix, store, id) {
                    let i = choose|i: int|
                        0 <= i < prefix.len() && spec_row_has_key(
                            #[trigger] prefix[i],
                            store,
                            id,
                        );
                    assert(rows[i] == prefix[i]);
                    assert(spec_row_has_key(rows[rows.len() - 1], rows[i].store@, rows[i].id@));
                }
            }
            lemma_key_count_zero_when_absent(prefix, store, id);
        }
    }
}

/// Tracking an item leaves exactly one wishlist row with its key, whether
/// or not the key was already tracked.
pub proof fn lemma_addItem_leaves_one_row(rows: Seq<WishlistRow>, next_id: int, item: ItemInfo)
    requires
        forall|i: int, j: int|
            0 <= i < j < rows.len() ==> !spec_row_has_key(
                #[trigger] rows[j],
                (#[trigger] rows[i]).store@,
                rows[i].id@,
            ),
    ensures
        spec_key_count(spec_add_item(rows, next_id, item).0, item.store@, item.id@) == 1,
{
    if spec_has_key(rows, item.store@, item.id@) {
        lemma_key_count_at_most_one(rows, item.store@, item.id@);
        lemma_key_count_at_least_one(rows, item.store@, item.id@);
    } else {
        lemma_key_count_zero_when_absent(rows, item.store@, item.id@);
        lemma_key_count_push(rows, spec_row_for(item, next_id as i64), item.store@, item.id@);
    }
}

proof fn lemma_key_count_at_least_one(rows: Seq<WishlistRow>, store: Seq<char>, id: Seq<char>)
    requires
        spec_has_key(rows, store, id),
    ensures
        spec_key_count(rows, store, id) >= 1,
    decreases rows.len(),
{
    if rows.len() > 0 {
        if spec_row_has_key(rows.last(), store, id) {
            lemma_key_count_nonneg(rows.drop_last(), store, id);
        } else {
            assert(spec_has_key(rows.drop_last(), store, id)) by {
                let i = choose|i: int|
                    0 <= i < rows.len() && spec_row_has_key(#[trigger] rows[i], store, id);
                assert(i < rows.len() - 1);
                assert(rows.drop_last()[i] == rows[i]);
            }
            lemma_key_count_at_least_one(rows.drop_last(), store, id);
        }
    }
}

proof fn lemma_key_count_nonneg(rows: Seq<WishlistRow>, store: Seq<char>, id: Seq<char>)
    ensures
        spec_key_count(rows, store, id) >= 0,
    decreases rows.len(),
{
    if rows.len() > 0 {
        lemma_key_count_nonneg(rows.drop_last(), store, id);
    }
}

} // verus!
