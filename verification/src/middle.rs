//! Decision logic of the batch price updater: which tracked items are due
//! for a refetch, what to do with each fetch outcome, and the alert text.
//!
//! The outer loop — fetching, logging, persisting — performs I/O and lives
//! with the caller; every decision it takes is a function here, so one
//! item's failed fetch can only ever affect that item.
use vstd::prelude::*;

use crate::store::ItemInfo;

verus! {

/// What the updater does with one fetch outcome.
#[derive(PartialEq, Eq, Structural, Clone, Copy, Debug)]
pub enum UpdateAction {
    /// Nothing to persist: the fetch failed or the price is unchanged.
    Skip,
    /// The price changed: persist the new sample.
    Persist,
    /// The price strictly dropped: persist and invoke the drop alert.
    PersistAndAlert,
}

/// An item is due when `now` has reached its last update plus its refresh
/// interval, less a one-minute early-fire tolerance for scheduling jitter.
pub open spec fn spec_is_due(last_update: int, interval: int, now: int) -> bool {
    now >= last_update + interval - 60
}

pub open spec fn spec_interval_of(item: ItemInfo, default_interval: int) -> int {
    match item.update_interval {
        Some(s) => s as int,
        None => default_interval,
    }
}

pub open spec fn spec_item_due(item: ItemInfo, now: int, default_interval: int) -> bool {
    spec_is_due(item.last_update as int, spec_interval_of(item, default_interval), now)
}

/// Whether one tracked item is due for a refetch at time `now`, falling
/// back to the batch-level default interval when the item sets none.
pub fn isDue(item: &ItemInfo, now: i64, default_interval_sec: u64) -> (r: bool)
    ensures
        r == spec_item_due(*item, now as int, default_interval_sec as int),
{
    let interval: i128 = match item.update_interval {
        Some(s) => s as i128,
        None => default_interval_sec as i128,
    };
    (now as i128) >= (item.last_update as i128) + interval - 60
}

/// The due subsequence of a batch, in batch order.
pub open spec fn spec_due_items(items: Seq<ItemInfo>, now: int, default_interval: int) -> Seq<
    ItemInfo,
>
    decreases items.len(),
{
    if items.len() == 0 {
        Seq::empty()
    } else {
        let rest = spec_due_items(items.drop_last(), now, default_interval);
        if spec_item_due(items.last(), now, default_interval) {
            rest.push(items.last())
        } else {
            rest
        }
    }
}

/// Filters a batch down to the items due for a refetch at time `now`.
pub fn dueItems(items: &Vec<ItemInfo>, now: i64, default_interval_sec: u64) -> (r: Vec<ItemInfo>)
    ensures
        r@ == spec_due_items(items@, now as int, default_interval_sec as int),
{
    let mut r: Vec<ItemInfo> = Vec::new();
    let mut i: usize = 0;
    proof {
        assert(items@.subrange(0, 0) =~= Seq::<ItemInfo>::empty());
    }
    while i < items.len()
        invariant
            i <= items@.len(),
            r@ == spec_due_items(
                items@.subrange(0, i as int),
                now as int,
                default_interval_sec as int,
            ),
        decreases items@.len() - i,
    {
        proof {
            assert(items@.subrange(0, (i + 1) as int).drop_last() =~= items@.subrange(
                0,
                i as int,
            ));
            assert(items@.subrange(0, (i + 1) as int).last() == items@[i as int]);
        }
        let it = &items[i];
        if isDue(it, now, default_interval_sec) {
            r.push(it.clone());
        }
        i = i + 1;
    }
    proof {
        assert(items@.subrange(0, items@.len() as int) =~= items@);
    }
    r
}

/// What to do with one fetch outcome, given the price the item had: a
/// failed fetch or an unchanged price is skipped; a changed price is
/// persisted; a strictly lower price is persisted and alerted.
pub open spec fn spec_decide(old_price: i64, outcome: Option<ItemInfo>) -> UpdateAction {
    match outcome {
        None => UpdateAction::Skip,
        Some(n) => if n.price == old_price {
            UpdateAction::Skip
        } else if n.price < old_price {
            UpdateAction::PersistAndAlert
        } else {
            UpdateAction::Persist
        },
    }
}

pub fn decideUpdate(old_price: i64, outcome: &Option<ItemInfo>) -> (r: UpdateAction)
    ensures
        r == spec_decide(old_price, *outcome),
{
    match outcome {
        Option::None => UpdateAction::Skip,
        Option::Some(n) => {
            if n.price == old_price {
                UpdateAction::Skip
            } else if n.price < old_price {
                UpdateAction::PersistAndAlert
            } else {
                UpdateAction::Persist
            }
        },
    }
}

/// The fetched records a batch persists: one per pair whose fetch
/// succeeded with a changed price, in batch order.
pub open spec fn spec_updates(items: Seq<ItemInfo>, fetched: Seq<Option<ItemInfo>>) -> Seq<
    ItemInfo,
>
    decreases items.len(),
{
    if items.len() == 0 || fetched.len() == 0 {
        Seq::empty()
    } else {
        let rest = spec_updates(items.drop_last(), fetched.drop_last());
        if spec_decide(items.last().price, fetched.last()) is Skip {
            rest
        } else {
            rest.push(fetched.last()->Some_0)
        }
    }
}

/// The fetched records a batch alerts on: one per pair whose fetch
/// succeeded with a strictly lower price, in batch order.
pub open spec fn spec_alerts(items: Seq<ItemInfo>, fetched: Seq<Option<ItemInfo>>) -> Seq<
    ItemInfo,
>
    decreases items.len(),
{
    if items.len() == 0 || fetched.len() == 0 {
        Seq::empty()
    } else {
        let rest = spec_alerts(items.drop_last(), fetched.drop_last());
        if spec_decide(items.last().price, fetched.last()) is PersistAndAlert {
            rest.push(fetched.last()->Some_0)
        } else {
            rest
        }
    }
}

/// Sorts a batch's fetch outcomes: the records to persist and the records
/// to alert on. `fetched[i]` is the outcome of refetching `due[i]`; `None`
/// is a failed fetch, which contributes to neither list.
pub fn collectUpdates(due: &Vec<ItemInfo>, fetched: &Vec<Option<ItemInfo>>) -> (r: (
    Vec<ItemInfo>,
    Vec<ItemInfo>,
))
    requires
        due@.len() == fetched@.len(),
    ensures
        r.0@ == spec_updates(due@, fetched@),
        r.1@ == spec_alerts(due@, fetched@),
{
    let mut updates: Vec<ItemInfo> = Vec::new();
    let mut alerts: Vec<ItemInfo> = Vec::new();
    let mut i: usize = 0;
    proof {
        assert(due@.subrange(0, 0) =~= Seq::<ItemInfo>::empty());
        assert(fetched@.subrange(0, 0) =~= Seq::<Option<ItemInfo>>::empty());
    }
    while i < due.len()
        invariant
            due@.len() == fetched@.len(),
            i <= due@.len(),
            updates@ == spec_updates(due@.subrange(0, i as int), fetched@.subrange(0, i as int)),
            alerts@ == spec_alerts(due@.subrange(0, i as int), fetched@.subrange(0, i as int)),
        decreases due@.len() - i,
    {
        proof {
            assert(due@.subrange(0, (i + 1) as int).drop_last() =~= due@.subrange(0, i as int));
            assert(due@.subrange(0, (i + 1) as int).last() == due@[i as int]);
            assert(fetched@.subrange(0, (i + 1) as int).drop_last() =~= fetched@.subrange(
                0,
                i as int,
            ));
            assert(fetched@.subrange(0, (i + 1) as int).last() == fetched@[i as int]);
        }
        let outcome = &fetched[i];
        let action = decideUpdate(due[i].price, outcome);
        match action {
            UpdateAction::Skip => {},
            UpdateAction::Persist => {
                match outcome {
                    Option::Some(n) => updates.push(n.clone()),
                    Option::None => {
                        proof {
                            assert(false);
                        }
                    },
                }
            },
            UpdateAction::PersistAndAlert => {
                match outcome {
                    Option::Some(n) => {
                        updates.push(n.clone());
                        alerts.push(n.clone());
                    },
                    Option::None => {
                        proof {
                            assert(false);
                        }
                    },
                }
            },
        }
        i = i + 1;
    }
    proof {
        assert(due@.subrange(0, due@.len() as int) =~= due@);
        assert(fetched@.subrange(0, fetched@.len() as int) =~= fetched@);
    }
    (updates, alerts)
}

/// The drop-alert text for a fetched record.
pub fn alertMessage(item: &ItemInfo) -> (r: String)
    ensures
        r@ == "Price of ["@ + item.name@ + "]("@ + item.url@ + ") is now at "@ + item.price_str@
            + "!"@,
{
    let mut m = String::from_str("Price of [");
    m.append(item.name.as_str());
    m.append("](");
    m.append(item.url.as_str());
    m.append(") is now at ");
    m.append(item.price_str.as_str());
    m.append("!");
    m
}

/// Partial failure: an entry whose fetch failed contributes nothing, and
/// the rest of the batch persists and alerts exactly as the batch without
/// that entry would.
pub proof fn lemma_partial_failure(items: Seq<ItemInfo>, fetched: Seq<Option<ItemInfo>>, j: int)
    requires
        items.len() == fetched.len(),
        0 <= j < items.len(),
        fetched[j] is None,
    ensures
        spec_updates(items, fetched) == spec_updates(items.remove(j), fetched.remove(j)),
        spec_alerts(items, fetched) == spec_alerts(items.remove(j), fetched.remove(j)),
    decreases items.len(),
{
    if j == items.len() - 1 {
        assert(items.remove(j) =~= items.drop_last());
        assert(fetched.remove(j) =~= fetched.drop_last());
    } else {
        lemma_partial_failure(items.drop_last(), fetched.drop_last(), j);
        assert(items.remove(j).drop_last() =~= items.drop_last().remove(j));
        assert(fetched.remove(j).drop_last() =~= fetched.drop_last().remove(j));
        assert(items.remove(j).last() == items.last());
        assert(fetched.remove(j).last() == fetched.last());
    }
}

/// Alert gating: the alert action is chosen exactly for a strict price
/// drop; a failed fetch, an increase, or an unchanged price never alerts.
pub proof fn lemma_alert_gating(old_price: i64, outcome: Option<ItemInfo>)
    ensures
        (spec_decide(old_price, outcome) is PersistAndAlert) <==> (outcome matches Some(n)
            && n.price < old_price),
        (outcome matches Some(n) && n.price >= old_price) ==> !(spec_decide(old_price, outcome)
            is PersistAndAlert),
{
}

} // verus!
