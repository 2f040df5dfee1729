//! The refresh cache and the batch updater's decisions.
use wishlist::cache::RefreshCache;
use wishlist::middle::{alertMessage, collectUpdates, decideUpdate, dueItems, isDue, UpdateAction};
use wishlist::store::ItemInfo;

fn pricedItem(store: &str, id: &str, price: i64) -> ItemInfo {
    let mut item = ItemInfo::new(store, id);
    item.name = format!("item {}", id);
    item.url = format!("https://example.invalid/{}", id);
    item.price = price;
    item.price_str = format!("${}.00", price / 100);
    item
}

#[test]
fn cache_returns_fresh_entry() {
    let mut cache = RefreshCache::new();
    let item = pricedItem("switch", "id1", 100);
    cache.insert(&item, 1000);
    // Exactly at the TTL boundary the entry is still fresh.
    let hit = cache.lookup("switch", "id1", 1000 + 3600).unwrap();
    assert_eq!(hit.price, 100);
    assert_eq!(hit.id, "id1");
}

#[test]
fn cache_misses_after_ttl() {
    let mut cache = RefreshCache::new();
    let item = pricedItem("switch", "id1", 100);
    cache.insert(&item, 1000);
    assert!(cache.lookup("switch", "id1", 1000 + 3601).is_none());
}

#[test]
fn cache_misses_unknown_key() {
    let mut cache = RefreshCache::new();
    let item = pricedItem("switch", "id1", 100);
    cache.insert(&item, 1000);
    assert!(cache.lookup("switch", "id2", 1001).is_none());
    assert!(cache.lookup("ps4-us", "id1", 1001).is_none());
}

#[test]
fn cache_insert_overwrites() {
    let mut cache = RefreshCache::new();
    let old = pricedItem("switch", "id1", 100);
    cache.insert(&old, 1000);
    let new = pricedItem("switch", "id1", 200);
    cache.insert(&new, 5000);
    let hit = cache.lookup("switch", "id1", 5100).unwrap();
    assert_eq!(hit.price, 200);
}

#[test]
fn due_when_interval_elapsed() {
    let mut item = pricedItem("switch", "id1", 100);
    item.last_update = 1000;
    // Default interval, one-minute early-fire tolerance.
    assert!(isDue(&item, 1000 + 3600 - 60, 3600));
    assert!(!isDue(&item, 1000 + 3600 - 61, 3600));
    // The item's own interval wins over the default.
    item.update_interval = Some(600);
    assert!(isDue(&item, 1000 + 600 - 60, 3600));
    assert!(!isDue(&item, 1000 + 600 - 61, 3600));
}

#[test]
fn due_items_filters() {
    let mut fresh = pricedItem("switch", "id1", 100);
    fresh.last_update = 10_000;
    let mut stale = pricedItem("ps4-us", "id2", 200);
    stale.last_update = 0;
    let items = vec![fresh, stale];
    let due = dueItems(&items, 10_100, 3600);
    assert_eq!(due.len(), 1);
    assert_eq!(due[0].id, "id2");
}

#[test]
fn batch_survives_one_failed_fetch() {
    // Three due items; the second fetch fails; the first and third still
    // come back with changed prices to persist.
    let due = vec![
        pricedItem("switch", "id1", 100),
        pricedItem("ps4-us", "id2", 200),
        pricedItem("ps4-hk", "id3", 300),
    ];
    let fetched = vec![
        Some(pricedItem("switch", "id1", 90)),
        None,
        Some(pricedItem("ps4-hk", "id3", 330)),
    ];
    let (updates, alerts) = collectUpdates(&due, &fetched);
    assert_eq!(updates.len(), 2);
    assert_eq!(updates[0].id, "id1");
    assert_eq!(updates[0].price, 90);
    assert_eq!(updates[1].id, "id3");
    assert_eq!(updates[1].price, 330);
    // Only the drop is alerted.
    assert_eq!(alerts.len(), 1);
    assert_eq!(alerts[0].id, "id1");
}

#[test]
fn unchanged_price_is_skipped() {
    let due = vec![pricedItem("switch", "id1", 100)];
    let fetched = vec![Some(pricedItem("switch", "id1", 100))];
    let (updates, alerts) = collectUpdates(&due, &fetched);
    assert_eq!(updates.len(), 0);
    assert_eq!(alerts.len(), 0);
}

#[test]
fn increase_persists_without_alert() {
    let due = vec![pricedItem("switch", "id1", 100)];
    let fetched = vec![Some(pricedItem("switch", "id1", 150))];
    let (updates, alerts) = collectUpdates(&due, &fetched);
    assert_eq!(updates.len(), 1);
    assert_eq!(alerts.len(), 0);
}

#[test]
fn strict_decrease_always_alerts() {
    let due = vec![pricedItem("switch", "id1", 100)];
    let fetched = vec![Some(pricedItem("switch", "id1", 99))];
    let (updates, alerts) = collectUpdates(&due, &fetched);
    assert_eq!(updates.len(), 1);
    assert_eq!(alerts.len(), 1);
    assert_eq!(alerts[0].price, 99);
}

#[test]
fn decide_update_gates_alert() {
    let cheaper = Some(pricedItem("switch", "id1", 99));
    let same = Some(pricedItem("switch", "id1", 100));
    let dearer = Some(pricedItem("switch", "id1", 101));
    assert_eq!(decideUpdate(100, &cheaper), UpdateAction::PersistAndAlert);
    assert_eq!(decideUpdate(100, &same), UpdateAction::Skip);
    assert_eq!(decideUpdate(100, &dearer), UpdateAction::Persist);
    assert_eq!(decideUpdate(100, &None), UpdateAction::Skip);
}

#[test]
fn alert_message_text() {
    let mut item = ItemInfo::new("switch", "id1");
    item.name = "Hollow Knight".to_owned();
    item.url = "https://example.invalid/hk".to_owned();
    item.price_str = "$7.50".to_owned();
    assert_eq!(
        alertMessage(&item),
        "Price of [Hollow Knight](https://example.invalid/hk) is now at $7.50!"
    );
}
