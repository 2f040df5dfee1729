//! The item repository: dedup, price history, listing.
use wishlist::data::{DataManager, ItemKey};
use wishlist::error::Error;
use wishlist::store::ItemInfo;

fn sampleItem(store: &str, id: &str, name: &str, url: &str, price: i64, price_str: &str) -> ItemInfo {
    let mut item = ItemInfo::new(store, id);
    item.name = name.to_owned();
    item.url = url.to_owned();
    item.price = price;
    item.price_str = price_str.to_owned();
    item
}

#[test]
fn add_find_item() {
    let mut data = DataManager::new();
    let mut item = ItemInfo::new("store", "id");
    item.name = "aaa".to_owned();
    item.url = "bbb".to_owned();
    data.addItem(&item).unwrap();
    assert!(data.findItem(ItemKey::fromItem(&item)).unwrap().is_some());
}

#[test]
fn add_price_get_items_basic() {
    let mut data = DataManager::new();
    let item1 = sampleItem("switch", "id1", "aaa", "bbb", 100, "$1.00");
    data.addItem(&item1).unwrap();
    data.addPrice(&item1).unwrap();
    let items = data.getItems().unwrap();
    assert_eq!(items.len(), 1);
    assert_eq!(items[0].name, item1.name);
}

#[test]
fn add_price_get_items_multiple() {
    let mut data = DataManager::new();
    let item1 = sampleItem("switch", "id1", "aaa", "bbb", 100, "$1.00");
    let mut item2 = sampleItem("ps", "id2", "xxx", "yyy", 200, "$2.00");

    data.addItem(&item1).unwrap();
    data.addPrice(&item1).unwrap();
    data.addItem(&item2).unwrap();
    data.addPrice(&item2).unwrap();
    item2.price = 300;
    item2.price_str = "$3.00".to_owned();
    data.addPrice(&item2).unwrap();

    let items = data.getItems().unwrap();
    assert_eq!(items.len(), 2);
    assert_eq!(items[0].name, item1.name);
    assert_eq!(items[0].url, item1.url);
    assert_eq!(items[0].price, item1.price);
    assert_eq!(items[0].price_str, item1.price_str);
    assert_eq!(items[1].name, item2.name);
    assert_eq!(items[1].url, item2.url);
    assert_eq!(items[1].price, item2.price);
    assert_eq!(items[1].price_str, item2.price_str);

    let key2 = ItemKey { store: "ps".to_owned(), id: "id2".to_owned() };
    let count_item2_prices = data.priceHistory(key2).unwrap().len();
    assert_eq!(count_item2_prices, 2);
}

#[test]
fn add_item_twice_leaves_one_row() {
    let mut data = DataManager::new();
    let item = sampleItem("switch", "id1", "aaa", "bbb", 100, "$1.00");
    data.addItem(&item).unwrap();
    data.addItem(&item).unwrap();
    assert_eq!(data.getItems().unwrap().len(), 1);
}

#[test]
fn add_price_for_unknown_item_fails() {
    let mut data = DataManager::new();
    let item = sampleItem("switch", "nope", "aaa", "bbb", 100, "$1.00");
    assert!(matches!(data.addPrice(&item), Err(Error::NotFoundError(_))));
}

#[test]
fn item_without_history_lists_bare() {
    let mut data = DataManager::new();
    let item = sampleItem("switch", "id1", "aaa", "bbb", 100, "$1.00");
    data.addItem(&item).unwrap();
    let items = data.getItems().unwrap();
    assert_eq!(items.len(), 1);
    assert_eq!(items[0].price, 0);
    assert_eq!(items[0].price_str, "");
    assert_eq!(items[0].name, "aaa");
}

#[test]
fn price_history_is_time_ordered() {
    let mut data = DataManager::new();
    let item = sampleItem("switch", "id1", "aaa", "bbb", 100, "$1.00");
    data.addItem(&item).unwrap();
    // Appended out of time order on purpose.
    data.addPriceAt(&item, 30).unwrap();
    data.addPriceAt(&item, 10).unwrap();
    data.addPriceAt(&item, 20).unwrap();
    let key = ItemKey { store: "switch".to_owned(), id: "id1".to_owned() };
    let hist = data.priceHistory(key).unwrap();
    assert_eq!(hist.len(), 3);
    assert_eq!(hist[0].time, 10);
    assert_eq!(hist[1].time, 20);
    assert_eq!(hist[2].time, 30);
}

#[test]
fn remove_item_orphans_history() {
    let mut data = DataManager::new();
    let item = sampleItem("switch", "id1", "aaa", "bbb", 100, "$1.00");
    data.addItem(&item).unwrap();
    data.addPriceAt(&item, 10).unwrap();
    let key = ItemKey { store: "switch".to_owned(), id: "id1".to_owned() };
    data.removeItem(key).unwrap();
    assert_eq!(data.getItems().unwrap().len(), 0);
    // The history rows are kept, deliberately: removal never deletes them.
    let key = ItemKey { store: "switch".to_owned(), id: "id1".to_owned() };
    assert_eq!(data.priceHistory(key).unwrap().len(), 1);
}

#[test]
fn end_to_end() {
    let mut data = DataManager::new();
    // Track {store: "switch", id: "id1"}; the first fetch yielded $1.00.
    let mut item = sampleItem("switch", "id1", "Some Game", "https://example.invalid/id1", 100, "$1.00");
    data.addItem(&item).unwrap();
    data.addPriceAt(&item, 1000).unwrap();

    let items = data.getItems().unwrap();
    assert_eq!(items.len(), 1);
    assert_eq!(items[0].price, 100);
    assert_eq!(items[0].price_str, "$1.00");

    // A second sample two seconds later at $1.50.
    item.price = 150;
    item.price_str = "$1.50".to_owned();
    data.addPriceAt(&item, 1002).unwrap();

    let key = ItemKey { store: "switch".to_owned(), id: "id1".to_owned() };
    let hist = data.priceHistory(key).unwrap();
    assert_eq!(hist.len(), 2);
    assert!(hist[0].time <= hist[1].time);
    assert_eq!(hist[0].price, 100);
    assert_eq!(hist[1].price, 150);

    let items = data.getItems().unwrap();
    assert_eq!(items[0].price, 150);
    assert_eq!(items[0].price_str, "$1.50");
    // The listing carries the latest sample's time, so the batch updater
    // gates on when the price was really observed.
    assert_eq!(items[0].last_update, 1002);
}
