//! The storefront clients and the registry, on crafted pages and
//! responses in each storefront's documented shape.
use wishlist::config::ConfigParams;
use wishlist::error::Error;
use wishlist::store::amazon::Amazon;
use wishlist::store::epic::{epicCents, Epic};
use wishlist::store::playstation::PlayStation;
use wishlist::store::switch::Switch;
use wishlist::store::{epic, playstation, switch, ItemInfo, Store};
use wishlist::web::WebHandler;

#[test]
fn registry_resolves_known_stores() {
    assert!(matches!(Store::new("ps4-us"), Ok(Store::PlayStation(_))));
    assert!(matches!(Store::new("ps4-hk"), Ok(Store::PlayStation(_))));
    assert!(matches!(Store::new("switch-us"), Ok(Store::Switch(_))));
}

#[test]
fn registry_rejects_unknown_store() {
    assert!(matches!(Store::new("steam"), Err(Error::UnknownStoreError(_))));
    assert!(matches!(Store::new(""), Err(Error::UnknownStoreError(_))));
}

#[test]
fn switch_title_id_extraction() {
    let content = "junk Object.freeze({id: 3, title: \"Hades\", nsuid: \"70010000012345\", more: 1}); tail";
    let (title, nsuid) = Switch::getTitleID(content).unwrap();
    assert_eq!(title, "Hades");
    assert_eq!(nsuid, "70010000012345");
}

#[test]
fn switch_title_id_missing_block() {
    assert!(matches!(Switch::getTitleID("no store data here"), Err(Error::ParseError(_))));
}

#[test]
fn switch_price_response() {
    let s = Switch::new(switch::Region::US);
    let body = "{\"prices\":[{\"regular_price\":{\"raw_value\":\"59.99\",\"amount\":\"$59.99\"}}]}";
    let item = s.parsePriceResponse(body, "Hades", "hades-switch").unwrap();
    assert_eq!(item.store, "switch-us");
    assert_eq!(item.name, "Hades");
    assert_eq!(item.id, "hades-switch");
    assert_eq!(item.url, "https://www.nintendo.com/games/detail/hades-switch/");
    assert_eq!(item.price, 5999);
    assert_eq!(item.price_str, "$59.99");
}

#[test]
fn switch_price_response_malformed() {
    let s = Switch::new(switch::Region::US);
    assert!(matches!(s.parsePriceResponse("not json", "t", "i"), Err(Error::ParseError(_))));
    assert!(matches!(s.parsePriceResponse("{\"prices\":[]}", "t", "i"), Err(Error::ParseError(_))));
}

#[test]
fn playstation_resolver_response() {
    let p = PlayStation::new(playstation::Region::US);
    let body = "{\"included\":[\
        {\"attributes\":{\"game-content-type\":\"Bundle\",\"name\":\"skipped\"}},\
        {\"attributes\":{\"game-content-type\":\"Full Game\",\"name\":\"God of War\",\
          \"skus\":[{\"prices\":{\"non-plus-user\":{\"actual-price\":{\"value\":1999,\"display\":\"$19.99\"}}}}]}}]}";
    let item = p.parseResponse(body, "UP9000-CUSA07408_00").unwrap();
    assert_eq!(item.store, "ps4-us");
    assert_eq!(item.name, "God of War");
    assert_eq!(item.price, 1999);
    assert_eq!(item.price_str, "$19.99");
    assert_eq!(item.url, "https://store.playstation.com/en-us/product/UP9000-CUSA07408_00");
}

#[test]
fn playstation_no_full_game_is_not_found() {
    let p = PlayStation::new(playstation::Region::US);
    let body = "{\"included\":[{\"attributes\":{\"game-content-type\":\"Bundle\",\"name\":\"x\"}}]}";
    assert!(matches!(p.parseResponse(body, "id"), Err(Error::NotFoundError(_))));
}

#[test]
fn playstation_malformed_match_is_parse_error() {
    let p = PlayStation::new(playstation::Region::US);
    let body = "{\"included\":[{\"attributes\":{\"game-content-type\":\"PSN Game\"}}]}";
    assert!(matches!(p.parseResponse(body, "id"), Err(Error::ParseError(_))));
}

#[test]
fn playstation_malformed_response_is_parse_error() {
    let p = PlayStation::new(playstation::Region::US);
    assert!(matches!(p.parseResponse("not json", "id"), Err(Error::ParseError(_))));
    assert!(matches!(p.parseResponse("{}", "id"), Err(Error::ParseError(_))));
    assert!(matches!(p.parseResponse("{\"included\":7}", "id"), Err(Error::ParseError(_))));
}

#[test]
fn playstation_fractional_price_is_parse_error() {
    // The price value of this listing is an integer in minor units; a
    // fractional number is malformed.
    let p = PlayStation::new(playstation::Region::US);
    let body = "{\"included\":[{\"attributes\":{\"game-content-type\":\"Full Game\",\"name\":\"x\",\
        \"skus\":[{\"prices\":{\"non-plus-user\":{\"actual-price\":{\"value\":19.99,\"display\":\"$19.99\"}}}}]}}]}";
    assert!(matches!(p.parseResponse(body, "id"), Err(Error::ParseError(_))));
}

#[test]
fn epic_linked_data_page() {
    let e = Epic::new(epic::Region::US);
    let content = "<html><script type=\"application/ld+json\">\
        {\"name\":\"HITMAN 3\",\"offers\":[{\"priceSpecification\":{\"price\":59.99}}]}\
        </script></html>";
    let item = e.parseItem(content, "hitman-3").unwrap();
    assert_eq!(item.store, "epic-us");
    assert_eq!(item.name, "HITMAN 3");
    assert_eq!(item.price, 5999);
    assert_eq!(item.price_str, "$59.99");
    assert_eq!(item.url, "https://epicgames.com/store/en-US/p/hitman-3");
}

#[test]
fn epic_page_without_block_fails() {
    let e = Epic::new(epic::Region::US);
    assert!(matches!(e.parseItem("<html></html>", "x"), Err(Error::ParseError(_))));
}

#[test]
fn epic_cents_conversion() {
    assert_eq!(epicCents("59.99").unwrap(), 5999);
    assert_eq!(epicCents("60").unwrap(), 6000);
    assert_eq!(epicCents("59.9").unwrap(), 5990);
    // Rounded half up on the third fraction digit.
    assert_eq!(epicCents("59.995").unwrap(), 6000);
    assert_eq!(epicCents("59.994").unwrap(), 5999);
    assert_eq!(epicCents("0.005").unwrap(), 1);
    assert!(matches!(epicCents("1.2.3"), Err(Error::ParseError(_))));
    assert!(matches!(epicCents(".5"), Err(Error::ParseError(_))));
    assert!(matches!(epicCents("1e3"), Err(Error::ParseError(_))));
}

#[test]
fn amazon_product_page() {
    let a = Amazon::new();
    let content = "<html><body>\
        <div id=\"price\"><table>\
        <tr id=\"other_row\"><td class=\"a-span12\"><span id=\"priceblock_x\">$9.99</span></td></tr>\
        <tr id=\"priceblock_ourprice_row\">\
          <td class=\"a-color-base\"><span>label</span></td>\
          <td class=\"a-span12\"><span id=\"priceblock_ourprice\">$24.99</span></td>\
        </tr>\
        </table></div>\
        <span id=\"productTitle\">\n  AMD Ryzen 9 5900X  \n</span>\
        </body></html>";
    let item = a.parseProductPage(content, "B08164VTWH").unwrap();
    assert_eq!(item.store, "amazon-us");
    assert_eq!(item.name, "AMD Ryzen 9 5900X");
    assert_eq!(item.price, 2499);
    assert_eq!(item.price_str, "$24.99");
    assert_eq!(item.url, "https://amazon.com/gp/product/B08164VTWH/");
    assert_eq!(item.update_interval, Some(600));
}

#[test]
fn amazon_deeply_nested_page_is_rejected() {
    // Adversarial markup: elements nested far past the conversion's depth
    // cap must come back as a ParseError, not take the process down.
    let a = Amazon::new();
    let mut content = String::new();
    for _ in 0..2000 {
        content.push_str("<div>");
    }
    content.push_str("x");
    assert!(matches!(a.parseProductPage(&content, "id"), Err(Error::ParseError(_))));
}

#[test]
fn amazon_page_without_price_fails() {
    let a = Amazon::new();
    let content = "<html><span id=\"productTitle\">thing</span></html>";
    assert!(matches!(a.parseProductPage(content, "id"), Err(Error::ParseError(_))));
}

#[test]
fn amazon_price_without_dollar_prefix_fails() {
    let a = Amazon::new();
    let content = "<div id=\"price\"><table>\
        <tr id=\"priceblock_r\"><td class=\"a-span12\"><span id=\"priceblock_p\">24,99 EUR</span></td></tr>\
        </table></div><span id=\"productTitle\">thing</span>";
    assert!(matches!(a.parseProductPage(content, "id"), Err(Error::ParseError(_))));
}

#[test]
fn item_info_bare_state() {
    let item = ItemInfo::new("switch", "id1");
    assert!(item.bare());
    assert_eq!(item.store, "switch");
    assert_eq!(item.id, "id1");
    assert_eq!(item.price, 0);
    let mut named = ItemInfo::new("switch", "id1");
    named.name = "x".to_owned();
    assert!(!named.bare());
}

#[test]
fn config_defaults() {
    let c = ConfigParams::default();
    assert_eq!(c.port, 8000);
    assert_eq!(c.db_file, "wishlist.db");
    assert_eq!(c.update_interval_sec, 3600);
    assert!(c.url_prefix.is_none());
    assert!(c.telegram_notifier.is_none());
}

#[test]
fn web_handler_copies_config() {
    let mut c = ConfigParams::default();
    c.port = 8123;
    c.url_prefix = Some("wish/list".to_owned());
    let h = WebHandler::new(&c);
    assert_eq!(h.db_file, "wishlist.db");
    assert_eq!(h.port, 8123);
    assert_eq!(h.url_prefix.as_deref(), Some("wish/list"));
}

#[test]
fn error_messages_surface() {
    assert_eq!(Error::DataError("boom".to_owned()).message().as_str(), "boom");
    assert_eq!(Error::NetworkError("net".to_owned()).message().as_str(), "net");
    assert_eq!(Error::ParseError("p".to_owned()).message().as_str(), "p");
    assert_eq!(Error::NotFoundError("n".to_owned()).message().as_str(), "n");
    assert_eq!(Error::UnknownStoreError("u".to_owned()).message().as_str(), "u");
}
