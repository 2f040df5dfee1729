//! Storefront client for the Switch eShop: a two-step flow that extracts a
//! title and an internal numeric id from the product page, then queries a
//! dedicated price endpoint with that id.
use vstd::prelude::*;

use crate::error::Error;
use crate::jsonval::{jsonTreeOf, spec_arr_at, spec_json_of, spec_obj_get, spec_str_of, JsonTree};
use crate::store::ItemInfo;
use crate::utils::{findSubStr, parsePrice, spec_between, spec_parse_price};

verus! {

pub enum Region {
    US,
}

pub struct Switch {
    country: &'static str,
    lang: &'static str,
    name: &'static str,
}

impl Switch {
    /// The country query parameter for the price endpoint.
    pub closed spec fn countryCode(&self) -> &'static str {
        self.country
    }

    /// The language query parameter for the price endpoint.
    pub closed spec fn langCode(&self) -> &'static str {
        self.lang
    }

    /// The store name under which items from this client are tracked.
    pub closed spec fn storeName(&self) -> &'static str {
        self.name
    }

    pub fn new(region: Region) -> (r: Self)
        ensures
            r.countryCode()@ == "US"@,
            r.langCode()@ == "en"@,
            r.storeName()@ == "switch-us"@,
    {
        match region {
            Region::US => Switch { country: "US", lang: "en", name: "switch-us" },
        }
    }

    /// The country query parameter for the price endpoint.
    pub fn country(&self) -> (r: &'static str)
        ensures
            r@ == self.countryCode()@,
    {
        self.country
    }

    /// The language query parameter for the price endpoint.
    pub fn lang(&self) -> (r: &'static str)
        ensures
            r@ == self.langCode()@,
    {
        self.lang
    }

    /// The product page for an item id.
    pub fn dataURL(&self, id: &str) -> (r: String)
        ensures
            r@ == "https://www.nintendo.com/games/detail/"@ + id@ + "/"@,
    {
        let mut url = String::from_str("https://www.nintendo.com/games/detail/");
        url.append(id);
        url.append("/");
        url
    }

    /// Extracts the display title and the storefront-internal numeric id
    /// from the product page, by locating the frozen store-data block and
    /// the fixed textual markers bracketing each value.
    pub fn getTitleID(content: &str) -> (r: Result<(&str, &str), Error>)
        ensures
            match r {
                Ok(t) => {
                    &&& spec_between(content@, "Object.freeze({"@, "});"@) matches Some(d)
                        && spec_between(d, "title: \""@, "\","@) == Some(t.0@)
                        && spec_between(d, "nsuid: \""@, "\","@) == Some(t.1@)
                },
                Err(e) => {
                    &&& e is ParseError
                    &&& match spec_between(content@, "Object.freeze({"@, "});"@) {
                        None => true,
                        Some(d) => spec_between(d, "title: \""@, "\","@) is None
                            || spec_between(d, "nsuid: \""@, "\","@) is None,
                    }
                },
            },
    {
        let store_data_str = match findSubStr(content, "Object.freeze({", "});") {
            Some(t) => t.0,
            None => {
                return Err(Error::ParseError(String::from_str("Failed to find store data")));
            },
        };
        let title = match findSubStr(store_data_str, "title: \"", "\",") {
            Some(t) => t.0,
            None => {
                return Err(Error::ParseError(String::from_str("Failed to find store data")));
            },
        };
        let real_id = match findSubStr(store_data_str, "nsuid: \"", "\",") {
            Some(t) => t.0,
            None => {
                return Err(Error::ParseError(String::from_str("Failed to find real ID")));
            },
        };
        Ok((title, real_id))
    }

    /// Extracts the item from the price endpoint's response: navigates to
    /// the regular-price node of the first entry, feeds its raw value to
    /// the money parser, and takes its display text verbatim. `title` is
    /// the name extracted from the product page beforehand.
    pub fn parsePriceResponse(&self, price_json: &str, title: &str, id: &str) -> (r: Result<
        ItemInfo,
        Error,
    >)
        ensures
            match r {
                Ok(it) => {
                    &&& spec_json_of(price_json@) matches Some(doc)
                        && (spec_switch_raw(doc) matches Some(rw) && spec_parse_price(rw)
                            == Some(it.price as int))
                        && spec_switch_amount(doc) == Some(it.price_str@)
                    &&& it.store@ == self.storeName()@
                    &&& it.name@ == title@
                    &&& it.id@ == id@
                    &&& it.url@ == "https://www.nintendo.com/games/detail/"@ + id@ + "/"@
                    &&& it.alert_price is None
                    &&& it.update_interval is None
                    &&& it.last_update == 0
                },
                Err(e) => {
                    &&& e is ParseError
                    &&& match spec_json_of(price_json@) {
                        None => true,
                        Some(doc) => {
                            ||| spec_switch_raw(doc) is None
                            ||| (spec_switch_raw(doc) matches Some(rw) && (spec_parse_price(rw)
                                is None || spec_parse_price(rw)->Some_0 > i64::MAX))
                            ||| spec_switch_amount(doc) is None
                        },
                    }
                },
            },
    {
        let doc = match jsonTreeOf(price_json) {
            Some(d) => d,
            None => {
                return Err(Error::ParseError(String::from_str("Failed to parse JSON")));
            },
        };
        let reg = match Self::regularPriceNode(&doc) {
            Some(v) => v,
            None => {
                return Err(Error::ParseError(String::from_str("Failed to get price")));
            },
        };
        let price_raw = match reg.get("raw_value") {
            Some(v) => match v.str_value() {
                Some(s) => s,
                None => {
                    return Err(Error::ParseError(String::from_str("Failed to get price")));
                },
            },
            None => {
                return Err(Error::ParseError(String::from_str("Failed to get price")));
            },
        };
        let price = parsePrice(price_raw.as_str())?;
        let price_str = match reg.get("amount") {
            Some(v) => match v.str_value() {
                Some(s) => s,
                None => {
                    return Err(
                        Error::ParseError(String::from_str("Failed to get price string")),
                    );
                },
            },
            None => {
                return Err(Error::ParseError(String::from_str("Failed to get price string")));
            },
        };
        Ok(
            ItemInfo {
                name: title.to_owned(),
                store: String::from_str(self.name),
                id: id.to_owned(),
                url: self.dataURL(id),
                price,
                price_str: price_str.clone(),
                alert_price: None,
                update_interval: None,
                last_update: 0,
            },
        )
    }

    /// The documented path to the regular-price node of the response:
    /// prices, first entry, regular_price.
    fn regularPriceNode<'a>(doc: &'a JsonTree) -> (r: Option<&'a JsonTree>)
        ensures
            match r {
                Some(x) => spec_switch_regular(*doc) == Some(*x),
                None => spec_switch_regular(*doc) is None,
            },
    {
        let prices = match doc.get("prices") {
            Some(v) => v,
            None => {
                return None;
            },
        };
        let p0 = match prices.at(0) {
            Some(v) => v,
            None => {
                return None;
            },
        };
        p0.get("regular_price")
    }
}

/// The regular-price node of the response: prices, first entry,
/// regular_price.
pub open spec fn spec_switch_regular(doc: JsonTree) -> Option<JsonTree> {
    match spec_obj_get(doc, "prices"@) {
        Some(ps) => match spec_arr_at(ps, 0) {
            Some(p0) => spec_obj_get(p0, "regular_price"@),
            None => None,
        },
        None => None,
    }
}

/// The raw numeric price text of the response, fed to the money parser.
pub open spec fn spec_switch_raw(doc: JsonTree) -> Option<Seq<char>> {
    match spec_switch_regular(doc) {
        Some(n) => match spec_obj_get(n, "raw_value"@) {
            Some(v) => spec_str_of(v),
            None => None,
        },
        None => None,
    }
}

/// The pre-formatted display text of the response, kept verbatim.
pub open spec fn spec_switch_amount(doc: JsonTree) -> Option<Seq<char>> {
    match spec_switch_regular(doc) {
        Some(n) => match spec_obj_get(n, "amount"@) {
            Some(v) => spec_str_of(v),
            None => None,
        },
        None => None,
    }
}

} // verus!
