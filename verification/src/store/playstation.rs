//! Storefront client for the PlayStation store: a direct JSON listing
//! endpoint whose sub-items are filtered by content type.
use vstd::prelude::*;

use crate::error::Error;
use crate::jsonval::{
    jsonTreeOf, spec_arr_at, spec_json_int, spec_json_of, spec_obj_get, spec_str_of, JsonTree,
};
use crate::store::ItemInfo;
use crate::strutil::eqStr;

verus! {

pub enum Region {
    US,
    HK,
}

pub struct PlayStation {
    region: &'static str,
    name: &'static str,
}

/// The sub-items of the resolver response: the `included` member, when it
/// is an array.
pub open spec fn spec_ps_included(doc: JsonTree) -> Option<Seq<JsonTree>> {
    match spec_obj_get(doc, "included"@) {
        Some(JsonTree::Arr(vs)) => Some(vs@),
        _ => None,
    }
}

/// Whether a sub-item's content type is one of the allow-listed full-game
/// classifications.
pub open spec fn spec_ps_listed(sub: JsonTree) -> bool {
    match spec_obj_get(sub, "attributes"@) {
        Some(a) => match spec_obj_get(a, "game-content-type"@) {
            Some(g) => spec_str_of(g) == Some("Full Game"@) || spec_str_of(g) == Some(
                "PSN Game"@,
            ),
            None => false,
        },
        None => false,
    }
}

/// The first allow-listed sub-item, in response order.
pub open spec fn spec_ps_first_listed(vs: Seq<JsonTree>) -> Option<JsonTree>
    decreases vs.len(),
{
    if vs.len() == 0 {
        None
    } else if spec_ps_listed(vs[0]) {
        Some(vs[0])
    } else {
        spec_ps_first_listed(vs.drop_first())
    }
}

/// The display name of a sub-item.
pub open spec fn spec_ps_name(sub: JsonTree) -> Option<Seq<char>> {
    match spec_obj_get(sub, "attributes"@) {
        Some(a) => match spec_obj_get(a, "name"@) {
            Some(n) => spec_str_of(n),
            None => None,
        },
        None => None,
    }
}

/// The documented path to the actual-price node of a sub-item:
/// attributes, skus, first entry, prices, non-plus-user, actual-price.
pub open spec fn spec_ps_price_node(sub: JsonTree) -> Option<JsonTree> {
    match spec_obj_get(sub, "attributes"@) {
        Some(a) => match spec_obj_get(a, "skus"@) {
            Some(sk) => match spec_arr_at(sk, 0) {
                Some(s0) => match spec_obj_get(s0, "prices"@) {
                    Some(pr) => match spec_obj_get(pr, "non-plus-user"@) {
                        Some(npu) => spec_obj_get(npu, "actual-price"@),
                        None => None,
                    },
                    None => None,
                },
                None => None,
            },
            None => None,
        },
        None => None,
    }
}

/// A sub-item's price in minor units, already an integer at the source.
pub open spec fn spec_ps_value(sub: JsonTree) -> Option<int> {
    match spec_ps_price_node(sub) {
        Some(n) => match spec_obj_get(n, "value"@) {
            Some(v) => spec_json_int(v),
            None => None,
        },
        None => None,
    }
}

/// A sub-item's pre-formatted display price.
pub open spec fn spec_ps_display(sub: JsonTree) -> Option<Seq<char>> {
    match spec_ps_price_node(sub) {
        Some(n) => match spec_obj_get(n, "display"@) {
            Some(v) => spec_str_of(v),
            None => None,
        },
        None => None,
    }
}

impl PlayStation {
    /// The region path segment baked into the resolver endpoint.
    pub closed spec fn regionPath(&self) -> &'static str {
        self.region
    }

    /// The store name under which items from this client are tracked.
    pub closed spec fn storeName(&self) -> &'static str {
        self.name
    }

    pub fn new(region: Region) -> (r: Self)
        ensures
            region is US ==> r.regionPath()@ == "en/US"@ && r.storeName()@ == "ps4-us"@,
            region is HK ==> r.regionPath()@ == "zh/HK"@ && r.storeName()@ == "ps4-hk"@,
    {
        match region {
            Region::US => PlayStation { region: "en/US", name: "ps4-us" },
            Region::HK => PlayStation { region: "zh/HK", name: "ps4-hk" },
        }
    }

    /// The resolver endpoint for an item id.
    pub fn dataURL(&self, id: &str) -> (r: String)
        ensures
            r@ == "https://store.playstation.com/valkyrie-api/"@ + self.regionPath()@
                + "/19/resolve/"@ + id@,
    {
        let mut url = String::from_str("https://store.playstation.com/valkyrie-api/");
        url.append(self.region);
        url.append("/19/resolve/");
        url.append(id);
        url
    }

    /// The public product page recorded as the item's URL.
    pub fn productURL(&self, id: &str) -> (r: String)
        ensures
            r@ == "https://store.playstation.com/en-us/product/"@ + id@,
    {
        let mut url = String::from_str("https://store.playstation.com/en-us/product/");
        url.append(id);
        url
    }

    /// Extracts the item from the resolver response: scans the included
    /// sub-items for the first whose content type is an allow-listed
    /// full-game classification, and reads its name and price node. Fails
    /// with `NotFoundError` exactly when the sub-items are there but none
    /// is allow-listed, with `ParseError` when the response or the matched
    /// sub-item is malformed.
    pub fn parseResponse(&self, content: &str, id: &str) -> (r: Result<ItemInfo, Error>)
        ensures
            match r {
                Ok(it) => {
                    &&& spec_json_of(content@) matches Some(doc) && (spec_ps_included(doc)
                        matches Some(vs) && (spec_ps_first_listed(vs) matches Some(sub) && {
                        &&& spec_ps_name(sub) == Some(it.name@)
                        &&& spec_ps_value(sub) == Some(it.price as int)
                        &&& spec_ps_display(sub) == Some(it.price_str@)
                    }))
                    &&& it.store@ == self.storeName()@
                    &&& it.id@ == id@
                    &&& it.url@ == "https://store.playstation.com/en-us/product/"@ + id@
                    &&& it.alert_price is None
                    &&& it.update_interval is None
                    &&& it.last_update == 0
                },
                Err(e) => match spec_json_of(content@) {
                    None => e is ParseError,
                    Some(doc) => match spec_ps_included(doc) {
                        None => e is ParseError,
                        Some(vs) => match spec_ps_first_listed(vs) {
                            None => e is NotFoundError,
                            Some(sub) => e is ParseError && {
                                ||| spec_ps_name(sub) is None
                                ||| spec_ps_value(sub) is None
                                ||| spec_ps_value(sub)->Some_0 > i64::MAX
                                ||| spec_ps_value(sub)->Some_0 < -(i64::MAX as int)
                                ||| spec_ps_display(sub) is None
                            },
                        },
                    },
                },
            },
    {
        let doc = match jsonTreeOf(content) {
            Some(d) => d,
            None => {
                return Err(Error::ParseError(String::from_str("Failed to parse JSON")));
            },
        };
        let included = match doc.get("included") {
            Some(v) => v,
            None => {
                return Err(Error::ParseError(String::from_str("Failed to get sub-item")));
            },
        };
        let subs = match included {
            JsonTree::Arr(vs) => vs,
            _ => {
                return Err(Error::ParseError(String::from_str("Failed to get sub-item")));
            },
        };
        let n = subs.len();
        let mut k: usize = 0;
        proof {
            assert(subs@.skip(0) =~= subs@);
            assert(spec_ps_included(doc) == Some(subs@));
        }
        while k < n
            invariant
                spec_json_of(content@) == Some(doc),
                spec_ps_included(doc) == Some(subs@),
                n == subs@.len(),
                k <= n,
                spec_ps_first_listed(subs@) == spec_ps_first_listed(subs@.skip(k as int)),
            decreases n - k,
        {
            proof {
                assert(subs@.skip(k as int)[0] == subs@[k as int]);
                assert(subs@.skip(k as int).drop_first() =~= subs@.skip((k + 1) as int));
            }
            if Self::isListed(&subs[k]) {
                proof {
                    assert(spec_ps_first_listed(subs@.skip(k as int)) == Some(subs@[k as int]));
                    assert(spec_ps_included(doc) == Some(subs@));
                }
                return self.subItemInfo(&subs[k], id);
            }
            k = k + 1;
        }
        proof {
            assert(subs@.skip(n as int).len() == 0);
            assert(spec_ps_included(doc) == Some(subs@));
        }
        Err(Error::NotFoundError(String::from_str("Failed to retrieve item info")))
    }

    /// Whether a sub-item carries an allow-listed content type.
    fn isListed(sub: &JsonTree) -> (r: bool)
        ensures
            r == spec_ps_listed(*sub),
    {
        match sub.get("attributes") {
            Some(a) => match a.get("game-content-type") {
                Some(g) => match g.str_value() {
                    Some(s) => eqStr(s.as_str(), "Full Game") || eqStr(s.as_str(), "PSN Game"),
                    None => false,
                },
                None => false,
            },
            None => false,
        }
    }

    /// Reads name and price fields out of a matched sub-item.
    fn subItemInfo(&self, sub: &JsonTree, id: &str) -> (r: Result<ItemInfo, Error>)
        ensures
            match r {
                Ok(it) => {
                    &&& spec_ps_name(*sub) == Some(it.name@)
                    &&& spec_ps_value(*sub) == Some(it.price as int)
                    &&& spec_ps_display(*sub) == Some(it.price_str@)
                    &&& it.store@ == self.storeName()@
                    &&& it.id@ == id@
                    &&& it.url@ == "https://store.playstation.com/en-us/product/"@ + id@
                    &&& it.alert_price is None
                    &&& it.update_interval is None
                    &&& it.last_update == 0
                },
                Err(e) => e is ParseError && {
                    ||| spec_ps_name(*sub) is None
                    ||| spec_ps_value(*sub) is None
                    ||| spec_ps_value(*sub)->Some_0 > i64::MAX
                    ||| spec_ps_value(*sub)->Some_0 < -(i64::MAX as int)
                    ||| spec_ps_display(*sub) is None
                },
            },
    {
        let attrs = match sub.get("attributes") {
            Some(a) => a,
            None => {
                return Err(Error::ParseError(String::from_str("Failed to get item name")));
            },
        };
        let name = match attrs.get("name") {
            Some(v) => match v.str_value() {
                Some(s) => s,
                None => {
                    return Err(Error::ParseError(String::from_str("Failed to get item name")));
                },
            },
            None => {
                return Err(Error::ParseError(String::from_str("Failed to get item name")));
            },
        };
        let price_obj = match Self::actualPriceNode(sub) {
            Some(v) => v,
            None => {
                return Err(Error::ParseError(String::from_str("Failed to get price")));
            },
        };
        let price = match price_obj.get("value") {
            Some(v) => match v.int_value() {
                Some(p) => p,
                None => {
                    return Err(Error::ParseError(String::from_str("Failed to get price")));
                },
            },
            None => {
                return Err(Error::ParseError(String::from_str("Failed to get price")));
            },
        };
        let price_str = match price_obj.get("display") {
            Some(v) => match v.str_value() {
                Some(s) => s,
                None => {
                    return Err(
                        Error::ParseError(String::from_str("Failed to get price string")),
                    );
                },
            },
            None => {
                return Err(Error::ParseError(String::from_str("Failed to get price string")));
            },
        };
        Ok(
            ItemInfo {
                name: name.clone(),
                store: String::from_str(self.name),
                id: id.to_owned(),
                url: self.productURL(id),
                price,
                price_str: price_str.clone(),
                alert_price: None,
                update_interval: None,
                last_update: 0,
            },
        )
    }

    /// The documented path to the actual-price node of a sub-item.
    fn actualPriceNode<'a>(sub: &'a JsonTree) -> (r: Option<&'a JsonTree>)
        ensures
            match r {
                Some(x) => spec_ps_price_node(*sub) == Some(*x),
                None => spec_ps_price_node(*sub) is None,
            },
    {
        let attrs = match sub.get("attributes") {
            Some(v) => v,
            None => {
                return None;
            },
        };
        let skus = match attrs.get("skus") {
            Some(v) => v,
            None => {
                return None;
            },
        };
        let sku0 = match skus.at(0) {
            Some(v) => v,
            None => {
                return None;
            },
        };
        let prices = match sku0.get("prices") {
            Some(v) => v,
            None => {
                return None;
            },
        };
        let npu = match prices.get("non-plus-user") {
            Some(v) => v,
            None => {
                return None;
            },
        };
        npu.get("actual-price")
    }
}

} // verus!
