//! The canonical item record that every storefront client produces, and the
//! registry resolving store names to clients.
use vstd::prelude::*;

pub mod amazon;
pub mod epic;
pub mod playstation;
pub mod switch;

use crate::error::Error;

verus! {

/// The normalized info one gets when querying a store.
///
/// `price` is in minor units (cents); `price_str` is the storefront's own
/// rendering of the price, kept verbatim for display. `update_interval` is
/// in seconds; `last_update` is a unix timestamp in seconds, 0 when the
/// record has never been stamped.
pub struct ItemInfo {
    pub name: String,
    pub store: String,
    pub id: String,
    pub url: String,
    pub price: i64,
    pub price_str: String,
    pub alert_price: Option<u64>,
    pub update_interval: Option<u64>,
    pub last_update: i64,
}

impl ItemInfo {
    /// A fresh record for the given key, not yet populated by a fetch.
    pub fn new(store: &str, id: &str) -> (r: Self)
        ensures
            r.name@.len() == 0,
            r.store@ == store@,
            r.id@ == id@,
            r.url@.len() == 0,
            r.price == 0,
            r.price_str@.len() == 0,
            r.alert_price is None,
            r.update_interval is None,
            r.last_update == 0,
    {
        ItemInfo {
            name: String::new(),
            store: store.to_owned(),
            id: id.to_owned(),
            url: String::new(),
            price: 0,
            price_str: String::new(),
            alert_price: None,
            update_interval: None,
            last_update: 0,
        }
    }

    /// Whether the record has not been populated by a fetch yet.
    pub fn bare(&self) -> (r: bool)
        ensures
            r == (self.name@.len() == 0),
    {
        self.name.as_str().is_empty()
    }
}

impl Clone for ItemInfo {
    fn clone(&self) -> (r: Self)
        ensures
            r == *self,
    {
        ItemInfo {
            name: self.name.clone(),
            store: self.store.clone(),
            id: self.id.clone(),
            url: self.url.clone(),
            price: self.price,
            price_str: self.price_str.clone(),
            alert_price: self.alert_price,
            update_interval: self.update_interval,
            last_update: self.last_update,
        }
    }
}

/// A constructed storefront client, resolved from a store-name string.
pub enum Store {
    PlayStation(playstation::PlayStation),
    Switch(switch::Switch),
}

impl Store {
    /// Resolves a store name to a client. The mapping is fixed: each name
    /// bakes in both the storefront and its region. Unknown names are
    /// rejected with `UnknownStoreError`.
    pub fn new(store_name: &str) -> (r: Result<Self, Error>)
        ensures
            store_name@ == "ps4-us"@ ==> (r matches Ok(Store::PlayStation(p))
                && p.regionPath()@ == "en/US"@ && p.storeName()@ == "ps4-us"@),
            store_name@ == "ps4-hk"@ ==> (r matches Ok(Store::PlayStation(p))
                && p.regionPath()@ == "zh/HK"@ && p.storeName()@ == "ps4-hk"@),
            store_name@ == "switch-us"@ ==> (r matches Ok(Store::Switch(s))
                && s.countryCode()@ == "US"@ && s.langCode()@ == "en"@
                && s.storeName()@ == "switch-us"@),
            r is Err ==> {
                &&& store_name@ != "ps4-us"@
                &&& store_name@ != "ps4-hk"@
                &&& store_name@ != "switch-us"@
                &&& r->Err_0 is UnknownStoreError
            },
            r is Ok ==> (store_name@ == "ps4-us"@ || store_name@ == "ps4-hk"@
                || store_name@ == "switch-us"@),
    {
        proof {
            reveal_strlit("ps4-us");
            reveal_strlit("ps4-hk");
            reveal_strlit("switch-us");
            assert("ps4-us"@ != "ps4-hk"@) by {
                assert("ps4-us"@[4] == 'u');
                assert("ps4-hk"@[4] == 'h');
            }
            assert("ps4-us"@ != "switch-us"@) by {
                assert("ps4-us"@.len() == 6);
                assert("switch-us"@.len() == 9);
            }
            assert("ps4-hk"@ != "switch-us"@) by {
                assert("ps4-hk"@.len() == 6);
                assert("switch-us"@.len() == 9);
            }
        }
        if crate::strutil::eqStr(store_name, "ps4-us") {
            Ok(Store::PlayStation(playstation::PlayStation::new(playstation::Region::US)))
        } else if crate::strutil::eqStr(store_name, "ps4-hk") {
            Ok(Store::PlayStation(playstation::PlayStation::new(playstation::Region::HK)))
        } else if crate::strutil::eqStr(store_name, "switch-us") {
            Ok(Store::Switch(switch::Switch::new(switch::Region::US)))
        } else {
            let mut m = String::from_str("Invalid store: ");
            m.append(store_name);
            Err(Error::UnknownStoreError(m))
        }
    }
}

} // verus!
