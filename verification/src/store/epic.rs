//! Storefront client for the Epic store: item info is embedded in the
//! product page as a linked-data JSON script block, whose price is a JSON
//! number with a decimal fraction.
use vstd::prelude::*;

use crate::error::Error;
use crate::jsonval::{
    jsonTreeOf, spec_arr_at, spec_json_of, spec_num_text_of, spec_obj_get, spec_str_of, JsonTree,
};
use crate::store::ItemInfo;
use crate::strutil::{charsOf, findFrom, spec_find_from};
use crate::utils::{
    allDigits, digitsValue, findSubStr, lemma_digits_val_nonneg, spec_all_digits, spec_between,
    spec_digit_val, spec_digits_val,
};

verus! {

pub enum Region {
    US,
}

pub struct Epic {
    region: &'static str,
    name: &'static str,
}

/// The cents contributed by a decimal fraction, rounded half up: the
/// first two fraction digits, plus one when the third digit is five or
/// more.
pub open spec fn spec_frac_cents(f: Seq<char>) -> int {
    let d0 = if f.len() >= 1 {
        spec_digit_val(f[0])
    } else {
        0int
    };
    let d1 = if f.len() >= 2 {
        spec_digit_val(f[1])
    } else {
        0int
    };
    let carry = if f.len() >= 3 && f[2] as int >= '5' as int {
        1int
    } else {
        0int
    };
    d0 * 10 + d1 + carry
}

/// A decimal number text read as cents: the value times 100, rounded half
/// up. At most one decimal separator; every other character a digit.
pub open spec fn spec_decimal_cents(s: Seq<char>) -> Option<int> {
    match spec_find_from(s, seq!['.'], 0) {
        None => if s.len() > 0 && spec_all_digits(s) {
            Some(spec_digits_val(s) * 100)
        } else {
            None
        },
        Some(i) => {
            let ip = s.subrange(0, i);
            let fp = s.subrange(i + 1, s.len() as int);
            if ip.len() > 0 && spec_all_digits(ip) && spec_all_digits(fp) {
                Some(spec_digits_val(ip) * 100 + spec_frac_cents(fp))
            } else {
                None
            }
        },
    }
}

/// The decimal rendering of the price in the linked-data document: the
/// number at offers, first entry, priceSpecification, price.
pub open spec fn spec_epic_price_text(doc: JsonTree) -> Option<Seq<char>> {
    match spec_obj_get(doc, "offers"@) {
        Some(of) => match spec_arr_at(of, 0) {
            Some(o0) => match spec_obj_get(o0, "priceSpecification"@) {
                Some(psn) => match spec_obj_get(psn, "price"@) {
                    Some(p) => spec_num_text_of(p),
                    None => None,
                },
                None => None,
            },
            None => None,
        },
        None => None,
    }
}

/// The item name in the linked-data document.
pub open spec fn spec_epic_name(doc: JsonTree) -> Option<Seq<char>> {
    match spec_obj_get(doc, "name"@) {
        Some(n) => spec_str_of(n),
        None => None,
    }
}

/// The linked-data document of a product page: the JSON from the first
/// opening brace of the script block the fixed markers bracket.
pub open spec fn spec_epic_doc(content: Seq<char>) -> Option<JsonTree> {
    match spec_between(content, "type=\"application/ld+json\""@, "</script>"@) {
        None => None,
        Some(d) => match spec_find_from(d, seq!['{'], 0) {
            None => None,
            Some(b) => spec_json_of(d.subrange(b, d.len() as int)),
        },
    }
}

/// Converts a decimal number text into cents: the value times 100,
/// rounded half up. Rejects texts with several separators, non-digits, or
/// nothing before the separator, and values too large for `i64`.
pub fn epicCents(numstr: &str) -> (r: Result<i64, Error>)
    ensures
        match r {
            Ok(v) => spec_decimal_cents(numstr@) == Some(v as int),
            Err(e) => {
                &&& e is ParseError
                &&& (spec_decimal_cents(numstr@) is None || spec_decimal_cents(numstr@)->Some_0
                    > i64::MAX)
            },
        },
{
    let cs = charsOf(numstr);
    let mut dotpat: Vec<char> = Vec::new();
    dotpat.push('.');
    proof {
        assert(dotpat@ =~= seq!['.']);
    }
    match findFrom(&cs, &dotpat, 0) {
        None => {
            if cs.len() == 0 || !allDigits(&cs) {
                return Err(Error::ParseError(String::from_str("Malformed price number")));
            }
            let v = match digitsValue(&cs) {
                Some(v) => v,
                None => {
                    proof {
                        assert(spec_digits_val(numstr@) * 100 > i64::MAX) by (nonlinear_arith)
                            requires spec_digits_val(numstr@) > i64::MAX;
                    }
                    return Err(Error::ParseError(String::from_str("Price number too large")));
                },
            };
            proof {
                lemma_digits_val_nonneg(numstr@);
            }
            let wide: i128 = (v as i128) * 100;
            if wide > i64::MAX as i128 {
                return Err(Error::ParseError(String::from_str("Price number too large")));
            }
            Ok(wide as i64)
        },
        Some(di) => {
            let n = cs.len();
            let mut ip: Vec<char> = Vec::new();
            let mut k: usize = 0;
            proof {
                crate::strutil::lemma_find_from_correct(cs@, dotpat@, 0);
                assert(di + 1 <= n);
                assert(cs@.subrange(0, 0) =~= Seq::<char>::empty());
            }
            while k < di
                invariant
                    di < cs@.len(),
                    k <= di,
                    ip@ == cs@.subrange(0, k as int),
                decreases di - k,
            {
                ip.push(cs[k]);
                proof {
                    assert(ip@ =~= cs@.subrange(0, (k + 1) as int));
                }
                k = k + 1;
            }
            let mut fp: Vec<char> = Vec::new();
            let mut k2: usize = di + 1;
            proof {
                assert(cs@.subrange((di + 1) as int, (di + 1) as int) =~= Seq::<char>::empty());
            }
            while k2 < cs.len()
                invariant
                    di + 1 <= k2 <= cs@.len(),
                    fp@ == cs@.subrange((di + 1) as int, k2 as int),
                decreases cs@.len() - k2,
            {
                fp.push(cs[k2]);
                proof {
                    assert(fp@ =~= cs@.subrange((di + 1) as int, (k2 + 1) as int));
                }
                k2 = k2 + 1;
            }
            if ip.len() == 0 || !allDigits(&ip) || !allDigits(&fp) {
                return Err(Error::ParseError(String::from_str("Malformed price number")));
            }
            let ghost ipv = cs@.subrange(0, di as int);
            let ghost fpv = cs@.subrange((di + 1) as int, cs@.len() as int);
            let v = match digitsValue(&ip) {
                Some(v) => v,
                None => {
                    proof {
                        lemma_frac_cents_bounds(fpv);
                        assert(spec_digits_val(ipv) * 100 + spec_frac_cents(fpv) > i64::MAX)
                            by (nonlinear_arith)
                            requires
                                spec_digits_val(ipv) > i64::MAX,
                                spec_frac_cents(fpv) >= 0,
                        ;
                    }
                    return Err(Error::ParseError(String::from_str("Price number too large")));
                },
            };
            let d0: i64 = if fp.len() >= 1 {
                digitVal(fp[0])
            } else {
                0
            };
            let d1: i64 = if fp.len() >= 2 {
                digitVal(fp[1])
            } else {
                0
            };
            let carry: i64 = if fp.len() >= 3 && fp[2] >= '5' {
                1
            } else {
                0
            };
            let frac: i64 = d0 * 10 + d1 + carry;
            proof {
                lemma_digits_val_nonneg(ipv);
                lemma_frac_cents_bounds(fpv);
                assert(frac == spec_frac_cents(fpv));
            }
            let wide: i128 = (v as i128) * 100 + (frac as i128);
            if wide > i64::MAX as i128 {
                return Err(Error::ParseError(String::from_str("Price number too large")));
            }
            Ok(wide as i64)
        },
    }
}

proof fn lemma_frac_cents_bounds(f: Seq<char>)
    requires
        spec_all_digits(f),
    ensures
        0 <= spec_frac_cents(f) <= 100,
{
}

fn digitVal(c: char) -> (r: i64)
    requires
        crate::utils::spec_is_digit(c),
    ensures
        r == spec_digit_val(c),
        0 <= r <= 9,
{
    (c as u32 as i64) - ('0' as u32 as i64)
}

impl Epic {
    /// The locale segment baked into the product page URL.
    pub closed spec fn regionPath(&self) -> &'static str {
        self.region
    }

    /// The store name under which items from this client are tracked.
    pub closed spec fn storeName(&self) -> &'static str {
        self.name
    }

    pub fn new(region: Region) -> (r: Self)
        ensures
            r.regionPath()@ == "en-US"@,
            r.storeName()@ == "epic-us"@,
    {
        match region {
            Region::US => Epic { region: "en-US", name: "epic-us" },
        }
    }

    /// The product page for an item id.
    pub fn dataURL(&self, id: &str) -> (r: String)
        ensures
            r@ == "https://epicgames.com/store/"@ + self.regionPath()@ + "/p/"@ + id@,
    {
        let mut url = String::from_str("https://epicgames.com/store/");
        url.append(self.region);
        url.append("/p/");
        url.append(id);
        url
    }

    /// Extracts the item from the linked-data script block of the product
    /// page: the name by its key, and the price from the offer's price
    /// specification, as a decimal number converted to cents with a
    /// dollar-prefixed display text synthesized from its rendering.
    pub fn parseItem(&self, content: &str, id: &str) -> (r: Result<ItemInfo, Error>)
        ensures
            match r {
                Ok(it) => {
                    &&& spec_epic_doc(content@) matches Some(doc) && (spec_epic_price_text(doc)
                        matches Some(pt) && {
                        &&& spec_decimal_cents(pt) == Some(it.price as int)
                        &&& it.price_str@ == seq!['$'] + pt
                    }) && spec_epic_name(doc) == Some(it.name@)
                    &&& it.store@ == self.storeName()@
                    &&& it.id@ == id@
                    &&& it.url@ == "https://epicgames.com/store/"@ + self.regionPath()@ + "/p/"@
                        + id@
                    &&& it.alert_price is None
                    &&& it.update_interval is None
                    &&& it.last_update == 0
                },
                Err(e) => {
                    &&& e is ParseError
                    &&& match spec_epic_doc(content@) {
                        None => true,
                        Some(doc) => {
                            ||| spec_epic_price_text(doc) is None
                            ||| (spec_epic_price_text(doc) matches Some(pt) && (
                            spec_decimal_cents(pt) is None || spec_decimal_cents(pt)->Some_0
                                > i64::MAX))
                            ||| spec_epic_name(doc) is None
                        },
                    }
                },
            },
    {
        let url = self.dataURL(id);
        let seg = match findSubStr(content, "type=\"application/ld+json\"", "</script>") {
            Some(t) => t.0,
            None => {
                return Err(Error::ParseError(String::from_str("Invalid Epic item page")));
            },
        };
        let sv = charsOf(seg);
        let mut bracepat: Vec<char> = Vec::new();
        bracepat.push('{');
        proof {
            assert(bracepat@ =~= seq!['{']);
        }
        let b = match findFrom(&sv, &bracepat, 0) {
            Some(b) => b,
            None => {
                return Err(
                    Error::ParseError(String::from_str("Failed to find beginning of JSON")),
                );
            },
        };
        proof {
            crate::strutil::lemma_find_from_correct(seg@, bracepat@, 0);
        }
        let json_str = seg.substring_char(b, seg.unicode_len());
        let doc = match jsonTreeOf(json_str) {
            Some(d) => d,
            None => {
                return Err(Error::ParseError(String::from_str("Failed to parse JSON")));
            },
        };
        let numstr = match Self::priceText(&doc) {
            Some(s) => s,
            None => {
                return Err(Error::ParseError(String::from_str("Failed to extract price")));
            },
        };
        let price = epicCents(numstr.as_str())?;
        let name = match doc.get("name") {
            Some(v) => match v.str_value() {
                Some(s) => s,
                None => {
                    return Err(Error::ParseError(String::from_str("Failed to extract name")));
                },
            },
            None => {
                return Err(Error::ParseError(String::from_str("Failed to extract name")));
            },
        };
        let mut price_str = String::from_str("$");
        price_str.append(numstr.as_str());
        proof {
            reveal_strlit("$");
            assert("$"@ =~= seq!['$']);
            assert(price_str@ == seq!['$'] + numstr@);
        }
        Ok(
            ItemInfo {
                name: name.clone(),
                store: String::from_str(self.name),
                id: id.to_owned(),
                url,
                price,
                price_str,
                alert_price: None,
                update_interval: None,
                last_update: 0,
            },
        )
    }

    /// The documented path to the price number of the document: offers,
    /// first entry, priceSpecification, price.
    fn priceText<'a>(doc: &'a JsonTree) -> (r: Option<&'a String>)
        ensures
            match r {
                Some(s) => spec_epic_price_text(*doc) == Some(s@),
                None => spec_epic_price_text(*doc) is None,
            },
    {
        let offers = match doc.get("offers") {
            Some(v) => v,
            None => {
                return None;
            },
        };
        let o0 = match offers.at(0) {
            Some(v) => v,
            None => {
                return None;
            },
        };
        let psn = match o0.get("priceSpecification") {
            Some(v) => v,
            None => {
                return None;
            },
        };
        let p = match psn.get("price") {
            Some(v) => v,
            None => {
                return None;
            },
        };
        p.num_text()
    }
}

} // verus!
