//! Storefront client for Amazon: the price stands in an HTML price block
//! located by structural markers on the product page — a table row
//! reserved for price blocks, a cell of the price-span class, and a span
//! whose identifier marks it as the canonical price.
use vstd::prelude::*;

use crate::error::Error;
use crate::htmldoc::{
    descByTag, firstElemById, firstTextIn, htmlTreeOf, spec_attr, spec_desc_by_tag,
    spec_elem_depth, spec_first_text, spec_html_of, spec_id_in_elem, HtmlElem,
    HTML_DEPTH_LIMIT,
};
use crate::store::ItemInfo;
use crate::strutil::{spec_starts_with, spec_trimmed, startsWith, trimSpaces};
use crate::utils::{parsePrice, spec_parse_price};

verus! {

pub struct Amazon {
    name: &'static str,
}

/// The price text a table cell yields: when the cell carries the
/// price-span class, the first text of its first span whose identifier
/// marks it as a price block.
pub open spec fn spec_price_td(e: HtmlElem) -> Option<Seq<char>> {
    match spec_attr(e, "class"@) {
        Some(c) => if spec_starts_with(c, "a-span"@) {
            spec_span_text(spec_desc_by_tag(e, "span"@))
        } else {
            None
        },
        None => None,
    }
}

/// The first text of the first span whose identifier starts with the
/// price-block marker.
pub open spec fn spec_span_text(spans: Seq<HtmlElem>) -> Option<Seq<char>>
    decreases spans.len(),
{
    if spans.len() == 0 {
        None
    } else {
        let marked = match spec_attr(spans[0], "id"@) {
            Some(idv) => spec_starts_with(idv, "priceblock_"@),
            None => false,
        };
        if marked {
            spec_first_text(spans[0])
        } else {
            spec_span_text(spans.drop_first())
        }
    }
}

/// The price text a table row yields: when the row's identifier marks it
/// as a price block, the first of its cells' price texts.
pub open spec fn spec_price_tr(e: HtmlElem) -> Option<Seq<char>> {
    match spec_attr(e, "id"@) {
        Some(idv) => if spec_starts_with(idv, "priceblock_"@) {
            spec_tds_price(spec_desc_by_tag(e, "td"@))
        } else {
            None
        },
        None => None,
    }
}

/// The first price text the rows yield, in document order.
pub open spec fn spec_tds_price(tds: Seq<HtmlElem>) -> Option<Seq<char>>
    decreases tds.len(),
{
    if tds.len() == 0 {
        None
    } else {
        match spec_price_td(tds[0]) {
            Some(t) => Some(t),
            None => spec_tds_price(tds.drop_first()),
        }
    }
}

pub open spec fn spec_rows_price(rows: Seq<HtmlElem>) -> Option<Seq<char>>
    decreases rows.len(),
{
    if rows.len() == 0 {
        None
    } else {
        match spec_price_tr(rows[0]) {
            Some(t) => Some(t),
            None => spec_rows_price(rows.drop_first()),
        }
    }
}

/// The page's price text: the first price text among the table rows of
/// the first element whose identifier is the price-block container.
pub open spec fn spec_amazon_price_text(root: HtmlElem) -> Option<Seq<char>> {
    match spec_id_in_elem(root, "price"@) {
        Some(pb) => spec_rows_price(spec_desc_by_tag(pb, "tr"@)),
        None => None,
    }
}

/// The page's title text: the first text of the first element whose
/// identifier marks the product title.
pub open spec fn spec_amazon_title(root: HtmlElem) -> Option<Seq<char>> {
    match spec_id_in_elem(root, "productTitle"@) {
        Some(t) => spec_first_text(t),
        None => None,
    }
}

impl Amazon {
    /// The store name under which items from this client are tracked.
    pub closed spec fn storeName(&self) -> &'static str {
        self.name
    }

    pub fn new() -> (r: Self)
        ensures
            r.storeName()@ == "amazon-us"@,
    {
        Amazon { name: "amazon-us" }
    }

    /// The product page for an item id.
    pub fn dataURL(&self, id: &str) -> (r: String)
        ensures
            r@ == "https://amazon.com/gp/product/"@ + id@ + "/"@,
    {
        let mut url = String::from_str("https://amazon.com/gp/product/");
        url.append(id);
        url.append("/");
        url
    }

    /// The price text of a table cell, if the cell carries the price-span
    /// class and holds a span whose identifier marks it as the price.
    fn parsePriceTD<'a>(td: &'a HtmlElem) -> (r: Option<&'a String>)
        ensures
            match r {
                Some(s) => spec_price_td(*td) == Some(s@),
                None => spec_price_td(*td) is None,
            },
    {
        match td.attr("class") {
            Some(c) => {
                if !startsWith(c.as_str(), "a-span") {
                    return None;
                }
            },
            None => {
                return None;
            },
        }
        let spans = descByTag(td, "span");
        let ghost sp = spec_desc_by_tag(*td, "span"@);
        let n = spans.len();
        let mut k: usize = 0;
        proof {
            assert(sp.skip(0) =~= sp);
        }
        while k < n
            invariant
                spec_price_td(*td) == spec_span_text(sp),
                n == spans@.len(),
                k <= n,
                sp.len() == n,
                forall|j: int| 0 <= j < n ==> *(#[trigger] spans@[j]) == sp[j],
                spec_span_text(sp) == spec_span_text(sp.skip(k as int)),
            decreases n - k,
        {
            proof {
                assert(*spans@[k as int] == sp[k as int]);
                assert(sp.skip(k as int)[0] == sp[k as int]);
                assert(sp.skip(k as int).drop_first() =~= sp.skip((k + 1) as int));
            }
            let span = spans[k];
            let marked = match span.attr("id") {
                Some(idv) => startsWith(idv.as_str(), "priceblock_"),
                None => false,
            };
            if marked {
                let r = firstTextIn(span);
                proof {
                    assert(spec_span_text(sp.skip(k as int)) == spec_first_text(sp[k as int]));
                }
                return r;
            }
            k = k + 1;
        }
        proof {
            assert(sp.skip(n as int).len() == 0);
        }
        None
    }

    /// The price text of a row of the price table, if the row's
    /// identifier marks it as a price block and one of its cells holds
    /// the price.
    fn parsePriceTR<'a>(tr: &'a HtmlElem) -> (r: Option<&'a String>)
        ensures
            match r {
                Some(s) => spec_price_tr(*tr) == Some(s@),
                None => spec_price_tr(*tr) is None,
            },
    {
        match tr.attr("id") {
            Some(idv) => {
                if !startsWith(idv.as_str(), "priceblock_") {
                    return None;
                }
            },
            None => {
                return None;
            },
        }
        let tds = descByTag(tr, "td");
        let ghost tsq = spec_desc_by_tag(*tr, "td"@);
        let n = tds.len();
        let mut k: usize = 0;
        proof {
            assert(tsq.skip(0) =~= tsq);
        }
        while k < n
            invariant
                spec_price_tr(*tr) == spec_tds_price(tsq),
                n == tds@.len(),
                k <= n,
                tsq.len() == n,
                forall|j: int| 0 <= j < n ==> *(#[trigger] tds@[j]) == tsq[j],
                spec_tds_price(tsq) == spec_tds_price(tsq.skip(k as int)),
            decreases n - k,
        {
            proof {
                assert(*tds@[k as int] == tsq[k as int]);
                assert(tsq.skip(k as int)[0] == tsq[k as int]);
                assert(tsq.skip(k as int).drop_first() =~= tsq.skip((k + 1) as int));
            }
            match Self::parsePriceTD(tds[k]) {
                Some(t) => {
                    proof {
                        assert(spec_tds_price(tsq.skip(k as int)) == Some(t@));
                    }
                    return Some(t);
                },
                None => {},
            }
            k = k + 1;
        }
        proof {
            assert(tsq.skip(n as int).len() == 0);
        }
        None
    }

    /// The page's price text, if its price-block container holds one.
    fn pagePriceText<'a>(root: &'a HtmlElem) -> (r: Option<&'a String>)
        ensures
            match r {
                Some(s) => spec_amazon_price_text(*root) == Some(s@),
                None => spec_amazon_price_text(*root) is None,
            },
    {
        let pb = match firstElemById(root, "price") {
            Some(p) => p,
            None => {
                return None;
            },
        };
        let rows = descByTag(pb, "tr");
        let ghost rsq = spec_desc_by_tag(*pb, "tr"@);
        let n = rows.len();
        let mut k: usize = 0;
        proof {
            assert(rsq.skip(0) =~= rsq);
        }
        while k < n
            invariant
                spec_amazon_price_text(*root) == spec_rows_price(rsq),
                n == rows@.len(),
                k <= n,
                rsq.len() == n,
                forall|j: int| 0 <= j < n ==> *(#[trigger] rows@[j]) == rsq[j],
                spec_rows_price(rsq) == spec_rows_price(rsq.skip(k as int)),
            decreases n - k,
        {
            proof {
                assert(*rows@[k as int] == rsq[k as int]);
                assert(rsq.skip(k as int)[0] == rsq[k as int]);
                assert(rsq.skip(k as int).drop_first() =~= rsq.skip((k + 1) as int));
            }
            match Self::parsePriceTR(rows[k]) {
                Some(t) => {
                    proof {
                        assert(spec_rows_price(rsq.skip(k as int)) == Some(t@));
                    }
                    return Some(t);
                },
                None => {},
            }
            k = k + 1;
        }
        proof {
            assert(rsq.skip(n as int).len() == 0);
        }
        None
    }

    /// Extracts the item from the product page: the first price-block
    /// text, which must carry the mandatory dollar prefix feeding the
    /// money parser, and the product title, trimmed.
    pub fn parseProductPage(&self, content: &str, id: &str) -> (r: Result<ItemInfo, Error>)
        ensures
            match r {
                Ok(it) => {
                    &&& spec_amazon_price_text(spec_html_of(content@)) matches Some(pt) && {
                        &&& pt.len() > 0
                        &&& spec_starts_with(pt, "$"@)
                        &&& it.price_str@ == pt
                        &&& spec_parse_price(pt.subrange(1, pt.len() as int)) == Some(
                            it.price as int,
                        )
                    }
                    &&& spec_amazon_title(spec_html_of(content@)) matches Some(tt)
                        && it.name@ == spec_trimmed(tt)
                    &&& it.store@ == self.storeName()@
                    &&& it.id@ == id@
                    &&& it.url@ == "https://amazon.com/gp/product/"@ + id@ + "/"@
                    &&& it.alert_price is None
                    &&& it.update_interval == Some(600u64)
                    &&& it.last_update == 0
                },
                Err(e) => {
                    &&& e is ParseError
                    &&& {
                        ||| spec_elem_depth(spec_html_of(content@)) > HTML_DEPTH_LIMIT as int
                        ||| spec_amazon_price_text(spec_html_of(content@)) is None
                        ||| (spec_amazon_price_text(spec_html_of(content@)) matches Some(pt)
                            && (pt.len() == 0 || !spec_starts_with(pt, "$"@) || (
                        spec_parse_price(pt.subrange(1, pt.len() as int)) is None
                            || spec_parse_price(pt.subrange(1, pt.len() as int))->Some_0
                            > i64::MAX)))
                        ||| spec_amazon_title(spec_html_of(content@)) is None
                    }
                },
            },
    {
        let root = match htmlTreeOf(content) {
            Some(t) => t,
            None => {
                let mut m = String::from_str("Page too deeply nested for ");
                m.append(id);
                return Err(Error::ParseError(m));
            },
        };
        let price_str = match Self::pagePriceText(&root) {
            Some(t) => t,
            None => {
                let mut m = String::from_str("Failed to get amazon price of ");
                m.append(id);
                return Err(Error::ParseError(m));
            },
        };
        if price_str.as_str().is_empty() {
            let mut m = String::from_str("Failed to get amazon price of ");
            m.append(id);
            return Err(Error::ParseError(m));
        }
        if !startsWith(price_str.as_str(), "$") {
            let mut m = String::from_str("Invalid amazon price for ");
            m.append(id);
            return Err(Error::ParseError(m));
        }
        proof {
            reveal_strlit("$");
        }
        let rest = price_str.as_str().substring_char(1, price_str.as_str().unicode_len());
        let price = parsePrice(rest)?;
        let title_node = match firstElemById(&root, "productTitle") {
            Some(t) => t,
            None => {
                let mut m = String::from_str("Failed to extract amazon name of ");
                m.append(id);
                return Err(Error::ParseError(m));
            },
        };
        let name = match firstTextIn(title_node) {
            Some(t) => t,
            None => {
                let mut m = String::from_str(
                    "Amazon name node does not contain a name for product ",
                );
                m.append(id);
                return Err(Error::ParseError(m));
            },
        };
        Ok(
            ItemInfo {
                name: trimSpaces(name.as_str()).to_owned(),
                store: String::from_str(self.name),
                id: id.to_owned(),
                url: self.dataURL(id),
                price,
                price_str: price_str.clone(),
                alert_price: None,
                update_interval: Some(600),
                last_update: 0,
            },
        )
    }
}

} // verus!
