//! The library's own model of a parsed HTML page, and the trusted bridge
//! that obtains it from scraper. The Amazon client walks this tree with
//! the verified traversals below, so its contract can state exactly which
//! blocks it reads and what it returns.
use vstd::prelude::*;

use crate::strutil::eqStr;

verus! {

/// An element of a parsed page: tag name, attributes as the parser hands
/// them (sorted by name, one per name), and child nodes in document
/// order.
pub struct HtmlElem {
    pub tag: String,
    pub attrs: Vec<(String, String)>,
    pub kids: Vec<HtmlNode>,
}

/// A node of a parsed page: an element or a text fragment.
pub enum HtmlNode {
    Elem(HtmlElem),
    Text(String),
}

/// The element tree a page's text parses to. The result depends on the
/// characters alone; parsing never fails, so every text has a tree.
pub uninterp spec fn spec_html_of(s: Seq<char>) -> HtmlElem;

/// How deeply elements nest: a childless element is 1 deep.
pub open spec fn spec_elem_depth(e: HtmlElem) -> int
    decreases e, 1int,
{
    1 + spec_list_depth(e.kids@)
}

pub open spec fn spec_list_depth(ks: Seq<HtmlNode>) -> int
    decreases ks, 0int,
{
    if ks.len() == 0 {
        0
    } else {
        let h = match ks[0] {
            HtmlNode::Text(_) => 0int,
            HtmlNode::Elem(ce) => spec_elem_depth(ce),
        };
        let rest = spec_list_depth(ks.drop_first());
        if h > rest {
            h
        } else {
            rest
        }
    }
}

/// The deepest element nesting the bridge converts; anything deeper is
/// rejected, so both the conversion's recursion and the drop of the
/// converted tree stay bounded whatever a page holds.
pub const HTML_DEPTH_LIMIT: u32 = 256;

#[verifier::external_type_specification]
#[verifier::external_body]
pub struct ExElementRef<'a>(scraper::ElementRef<'a>);

/// Relies on scraper's node tree — ElementRef::children, value, wrap, and
/// the Element accessors name and attrs: rebuilds an element as the
/// library's tree, descending at most `depth` levels. Element and text
/// children are kept in document order; comments and other node kinds are
/// dropped.
#[verifier::external_body]
fn elemOfNode(e: scraper::ElementRef<'_>, depth: u32) -> Option<HtmlElem> {
    if depth == 0 {
        return None;
    }
    let mut kids: Vec<HtmlNode> = Vec::new();
    for child in e.children() {
        if let Some(ce) = scraper::ElementRef::wrap(child) {
            kids.push(HtmlNode::Elem(elemOfNode(ce, depth - 1)?));
        } else if let scraper::Node::Text(t) = child.value() {
            kids.push(HtmlNode::Text(t.to_string()));
        }
    }
    let v = e.value();
    let attrs = v.attrs().map(|(k, val)| (k.to_string(), val.to_string())).collect();
    Some(HtmlElem { tag: v.name().to_string(), attrs, kids })
}

/// Relies on scraper::Html::parse_document and Html::root_element: the
/// page parsed into a document tree, handed back as the library's own
/// element tree. Parsing does not fail hard: errors are collected by the
/// parser, never thrown, and a document parse always synthesizes a root
/// element. The same text always yields the same tree. A page whose
/// elements nest deeper than `HTML_DEPTH_LIMIT` yields nothing — the
/// conversion refuses it rather than recurse without bound.
#[verifier::external_body]
pub fn htmlTreeOf(content: &str) -> (r: Option<HtmlElem>)
    ensures
        r matches Some(t) ==> t == spec_html_of(content@),
        r is None ==> spec_elem_depth(spec_html_of(content@)) > HTML_DEPTH_LIMIT as int,
{
    elemOfNode(scraper::Html::parse_document(content).root_element(), HTML_DEPTH_LIMIT)
}

/// The first attribute under the name, if any. Attribute names are unique
/// on a parsed element, so the first is the only one.
pub open spec fn spec_attrs_get(attrs: Seq<(String, String)>, name: Seq<char>) -> Option<
    Seq<char>,
>
    decreases attrs.len(),
{
    if attrs.len() == 0 {
        None
    } else if attrs[0].0@ == name {
        Some(attrs[0].1@)
    } else {
        spec_attrs_get(attrs.drop_first(), name)
    }
}

/// The element's attribute value under the name, if set.
pub open spec fn spec_attr(e: HtmlElem, name: Seq<char>) -> Option<Seq<char>> {
    spec_attrs_get(e.attrs@, name)
}

/// The first element with the given id attribute, in pre-order: the
/// element itself, else the first among its children's subtrees.
pub open spec fn spec_id_in_elem(e: HtmlElem, id: Seq<char>) -> Option<HtmlElem>
    decreases e, 1int,
{
    if spec_attr(e, "id"@) == Some(id) {
        Some(e)
    } else {
        spec_id_in_list(e.kids@, id)
    }
}

pub open spec fn spec_id_in_list(ks: Seq<HtmlNode>, id: Seq<char>) -> Option<HtmlElem>
    decreases ks, 0int,
{
    if ks.len() == 0 {
        None
    } else {
        let rest = spec_id_in_list(ks.drop_first(), id);
        match ks[0] {
            HtmlNode::Text(_) => rest,
            HtmlNode::Elem(ce) => match spec_id_in_elem(ce, id) {
                Some(x) => Some(x),
                None => rest,
            },
        }
    }
}

/// The element's descendant elements with the given tag, in document
/// order; the element itself is not counted.
pub open spec fn spec_desc_by_tag(e: HtmlElem, tag: Seq<char>) -> Seq<HtmlElem> {
    spec_tag_in_list(e.kids@, tag)
}

/// The elements with the tag in the subtrees of the nodes, in document
/// order, each subtree's root included.
pub open spec fn spec_tag_in_list(ks: Seq<HtmlNode>, tag: Seq<char>) -> Seq<HtmlElem>
    decreases ks, 0int,
{
    if ks.len() == 0 {
        Seq::empty()
    } else {
        let first = match ks[0] {
            HtmlNode::Text(_) => Seq::<HtmlElem>::empty(),
            HtmlNode::Elem(ce) => spec_tag_in_elem(ce, tag),
        };
        first + spec_tag_in_list(ks.drop_first(), tag)
    }
}

pub open spec fn spec_tag_in_elem(e: HtmlElem, tag: Seq<char>) -> Seq<HtmlElem>
    decreases e, 1int,
{
    (if e.tag@ == tag {
        seq![e]
    } else {
        Seq::<HtmlElem>::empty()
    }) + spec_tag_in_list(e.kids@, tag)
}

/// The first text fragment in the element's subtrees, in document order.
pub open spec fn spec_first_text(e: HtmlElem) -> Option<Seq<char>> {
    spec_text_in_list(e.kids@)
}

pub open spec fn spec_text_in_list(ks: Seq<HtmlNode>) -> Option<Seq<char>>
    decreases ks, 0int,
{
    if ks.len() == 0 {
        None
    } else {
        let rest = spec_text_in_list(ks.drop_first());
        match ks[0] {
            HtmlNode::Text(t) => Some(t@),
            HtmlNode::Elem(ce) => match spec_text_in_elem(ce) {
                Some(x) => Some(x),
                None => rest,
            },
        }
    }
}

pub open spec fn spec_text_in_elem(e: HtmlElem) -> Option<Seq<char>>
    decreases e, 1int,
{
    spec_text_in_list(e.kids@)
}

impl HtmlElem {
    /// The element's attribute value under the name.
    pub fn attr<'a>(&'a self, name: &str) -> (r: Option<&'a String>)
        ensures
            match r {
                Some(s) => spec_attr(*self, name@) == Some(s@),
                None => spec_attr(*self, name@) is None,
            },
    {
        let n = self.attrs.len();
        let mut i: usize = 0;
        proof {
            assert(self.attrs@.skip(0) =~= self.attrs@);
        }
        while i < n
            invariant
                n == self.attrs@.len(),
                i <= n,
                spec_attrs_get(self.attrs@, name@) == spec_attrs_get(
                    self.attrs@.skip(i as int),
                    name@,
                ),
            decreases n - i,
        {
            proof {
                assert(self.attrs@.skip(i as int)[0] == self.attrs@[i as int]);
                assert(self.attrs@.skip(i as int).drop_first() =~= self.attrs@.skip(
                    (i + 1) as int,
                ));
            }
            if eqStr(self.attrs[i].0.as_str(), name) {
                proof {
                    assert(spec_attrs_get(self.attrs@.skip(i as int), name@) == Some(
                        self.attrs@[i as int].1@,
                    ));
                }
                return Some(&self.attrs[i].1);
            }
            i = i + 1;
        }
        None
    }
}

/// The first element with the given id attribute, in pre-order.
pub fn firstElemById<'a>(e: &'a HtmlElem, id: &str) -> (r: Option<&'a HtmlElem>)
    ensures
        match r {
            Some(x) => spec_id_in_elem(*e, id@) == Some(*x),
            None => spec_id_in_elem(*e, id@) is None,
        },
    decreases *e,
{
    let own = match e.attr("id") {
        Some(v) => eqStr(v.as_str(), id),
        None => false,
    };
    if own {
        return Some(e);
    }
    let n = e.kids.len();
    let mut i: usize = 0;
    proof {
        assert(e.kids@.skip(0) =~= e.kids@);
    }
    while i < n
        invariant
            spec_attr(*e, "id"@) != Some(id@),
            n == e.kids@.len(),
            i <= n,
            spec_id_in_list(e.kids@, id@) == spec_id_in_list(e.kids@.skip(i as int), id@),
        decreases n - i,
    {
        proof {
            assert(e.kids@.skip(i as int)[0] == e.kids@[i as int]);
            assert(e.kids@.skip(i as int).drop_first() =~= e.kids@.skip((i + 1) as int));
        }
        match &e.kids[i] {
            HtmlNode::Elem(ce) => {
                proof {
                    assert(decreases_to!(*e => *ce));
                }
                match firstElemById(ce, id) {
                    Some(x) => {
                        return Some(x);
                    },
                    None => {},
                }
            },
            HtmlNode::Text(_) => {},
        }
        i = i + 1;
    }
    None
}

/// The element's descendant elements with the given tag, in document
/// order.
pub fn descByTag<'a>(e: &'a HtmlElem, tag: &str) -> (r: Vec<&'a HtmlElem>)
    ensures
        r@.len() == spec_desc_by_tag(*e, tag@).len(),
        forall|j: int|
            0 <= j < r@.len() ==> *(#[trigger] r@[j]) == spec_desc_by_tag(*e, tag@)[j],
    decreases *e,
{
    let mut out: Vec<&'a HtmlElem> = Vec::new();
    let ghost mut acc: Seq<HtmlElem> = Seq::empty();
    let n = e.kids.len();
    let mut i: usize = 0;
    proof {
        assert(e.kids@.skip(0) =~= e.kids@);
        assert(Seq::empty() + spec_tag_in_list(e.kids@, tag@) =~= spec_tag_in_list(
            e.kids@,
            tag@,
        ));
    }
    while i < n
        invariant
            n == e.kids@.len(),
            i <= n,
            out@.len() == acc.len(),
            forall|j: int| 0 <= j < acc.len() ==> *(#[trigger] out@[j]) == acc[j],
            spec_tag_in_list(e.kids@, tag@) == acc + spec_tag_in_list(
                e.kids@.skip(i as int),
                tag@,
            ),
        decreases n - i,
    {
        proof {
            assert(e.kids@.skip(i as int)[0] == e.kids@[i as int]);
            assert(e.kids@.skip(i as int).drop_first() =~= e.kids@.skip((i + 1) as int));
        }
        match &e.kids[i] {
            HtmlNode::Elem(ce) => {
                proof {
                    assert(decreases_to!(*e => *ce));
                    assert(e.kids@[i as int] == HtmlNode::Elem(*ce));
                }
                let ghost nodepart = spec_tag_in_elem(*ce, tag@);
                let ghost preacc = acc;
                let ghost prelen = out@.len() as int;
                let hit = eqStr(ce.tag.as_str(), tag);
                if hit {
                    out.push(ce);
                }
                let ghost selfpart: Seq<HtmlElem> = if (*ce).tag@ == tag@ {
                    seq![*ce]
                } else {
                    Seq::empty()
                };
                let ghost pre2 = out@;
                let sub = descByTag(ce, tag);
                let m = sub.len();
                let mut k: usize = 0;
                proof {
                    assert(out@ =~= pre2 + sub@.subrange(0, 0));
                }
                while k < m
                    invariant
                        m == sub@.len(),
                        k <= m,
                        out@ == pre2 + sub@.subrange(0, k as int),
                        forall|j: int|
                            0 <= j < m ==> *(#[trigger] sub@[j]) == spec_tag_in_list(
                                (*ce).kids@,
                                tag@,
                            )[j],
                        m == spec_tag_in_list((*ce).kids@, tag@).len(),
                    decreases m - k,
                {
                    out.push(sub[k]);
                    proof {
                        assert(out@ =~= pre2 + sub@.subrange(0, (k + 1) as int));
                    }
                    k = k + 1;
                }
                proof {
                    assert(sub@.subrange(0, m as int) =~= sub@);
                    acc = preacc + nodepart;
                    assert(nodepart =~= selfpart + spec_tag_in_list((*ce).kids@, tag@));
                    assert(pre2 =~= (if (*ce).tag@ == tag@ {
                        out@.subrange(0, prelen).push(ce)
                    } else {
                        out@.subrange(0, prelen)
                    })) by {
                        assert(out@.subrange(0, prelen) =~= pre2.subrange(0, prelen));
                    }
                    assert forall|j: int| 0 <= j < acc.len() implies *(#[trigger] out@[j])
                        == acc[j] by {
                        if j < preacc.len() {
                            assert(out@[j] == pre2[j]);
                            assert(pre2[j] == pre2.subrange(0, prelen)[j]);
                        } else {
                            let o = j - preacc.len();
                            assert(acc[j] == nodepart[o]);
                            if o < selfpart.len() {
                                assert(out@[j] == pre2[j]);
                            } else {
                                assert(out@[j] == sub@[o - selfpart.len()]);
                            }
                        }
                    }
                    assert(spec_tag_in_list(e.kids@.skip(i as int), tag@) == nodepart
                        + spec_tag_in_list(e.kids@.skip((i + 1) as int), tag@));
                    assert(preacc + (nodepart + spec_tag_in_list(
                        e.kids@.skip((i + 1) as int),
                        tag@,
                    )) =~= acc + spec_tag_in_list(e.kids@.skip((i + 1) as int), tag@));
                }
            },
            HtmlNode::Text(_) => {
                proof {
                    assert(e.kids@[i as int] matches HtmlNode::Text(_));
                    assert(spec_tag_in_list(e.kids@.skip(i as int), tag@)
                        =~= Seq::<HtmlElem>::empty() + spec_tag_in_list(
                        e.kids@.skip((i + 1) as int),
                        tag@,
                    ));
                }
            },
        }
        i = i + 1;
    }
    proof {
        assert(e.kids@.skip(n as int).len() == 0);
        assert(spec_tag_in_list(e.kids@, tag@) =~= acc);
    }
    out
}

/// The first text fragment in the element's subtrees, in document order.
pub fn firstTextIn<'a>(e: &'a HtmlElem) -> (r: Option<&'a String>)
    ensures
        match r {
            Some(s) => spec_first_text(*e) == Some(s@),
            None => spec_first_text(*e) is None,
        },
    decreases *e,
{
    let n = e.kids.len();
    let mut i: usize = 0;
    proof {
        assert(e.kids@.skip(0) =~= e.kids@);
    }
    while i < n
        invariant
            n == e.kids@.len(),
            i <= n,
            spec_text_in_list(e.kids@) == spec_text_in_list(e.kids@.skip(i as int)),
        decreases n - i,
    {
        proof {
            assert(e.kids@.skip(i as int)[0] == e.kids@[i as int]);
            assert(e.kids@.skip(i as int).drop_first() =~= e.kids@.skip((i + 1) as int));
        }
        match &e.kids[i] {
            HtmlNode::Text(t) => {
                proof {
                    assert(e.kids@[i as int] == HtmlNode::Text(*t));
                    assert(spec_text_in_list(e.kids@.skip(i as int)) == Some(t@));
                }
                return Some(t);
            },
            HtmlNode::Elem(ce) => {
                proof {
                    assert(decreases_to!(*e => *ce));
                    assert(e.kids@[i as int] == HtmlNode::Elem(*ce));
                }
                match firstTextIn(ce) {
                    Some(s) => {
                        proof {
                            assert(spec_text_in_elem(*ce) == Some(s@));
                            assert(spec_text_in_list(e.kids@.skip(i as int)) == Some(s@));
                        }
                        return Some(s);
                    },
                    None => {
                        proof {
                            assert(spec_text_in_elem(*ce) is None);
                            assert(spec_text_in_list(e.kids@.skip(i as int))
                                == spec_text_in_list(e.kids@.skip((i + 1) as int)));
                        }
                    },
                }
            },
        }
        i = i + 1;
    }
    None
}

} // verus!
