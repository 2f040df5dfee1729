//! The library's own model of a parsed JSON document, and the trusted
//! bridge that obtains it from serde_json. The storefront clients navigate
//! this tree with the verified accessors below, so their contracts can
//! state exactly which members they read and what they return.
use vstd::prelude::*;

use crate::strutil::{charsOf, eqStr};
use crate::utils::{allDigits, digitsValue, spec_all_digits, spec_digits_val};

verus! {

/// A JSON document as a tree of plain values. A number holds its decimal
/// rendering; an object holds its members as the parser hands them —
/// sorted by key, one per key.
pub enum JsonTree {
    Null,
    Bool(bool),
    Num(String),
    Str(String),
    Arr(Vec<JsonTree>),
    Obj(Vec<(String, JsonTree)>),
}

/// The tree a text parses to, if it is valid JSON. The result depends on
/// the characters alone.
pub uninterp spec fn spec_json_of(s: Seq<char>) -> Option<JsonTree>;

#[verifier::external_type_specification]
#[verifier::external_body]
pub struct ExValue(serde_json::Value);

/// Relies on serde_json::Value's variants and serde_json::Number's
/// Display implementation: rebuilds the parsed document as the library's
/// tree, one variant per arm, rendering each number as its decimal text.
#[verifier::external_body]
fn treeOfValue(v: &serde_json::Value) -> JsonTree {
    match v {
        serde_json::Value::Null => JsonTree::Null,
        serde_json::Value::Bool(b) => JsonTree::Bool(*b),
        serde_json::Value::Number(n) => JsonTree::Num(n.to_string()),
        serde_json::Value::String(s) => JsonTree::Str(s.clone()),
        serde_json::Value::Array(a) => JsonTree::Arr(a.iter().map(treeOfValue).collect()),
        serde_json::Value::Object(o) => JsonTree::Obj(
            o.iter().map(|(k, val)| (k.clone(), treeOfValue(val))).collect(),
        ),
    }
}

/// Relies on serde_json::from_str: parses text as a generic JSON document
/// and hands it back as the library's tree; nothing when the text is not
/// valid JSON. The same text always yields the same tree.
#[verifier::external_body]
pub fn jsonTreeOf(s: &str) -> (r: Option<JsonTree>)
    ensures
        r == spec_json_of(s@),
{
    serde_json::from_str::<serde_json::Value>(s).ok().map(|v| treeOfValue(&v))
}

/// The first member under the key, if any. Keys are unique in a parsed
/// document, so the first is the only one.
pub open spec fn spec_members_get(ms: Seq<(String, JsonTree)>, key: Seq<char>) -> Option<JsonTree>
    decreases ms.len(),
{
    if ms.len() == 0 {
        None
    } else if ms[0].0@ == key {
        Some(ms[0].1)
    } else {
        spec_members_get(ms.drop_first(), key)
    }
}

/// The member of an object under the key; nothing when absent or not an
/// object.
pub open spec fn spec_obj_get(t: JsonTree, key: Seq<char>) -> Option<JsonTree> {
    match t {
        JsonTree::Obj(ms) => spec_members_get(ms@, key),
        _ => None,
    }
}

/// The element of an array at the position; nothing when out of range or
/// not an array.
pub open spec fn spec_arr_at(t: JsonTree, i: int) -> Option<JsonTree> {
    match t {
        JsonTree::Arr(vs) => if 0 <= i < vs@.len() {
            Some(vs@[i])
        } else {
            None
        },
        _ => None,
    }
}

/// The text of a string value; nothing when not a string.
pub open spec fn spec_str_of(t: JsonTree) -> Option<Seq<char>> {
    match t {
        JsonTree::Str(s) => Some(s@),
        _ => None,
    }
}

/// The decimal rendering of a number value; nothing when not a number.
pub open spec fn spec_num_text_of(t: JsonTree) -> Option<Seq<char>> {
    match t {
        JsonTree::Num(s) => Some(s@),
        _ => None,
    }
}

/// The value of an integer text: an optional minus sign and digits.
pub open spec fn spec_int_text_val(s: Seq<char>) -> Option<int> {
    if s.len() > 0 && s[0] == '-' {
        let d = s.subrange(1, s.len() as int);
        if d.len() > 0 && spec_all_digits(d) {
            Some(-spec_digits_val(d))
        } else {
            None
        }
    } else if s.len() > 0 && spec_all_digits(s) {
        Some(spec_digits_val(s))
    } else {
        None
    }
}

/// The value of an integer number node; nothing when the node is not a
/// number or its rendering is not an integer text.
pub open spec fn spec_json_int(t: JsonTree) -> Option<int> {
    match spec_num_text_of(t) {
        Some(s) => spec_int_text_val(s),
        None => None,
    }
}

impl JsonTree {
    /// The member of an object under the key.
    pub fn get<'a>(&'a self, key: &str) -> (r: Option<&'a JsonTree>)
        ensures
            match r {
                Some(x) => spec_obj_get(*self, key@) == Some(*x),
                None => spec_obj_get(*self, key@) is None,
            },
    {
        match self {
            JsonTree::Obj(ms) => {
                let n = ms.len();
                let mut i: usize = 0;
                proof {
                    assert(ms@.skip(0) =~= ms@);
                }
                while i < n
                    invariant
                        *self == JsonTree::Obj(*ms),
                        n == ms@.len(),
                        i <= n,
                        spec_members_get(ms@, key@) == spec_members_get(
                            ms@.skip(i as int),
                            key@,
                        ),
                    decreases n - i,
                {
                    proof {
                        assert(ms@.skip(i as int)[0] == ms@[i as int]);
                        assert(ms@.skip(i as int).drop_first() =~= ms@.skip((i + 1) as int));
                    }
                    if eqStr(ms[i].0.as_str(), key) {
                        proof {
                            assert(spec_members_get(ms@.skip(i as int), key@) == Some(
                                ms@[i as int].1,
                            ));
                        }
                        return Some(&ms[i].1);
                    }
                    i = i + 1;
                }
                None
            },
            _ => None,
        }
    }

    /// The element of an array at the position.
    pub fn at<'a>(&'a self, i: usize) -> (r: Option<&'a JsonTree>)
        ensures
            match r {
                Some(x) => spec_arr_at(*self, i as int) == Some(*x),
                None => spec_arr_at(*self, i as int) is None,
            },
    {
        match self {
            JsonTree::Arr(vs) => {
                if i < vs.len() {
                    Some(&vs[i])
                } else {
                    None
                }
            },
            _ => None,
        }
    }

    /// The text of a string value.
    pub fn str_value<'a>(&'a self) -> (r: Option<&'a String>)
        ensures
            match r {
                Some(s) => spec_str_of(*self) == Some(s@),
                None => spec_str_of(*self) is None,
            },
    {
        match self {
            JsonTree::Str(s) => Some(s),
            _ => None,
        }
    }

    /// The decimal rendering of a number value.
    pub fn num_text<'a>(&'a self) -> (r: Option<&'a String>)
        ensures
            match r {
                Some(s) => spec_num_text_of(*self) == Some(s@),
                None => spec_num_text_of(*self) is None,
            },
    {
        match self {
            JsonTree::Num(s) => Some(s),
            _ => None,
        }
    }

    /// The value of an integer number node, when it fits an `i64`.
    pub fn int_value(&self) -> (r: Option<i64>)
        ensures
            match r {
                Some(v) => spec_json_int(*self) == Some(v as int),
                None => {
                    spec_json_int(*self) is None || spec_json_int(*self)->Some_0 > i64::MAX
                        || spec_json_int(*self)->Some_0 < -(i64::MAX as int)
                },
            },
    {
        let text = match self.num_text() {
            Some(t) => t,
            None => {
                return None;
            },
        };
        let cs = charsOf(text.as_str());
        if cs.len() > 0 && cs[0] == '-' {
            let mut ds: Vec<char> = Vec::new();
            let mut k: usize = 1;
            proof {
                assert(text@.subrange(1, 1) =~= Seq::<char>::empty());
            }
            while k < cs.len()
                invariant
                    cs@ == text@,
                    1 <= k <= cs@.len(),
                    ds@ == text@.subrange(1, k as int),
                decreases cs@.len() - k,
            {
                ds.push(cs[k]);
                proof {
                    assert(ds@ =~= text@.subrange(1, (k + 1) as int));
                }
                k = k + 1;
            }
            if ds.len() == 0 || !allDigits(&ds) {
                return None;
            }
            proof {
                crate::utils::lemma_digits_val_nonneg(ds@);
            }
            match digitsValue(&ds) {
                Some(v) => Some(-v),
                None => None,
            }
        } else {
            if cs.len() == 0 || !allDigits(&cs) {
                return None;
            }
            digitsValue(&cs)
        }
    }
}

} // verus!
