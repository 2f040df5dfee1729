//! The money parser and the substring extractor used by the storefront
//! clients.
use vstd::prelude::*;

use crate::error::Error;
use crate::strutil::{charsOf, findFrom, spec_find_from};

verus! {

pub open spec fn spec_is_digit(c: char) -> bool {
    '0' <= c && c <= '9'
}

pub open spec fn spec_digit_val(c: char) -> int {
    c as int - '0' as int
}

pub open spec fn spec_all_digits(s: Seq<char>) -> bool {
    forall|i: int| 0 <= i < s.len() ==> spec_is_digit(#[trigger] s[i])
}

/// Value of a digit string read in base ten.
pub open spec fn spec_digits_val(s: Seq<char>) -> int
    decreases s.len(),
{
    if s.len() == 0 {
        0
    } else {
        spec_digits_val(s.drop_last()) * 10 + spec_digit_val(s.last())
    }
}

/// `s` with every decimal separator removed.
pub open spec fn spec_strip_dots(s: Seq<char>) -> Seq<char>
    decreases s.len(),
{
    if s.len() == 0 {
        Seq::empty()
    } else if s.last() == '.' {
        spec_strip_dots(s.drop_last())
    } else {
        spec_strip_dots(s.drop_last()).push(s.last())
    }
}

/// How many decimal separators `s` holds.
pub open spec fn spec_dot_count(s: Seq<char>) -> int
    decreases s.len(),
{
    if s.len() == 0 {
        0
    } else {
        spec_dot_count(s.drop_last()) + if s.last() == '.' {
            1int
        } else {
            0int
        }
    }
}

/// The price a text denotes, in minor units (cents).
///
/// No separator: a whole-unit amount, multiplied by 100. Exactly one
/// separator: the separator is stripped and the remaining digits are read
/// directly as minor units, so "15.5" means 155 cents — a deliberately kept
/// quirk. Anything else (several separators, a non-digit, nothing left after
/// stripping) has no price.
pub open spec fn spec_parse_price(s: Seq<char>) -> Option<int> {
    let dots = spec_dot_count(s);
    if dots == 0 {
        if s.len() > 0 && spec_all_digits(s) {
            Some(spec_digits_val(s) * 100)
        } else {
            None
        }
    } else if dots == 1 {
        let t = spec_strip_dots(s);
        if t.len() > 0 && spec_all_digits(t) {
            Some(spec_digits_val(t))
        } else {
            None
        }
    } else {
        None
    }
}

proof fn lemma_strip_no_dots(s: Seq<char>)
    requires
        spec_dot_count(s) == 0,
    ensures
        spec_strip_dots(s) == s,
    decreases s.len(),
{
    if s.len() == 0 {
        assert(spec_strip_dots(s) =~= s);
    } else {
        assert(spec_dot_count(s.drop_last()) >= 0) by {
            lemma_dot_count_nonneg(s.drop_last());
        }
        lemma_strip_no_dots(s.drop_last());
        assert(spec_strip_dots(s) =~= s);
    }
}

proof fn lemma_dot_count_nonneg(s: Seq<char>)
    ensures
        spec_dot_count(s) >= 0,
    decreases s.len(),
{
    if s.len() > 0 {
        lemma_dot_count_nonneg(s.drop_last());
    }
}

pub(crate) proof fn lemma_digits_val_nonneg(s: Seq<char>)
    requires
        spec_all_digits(s),
    ensures
        spec_digits_val(s) >= 0,
    decreases s.len(),
{
    if s.len() > 0 {
        assert(spec_all_digits(s.drop_last())) by {
            assert(forall|i: int|
                0 <= i < s.drop_last().len() ==> #[trigger] s.drop_last()[i] == s[i]);
        }
        lemma_digits_val_nonneg(s.drop_last());
    }
}

proof fn lemma_digits_val_prefix_le(s: Seq<char>, k: int)
    requires
        spec_all_digits(s),
        0 <= k <= s.len(),
    ensures
        spec_digits_val(s.subrange(0, k)) <= spec_digits_val(s),
    decreases s.len() - k,
{
    if k == s.len() {
        assert(s.subrange(0, k) =~= s);
    } else {
        lemma_digits_val_prefix_le(s, k + 1);
        let p1 = s.subrange(0, k + 1);
        assert(p1.drop_last() =~= s.subrange(0, k));
        assert(spec_all_digits(s.subrange(0, k))) by {
            assert(forall|i: int|
                0 <= i < k ==> #[trigger] s.subrange(0, k)[i] == s[i]);
        }
        lemma_digits_val_nonneg(s.subrange(0, k));
        assert(spec_is_digit(p1.last()));
        assert(spec_digits_val(p1) == spec_digits_val(s.subrange(0, k)) * 10 + spec_digit_val(
            p1.last(),
        ));
        assert(spec_digits_val(s.subrange(0, k)) * 10 >= spec_digits_val(s.subrange(0, k)))
            by (nonlinear_arith)
            requires spec_digits_val(s.subrange(0, k)) >= 0;
    }
}

/// Whether every character is a decimal digit.
pub(crate) fn allDigits(ds: &Vec<char>) -> (r: bool)
    ensures
        r == spec_all_digits(ds@),
{
    let mut j: usize = 0;
    while j < ds.len()
        invariant
            j <= ds@.len(),
            forall|i: int| 0 <= i < j ==> spec_is_digit(#[trigger] ds@[i]),
        decreases ds@.len() - j,
    {
        let c = ds[j];
        if !(c >= '0' && c <= '9') {
            assert(!spec_is_digit(ds@[j as int]));
            return false;
        }
        j = j + 1;
    }
    true
}

/// Reads a digit vector as a base-ten value, reporting when the value would
/// not fit an `i64`.
pub(crate) fn digitsValue(ds: &Vec<char>) -> (r: Option<i64>)
    requires
        spec_all_digits(ds@),
    ensures
        match r {
            Some(v) => spec_digits_val(ds@) == v as int,
            None => spec_digits_val(ds@) > i64::MAX,
        },
{
    let mut acc: i64 = 0;
    let mut k: usize = 0;
    proof {
        assert(ds@.subrange(0, 0) =~= Seq::<char>::empty());
    }
    while k < ds.len()
        invariant
            spec_all_digits(ds@),
            k <= ds@.len(),
            0 <= acc,
            acc as int == spec_digits_val(ds@.subrange(0, k as int)),
        decreases ds@.len() - k,
    {
        let c = ds[k];
        assert(spec_is_digit(c));
        let d: i64 = (c as u32 as i64) - ('0' as u32 as i64);
        assert(d == spec_digit_val(c));
        proof {
            assert(ds@.subrange(0, (k + 1) as int).drop_last() =~= ds@.subrange(0, k as int));
            assert(ds@.subrange(0, (k + 1) as int).last() == c);
        }
        if acc > (i64::MAX - d) / 10 {
            proof {
                assert(acc * 10 + d > i64::MAX) by (nonlinear_arith)
                    requires
                        0 <= d <= 9,
                        acc > (i64::MAX - d) / 10,
                ;
                lemma_digits_val_prefix_le(ds@, k + 1 as int);
            }
            return None;
        }
        proof {
            assert(acc * 10 + d <= i64::MAX) by (nonlinear_arith)
                requires
                    0 <= d <= 9,
                    0 <= acc <= (i64::MAX - d) / 10,
            ;
            assert(acc * 10 >= 0) by (nonlinear_arith)
                requires 0 <= acc;
        }
        acc = acc * 10 + d;
        k = k + 1;
    }
    proof {
        assert(ds@.subrange(0, ds@.len() as int) =~= ds@);
    }
    Some(acc)
}

/// Converts a textual price into minor units (cents).
///
/// "39.99" becomes 3999 and "15" becomes 1500; "15.5" becomes 155, a kept
/// quirk of the one-separator rule. A text with several separators, a
/// non-digit, or no digits at all — or a value too large for `i64` — is
/// rejected with `ParseError`.
pub fn parsePrice(price_raw: &str) -> (r: Result<i64, Error>)
    ensures
        match r {
            Ok(v) => spec_parse_price(price_raw@) == Some(v as int),
            Err(e) => {
                &&& (spec_parse_price(price_raw@) is None
                    || spec_parse_price(price_raw@)->Some_0 > i64::MAX)
                &&& e is ParseError
            },
        },
{
    let cs = charsOf(price_raw);
    let mut stripped: Vec<char> = Vec::new();
    let mut dots: usize = 0;
    let mut k: usize = 0;
    proof {
        assert(cs@.subrange(0, 0) =~= Seq::<char>::empty());
    }
    while k < cs.len()
        invariant
            cs@ == price_raw@,
            k <= cs@.len(),
            dots <= k,
            dots as int == spec_dot_count(cs@.subrange(0, k as int)),
            stripped@ == spec_strip_dots(cs@.subrange(0, k as int)),
        decreases cs@.len() - k,
    {
        let c = cs[k];
        proof {
            assert(cs@.subrange(0, (k + 1) as int).drop_last() =~= cs@.subrange(0, k as int));
            assert(cs@.subrange(0, (k + 1) as int).last() == c);
        }
        if c == '.' {
            dots = dots + 1;
        } else {
            stripped.push(c);
        }
        k = k + 1;
    }
    proof {
        assert(cs@.subrange(0, cs@.len() as int) =~= cs@);
    }
    if dots > 1 {
        return Err(Error::ParseError(parseFailMessage(price_raw)));
    }
    proof {
        if dots == 0 {
            lemma_strip_no_dots(price_raw@);
        }
    }
    if stripped.len() == 0 {
        return Err(Error::ParseError(parseFailMessage(price_raw)));
    }
    let mut j: usize = 0;
    while j < stripped.len()
        invariant
            j <= stripped@.len(),
            dots <= 1,
            dots as int == spec_dot_count(price_raw@),
            stripped@ == spec_strip_dots(price_raw@),
            dots == 0 ==> stripped@ == price_raw@,
            forall|i: int| 0 <= i < j ==> spec_is_digit(#[trigger] stripped@[i]),
        decreases stripped@.len() - j,
    {
        let c = stripped[j];
        if !(c >= '0' && c <= '9') {
            assert(!spec_is_digit(stripped@[j as int]));
            return Err(Error::ParseError(parseFailMessage(price_raw)));
        }
        j = j + 1;
    }
    assert(spec_all_digits(stripped@));
    let v = match digitsValue(&stripped) {
        Some(v) => v,
        None => {
            proof {
                if dots == 0 {
                    assert(spec_digits_val(price_raw@) * 100 > i64::MAX) by (nonlinear_arith)
                        requires spec_digits_val(price_raw@) > i64::MAX;
                }
            }
            return Err(Error::ParseError(parseFailMessage(price_raw)));
        },
    };
    if dots == 0 {
        proof {
            lemma_digits_val_nonneg(stripped@);
        }
        if v > i64::MAX / 100 {
            proof {
                assert(v as int * 100 > i64::MAX) by (nonlinear_arith)
                    requires v as int > i64::MAX / 100;
            }
            return Err(Error::ParseError(parseFailMessage(price_raw)));
        }
        proof {
            assert(v as int * 100 <= i64::MAX) by (nonlinear_arith)
                requires 0 <= v as int <= i64::MAX / 100;
        }
        Ok(v * 100)
    } else {
        Ok(v)
    }
}

/// The message carried by a price `ParseError`.
fn parseFailMessage(price_raw: &str) -> (r: String) {
    let mut m = String::from_str("Failed to parse price: ");
    m.append(price_raw);
    m
}

/// The text of `s` between the first occurrence of `begin` and the next
/// occurrence of `end` after it, if both markers are found.
pub open spec fn spec_between(s: Seq<char>, begin: Seq<char>, end: Seq<char>) -> Option<Seq<char>> {
    match spec_find_from(s, begin, 0) {
        None => None,
        Some(i) => match spec_find_from(s, end, i + begin.len()) {
            None => None,
            Some(j) => Some(s.subrange(i + begin.len(), j)),
        },
    }
}

/// Locates the text between the first occurrence of `begin` and the next
/// occurrence of `end` after it. Returns the enclosed slice together with
/// its starting and ending character positions in `s`.
pub fn findSubStr<'a>(s: &'a str, begin: &'a str, end: &'a str) -> (r: Option<(&'a str, usize, usize)>)
    ensures
        match r {
            Some(t) => {
                &&& spec_between(s@, begin@, end@) == Some(t.0@)
                &&& spec_find_from(s@, begin@, 0) == Some(t.1 - begin@.len())
                &&& spec_find_from(s@, end@, t.1 as int) == Some(t.2 as int)
                &&& t.1 <= t.2 <= s@.len()
                &&& t.0@ == s@.subrange(t.1 as int, t.2 as int)
            },
            None => spec_between(s@, begin@, end@) is None,
        },
{
    let sv = charsOf(s);
    let bv = charsOf(begin);
    let ev = charsOf(end);
    let n = sv.len();
    let start = match findFrom(&sv, &bv, 0) {
        Some(idx) => {
            proof {
                crate::strutil::lemma_find_from_correct(s@, begin@, 0);
                assert(idx + bv@.len() <= s@.len());
            }
            idx + bv.len()
        },
        None => {
            return None;
        },
    };
    let stop = match findFrom(&sv, &ev, start) {
        Some(idx) => idx,
        None => {
            return None;
        },
    };
    proof {
        crate::strutil::lemma_find_from_correct(s@, end@, start as int);
    }
    Some((s.substring_char(start, stop), start, stop))
}

} // verus!
