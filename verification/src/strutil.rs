//! Character-level string utilities shared by the money parser and the
//! storefront clients. All operations are stated over `Seq<char>` views and
//! use character indices, not byte offsets.
use vstd::prelude::*;
use vstd::string::StringSliceAdditionalSpecFns;

verus! {

/// `pat` occurs in `s` at character position `i`.
pub open spec fn spec_occurs_at(s: Seq<char>, pat: Seq<char>, i: int) -> bool {
    &&& 0 <= i
    &&& i + pat.len() <= s.len()
    &&& s.subrange(i, i + pat.len() as int) == pat
}

/// The least position `i >= from` where `pat` occurs in `s`, if any.
pub open spec fn spec_find_from(s: Seq<char>, pat: Seq<char>, from: int) -> Option<int>
    decreases s.len() - from + 1,
{
    if !(0 <= from && from + pat.len() <= s.len()) {
        None
    } else if spec_occurs_at(s, pat, from) {
        Some(from)
    } else {
        spec_find_from(s, pat, from + 1)
    }
}

/// What `spec_find_from` returns is an occurrence, is at least `from`, and is
/// the least such position; `None` means there is none at or after `from`.
pub proof fn lemma_find_from_correct(s: Seq<char>, pat: Seq<char>, from: int)
    requires
        0 <= from,
    ensures
        spec_find_from(s, pat, from) matches Some(i) ==> {
            &&& from <= i
            &&& spec_occurs_at(s, pat, i)
            &&& forall|k: int| from <= k < i ==> !spec_occurs_at(s, pat, k)
        },
        spec_find_from(s, pat, from) is None ==> forall|k: int|
            from <= k ==> !spec_occurs_at(s, pat, k),
    decreases s.len() - from + 1,
{
    if 0 <= from && from + pat.len() <= s.len() && !spec_occurs_at(s, pat, from) {
        lemma_find_from_correct(s, pat, from + 1);
    }
}

/// Collects the characters of `s` into a vector, preserving the view.
pub fn charsOf(s: &str) -> (r: Vec<char>)
    ensures
        r@ == s@,
{
    let n = s.unicode_len();
    let mut r: Vec<char> = Vec::new();
    let mut i: usize = 0;
    while i < n
        invariant
            n == s@.len(),
            i <= n,
            r@ == s@.subrange(0, i as int),
        decreases n - i,
    {
        r.push(s.get_char(i));
        assert(r@ =~= s@.subrange(0, i + 1 as int));
        i = i + 1;
    }
    assert(r@ =~= s@);
    r
}

/// Finds the least occurrence of `pat` in `hay` at or after `from`.
pub fn findFrom(hay: &Vec<char>, pat: &Vec<char>, from: usize) -> (r: Option<usize>)
    ensures
        match r {
            Some(i) => spec_find_from(hay@, pat@, from as int) == Some(i as int),
            None => spec_find_from(hay@, pat@, from as int) is None,
        },
{
    let n = hay.len();
    let m = pat.len();
    if m > n || from > n - m {
        proof {
            lemma_find_none_when_out_of_range(hay@, pat@, from as int);
        }
        return None;
    }
    if m == 0 {
        proof {
            assert(hay@.subrange(from as int, from as int) =~= pat@);
        }
        return Some(from);
    }
    let mut i: usize = from;
    while i <= n - m
        invariant
            1 <= m <= n,
            n == hay@.len(),
            m == pat@.len(),
            from <= i <= n - m + 1,
            spec_find_from(hay@, pat@, from as int) == spec_find_from(hay@, pat@, i as int),
        decreases n - i,
    {
        let mut j: usize = 0;
        let mut matched = true;
        proof {
            assert(hay@.subrange(i as int, i as int) =~= pat@.subrange(0, 0));
        }
        while j < m
            invariant
                1 <= m <= n,
                n == hay@.len(),
                m == pat@.len(),
                i <= n - m,
                j <= m,
                matched == (hay@.subrange(i as int, i + j as int) == pat@.subrange(0, j as int)),
            decreases m - j,
        {
            let c_h = hay[i + j];
            let c_p = pat[j];
            proof {
                let a0 = hay@.subrange(i as int, i + j as int);
                let b0 = pat@.subrange(0, j as int);
                assert(hay@.subrange(i as int, i + (j + 1) as int) =~= a0.push(c_h));
                assert(pat@.subrange(0, (j + 1) as int) =~= b0.push(c_p));
                assert(a0.push(c_h)[j as int] == c_h);
                assert(b0.push(c_p)[j as int] == c_p);
                assert(a0.push(c_h).subrange(0, j as int) =~= a0);
                assert(b0.push(c_p).subrange(0, j as int) =~= b0);
            }
            if c_h != c_p {
                matched = false;
            }
            j = j + 1;
        }
        if matched {
            proof {
                assert(hay@.subrange(i as int, i + m as int) =~= hay@.subrange(
                    i as int,
                    i + j as int,
                ));
                assert(pat@.subrange(0, m as int) =~= pat@);
            }
            return Some(i);
        }
        proof {
            assert(pat@.subrange(0, m as int) =~= pat@);
            assert(!spec_occurs_at(hay@, pat@, i as int));
        }
        i = i + 1;
    }
    proof {
        lemma_find_none_when_out_of_range(hay@, pat@, i as int);
    }
    None
}

proof fn lemma_find_none_when_out_of_range(s: Seq<char>, pat: Seq<char>, from: int)
    requires
        !(0 <= from && from + pat.len() <= s.len()),
    ensures
        spec_find_from(s, pat, from) is None,
{
}

/// `p` is a prefix of `s`.
pub open spec fn spec_starts_with(s: Seq<char>, p: Seq<char>) -> bool {
    p.len() <= s.len() && s.subrange(0, p.len() as int) == p
}

/// Whether `s` starts with the prefix `p`, by characters.
pub fn startsWith(s: &str, p: &str) -> (r: bool)
    ensures
        r == spec_starts_with(s@, p@),
{
    let sv = charsOf(s);
    let pv = charsOf(p);
    if pv.len() > sv.len() {
        return false;
    }
    let mut j: usize = 0;
    while j < pv.len()
        invariant
            pv@.len() <= sv@.len(),
            sv@ == s@,
            pv@ == p@,
            j <= pv@.len(),
            s@.subrange(0, j as int) == p@.subrange(0, j as int),
        decreases pv@.len() - j,
    {
        proof {
            assert(s@.subrange(0, (j + 1) as int)
                =~= s@.subrange(0, j as int).push(s@[j as int]));
            assert(p@.subrange(0, (j + 1) as int)
                =~= p@.subrange(0, j as int).push(p@[j as int]));
        }
        if sv[j] != pv[j] {
            return false;
        }
        j = j + 1;
    }
    proof {
        assert(p@.subrange(0, p@.len() as int) =~= p@);
    }
    true
}

/// A byte that stands for itself in a percent-encoded text: an ASCII
/// letter, a digit, or one of `-`, `_`, `.`, `~`.
pub open spec fn spec_is_unreserved_byte(b: u8) -> bool {
    ||| 0x41 <= b <= 0x5A
    ||| 0x61 <= b <= 0x7A
    ||| 0x30 <= b <= 0x39
    ||| b == 0x2D
    ||| b == 0x5F
    ||| b == 0x2E
    ||| b == 0x7E
}

/// The ASCII code of an upper-case hex digit.
pub open spec fn spec_hex_digit(d: int) -> u8 {
    if d < 10 {
        (0x30 + d) as u8
    } else {
        (0x37 + d) as u8
    }
}

/// How one byte surfaces in a percent-encoded text: itself when
/// unreserved, a percent escape of its two hex digits otherwise.
pub open spec fn spec_encoded_byte(b: u8) -> Seq<u8> {
    if spec_is_unreserved_byte(b) {
        seq![b]
    } else {
        seq![0x25u8, spec_hex_digit(b as int / 16), spec_hex_digit(b as int % 16)]
    }
}

pub open spec fn spec_percent_encoded(bs: Seq<u8>) -> Seq<u8>
    decreases bs.len(),
{
    if bs.len() == 0 {
        Seq::empty()
    } else {
        spec_encoded_byte(bs[0]) + spec_percent_encoded(bs.drop_first())
    }
}

/// Percent-encodes a text's bytes for use as a query-string value:
/// unreserved characters stay themselves, every other byte becomes %XX.
pub fn percentEncode(s: &str) -> (r: Vec<u8>)
    ensures
        r@ == spec_percent_encoded(s.spec_bytes()),
{
    let bs = s.as_bytes();
    let n = bs.len();
    let mut out: Vec<u8> = Vec::new();
    let mut i: usize = 0;
    proof {
        assert(bs@.skip(0) =~= bs@);
        assert(out@ + spec_percent_encoded(bs@) =~= spec_percent_encoded(bs@));
    }
    while i < n
        invariant
            n == bs@.len(),
            i <= n,
            out@ + spec_percent_encoded(bs@.skip(i as int)) == spec_percent_encoded(bs@),
        decreases n - i,
    {
        proof {
            assert(bs@.skip(i as int)[0] == bs@[i as int]);
            assert(bs@.skip(i as int).drop_first() =~= bs@.skip((i + 1) as int));
        }
        let b = bs[i];
        let ghost pre = out@;
        let unreserved = (b >= 0x41 && b <= 0x5A) || (b >= 0x61 && b <= 0x7A) || (b >= 0x30
            && b <= 0x39) || b == 0x2D || b == 0x5F || b == 0x2E || b == 0x7E;
        if unreserved {
            out.push(b);
        } else {
            out.push(0x25);
            out.push(hexDigit(b / 16));
            out.push(hexDigit(b % 16));
        }
        proof {
            assert(out@ =~= pre + spec_encoded_byte(bs@[i as int]));
            assert((pre + spec_encoded_byte(bs@[i as int])) + spec_percent_encoded(
                bs@.skip((i + 1) as int),
            ) =~= pre + (spec_encoded_byte(bs@[i as int]) + spec_percent_encoded(
                bs@.skip((i + 1) as int),
            )));
        }
        i = i + 1;
    }
    proof {
        assert(bs@.skip(n as int).len() == 0);
        assert(out@ + Seq::<u8>::empty() =~= out@);
    }
    out
}

fn hexDigit(d: u8) -> (r: u8)
    requires
        d < 16,
    ensures
        r == spec_hex_digit(d as int),
{
    if d < 10 {
        0x30 + d
    } else {
        0x37 + d
    }
}

pub open spec fn spec_is_space(c: char) -> bool {
    c == ' ' || c == '\t' || c == '\n' || c == '\r'
}

/// `s` with ASCII whitespace removed from both ends.
pub open spec fn spec_trimmed(s: Seq<char>) -> Seq<char>
    decreases s.len(),
{
    if s.len() == 0 {
        s
    } else if spec_is_space(s[0]) {
        spec_trimmed(s.subrange(1, s.len() as int))
    } else if spec_is_space(s.last()) {
        spec_trimmed(s.drop_last())
    } else {
        s
    }
}

/// Removes ASCII whitespace from both ends of a string.
pub fn trimSpaces(s: &str) -> (r: &str)
    ensures
        r@ == spec_trimmed(s@),
{
    let cs = charsOf(s);
    let n = cs.len();
    let mut lo: usize = 0;
    proof {
        assert(s@.subrange(0, n as int) =~= s@);
    }
    while lo < n && isSpaceChar(cs[lo])
        invariant
            n == s@.len(),
            cs@ == s@,
            lo <= n,
            spec_trimmed(s@) == spec_trimmed(s@.subrange(lo as int, n as int)),
        decreases n - lo,
    {
        proof {
            let cur = s@.subrange(lo as int, n as int);
            assert(cur[0] == s@[lo as int]);
            assert(cur.subrange(1, cur.len() as int) =~= s@.subrange((lo + 1) as int, n as int));
        }
        lo = lo + 1;
    }
    let mut hi: usize = n;
    while hi > lo && isSpaceChar(cs[hi - 1])
        invariant
            n == s@.len(),
            cs@ == s@,
            lo <= hi <= n,
            lo < n ==> !spec_is_space(s@[lo as int]),
            spec_trimmed(s@) == spec_trimmed(s@.subrange(lo as int, hi as int)),
        decreases hi,
    {
        proof {
            let cur = s@.subrange(lo as int, hi as int);
            assert(cur.last() == s@[(hi - 1) as int]);
            if cur.len() > 0 && !spec_is_space(cur[0]) {
                assert(cur.drop_last() =~= s@.subrange(lo as int, (hi - 1) as int));
            }
            if lo < hi {
                assert(cur[0] == s@[lo as int]);
            }
        }
        hi = hi - 1;
    }
    proof {
        let cur = s@.subrange(lo as int, hi as int);
        if cur.len() > 0 {
            assert(cur[0] == s@[lo as int]);
            assert(cur.last() == s@[(hi - 1) as int]);
        }
    }
    s.substring_char(lo, hi)
}

fn isSpaceChar(c: char) -> (r: bool)
    ensures
        r == spec_is_space(c),
{
    c == ' ' || c == '\t' || c == '\n' || c == '\r'
}

/// Whether two strings hold the same characters.
pub fn eqStr(a: &str, b: &str) -> (r: bool)
    ensures
        r == (a@ == b@),
{
    let av = charsOf(a);
    let bv = charsOf(b);
    if av.len() != bv.len() {
        return false;
    }
    let mut j: usize = 0;
    while j < av.len()
        invariant
            av@.len() == bv@.len(),
            av@ == a@,
            bv@ == b@,
            j <= av@.len(),
            a@.subrange(0, j as int) == b@.subrange(0, j as int),
        decreases av@.len() - j,
    {
        proof {
            assert(a@.subrange(0, (j + 1) as int)
                =~= a@.subrange(0, j as int).push(a@[j as int]));
            assert(b@.subrange(0, (j + 1) as int)
                =~= b@.subrange(0, j as int).push(b@[j as int]));
        }
        if av[j] != bv[j] {
            return false;
        }
        j = j + 1;
    }
    proof {
        assert(a@.subrange(0, a@.len() as int) =~= a@);
        assert(b@.subrange(0, b@.len() as int) =~= b@);
    }
    true
}

} // verus!
