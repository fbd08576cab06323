//! Character-level text utilities: appending characters, Unicode white
//! space, trimming, slicing by characters and joining with a separator.
use vstd::prelude::*;

verus! {

/// Appends one character to a string (std's `String::push`).
#[verifier::external_body]
pub(crate) fn push_char(s: &mut String, c: char)
    ensures
        final(s)@ == old(s)@.push(c),
{
    s.push(c);
}

/// Unicode `White_Space`, the property that `char::is_whitespace` and
/// `str::trim` use.
pub open spec fn is_ws(c: char) -> bool {
    let u = c as u32;
    ||| 0x09 <= u <= 0x0D
    ||| u == 0x20
    ||| u == 0x85
    ||| u == 0xA0
    ||| u == 0x1680
    ||| 0x2000 <= u <= 0x200A
    ||| u == 0x2028
    ||| u == 0x2029
    ||| u == 0x202F
    ||| u == 0x205F
    ||| u == 0x3000
}

pub fn is_whitespace(c: char) -> (b: bool)
    ensures
        b == is_ws(c),
{
    let u = c as u32;
    (0x09 <= u && u <= 0x0D) || u == 0x20 || u == 0x85 || u == 0xA0 || u == 0x1680 || (0x2000
        <= u && u <= 0x200A) || u == 0x2028 || u == 0x2029 || u == 0x202F || u == 0x205F || u
        == 0x3000
}

/// The string with leading whitespace removed (`str::trim_start`).
pub open spec fn trim_start(s: Seq<char>) -> Seq<char>
    decreases s.len(),
{
    if s.len() > 0 && is_ws(s[0]) {
        trim_start(s.drop_first())
    } else {
        s
    }
}

/// The string with trailing whitespace removed (`str::trim_end`).
pub open spec fn trim_end(s: Seq<char>) -> Seq<char>
    decreases s.len(),
{
    if s.len() > 0 && is_ws(s.last()) {
        trim_end(s.drop_last())
    } else {
        s
    }
}

/// `str::trim`.
pub open spec fn trim(s: Seq<char>) -> Seq<char> {
    trim_end(trim_start(s))
}

/// Number of leading whitespace characters.
pub open spec fn lead_ws(s: Seq<char>) -> nat
    decreases s.len(),
{
    if s.len() > 0 && is_ws(s[0]) {
        1 + lead_ws(s.drop_first())
    } else {
        0
    }
}

pub proof fn lemma_trim_start_skip(s: Seq<char>)
    ensures
        lead_ws(s) <= s.len(),
        trim_start(s) == s.skip(lead_ws(s) as int),
        forall|i: int| 0 <= i < lead_ws(s) ==> is_ws(#[trigger] s[i]),
        lead_ws(s) < s.len() ==> !is_ws(s[lead_ws(s) as int]),
    decreases s.len(),
{
    if s.len() > 0 && is_ws(s[0]) {
        lemma_trim_start_skip(s.drop_first());
        assert(s.drop_first().skip(lead_ws(s.drop_first()) as int) =~= s.skip(lead_ws(s) as int));
        assert forall|i: int| 0 <= i < lead_ws(s) implies is_ws(#[trigger] s[i]) by {
            if i > 0 {
                assert(s[i] == s.drop_first()[i - 1]);
            }
        }
        if lead_ws(s) < s.len() {
            assert(s[lead_ws(s) as int] == s.drop_first()[lead_ws(s.drop_first()) as int]);
        }
    } else {
        assert(s.skip(0) =~= s);
    }
}

/// Number of characters left once trailing whitespace is dropped.
pub open spec fn keep_until_trail(s: Seq<char>) -> nat
    decreases s.len(),
{
    if s.len() > 0 && is_ws(s.last()) {
        keep_until_trail(s.drop_last())
    } else {
        s.len()
    }
}

pub proof fn lemma_trim_end_take(s: Seq<char>)
    ensures
        keep_until_trail(s) <= s.len(),
        trim_end(s) == s.take(keep_until_trail(s) as int),
        forall|i: int| keep_until_trail(s) <= i < s.len() ==> is_ws(#[trigger] s[i]),
        keep_until_trail(s) > 0 ==> !is_ws(s[keep_until_trail(s) - 1]),
    decreases s.len(),
{
    if s.len() > 0 && is_ws(s.last()) {
        lemma_trim_end_take(s.drop_last());
        assert(s.drop_last().take(keep_until_trail(s.drop_last()) as int) =~= s.take(
            keep_until_trail(s) as int,
        ));
        assert forall|i: int| keep_until_trail(s) <= i < s.len() implies is_ws(#[trigger] s[i]) by {
            if i < s.len() - 1 {
                assert(s[i] == s.drop_last()[i]);
            }
        }
        if keep_until_trail(s) > 0 {
            assert(s[keep_until_trail(s) - 1] == s.drop_last()[keep_until_trail(s) - 1]);
        }
    } else {
        assert(s.take(s.len() as int) =~= s);
    }
}

/// The characters of a string slice.
pub fn chars_of(s: &str) -> (v: Vec<char>)
    ensures
        v@ == s@,
{
    let mut v: Vec<char> = Vec::new();
    for c in it: s.chars()
        invariant
            v@ == it.seq().take(it.index() as int),
            it.seq() == s@,
    {
        v.push(c);
    }
    v
}

/// The characters `v[lo..hi]` as a string.
pub fn string_from_range(v: &Vec<char>, lo: usize, hi: usize) -> (s: String)
    requires
        lo <= hi <= v@.len(),
    ensures
        s@ == v@.subrange(lo as int, hi as int),
{
    let mut s = String::new();
    let mut i = lo;
    while i < hi
        invariant
            lo <= i <= hi <= v@.len(),
            s@ == v@.subrange(lo as int, i as int),
        decreases hi - i,
    {
        push_char(&mut s, v[i]);
        assert(v@.subrange(lo as int, i as int).push(v@[i as int]) =~= v@.subrange(
            lo as int,
            i + 1,
        ));
        i = i + 1;
    }
    s
}

/// Index of the first non-whitespace character (or the length).
pub fn skip_ws_start(v: &Vec<char>) -> (k: usize)
    ensures
        k == lead_ws(v@),
        k <= v@.len(),
        trim_start(v@) == v@.skip(k as int),
{
    proof {
        lemma_trim_start_skip(v@);
    }
    let mut k: usize = 0;
    while k < v.len() && is_whitespace(v[k])
        invariant
            k <= lead_ws(v@),
            lead_ws(v@) <= v@.len(),
            forall|i: int| 0 <= i < lead_ws(v@) ==> is_ws(#[trigger] v@[i]),
            lead_ws(v@) < v@.len() ==> !is_ws(v@[lead_ws(v@) as int]),
        decreases v@.len() - k,
    {
        k = k + 1;
    }
    k
}

/// Bounds `(lo, hi)` of the trimmed part of `v`.
pub fn trim_bounds(v: &Vec<char>) -> (r: (usize, usize))
    ensures
        r.0 <= r.1 <= v@.len(),
        v@.subrange(r.0 as int, r.1 as int) == trim(v@),
{
    let lo = skip_ws_start(v);
    let ghost t = v@.skip(lo as int);
    proof {
        lemma_trim_end_take(t);
    }
    let mut hi: usize = v.len();
    while hi > lo && is_whitespace(v[hi - 1])
        invariant
            lo <= hi <= v@.len(),
            t == v@.skip(lo as int),
            lo + keep_until_trail(t) <= hi,
            keep_until_trail(t) <= t.len(),
            forall|i: int| keep_until_trail(t) <= i < t.len() ==> is_ws(#[trigger] t[i]),
            keep_until_trail(t) > 0 ==> !is_ws(t[keep_until_trail(t) - 1]),
        decreases hi,
    {
        assert(t[hi - 1 - lo] == v@[hi - 1]);
        hi = hi - 1;
    }
    proof {
        if hi > lo {
            assert(t[hi - 1 - lo] == v@[hi - 1]);
        }
        assert(v@.subrange(lo as int, hi as int) =~= t.take(keep_until_trail(t) as int));
    }
    (lo, hi)
}

/// `str::trim` on a string slice.
pub fn trim_str(s: &str) -> (t: String)
    ensures
        t@ == trim(s@),
{
    let v = chars_of(s);
    let (lo, hi) = trim_bounds(&v);
    string_from_range(&v, lo, hi)
}

/// The items with `sep` between each two.
pub open spec fn joined(items: Seq<Seq<char>>, sep: Seq<char>) -> Seq<char>
    decreases items.len(),
{
    if items.len() == 0 {
        Seq::empty()
    } else if items.len() == 1 {
        items[0]
    } else {
        joined(items.drop_last(), sep) + sep + items.last()
    }
}

/// The strings with `sep` between each two (`[String]::join`).
pub fn join(v: &Vec<String>, sep: &str) -> (s: String)
    ensures
        s@ == joined(v@.map_values(|l: String| l@), sep@),
{
    let ghost w = v@.map_values(|l: String| l@);
    let mut s = String::new();
    let n = v.len();
    for j in 0..n
        invariant
            n == v@.len(),
            w == v@.map_values(|l: String| l@),
            s@ == joined(w.take(j as int), sep@),
    {
        if j > 0 {
            s.append(sep);
        }
        s.append(v[j].as_str());
        proof {
            assert(w.take((j + 1) as int).drop_last() =~= w.take(j as int));
            if j == 0 {
                assert(w.take(0) =~= Seq::<Seq<char>>::empty());
            }
        }
    }
    assert(w.take(n as int) =~= w);
    s
}

} // verus!
