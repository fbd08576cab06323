//! Reading `"key":123` and `"key":"text"` out of a small JSON text without a
//! JSON parser, and applying them to a form object.
use vstd::prelude::*;
use crate::model::FormObject;
use crate::num::{dec, dec_int, digit};
use crate::text::{chars_of, string_from_range};

verus! {

/// `pat` occurs in `s` at `i`.
pub open spec fn occurs_at(s: Seq<char>, pat: Seq<char>, i: int) -> bool {
    0 <= i && i + pat.len() <= s.len() && s.subrange(i, i + pat.len()) == pat
}

/// The first occurrence of `pat` in `s` at or after `i` (`str::find`).
pub open spec fn find_from(s: Seq<char>, pat: Seq<char>, i: nat) -> Option<nat>
    decreases s.len() + 1 - i,
{
    if i + pat.len() > s.len() {
        None
    } else if occurs_at(s, pat, i as int) {
        Some(i)
    } else {
        find_from(s, pat, i + 1)
    }
}

pub open spec fn is_digit(c: char) -> bool {
    '0' <= c <= '9'
}

/// Value of a run of decimal digits.
pub open spec fn digits_val(d: Seq<char>) -> int
    decreases d.len(),
{
    if d.len() == 0 {
        0
    } else {
        10 * digits_val(d.drop_last()) + (d.last() as int - '0' as int)
    }
}

pub open spec fn all_digits(d: Seq<char>) -> bool {
    forall|i: int| 0 <= i < d.len() ==> is_digit(#[trigger] d[i])
}

/// `i32::from_str`: an optional sign, then one or more digits, in range.
pub open spec fn parse_i32(t: Seq<char>) -> Option<i32> {
    if t.len() > 0 && (t[0] == '-' || t[0] == '+') {
        let d = t.drop_first();
        let v = if t[0] == '-' { -digits_val(d) } else { digits_val(d) };
        if d.len() > 0 && all_digits(d) && i32::MIN <= v <= i32::MAX {
            Some(v as i32)
        } else {
            None
        }
    } else if t.len() > 0 && all_digits(t) && digits_val(t) <= i32::MAX {
        Some(digits_val(t) as i32)
    } else {
        None
    }
}

/// The length of the leading run of digits and minus signs.
pub open spec fn int_run(s: Seq<char>) -> nat
    decreases s.len(),
{
    if s.len() > 0 && (is_digit(s[0]) || s[0] == '-') {
        1 + int_run(s.drop_first())
    } else {
        0
    }
}

/// `"key":`
pub open spec fn int_pattern(key: Seq<char>) -> Seq<char> {
    seq!['"'] + key + seq!['"', ':']
}

/// `"key":"`
pub open spec fn str_pattern(key: Seq<char>) -> Seq<char> {
    seq!['"'] + key + seq!['"', ':', '"']
}

/// `extract_json_int`: the integer after the first `"key":`.
pub open spec fn json_int(json: Seq<char>, key: Seq<char>) -> Option<i32> {
    let pat = int_pattern(key);
    match find_from(json, pat, 0) {
        Some(pos) => {
            let rest = json.skip((pos + pat.len()) as int);
            parse_i32(rest.take(int_run(rest) as int))
        },
        None => None,
    }
}

/// Index of the first quote in `s` at or after `i` that no backslash
/// precedes, or the length of `s`.
pub open spec fn closing_quote(s: Seq<char>, i: nat) -> nat
    decreases s.len() - i,
{
    if i >= s.len() {
        s.len()
    } else if s[i as int] == '"' && (i == 0 || s[i - 1] != '\\') {
        i
    } else {
        closing_quote(s, i + 1)
    }
}

/// `extract_json_string`: the text after the first `"key":"` up to the
/// closing quote (escapes kept as written).
pub open spec fn json_string(json: Seq<char>, key: Seq<char>) -> Option<Seq<char>> {
    let pat = str_pattern(key);
    match find_from(json, pat, 0) {
        Some(pos) => {
            let rest = json.skip((pos + pat.len()) as int);
            Some(rest.take(closing_quote(rest, 0) as int))
        },
        None => None,
    }
}

pub proof fn lemma_find_from_bound(s: Seq<char>, pat: Seq<char>, i: nat)
    ensures
        match find_from(s, pat, i) {
            Some(p) => i <= p && p + pat.len() <= s.len() && occurs_at(s, pat, p as int),
            None => forall|k: int| i <= k ==> !occurs_at(s, pat, k),
        },
    decreases s.len() + 1 - i,
{
    if i + pat.len() <= s.len() && !occurs_at(s, pat, i as int) {
        lemma_find_from_bound(s, pat, i + 1);
    }
}

/// The first occurrence of `pat` in `s`.
pub fn find_chars(s: &Vec<char>, pat: &Vec<char>) -> (r: Option<usize>)
    ensures
        match r {
            Some(p) => find_from(s@, pat@, 0) == Some(p as nat),
            None => find_from(s@, pat@, 0) is None,
        },
{
    let n = s.len();
    let k = pat.len();
    if k > n {
        return None;
    }
    let mut i: usize = 0;
    while i <= n - k
        invariant
            n == s@.len(),
            k == pat@.len(),
            k <= n,
            i <= n - k + 1,
            find_from(s@, pat@, 0) == find_from(s@, pat@, i as nat),
        decreases n + 1 - i,
    {
        let mut j: usize = 0;
        while j < k && s[i + j] == pat[j]
            invariant
                j <= k,
                i + k <= n,
                n == s@.len(),
                k == pat@.len(),
                forall|x: int| 0 <= x < j ==> s@[i + x] == pat@[x],
            decreases k - j,
        {
            j = j + 1;
        }
        if j == k {
            assert(s@.subrange(i as int, i + k) =~= pat@);
            return Some(i);
        }
        assert(s@[i + j] != pat@[j as int]);
        assert(s@.subrange(i as int, i + k)[j as int] == s@[i + j]);
        i = i + 1;
    }
    None
}

fn pattern(key: &str, tail_quote: bool) -> (p: Vec<char>)
    ensures
        p@ == (if tail_quote { str_pattern(key@) } else { int_pattern(key@) }),
{
    let mut p: Vec<char> = Vec::new();
    p.push('"');
    let k = chars_of(key);
    let n = k.len();
    for i in 0..n
        invariant
            n == k@.len(),
            k@ == key@,
            p@ == seq!['"'] + k@.take(i as int),
    {
        p.push(k[i]);
        assert(k@.take(i + 1) =~= k@.take(i as int).push(k@[i as int]));
        assert(p@ =~= seq!['"'] + k@.take(i + 1));
    }
    p.push('"');
    p.push(':');
    if tail_quote {
        p.push('"');
    }
    assert(k@.take(n as int) =~= k@);
    proof {
        if tail_quote {
            assert(p@ =~= str_pattern(key@));
        } else {
            assert(p@ =~= int_pattern(key@));
        }
    }
    p
}

proof fn lemma_digits_grow(d: Seq<char>, i: int)
    requires
        0 <= i < d.len(),
        all_digits(d),
    ensures
        digits_val(d.take(i + 1)) == 10 * digits_val(d.take(i)) + (d[i] as int - '0' as int),
        digits_val(d.take(i)) >= 0,
{
    assert(d.take(i + 1).drop_last() =~= d.take(i));
    lemma_digits_nonneg(d.take(i));
}

proof fn lemma_digits_nonneg(d: Seq<char>)
    requires
        all_digits(d),
    ensures
        digits_val(d) >= 0,
    decreases d.len(),
{
    if d.len() > 0 {
        assert(all_digits(d.drop_last())) by {
            assert forall|i: int| 0 <= i < d.drop_last().len() implies is_digit(#[trigger] d.drop_last()[i]) by {
                assert(d.drop_last()[i] == d[i]);
            }
        }
        lemma_digits_nonneg(d.drop_last());
    }
}

/// Parses `t[lo..hi]` the way `str::parse::<i32>` does.
fn parse_i32_chars(t: &Vec<char>, lo: usize, hi: usize) -> (r: Option<i32>)
    requires
        lo <= hi <= t@.len(),
    ensures
        r == parse_i32(t@.subrange(lo as int, hi as int)),
{
    let ghost s = t@.subrange(lo as int, hi as int);
    if lo == hi {
        return None;
    }
    let neg = t[lo] == '-';
    let signed = t[lo] == '-' || t[lo] == '+';
    assert(s[0] == t@[lo as int]);
    let start = if signed { lo + 1 } else { lo };
    let ghost d = t@.subrange(start as int, hi as int);
    proof {
        if signed {
            assert(d =~= s.drop_first());
        } else {
            assert(d =~= s);
        }
    }
    if start == hi {
        return None;
    }
    // Magnitudes above 2^31 fit no i32; stop growing there.
    let mut acc: i64 = 0;
    let mut big = false;
    let mut i = start;
    while i < hi
        invariant
            lo <= start <= i <= hi <= t@.len(),
            d == t@.subrange(start as int, hi as int),
            s == t@.subrange(lo as int, hi as int),
            s.len() > 0,
            signed == (s[0] == '-' || s[0] == '+'),
            neg == (s[0] == '-'),
            signed ==> d == s.drop_first(),
            !signed ==> d == s,
            d.len() > 0,
            forall|x: int| 0 <= x < i - start ==> is_digit(#[trigger] d[x]),
            !big ==> acc == digits_val(d.take(i - start)) && 0 <= acc <= 2_147_483_648,
            big ==> digits_val(d.take(i - start)) > 2_147_483_648,
        decreases hi - i,
    {
        let c = t[i];
        if !('0' <= c && c <= '9') {
            proof {
                assert(d[i - start] == c);
                assert(!is_digit(d[i - start]));
                assert(!all_digits(d));
            }
            return None;
        }
        let dv = (c as u32 - '0' as u32) as i64;
        proof {
            assert(d[i - start] == c);
            assert(all_digits(d.take(i - start + 1))) by {
                assert forall|x: int| 0 <= x < d.take(i - start + 1).len() implies is_digit(#[trigger] d.take(i - start + 1)[x]) by {
                    assert(d.take(i - start + 1)[x] == d[x]);
                }
            }
            lemma_digits_grow(d.take(i - start + 1), i - start);
            assert(d.take(i - start + 1).take(i - start) =~= d.take(i - start));
            assert(d.take(i - start + 1).take(i - start + 1) =~= d.take(i - start + 1));
        }
        if !big {
            if acc * 10 + dv > 2_147_483_648 {
                big = true;
            } else {
                acc = acc * 10 + dv;
            }
        }
        i = i + 1;
    }
    proof {
        assert(d.take(hi - start) =~= d);
        assert(all_digits(d));
    }
    if big {
        return None;
    }
    if neg {
        Some((0 - acc) as i32)
    } else if acc <= 2_147_483_647 {
        Some(acc as i32)
    } else {
        None
    }
}

/// `extract_json_int`: the integer after the first `"key":`, if it parses.
pub fn extract_json_int(json: &str, key: &str) -> (r: Option<i32>)
    ensures
        r == json_int(json@, key@),
{
    let s = chars_of(json);
    let pat = pattern(key, false);
    match find_chars(&s, &pat) {
        None => None,
        Some(pos) => {
            proof {
                lemma_find_from_bound(s@, pat@, 0);
                assert(pos + pat@.len() <= s@.len());
            }
            let plen = pat.len();
            let slen = s.len();
            assert(plen == pat@.len() && slen == s@.len());
            assert(pos + plen <= slen);
            let start = pos + plen;
            let ghost rest = s@.skip(start as int);
            let mut end = start;
            proof {
                lemma_int_run(rest);
            }
            while end < s.len() && (('0' <= s[end] && s[end] <= '9') || s[end] == '-')
                invariant
                    start <= end <= s@.len(),
                    rest == s@.skip(start as int),
                    end - start <= int_run(rest),
                    forall|x: int| 0 <= x < int_run(rest) ==> (is_digit(#[trigger] rest[x]) || rest[x] == '-'),
                    int_run(rest) <= rest.len(),
                    int_run(rest) < rest.len() ==> !(is_digit(rest[int_run(rest) as int]) || rest[int_run(rest) as int] == '-'),
                decreases s@.len() - end,
            {
                proof {
                    if end - start == int_run(rest) {
                        assert(rest[end - start] == s@[end as int]);
                    }
                }
                end = end + 1;
            }
            proof {
                if end - start < int_run(rest) {
                    assert(rest[end - start] == s@[end as int]);
                }
                assert(s@.subrange(start as int, end as int) =~= rest.take(int_run(rest) as int));
            }
            parse_i32_chars(&s, start, end)
        },
    }
}

pub proof fn lemma_int_run(s: Seq<char>)
    ensures
        int_run(s) <= s.len(),
        forall|x: int| 0 <= x < int_run(s) ==> (is_digit(#[trigger] s[x]) || s[x] == '-'),
        int_run(s) < s.len() ==> !(is_digit(s[int_run(s) as int]) || s[int_run(s) as int] == '-'),
    decreases s.len(),
{
    if s.len() > 0 && (is_digit(s[0]) || s[0] == '-') {
        lemma_int_run(s.drop_first());
        assert forall|x: int| 0 <= x < int_run(s) implies (is_digit(#[trigger] s[x]) || s[x] == '-') by {
            if x > 0 {
                assert(s[x] == s.drop_first()[x - 1]);
            }
        }
        if int_run(s) < s.len() {
            assert(s[int_run(s) as int] == s.drop_first()[int_run(s.drop_first()) as int]);
        }
    }
}

/// `extract_json_string`: the text after the first `"key":"` up to the first
/// quote that no backslash precedes.
pub fn extract_json_string(json: &str, key: &str) -> (r: Option<String>)
    ensures
        match r {
            Some(v) => json_string(json@, key@) == Some(v@),
            None => json_string(json@, key@) is None,
        },
{
    let s = chars_of(json);
    let pat = pattern(key, true);
    match find_chars(&s, &pat) {
        None => None,
        Some(pos) => {
            proof {
                lemma_find_from_bound(s@, pat@, 0);
                assert(pos + pat@.len() <= s@.len());
            }
            let plen = pat.len();
            let slen = s.len();
            assert(plen == pat@.len() && slen == s@.len());
            assert(pos + plen <= slen);
            let start = pos + plen;
            let ghost rest = s@.skip(start as int);
            let mut end: usize = 0;
            let n = s.len() - start;
            while end < n && !(s[start + end] == '"' && (end == 0 || s[start + end - 1] != '\\'))
                invariant
                    start + n == s@.len(),
                    start + n == slen,
                    end <= n,
                    rest == s@.skip(start as int),
                    closing_quote(rest, 0) == closing_quote(rest, end as nat),
                decreases n - end,
            {
                proof {
                    assert(rest[end as int] == s@[start + end]);
                    if end > 0 {
                        assert(rest[end - 1] == s@[start + end - 1]);
                    }
                }
                end = end + 1;
            }
            proof {
                if end < n {
                    assert(rest[end as int] == s@[start + end]);
                    if end > 0 {
                        assert(rest[end - 1] == s@[start + end - 1]);
                    }
                }
                assert(s@.subrange(start as int, (start + end) as int) =~= rest.take(end as int));
            }
            Some(string_from_range(&s, start, start + end))
        },
    }
}

/// The form after `apply_form_value`: `"value"`, `"text"` and `"caption"`
/// taken from the JSON where present.
pub open spec fn form_value_applied(old: FormObject, new: FormObject, json: Seq<char>) -> bool {
    &&& new.value == (match json_int(json, "value"@) {
        Some(v) => v,
        None => old.value,
    })
    &&& new.text@ == (match json_string(json, "text"@) {
        Some(t) => t,
        None => old.text@,
    })
    &&& new.caption@ == (match json_string(json, "caption"@) {
        Some(c) => c,
        None => old.caption@,
    })
    &&& new.form_type == old.form_type
    &&& new.name == old.name
    &&& new.width == old.width
    &&& new.height == old.height
    &&& new.fore_color == old.fore_color
    &&& new.back_color == old.back_color
    &&& new.enabled == old.enabled
    &&& new.properties == old.properties
}

/// Sets the form's value, text and caption from `{"value":..,"text":"..",
/// "caption":".."}` (each optional).
pub fn apply_form_value(f: &mut FormObject, value_json: &str)
    ensures
        form_value_applied(*old(f), *final(f), value_json@),
{
    if let Some(v) = extract_json_int(value_json, "value") {
        f.value = v;
    }
    if let Some(t) = extract_json_string(value_json, "text") {
        f.text = t;
    }
    if let Some(c) = extract_json_string(value_json, "caption") {
        f.caption = c;
    }
}

proof fn lemma_dec_digits(n: nat)
    ensures
        all_digits(dec(n)),
        digits_val(dec(n)) == n,
        dec(n).len() > 0,
    decreases n,
{
    if n >= 10 {
        lemma_dec_digits(n / 10);
        let d = dec(n / 10);
        let c = digit(n % 10);
        assert(dec(n) == d.push(c));
        assert(d.push(c).drop_last() =~= d);
        assert(is_digit(c) && c as int - '0' as int == n % 10);
        assert(digits_val(d.push(c)) == 10 * digits_val(d) + (c as int - '0' as int));
        assert(10 * (n / 10) + n % 10 == n);
        assert forall|i: int| 0 <= i < dec(n).len() implies is_digit(#[trigger] dec(n)[i]) by {
            if i < d.len() {
                assert(dec(n)[i] == d[i]);
            }
        }
    } else {
        assert(seq![digit(n)].drop_last() =~= Seq::<char>::empty());
        assert(digits_val(Seq::<char>::empty()) == 0);
        assert(digits_val(seq![digit(n)]) == 10 * digits_val(Seq::<char>::empty()) + (digit(n) as int - '0' as int));
    }
}

proof fn lemma_int_run_concat(a: Seq<char>, b: Seq<char>)
    requires
        forall|i: int| 0 <= i < a.len() ==> is_digit(#[trigger] a[i]) || a[i] == '-',
        b.len() == 0 || !(is_digit(b[0]) || b[0] == '-'),
    ensures
        int_run(a + b) == a.len(),
    decreases a.len(),
{
    if a.len() == 0 {
        assert(a + b =~= b);
    } else {
        assert((a + b).drop_first() =~= a.drop_first() + b);
        assert forall|i: int| 0 <= i < a.drop_first().len() implies is_digit(#[trigger] a.drop_first()[i]) || a.drop_first()[i] == '-' by {
            assert(a.drop_first()[i] == a[i + 1]);
        }
        lemma_int_run_concat(a.drop_first(), b);
    }
}

/// `{"value":N}` as a value JSON.
pub open spec fn value_only_json(v: i32) -> Seq<char> {
    "{\"value\":"@ + dec_int(v as int) + "}"@
}

/// An integer written as `"value":N` is read back as N.
pub proof fn law_written_value_is_read(v: i32)
    ensures
        json_int(value_only_json(v), "value"@) == Some(v),
{
    let s = value_only_json(v);
    let pat = int_pattern("value"@);
    reveal_strlit("{\"value\":");
    reveal_strlit("value");
    reveal_strlit("}");
    let d = dec_int(v as int);
    assert(s =~= seq!['{', '"', 'v', 'a', 'l', 'u', 'e', '"', ':'] + d + seq!['}']);
    assert(pat =~= seq!['"', 'v', 'a', 'l', 'u', 'e', '"', ':']);
    assert(!occurs_at(s, pat, 0)) by {
        if occurs_at(s, pat, 0) {
            assert(s.subrange(0, 8)[0] == pat[0]);
        }
    }
    assert(s.subrange(1, 9) =~= pat);
    assert(find_from(s, pat, 1) == Some(1nat));
    assert(find_from(s, pat, 0) == Some(1nat));
    let rest = s.skip(9);
    assert(rest =~= d + seq!['}']);
    let m: nat = if v < 0 { (-v) as nat } else { v as nat };
    lemma_dec_digits(m);
    assert forall|i: int| 0 <= i < d.len() implies is_digit(#[trigger] d[i]) || d[i] == '-' by {
        if v < 0 {
            if i > 0 {
                assert(d[i] == dec(m)[i - 1]);
            }
        } else {
            assert(d[i] == dec(m)[i]);
        }
    }
    lemma_int_run_concat(d, seq!['}']);
    assert(rest.take(d.len() as int) =~= d);
    if v < 0 {
        assert(d.drop_first() =~= dec(m));
    }
}

/// Setting a form's value from `{"value":N}` gives it the value N.
pub proof fn law_value_set_is_read(old: FormObject, new: FormObject, v: i32)
    requires
        form_value_applied(old, new, value_only_json(v)),
    ensures
        new.value == v,
{
    law_written_value_is_read(v);
}

/// `{"key":"T"}` as a value JSON.
pub open spec fn string_only_json(key: Seq<char>, t: Seq<char>) -> Seq<char> {
    "{"@ + str_pattern(key) + t + "\"}"@
}

/// Neither quotes nor backslashes: a text that JSON writes as it is.
pub open spec fn plain_text(t: Seq<char>) -> bool {
    forall|i: int| 0 <= i < t.len() ==> #[trigger] t[i] != '"' && t[i] != '\\'
}

proof fn lemma_closing_quote_plain(t: Seq<char>, tail: Seq<char>, i: nat)
    requires
        plain_text(t),
        i <= t.len(),
        tail.len() > 0,
        tail[0] == '"',
    ensures
        closing_quote(t + tail, i) == t.len(),
    decreases t.len() - i,
{
    let s = t + tail;
    if i < t.len() {
        assert(s[i as int] == t[i as int]);
        lemma_closing_quote_plain(t, tail, i + 1);
    } else {
        assert(s[i as int] == '"');
        if i > 0 {
            assert(s[i - 1] == t[i - 1]);
        }
    }
}

proof fn lemma_find_pattern_at_one(s: Seq<char>, pat: Seq<char>)
    requires
        pat.len() > 0,
        s.len() >= 1 + pat.len(),
        s[0] != pat[0],
        s.subrange(1, 1 + pat.len() as int) == pat,
    ensures
        find_from(s, pat, 0) == Some(1nat),
{
    assert(!occurs_at(s, pat, 0)) by {
        if occurs_at(s, pat, 0) {
            assert(s.subrange(0, pat.len() as int)[0] == s[0]);
        }
    }
    assert(occurs_at(s, pat, 1));
    assert(find_from(s, pat, 1) == Some(1nat));
}

/// A text written as `"text":"T"` is read back as T when it holds no quote
/// or backslash.
pub proof fn law_written_text_is_read(key: Seq<char>, t: Seq<char>)
    requires
        plain_text(t),
    ensures
        json_string(string_only_json(key, t), key) == Some(t),
{
    let pat = str_pattern(key);
    let s = string_only_json(key, t);
    reveal_strlit("{");
    reveal_strlit("\"}");
    assert(s =~= seq!['{'] + pat + t + seq!['"', '}']);
    assert(s.subrange(1, 1 + pat.len() as int) =~= pat);
    lemma_find_pattern_at_one(s, pat);
    let rest = s.skip(1 + pat.len() as int);
    assert(rest =~= t + seq!['"', '}']);
    lemma_closing_quote_plain(t, seq!['"', '}'], 0);
    assert(rest.take(t.len() as int) =~= t);
}

/// Setting a form's text from `{"text":"T"}` (T without quotes or
/// backslashes) gives it the text T.
pub proof fn law_text_set_is_read(old: FormObject, new: FormObject, t: Seq<char>)
    requires
        plain_text(t),
        form_value_applied(old, new, string_only_json("text"@, t)),
    ensures
        new.text@ == t,
{
    law_written_text_is_read("text"@, t);
}

/// A text as JSON writes it inside quotes: every quote in it is escaped
/// (a backslash comes right before it), and it does not end in a
/// backslash, which would escape the closing quote.
pub open spec fn escaped_text(t: Seq<char>) -> bool {
    &&& forall|i: int| 0 <= i < t.len() && #[trigger] t[i] == '"' ==> i > 0 && t[i - 1] == '\\'
    &&& t.len() > 0 ==> t.last() != '\\'
}

proof fn lemma_closing_quote_escaped(t: Seq<char>, tail: Seq<char>, i: nat)
    requires
        escaped_text(t),
        i <= t.len(),
        tail.len() > 0,
        tail[0] == '"',
    ensures
        closing_quote(t + tail, i) == t.len(),
    decreases t.len() - i,
{
    let s = t + tail;
    if i < t.len() {
        assert(s[i as int] == t[i as int]);
        if i > 0 {
            assert(s[i - 1] == t[i - 1]);
        }
        lemma_closing_quote_escaped(t, tail, i + 1);
    } else {
        assert(s[i as int] == '"');
        if i > 0 {
            assert(s[i - 1] == t[i - 1]);
        }
    }
}

/// A text written as `"key":"T"`, T escaped as JSON writes it (quotes
/// preceded by a backslash), is read back as T exactly as written: an
/// escaped quote does not end the value.
pub proof fn law_escaped_text_is_read(key: Seq<char>, t: Seq<char>)
    requires
        escaped_text(t),
    ensures
        json_string(string_only_json(key, t), key) == Some(t),
{
    let pat = str_pattern(key);
    let s = string_only_json(key, t);
    reveal_strlit("{");
    reveal_strlit("\"}");
    assert(s =~= seq!['{'] + pat + t + seq!['"', '}']);
    assert(s.subrange(1, 1 + pat.len() as int) =~= pat);
    lemma_find_pattern_at_one(s, pat);
    let rest = s.skip(1 + pat.len() as int);
    assert(rest =~= t + seq!['"', '}']);
    lemma_closing_quote_escaped(t, seq!['"', '}'], 0);
    assert(rest.take(t.len() as int) =~= t);
}

/// Setting a form's text from `{"text":"T"}`, T escaped as JSON writes it,
/// gives it the text T as written (escapes kept).
pub proof fn law_escaped_text_set_is_read(old: FormObject, new: FormObject, t: Seq<char>)
    requires
        escaped_text(t),
        form_value_applied(old, new, string_only_json("text"@, t)),
    ensures
        new.text@ == t,
{
    law_escaped_text_is_read("text"@, t);
}

} // verus!
