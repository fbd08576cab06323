//! The document script (`Scripts/DefaultJScript`, raw deflate of UTF-16LE
//! text) and the combo box items that its `InsertString` calls add.
use vstd::prelude::*;
use std::io::Read;
use crate::extract::{digits_val, is_digit};
use crate::text::{chars_of, is_whitespace, push_char, string_from_range, trim, trim_bounds, trim_start, skip_ws_start, lead_ws, lemma_trim_start_skip};

verus! {

/// What raw-deflate decompression makes of `data`, or `None` where the data
/// is not a valid raw deflate stream.
pub uninterp spec fn raw_inflate(data: Seq<u8>) -> Option<Seq<u8>>;

/// Decompresses a raw deflate stream with `flate2::read::DeflateDecoder`
/// (reading to the end). Claimed: the result is `raw_inflate(data@)`, a
/// function of the bytes alone; the deflate format itself is not stated.
#[verifier::external_body]
fn inflate_raw(data: &[u8]) -> (r: Option<Vec<u8>>)
    ensures
        raw_inflate(data@) == (match r {
            Some(v) => Some(v@),
            None => None,
        }),
{
    let mut decoder = flate2::read::DeflateDecoder::new(data);
    let mut out = Vec::new();
    match decoder.read_to_end(&mut out) {
        Ok(_) => Some(out),
        Err(_) => None,
    }
}

/// UTF-16 code units decoded: a unit outside the surrogate range is its own
/// character, a high surrogate followed by a low one is the character they
/// encode, and any other surrogate becomes U+FFFD.
pub open spec fn utf16_lossy(u: Seq<u16>) -> Seq<char>
    decreases u.len(),
{
    if u.len() == 0 {
        Seq::empty()
    } else {
        let a = u[0] as u32;
        if a < 0xD800 || a > 0xDFFF {
            seq![a as char] + utf16_lossy(u.drop_first())
        } else if a <= 0xDBFF && u.len() >= 2 && 0xDC00 <= u[1] <= 0xDFFF {
            seq![(0x10000 + (a - 0xD800) * 0x400 + (u[1] - 0xDC00)) as char] + utf16_lossy(u.skip(2))
        } else {
            seq!['\u{FFFD}'] + utf16_lossy(u.drop_first())
        }
    }
}

/// `String::from_utf16_lossy`: decodes UTF-16, replacing each unpaired
/// surrogate with U+FFFD, as its documentation says.
#[verifier::external_body]
fn decode_utf16_lossy(units: &[u16]) -> (s: String)
    ensures
        s@ == utf16_lossy(units@),
{
    String::from_utf16_lossy(units)
}

/// Byte pairs read as little-endian 16-bit units (an odd last byte dropped).
pub open spec fn le_units(b: Seq<u8>) -> Seq<u16> {
    Seq::new(b.len() / 2, |i: int| (b[2 * i] as int + 256 * b[2 * i + 1] as int) as u16)
}

pub open spec fn is_script_path(p: Seq<char>) -> bool {
    p == "/Scripts/DefaultJScript"@ || p == "Scripts/DefaultJScript"@
}

/// The data of the first stream whose path names the document script.
pub open spec fn script_stream(streams: Seq<(String, Vec<u8>)>, i: nat) -> Option<Seq<u8>>
    decreases streams.len() - i,
{
    if i >= streams.len() {
        None
    } else if is_script_path(streams[i as int].0@) {
        Some(streams[i as int].1@)
    } else {
        script_stream(streams, i + 1)
    }
}

/// `decode_hwp_script`: the document script text, if there is one that
/// inflates to at least two bytes.
pub open spec fn hwp_script(streams: Seq<(String, Vec<u8>)>) -> Option<Seq<char>> {
    match script_stream(streams, 0) {
        None => None,
        Some(data) => if data.len() == 0 {
            None
        } else {
            match raw_inflate(data) {
                None => None,
                Some(bytes) => if bytes.len() < 2 {
                    None
                } else {
                    Some(utf16_lossy(le_units(bytes)))
                },
            }
        },
    }
}

fn chars_eq(a: &Vec<char>, b: &Vec<char>) -> (r: bool)
    ensures
        r == (a@ == b@),
{
    if a.len() != b.len() {
        return false;
    }
    let n = a.len();
    for i in 0..n
        invariant
            n == a@.len(),
            n == b@.len(),
            forall|j: int| 0 <= j < i ==> a@[j] == b@[j],
    {
        if a[i] != b[i] {
            return false;
        }
    }
    assert(a@ =~= b@);
    true
}

/// Index of the first stream whose path names the document script.
fn script_stream_index(extra_streams: &Vec<(String, Vec<u8>)>) -> (r: Option<usize>)
    ensures
        match r {
            Some(k) => k < extra_streams@.len() && script_stream(extra_streams@, 0) == Some(
                extra_streams@[k as int].1@,
            ),
            None => script_stream(extra_streams@, 0) is None,
        },
{
    let p1 = chars_of("/Scripts/DefaultJScript");
    let p2 = chars_of("Scripts/DefaultJScript");
    let n = extra_streams.len();
    let mut i: usize = 0;
    while i < n
        invariant
            n == extra_streams@.len(),
            i <= n,
            p1@ == "/Scripts/DefaultJScript"@,
            p2@ == "Scripts/DefaultJScript"@,
            script_stream(extra_streams@, 0) == script_stream(extra_streams@, i as nat),
        decreases n - i,
    {
        let path = chars_of(extra_streams[i].0.as_str());
        if chars_eq(&path, &p1) || chars_eq(&path, &p2) {
            return Some(i);
        }
        i = i + 1;
    }
    None
}

/// Finds the document script and decodes it.
pub fn decode_hwp_script(extra_streams: &Vec<(String, Vec<u8>)>) -> (r: Option<String>)
    ensures
        match r {
            Some(s) => hwp_script(extra_streams@) == Some(s@),
            None => hwp_script(extra_streams@) is None,
        },
{
    let k = match script_stream_index(extra_streams) {
        Some(k) => k,
        None => return None,
    };
    let data = &extra_streams[k].1;
    if data.len() == 0 {
        return None;
    }
    let bytes = match inflate_raw(data.as_slice()) {
        Some(b) => b,
        None => return None,
    };
    if bytes.len() < 2 {
        return None;
    }
    let blen = bytes.len();
    let half = blen / 2;
    let mut units: Vec<u16> = Vec::new();
    for j in 0..half
        invariant
            half == bytes@.len() / 2,
            blen == bytes@.len(),
            2 * half <= blen,
            units@ == le_units(bytes@).take(j as int),
    {
        let lo = bytes[2 * j] as u16;
        let hi = bytes[2 * j + 1] as u16;
        units.push(lo + 256 * hi);
        assert(units@ =~= le_units(bytes@).take(j + 1));
    }
    assert(units@ =~= le_units(bytes@));
    Some(decode_utf16_lossy(units.as_slice()))
}


/// `line` without one trailing carriage return.
pub open spec fn strip_cr(l: Seq<char>) -> Seq<char> {
    if l.len() > 0 && l.last() == '\r' {
        l.drop_last()
    } else {
        l
    }
}

/// The lines finished within the first `i` characters, and the line begun.
pub open spec fn lines_upto(s: Seq<char>, i: nat) -> (Seq<Seq<char>>, Seq<char>)
    decreases i,
{
    if i == 0 {
        (Seq::empty(), Seq::empty())
    } else {
        let prev = lines_upto(s, (i - 1) as nat);
        if s[i - 1] == '\n' {
            (prev.0.push(strip_cr(prev.1)), Seq::empty())
        } else {
            (prev.0, prev.1.push(s[i - 1]))
        }
    }
}

/// `str::lines`: split at `\n` (a `\r` before it dropped); a final line
/// ending adds no empty line.
pub open spec fn str_lines(s: Seq<char>) -> Seq<Seq<char>> {
    let st = lines_upto(s, s.len());
    if st.1.len() > 0 {
        st.0.push(st.1)
    } else {
        st.0
    }
}

/// Index of the first quote in `s`.
pub open spec fn first_quote(s: Seq<char>, i: nat) -> Option<nat>
    decreases s.len() - i,
{
    if i >= s.len() {
        None
    } else if s[i as int] == '"' {
        Some(i)
    } else {
        first_quote(s, i + 1)
    }
}

/// Length of the leading run of ASCII digits.
pub open spec fn digit_run(s: Seq<char>) -> nat
    decreases s.len(),
{
    if s.len() > 0 && is_digit(s[0]) {
        1 + digit_run(s.drop_first())
    } else {
        0
    }
}

/// `str::parse::<usize>` of a digit run, 0 where it fails (empty or too big).
pub open spec fn usize_or_zero(d: Seq<char>) -> usize {
    if d.len() > 0 && digits_val(d) <= usize::MAX {
        digits_val(d) as usize
    } else {
        0
    }
}

/// `parse_insert_string_args`: `"text", index);` gives (text, index).
pub open spec fn insert_args(a: Seq<char>) -> Option<(Seq<char>, usize)> {
    if a.len() == 0 || a[0] != '"' {
        None
    } else {
        let rest = a.drop_first();
        match first_quote(rest, 0) {
            None => None,
            Some(q) => {
                let after = trim_start(rest.skip((q + 1) as int));
                if after.len() == 0 || after[0] != ',' {
                    None
                } else {
                    let t = trim(after.drop_first());
                    Some((rest.take(q as int), usize_or_zero(t.take(digit_run(t) as int))))
                }
            },
        }
    }
}

/// The (index, text) that a script line adds, if it is
/// `prefix"text", index);` once trimmed.
pub open spec fn line_item(line: Seq<char>, prefix: Seq<char>) -> Option<(usize, Seq<char>)> {
    let t = trim(line);
    if t.len() >= prefix.len() && t.take(prefix.len() as int) == prefix {
        match insert_args(t.skip(prefix.len() as int)) {
            Some(a) => Some((a.1, a.0)),
            None => None,
        }
    } else {
        None
    }
}

/// The items of the lines, in line order.
pub open spec fn collect_items(lines: Seq<Seq<char>>, prefix: Seq<char>) -> Seq<(usize, Seq<char>)>
    decreases lines.len(),
{
    if lines.len() == 0 {
        Seq::empty()
    } else {
        let base = collect_items(lines.drop_last(), prefix);
        match line_item(lines.last(), prefix) {
            Some(it) => base.push(it),
            None => base,
        }
    }
}

/// Index of the first item whose index is greater than `k`.
pub open spec fn first_key_after(s: Seq<(usize, Seq<char>)>, k: usize) -> nat
    decreases s.len(),
{
    if s.len() == 0 {
        0
    } else if s[0].0 > k {
        0
    } else {
        1 + first_key_after(s.drop_first(), k)
    }
}

/// The items stably sorted by index (each item goes after every earlier one
/// with an index not above its own).
pub open spec fn stable_sort(items: Seq<(usize, Seq<char>)>) -> Seq<(usize, Seq<char>)>
    decreases items.len(),
{
    if items.len() == 0 {
        Seq::empty()
    } else {
        let sorted = stable_sort(items.drop_last());
        sorted.insert(first_key_after(sorted, items.last().0) as int, items.last())
    }
}

pub open spec fn insert_string_prefix(name: Seq<char>) -> Seq<char> {
    name + ".InsertString("@
}

/// The combo box items that the document script adds to control `name`,
/// ordered by their index.
pub open spec fn combobox_items(streams: Seq<(String, Vec<u8>)>, name: Seq<char>) -> Seq<Seq<char>> {
    match hwp_script(streams) {
        None => Seq::empty(),
        Some(sc) => stable_sort(collect_items(str_lines(sc), insert_string_prefix(name))).map_values(
            |e: (usize, Seq<char>)| e.1,
        ),
    }
}

pub proof fn lemma_first_key_after(s: Seq<(usize, Seq<char>)>, k: usize)
    ensures
        first_key_after(s, k) <= s.len(),
        forall|j: int| 0 <= j < first_key_after(s, k) ==> #[trigger] s[j].0 <= k,
        first_key_after(s, k) < s.len() ==> s[first_key_after(s, k) as int].0 > k,
    decreases s.len(),
{
    if s.len() > 0 && s[0].0 <= k {
        lemma_first_key_after(s.drop_first(), k);
        assert forall|j: int| 0 <= j < first_key_after(s, k) implies #[trigger] s[j].0 <= k by {
            if j > 0 {
                assert(s[j] == s.drop_first()[j - 1]);
            }
        }
    }
}

pub proof fn lemma_stable_sort_len(items: Seq<(usize, Seq<char>)>)
    ensures
        stable_sort(items).len() == items.len(),
    decreases items.len(),
{
    if items.len() > 0 {
        lemma_stable_sort_len(items.drop_last());
        lemma_first_key_after(stable_sort(items.drop_last()), items.last().0);
    }
}

fn subvec(v: &Vec<char>, lo: usize, hi: usize) -> (r: Vec<char>)
    requires
        lo <= hi <= v@.len(),
    ensures
        r@ == v@.subrange(lo as int, hi as int),
{
    let mut r: Vec<char> = Vec::new();
    let mut i = lo;
    while i < hi
        invariant
            lo <= i <= hi <= v@.len(),
            r@ == v@.subrange(lo as int, i as int),
        decreases hi - i,
    {
        r.push(v[i]);
        assert(r@ =~= v@.subrange(lo as int, i + 1));
        i = i + 1;
    }
    r
}

proof fn lemma_digit_run(s: Seq<char>)
    ensures
        digit_run(s) <= s.len(),
        forall|x: int| 0 <= x < digit_run(s) ==> is_digit(#[trigger] s[x]),
        digit_run(s) < s.len() ==> !is_digit(s[digit_run(s) as int]),
    decreases s.len(),
{
    if s.len() > 0 && is_digit(s[0]) {
        lemma_digit_run(s.drop_first());
        assert forall|x: int| 0 <= x < digit_run(s) implies is_digit(#[trigger] s[x]) by {
            if x > 0 {
                assert(s[x] == s.drop_first()[x - 1]);
            }
        }
        if digit_run(s) < s.len() {
            assert(s[digit_run(s) as int] == s.drop_first()[digit_run(s.drop_first()) as int]);
        }
    }
}

/// Value of a digit run as `usize`, 0 when empty or too big.
fn parse_usize_or_zero(d: &Vec<char>) -> (r: usize)
    requires
        forall|x: int| 0 <= x < d@.len() ==> is_digit(#[trigger] d@[x]),
    ensures
        r == usize_or_zero(d@),
{
    if d.len() == 0 {
        return 0;
    }
    let mut acc: u128 = 0;
    let mut big = false;
    let n = d.len();
    for i in 0..n
        invariant
            n == d@.len(),
            forall|x: int| 0 <= x < d@.len() ==> is_digit(#[trigger] d@[x]),
            !big ==> acc == digits_val(d@.take(i as int)) && acc <= usize::MAX,
            big ==> digits_val(d@.take(i as int)) > usize::MAX,
            digits_val(d@.take(i as int)) >= 0,
    {
        let c = d[i];
        let dv = (c as u32 - '0' as u32) as u128;
        proof {
            assert(d@.take(i + 1).drop_last() =~= d@.take(i as int));
            assert(d@[i as int] == c);
        }
        if !big {
            let next = acc * 10 + dv;
            if next > usize::MAX as u128 {
                big = true;
            } else {
                acc = next;
            }
        }
    }
    assert(d@.take(n as int) =~= d@);
    if big {
        0
    } else {
        acc as usize
    }
}

/// `parse_insert_string_args`: reads `"text", index);` into (text, index);
/// the index is 0 where it does not parse.
pub fn parse_insert_string_args(args: &Vec<char>) -> (r: Option<(String, usize)>)
    ensures
        match r {
            Some(p) => insert_args(args@) == Some((p.0@, p.1)),
            None => insert_args(args@) is None,
        },
{
    if args.len() == 0 || args[0] != '"' {
        return None;
    }
    let rest = subvec(args, 1, args.len());
    assert(rest@ =~= args@.drop_first());
    let mut q: usize = 0;
    while q < rest.len() && rest[q] != '"'
        invariant
            q <= rest@.len(),
            first_quote(rest@, 0) == first_quote(rest@, q as nat),
        decreases rest@.len() - q,
    {
        q = q + 1;
    }
    if q == rest.len() {
        return None;
    }
    let text = string_from_range(&rest, 0, q);
    let after = subvec(&rest, q + 1, rest.len());
    assert(after@ =~= rest@.skip(q + 1));
    let k = skip_ws_start(&after);
    if k == after.len() || after[k] != ',' {
        return None;
    }
    let tail = subvec(&after, k + 1, after.len());
    assert(tail@ =~= trim_start(after@).drop_first());
    let (lo, hi) = trim_bounds(&tail);
    let t = subvec(&tail, lo, hi);
    let mut e: usize = 0;
    proof {
        lemma_digit_run(t@);
    }
    while e < t.len() && '0' <= t[e] && t[e] <= '9'
        invariant
            e <= digit_run(t@),
            digit_run(t@) <= t@.len(),
            forall|x: int| 0 <= x < digit_run(t@) ==> is_digit(#[trigger] t@[x]),
            digit_run(t@) < t@.len() ==> !is_digit(t@[digit_run(t@) as int]),
        decreases t@.len() - e,
    {
        e = e + 1;
    }
    let digits = subvec(&t, 0, e);
    assert(digits@ =~= t@.take(digit_run(t@) as int));
    let idx = parse_usize_or_zero(&digits);
    Some((text, idx))
}


pub open spec fn items_view(v: Seq<(usize, String)>) -> Seq<(usize, Seq<char>)> {
    v.map_values(|e: (usize, String)| (e.0, e.1@))
}

/// The (index, text) that one script line adds, if any.
fn line_item_of(line: &Vec<char>, prefix: &Vec<char>) -> (r: Option<(usize, String)>)
    ensures
        match r {
            Some(it) => line_item(line@, prefix@) == Some((it.0, it.1@)),
            None => line_item(line@, prefix@) is None,
        },
{
    let (lo, hi) = trim_bounds(line);
    let t = subvec(line, lo, hi);
    let k = prefix.len();
    if t.len() < k {
        return None;
    }
    let head = subvec(&t, 0, k);
    if !chars_eq(&head, prefix) {
        assert(head@ =~= t@.take(k as int));
        return None;
    }
    assert(head@ =~= t@.take(k as int));
    let args = subvec(&t, k, t.len());
    assert(args@ =~= t@.skip(k as int));
    match parse_insert_string_args(&args) {
        Some((text, idx)) => Some((idx, text)),
        None => None,
    }
}

/// Puts an item after every item whose index is not above its own.
fn insert_by_index(sorted: &mut Vec<(usize, String)>, item: (usize, String))
    ensures
        items_view(final(sorted)@) == items_view(old(sorted)@).insert(
            first_key_after(items_view(old(sorted)@), item.0) as int,
            (item.0, item.1@),
        ),
{
    let ghost sv = items_view(sorted@);
    proof {
        lemma_first_key_after(sv, item.0);
    }
    let mut j: usize = 0;
    while j < sorted.len() && sorted[j].0 <= item.0
        invariant
            sv == items_view(sorted@),
            j <= first_key_after(sv, item.0),
            first_key_after(sv, item.0) <= sv.len(),
            forall|x: int| 0 <= x < first_key_after(sv, item.0) ==> #[trigger] sv[x].0 <= item.0,
            first_key_after(sv, item.0) < sv.len() ==> sv[first_key_after(sv, item.0) as int].0 > item.0,
        decreases sorted@.len() - j,
    {
        proof {
            if j == first_key_after(sv, item.0) {
                assert(sv[j as int].0 == sorted@[j as int].0);
            }
        }
        j = j + 1;
    }
    proof {
        if j < first_key_after(sv, item.0) {
            assert(sv[j as int].0 == sorted@[j as int].0);
        }
    }
    let ghost it = (item.0, item.1@);
    sorted.insert(j, item);
    assert(items_view(sorted@) =~= sv.insert(j as int, it));
}

/// `extract_combobox_items_from_script`: the texts that the document script
/// inserts into combo box `control_name`, ordered by their index.
pub fn extract_combobox_items_from_script(
    extra_streams: &Vec<(String, Vec<u8>)>,
    control_name: &str,
) -> (r: Vec<String>)
    ensures
        r@.map_values(|s: String| s@) == combobox_items(extra_streams@, control_name@),
{
    let script = match decode_hwp_script(extra_streams) {
        Some(s) => s,
        None => {
            let r: Vec<String> = Vec::new();
            assert(r@.map_values(|s: String| s@) =~= combobox_items(extra_streams@, control_name@));
            return r;
        },
    };
    let sc = chars_of(script.as_str());
    let mut prefix = chars_of(control_name);
    let suffix = chars_of(".InsertString(");
    let ns = suffix.len();
    let ghost name = prefix@;
    for i in 0..ns
        invariant
            ns == suffix@.len(),
            suffix@ == ".InsertString("@,
            prefix@ == name + suffix@.take(i as int),
    {
        prefix.push(suffix[i]);
        assert(prefix@ =~= name + suffix@.take(i + 1));
    }
    assert(suffix@.take(ns as int) =~= suffix@);
    assert(prefix@ == insert_string_prefix(control_name@));
    let ghost pre = prefix@;
    let mut items: Vec<(usize, String)> = Vec::new();
    let mut cur: Vec<char> = Vec::new();
    let n = sc.len();
    for i in 0..n
        invariant
            n == sc@.len(),
            prefix@ == pre,
            cur@ == lines_upto(sc@, i as nat).1,
            items_view(items@) == collect_items(lines_upto(sc@, i as nat).0, pre),
    {
        let c = sc[i];
        let ghost prev = lines_upto(sc@, i as nat);
        if c == '\n' {
            if cur.len() > 0 && cur[cur.len() - 1] == '\r' {
                cur.pop();
            }
            assert(cur@ == strip_cr(prev.1));
            let ghost before = items@;
            match line_item_of(&cur, &prefix) {
                Some(it) => {
                    items.push(it);
                    assert(items_view(items@) =~= items_view(before).push((it.0, it.1@)));
                },
                None => {},
            }
            assert(prev.0.push(strip_cr(prev.1)).drop_last() =~= prev.0);
            cur = Vec::new();
        } else {
            cur.push(c);
        }
    }
    let ghost st = lines_upto(sc@, n as nat);
    if cur.len() > 0 {
        let ghost before = items@;
        match line_item_of(&cur, &prefix) {
            Some(it) => {
                items.push(it);
                assert(items_view(items@) =~= items_view(before).push((it.0, it.1@)));
            },
            None => {},
        }
        assert(st.0.push(st.1).drop_last() =~= st.0);
    }
    assert(items_view(items@) == collect_items(str_lines(sc@), pre));
    // Stable sort by index: each item goes after the earlier ones not above it.
    let ghost all = items_view(items@);
    let mut sorted: Vec<(usize, String)> = Vec::new();
    let mut rest = items;
    let m = rest.len();
    let mut k: usize = 0;
    while k < m
        invariant
            k <= m,
            m == all.len(),
            items_view(rest@) == all.skip(k as int),
            rest@.len() == m - k,
            items_view(sorted@) == stable_sort(all.take(k as int)),
        decreases m - k,
    {
        let ghost rv = items_view(rest@);
        assert(rv[0] == (rest@[0].0, rest@[0].1@));
        let item = rest.remove(0);
        assert(items_view(rest@) =~= rv.drop_first());
        assert((item.0, item.1@) == all[k as int]);
        insert_by_index(&mut sorted, item);
        k = k + 1;
        assert(all.take(k as int).drop_last() =~= all.take(k - 1));
        assert(all.skip(k as int) =~= all.skip(k - 1).drop_first());
    }
    assert(all.take(m as int) =~= all);
    proof {
        lemma_stable_sort_len(all);
    }
    let ghost sv = items_view(sorted@);
    let mut out: Vec<String> = Vec::new();
    let mut srest = sorted;
    let mut j: usize = 0;
    while j < m
        invariant
            j <= m,
            sv.len() == m,
            items_view(srest@) == sv.skip(j as int),
            srest@.len() == m - j,
            out@.map_values(|s: String| s@) == sv.take(j as int).map_values(|e: (usize, Seq<char>)| e.1),
        decreases m - j,
    {
        let ghost rv = items_view(srest@);
        assert(rv[0] == (srest@[0].0, srest@[0].1@));
        let item = srest.remove(0);
        assert(items_view(srest@) =~= rv.drop_first());
        assert((item.0, item.1@) == sv[j as int]);
        let ghost before = out@;
        out.push(item.1);
        j = j + 1;
        assert(out@.map_values(|s: String| s@) =~= before.map_values(|s: String| s@).push(sv[j - 1].1));
        assert(sv.take(j as int).map_values(|e: (usize, Seq<char>)| e.1) =~= sv.take(j - 1).map_values(
            |e: (usize, Seq<char>)| e.1,
        ).push(sv[j - 1].1));
    }
    assert(sv.take(m as int) =~= sv);
    out
}

/// The combo box items come out ordered by their index; items with the
/// same index keep the order in which the script adds them.
pub proof fn law_items_sorted_by_index(items: Seq<(usize, Seq<char>)>)
    ensures
        forall|i: int, j: int|
            0 <= i <= j < stable_sort(items).len() ==> stable_sort(items)[i].0 <= stable_sort(items)[j].0,
    decreases items.len(),
{
    if items.len() > 0 {
        law_items_sorted_by_index(items.drop_last());
        let s = stable_sort(items.drop_last());
        let e = items.last();
        let p = first_key_after(s, e.0);
        lemma_first_key_after(s, e.0);
        let r = stable_sort(items);
        assert(r == s.insert(p as int, e));
        assert forall|i: int, j: int| 0 <= i <= j < r.len() implies r[i].0 <= r[j].0 by {
            if j < p {
                assert(r[i] == s[i] && r[j] == s[j]);
            } else if j == p {
                if i < p {
                    assert(r[i] == s[i]);
                }
            } else {
                assert(r[j] == s[j - 1]);
                assert(s[p as int].0 > e.0);
                assert(s[p as int].0 <= s[j - 1].0);
                if i < p {
                    assert(r[i] == s[i]);
                } else if i > p {
                    assert(r[i] == s[i - 1]);
                }
            }
        }
    }
}

} // verus!
