//! Where a paragraph's controls sit in its text, and the per-character UTF-16
//! offsets that encode it: each control takes eight units before the
//! character it precedes; a tab takes eight, every other character its UTF-16
//! length (newline and no-break space one).
use vstd::prelude::*;
use crate::model::Paragraph;
use crate::text::chars_of;

verus! {

/// UTF-16 units that a character takes in the offsets.
pub open spec fn csize(c: char) -> nat {
    if c == '\t' {
        8
    } else if c == '\n' || c == '\u{00A0}' {
        1
    } else if (c as u32) > 0xFFFF {
        2
    } else {
        1
    }
}

pub fn char_size(c: char) -> (n: u32)
    ensures
        n == csize(c),
{
    if c == '\t' {
        8
    } else if c == '\n' || c == '\u{00A0}' {
        1
    } else if (c as u32) > 0xFFFF {
        2
    } else {
        1
    }
}

/// How many of the positions fall on character `k` once clamped to `n`.
pub open spec fn cnt(p: Seq<usize>, k: int, n: int) -> nat
    decreases p.len(),
{
    if p.len() == 0 {
        0
    } else {
        cnt(p.drop_last(), k, n) + (if clamp(p.last() as int, n) == k { 1nat } else { 0nat })
    }
}

pub open spec fn clamp(x: int, n: int) -> int {
    if x < n { x } else { n }
}

/// How many positions fall on characters `0..=i` once clamped to `n`.
pub open spec fn cnt_le(p: Seq<usize>, i: int, n: int) -> nat
    decreases p.len(),
{
    if p.len() == 0 {
        0
    } else {
        cnt_le(p.drop_last(), i, n) + (if clamp(p.last() as int, n) <= i { 1nat } else { 0nat })
    }
}

/// The offset of character `i` when the controls sit at `p`.
pub open spec fn off(t: Seq<char>, p: Seq<usize>, i: nat) -> int
    decreases i,
{
    if i == 0 {
        (8 * cnt(p, 0, t.len() as int)) as int
    } else {
        off(t, p, (i - 1) as nat) + csize(t[i - 1]) + 8 * cnt(p, i as int, t.len() as int)
    }
}

/// The offsets that `rebuild_offsets_from_control_positions` writes.
pub open spec fn rebuilt_offsets(t: Seq<char>, p: Seq<usize>) -> Seq<u32> {
    if t.len() == 0 {
        Seq::empty()
    } else {
        Seq::new(t.len(), |i: int| off(t, p, i as nat) as u32)
    }
}

/// Where the offsets run up to when the controls sit at `p`: the end of the
/// last character (0 for an empty text).
pub open spec fn offsets_end(t: Seq<char>, p: Seq<usize>) -> int {
    if t.len() == 0 {
        0
    } else {
        off(t, p, (t.len() - 1) as nat) + csize(t[t.len() - 1])
    }
}

/// The offsets for controls at `p` stay within 32 bits.
pub open spec fn offsets_in_range(t: Seq<char>, p: Seq<usize>) -> bool {
    offsets_end(t, p) <= 0xFFFF_FFFF
}

/// Each character ends at or before the end of the offsets.
pub proof fn lemma_off_le_end(t: Seq<char>, p: Seq<usize>, i: nat)
    requires
        i < t.len(),
    ensures
        0 <= off(t, p, i),
        off(t, p, i) + csize(t[i as int]) <= offsets_end(t, p),
        8 * cnt(p, i as int, t.len() as int) <= off(t, p, i),
    decreases t.len() - i,
{
    lemma_off_bound(t, p, i);
    if i > 0 {
        lemma_off_bound(t, p, (i - 1) as nat);
    }
    if i + 1 < t.len() {
        lemma_off_le_end(t, p, i + 1);
    }
}

/// The offsets run at least one unit per character.
pub proof fn lemma_end_ge_len(t: Seq<char>, p: Seq<usize>)
    ensures
        offsets_end(t, p) >= t.len(),
{
    if t.len() > 0 {
        lemma_off_ge(t, p, (t.len() - 1) as nat);
    }
}

proof fn lemma_off_ge(t: Seq<char>, p: Seq<usize>, i: nat)
    requires
        i < t.len(),
    ensures
        off(t, p, i) >= i,
    decreases i,
{
    if i > 0 {
        lemma_off_ge(t, p, (i - 1) as nat);
    }
}

proof fn lemma_cnt_concat(a: Seq<usize>, b: Seq<usize>, k: int, n: int)
    ensures
        cnt(a + b, k, n) == cnt(a, k, n) + cnt(b, k, n),
    decreases b.len(),
{
    if b.len() == 0 {
        assert(a + b =~= a);
    } else {
        assert((a + b).drop_last() =~= a + b.drop_last());
        lemma_cnt_concat(a, b.drop_last(), k, n);
    }
}

/// One more control never lowers a character's offset.
proof fn lemma_off_insert(t: Seq<char>, p: Seq<usize>, j: int, c: usize, i: nat)
    requires
        0 <= j <= p.len(),
    ensures
        off(t, p, i) <= off(t, p.insert(j, c), i),
    decreases i,
{
    let q = p.insert(j, c);
    let n = t.len() as int;
    assert(q =~= p.take(j) + seq![c] + p.skip(j));
    assert(p =~= p.take(j) + p.skip(j));
    lemma_cnt_concat(p.take(j), p.skip(j), i as int, n);
    lemma_cnt_concat(p.take(j) + seq![c], p.skip(j), i as int, n);
    lemma_cnt_concat(p.take(j), seq![c], i as int, n);
    if i > 0 {
        lemma_off_insert(t, p, j, c, (i - 1) as nat);
    }
}

/// Taking one control out never raises where the offsets run up to.
pub proof fn lemma_end_insert(t: Seq<char>, p: Seq<usize>, j: int, c: usize)
    requires
        0 <= j <= p.len(),
    ensures
        offsets_end(t, p) <= offsets_end(t, p.insert(j, c)),
{
    if t.len() > 0 {
        lemma_off_insert(t, p, j, c, (t.len() - 1) as nat);
    }
}

pub proof fn lemma_cnt_le_step(p: Seq<usize>, i: int, n: int)
    requires
        i >= 0,
    ensures
        cnt_le(p, i + 1, n) == cnt_le(p, i, n) + cnt(p, i + 1, n),
        cnt_le(p, 0, n) == cnt(p, 0, n) + cnt_le_neg(p, n),
    decreases p.len(),
{
    if p.len() > 0 {
        lemma_cnt_le_step(p.drop_last(), i, n);
    }
}

/// Positions that clamp below zero (there are none for `n >= 0`).
pub open spec fn cnt_le_neg(p: Seq<usize>, n: int) -> nat
    decreases p.len(),
{
    if p.len() == 0 {
        0
    } else {
        cnt_le_neg(p.drop_last(), n) + (if clamp(p.last() as int, n) < 0 { 1nat } else { 0nat })
    }
}

pub proof fn lemma_cnt_le_neg_zero(p: Seq<usize>, n: int)
    requires
        n >= 0,
    ensures
        cnt_le_neg(p, n) == 0,
    decreases p.len(),
{
    if p.len() > 0 {
        lemma_cnt_le_neg_zero(p.drop_last(), n);
    }
}

pub proof fn lemma_cnt_le_bound(p: Seq<usize>, i: int, n: int)
    ensures
        cnt_le(p, i, n) <= p.len(),
        cnt(p, i, n) <= p.len(),
    decreases p.len(),
{
    if p.len() > 0 {
        lemma_cnt_le_bound(p.drop_last(), i, n);
    }
}

pub proof fn lemma_off_bound(t: Seq<char>, p: Seq<usize>, i: nat)
    ensures
        off(t, p, i) <= 8 * cnt_le(p, i as int, t.len() as int) + 8 * i,
        off(t, p, i) >= 0,
    decreases i,
{
    lemma_cnt_le_neg_zero(p, t.len() as int);
    lemma_cnt_le_step(p, 0, t.len() as int);
    if i > 0 {
        lemma_off_bound(t, p, (i - 1) as nat);
        lemma_cnt_le_step(p, i - 1, t.len() as int);
    }
}

proof fn lemma_cnt_take(p: Seq<usize>, j: int, k: int, n: int)
    requires
        0 <= j < p.len(),
    ensures
        cnt(p.take(j + 1), k, n) == cnt(p.take(j), k, n) + (if clamp(p[j] as int, n) == k {
            1nat
        } else {
            0nat
        }),
{
    assert(p.take(j + 1).drop_last() =~= p.take(j));
}

/// Rewrites the paragraph's character offsets so that its controls sit at
/// `positions` (each clamped to the text length); an empty text gets no
/// offsets.
pub fn rebuild_offsets_from_control_positions(para: &mut Paragraph, positions: &Vec<usize>)
    requires
        offsets_in_range(old(para).text@, positions@),
    ensures
        final(para).char_offsets@ == rebuilt_offsets(old(para).text@, positions@),
        final(para).text == old(para).text,
        final(para).controls == old(para).controls,
        final(para).char_shapes == old(para).char_shapes,
        final(para).line_segs == old(para).line_segs,
        final(para).para_shape_id == old(para).para_shape_id,
        final(para).field_ranges == old(para).field_ranges,
        final(para).ctrl_data_records == old(para).ctrl_data_records,
{
    let text_chars = chars_of(para.text.as_str());
    let text_len = text_chars.len();
    let ghost t = text_chars@;
    let ghost p = positions@;
    if text_len == 0 {
        para.char_offsets = Vec::new();
        return;
    }
    proof {
        lemma_end_ge_len(t, p);
    }
    let mut controls_at: Vec<usize> = Vec::new();
    let mut k: usize = 0;
    while k < text_len
        invariant
            k <= text_len,
            text_len == t.len(),
            controls_at@.len() == k,
            forall|j: int| 0 <= j < k ==> controls_at@[j] == 0,
        decreases text_len - k,
    {
        controls_at.push(0);
        k = k + 1;
    }
    let np = positions.len();
    for j in 0..np
        invariant
            np == p.len(),
            p == positions@,
            text_len == t.len(),
            controls_at@.len() == text_len,
            forall|x: int|
                0 <= x < text_len ==> #[trigger] controls_at@[x] == cnt(
                    p.take(j as int),
                    x,
                    text_len as int,
                ),
    {
        // a control at or past the end of the text precedes no character
        let pos = positions[j];
        proof {
            lemma_cnt_le_bound(p.take(j as int), pos as int, text_len as int);
            assert forall|x: int| 0 <= x < text_len implies cnt(p.take(j + 1), x, text_len as int)
                == cnt(p.take(j as int), x, text_len as int) + (if clamp(p[j as int] as int, text_len as int) == x {
                1nat
            } else {
                0nat
            }) by {
                lemma_cnt_take(p, j as int, x, text_len as int);
            }
        }
        if pos < text_len {
            let c = controls_at[pos];
            controls_at.set(pos, c + 1);
        }
    }
    assert(p.take(np as int) =~= p);
    let mut offset: u32 = 0;
    let mut new_offsets: Vec<u32> = Vec::new();
    for i in 0..text_len
        invariant
            text_len == t.len(),
            t == para.text@,
            t.len() > 0,
            p == positions@,
            offsets_in_range(t, p),
            controls_at@.len() == text_len,
            forall|x: int|
                0 <= x < text_len ==> #[trigger] controls_at@[x] == cnt(p, x, text_len as int),
            text_chars@ == t,
            offset as int == (if i == 0 { 0 } else { off(t, p, (i - 1) as nat) + csize(t[i - 1]) }),
            new_offsets@.len() == i,
            forall|x: int| 0 <= x < i ==> #[trigger] new_offsets@[x] == off(t, p, x as nat) as u32,
    {
        proof {
            lemma_off_le_end(t, p, i as nat);
            if i > 0 {
                lemma_off_le_end(t, p, (i - 1) as nat);
            }
        }
        let here = controls_at[i];
        offset = offset + (here as u32) * 8;
        new_offsets.push(offset);
        let ch = text_chars[i];
        offset = offset + char_size(ch);
    }
    proof {
        assert(new_offsets@ =~= rebuilt_offsets(t, p));
    }
    para.char_offsets = new_offsets;
}


/// Where character `i` would start if no control stood before it: right after
/// character `i - 1`.
pub open spec fn prev_end(t: Seq<char>, o: Seq<u32>, i: int) -> int {
    if i == 0 {
        0
    } else {
        o[i - 1] + csize(t[i - 1])
    }
}

/// How many controls the offsets place just before character `i`.
pub open spec fn gap(t: Seq<char>, o: Seq<u32>, i: int) -> nat {
    if o[i] >= prev_end(t, o, i) {
        ((o[i] - prev_end(t, o, i)) / 8) as nat
    } else {
        0
    }
}

/// Positions read off the offsets of characters `0..i`, at most `m` of them.
pub open spec fn found(t: Seq<char>, o: Seq<u32>, m: nat, i: nat) -> Seq<usize>
    decreases i,
{
    if i == 0 {
        Seq::empty()
    } else {
        let f = found(t, o, m, (i - 1) as nat);
        let room: nat = if f.len() < m { (m - f.len()) as nat } else { 0 };
        let k: nat = if gap(t, o, i - 1) < room { gap(t, o, i - 1) } else { room };
        f + Seq::new(k, |x: int| (i - 1) as usize)
    }
}

/// The text position of each of the `m` controls: those the offsets show,
/// then the rest at the end of the text.
pub open spec fn control_positions(t: Seq<char>, o: Seq<u32>, m: nat) -> Seq<usize> {
    let lim: nat = if t.len() < o.len() { t.len() } else { o.len() };
    let f = found(t, o, m, lim);
    f + Seq::new((m - f.len()) as nat, |x: int| t.len() as usize)
}

/// The control positions of a paragraph.
pub open spec fn para_positions(p: Paragraph) -> Seq<usize> {
    control_positions(p.text@, p.char_offsets@, p.controls@.len())
}

pub proof fn lemma_found_len(t: Seq<char>, o: Seq<u32>, m: nat, i: nat)
    ensures
        found(t, o, m, i).len() <= m,
        forall|x: int| 0 <= x < found(t, o, m, i).len() ==> #[trigger] found(t, o, m, i)[x] < i,
    decreases i,
{
    if i > 0 {
        lemma_found_len(t, o, m, (i - 1) as nat);
        let f = found(t, o, m, (i - 1) as nat);
        let r = found(t, o, m, i);
        assert forall|x: int| 0 <= x < r.len() implies #[trigger] r[x] < i by {
            if x < f.len() {
                assert(r[x] == f[x]);
            }
        }
    }
}

/// The positions of the controls that the character offsets show.
fn read_positions(para: &Paragraph) -> (r: Vec<usize>)
    ensures
        r@ == found(
            para.text@,
            para.char_offsets@,
            para.controls@.len(),
            if para.text@.len() < para.char_offsets@.len() {
                para.text@.len()
            } else {
                para.char_offsets@.len()
            },
        ),
{
    let t = chars_of(para.text.as_str());
    let m = para.controls.len();
    let lim = if t.len() < para.char_offsets.len() { t.len() } else { para.char_offsets.len() };
    let ghost o = para.char_offsets@;
    let mut r: Vec<usize> = Vec::new();
    let mut prev: u64 = 0;
    for i in 0..lim
        invariant
            lim <= t@.len(),
            lim <= o.len(),
            t@ == para.text@,
            o == para.char_offsets@,
            m == para.controls@.len(),
            prev as int == prev_end(t@, o, i as int),
            r@ == found(t@, o, m as nat, i as nat),
            r@.len() <= m,
    {
        let here = para.char_offsets[i] as u64;
        let g: u64 = if here >= prev { (here - prev) / 8 } else { 0 };
        let room: u64 = (m - r.len()) as u64;
        let k: u64 = if g < room { g } else { room };
        let ghost before = r@;
        let mut j: u64 = 0;
        while j < k
            invariant
                j <= k,
                k <= room,
                room == m - before.len(),
                before.len() <= m,
                r@ == before + Seq::new(j as nat, |x: int| i as usize),
            decreases k - j,
        {
            r.push(i);
            assert(r@ =~= before + Seq::new((j + 1) as nat, |x: int| i as usize));
            j = j + 1;
        }
        proof {
            lemma_found_len(t@, o, m as nat, i as nat);
            assert(r@ =~= found(t@, o, m as nat, (i + 1) as nat));
            lemma_found_len(t@, o, m as nat, (i + 1) as nat);
        }
        let c = t[i];
        prev = here + char_size(c) as u64;
    }
    r
}

/// The position in the text of each control of the paragraph, read off its
/// character offsets; controls that the offsets do not show stand at the
/// end of the text.
pub fn find_control_text_positions(para: &Paragraph) -> (r: Vec<usize>)
    ensures
        r@ == para_positions(*para),
        r@.len() == para.controls@.len(),
{
    let mut r = read_positions(para);
    let t = chars_of(para.text.as_str());
    let m = para.controls.len();
    let ghost start = r@;
    proof {
        let lim: nat = if para.text@.len() < para.char_offsets@.len() {
            para.text@.len()
        } else {
            para.char_offsets@.len()
        };
        lemma_found_len(para.text@, para.char_offsets@, para.controls@.len(), lim);
    }
    while r.len() < m
        invariant
            m == para.controls@.len(),
            t@ == para.text@,
            start.len() <= r@.len() <= m,
            r@ == start + Seq::new((r@.len() - start.len()) as nat, |x: int| t@.len() as usize),
        decreases m - r@.len(),
    {
        r.push(t.len());
        assert(r@ =~= start + Seq::new((r@.len() - start.len()) as nat, |x: int| t@.len() as usize));
    }
    r
}

/// The positions never decrease.
pub open spec fn sorted(p: Seq<usize>) -> bool {
    forall|i: int, j: int| 0 <= i <= j < p.len() ==> p[i] <= p[j]
}

/// Every position lies within the text.
pub open spec fn within(p: Seq<usize>, n: nat) -> bool {
    forall|i: int| 0 <= i < p.len() ==> #[trigger] p[i] <= n
}

/// The first index from `j` on whose position is at least `v`.
pub open spec fn first_ge(p: Seq<usize>, v: int, j: nat) -> nat
    decreases p.len() - j,
{
    if j >= p.len() || p[j as int] >= v {
        j
    } else {
        first_ge(p, v, j + 1)
    }
}

proof fn lemma_first_ge(p: Seq<usize>, v: int, j: nat)
    requires
        sorted(p),
        j <= p.len(),
        forall|x: int| 0 <= x < j ==> #[trigger] p[x] < v,
    ensures
        j <= first_ge(p, v, j) <= p.len(),
        forall|x: int| 0 <= x < first_ge(p, v, j) ==> #[trigger] p[x] < v,
        forall|x: int| first_ge(p, v, j) <= x < p.len() ==> #[trigger] p[x] >= v,
    decreases p.len() - j,
{
    if j < p.len() && p[j as int] < v {
        lemma_first_ge(p, v, j + 1);
    } else if j < p.len() {
        assert forall|x: int| j <= x < p.len() implies #[trigger] p[x] >= v by {
            assert(p[j as int] <= p[x]);
        }
    }
}

/// Counting the positions of a prefix that clamp to `v`.
proof fn lemma_cnt_block(p: Seq<usize>, v: int, n: int, k: nat, b: nat, e: nat)
    requires
        sorted(p),
        within(p, n as nat),
        n >= 0,
        k <= p.len(),
        b <= e <= p.len(),
        forall|x: int| 0 <= x < b ==> #[trigger] p[x] < v,
        forall|x: int| b <= x < e ==> #[trigger] p[x] == v,
        forall|x: int| e <= x < p.len() ==> #[trigger] p[x] > v,
    ensures
        cnt(p.take(k as int), v, n) == (if k <= b { 0 } else if k <= e { k - b } else { e - b }),
    decreases k,
{
    if k > 0 {
        lemma_cnt_block(p, v, n, (k - 1) as nat, b, e);
        assert(p.take(k as int).drop_last() =~= p.take((k - 1) as int));
        assert(p.take(k as int).last() == p[k - 1]);
        assert(clamp(p[k - 1] as int, n) == p[k - 1]);
    }
}

proof fn lemma_found_prefix(t: Seq<char>, p: Seq<usize>, i: nat)
    requires
        t.len() > 0,
        sorted(p),
        within(p, t.len()),
        offsets_in_range(t, p),
        i <= t.len(),
    ensures
        found(t, rebuilt_offsets(t, p), p.len(), i) == p.take(first_ge(p, i as int, 0) as int),
    decreases i,
{
    let n = t.len() as int;
    let o = rebuilt_offsets(t, p);
    lemma_first_ge(p, i as int, 0);
    if i == 0 {
        assert(p.take(first_ge(p, 0, 0) as int) =~= Seq::<usize>::empty());
    } else {
        let v = (i - 1) as int;
        lemma_found_prefix(t, p, (i - 1) as nat);
        lemma_first_ge(p, v, 0);
        let b = first_ge(p, v, 0);
        let e = first_ge(p, i as int, 0);
        assert forall|x: int| b <= x < e implies #[trigger] p[x] == v by {
            assert(p[x] >= v);
            assert(p[x] < i);
        }
        assert forall|x: int| e <= x < p.len() implies #[trigger] p[x] > v by {
            assert(p[x] >= i);
        }
        assert(b <= e) by {
            if e < b {
                assert(p[e as int] >= i);
                assert(p[e as int] < v);
            }
        }
        lemma_cnt_block(p, v, n, p.len(), b, e);
        assert(p.take(p.len() as int) =~= p);
        // the offset of character i - 1 and the gap before it
        lemma_off_le_end(t, p, (i - 1) as nat);
        lemma_end_ge_len(t, p);
        assert(o[v] == off(t, p, (i - 1) as nat));
        if i >= 2 {
            lemma_off_le_end(t, p, (i - 2) as nat);
            assert(o[v - 1] == off(t, p, (i - 2) as nat));
        }
        assert(gap(t, o, v) == e - b);
        let f = found(t, o, p.len(), (i - 1) as nat);
        assert(f == p.take(b as int));
        assert(found(t, o, p.len(), i) =~= p.take(e as int));
    }
}

/// The positions read off offsets rebuilt from sorted positions within the
/// text are those positions.
pub proof fn law_positions_roundtrip(t: Seq<char>, p: Seq<usize>)
    requires
        sorted(p),
        within(p, t.len()),
        offsets_in_range(t, p),
    ensures
        control_positions(t, rebuilt_offsets(t, p), p.len()) == p,
{
    let o = rebuilt_offsets(t, p);
    if t.len() == 0 {
        assert(found(t, o, p.len(), 0) =~= Seq::<usize>::empty());
        assert(control_positions(t, o, p.len()) =~= p);
    } else {
        lemma_end_ge_len(t, p);
        lemma_found_prefix(t, p, t.len());
        lemma_first_ge(p, t.len() as int, 0);
        let b = first_ge(p, t.len() as int, 0);
        assert forall|x: int| b <= x < p.len() implies #[trigger] p[x] == t.len() by {
            assert(p[x] >= t.len());
        }
        assert(control_positions(t, o, p.len()) =~= p);
    }
}

proof fn lemma_found_sorted(t: Seq<char>, o: Seq<u32>, m: nat, i: nat)
    requires
        i <= usize::MAX,
    ensures
        sorted(found(t, o, m, i)),
    decreases i,
{
    if i > 0 {
        let i1 = (i - 1) as nat;
        lemma_found_sorted(t, o, m, i1);
        lemma_found_len(t, o, m, i1);
        let f = found(t, o, m, i1);
        let r = found(t, o, m, i);
        let room: nat = if f.len() < m { (m - f.len()) as nat } else { 0 };
        let k: nat = if gap(t, o, i - 1) < room { gap(t, o, i - 1) } else { room };
        let tail = Seq::new(k, |x: int| (i - 1) as usize);
        assert(r == f + tail);
        assert forall|a: int, b: int| 0 <= a <= b < r.len() implies r[a] <= r[b] by {
            if a < f.len() {
                assert(r[a] == f[a]);
                assert(f[a] < i1);
                if b < f.len() {
                    assert(r[b] == f[b]);
                    assert(f[a] <= f[b]);
                } else {
                    assert(r[b] == tail[b - f.len()]);
                }
            } else {
                assert(r[a] == tail[a - f.len()]);
                assert(r[b] == tail[b - f.len()]);
            }
        }
    }
}

/// A paragraph has one control position per control.
pub proof fn lemma_para_positions_len(p: Paragraph)
    ensures
        para_positions(p).len() == p.controls@.len(),
{
    let t = p.text@;
    let o = p.char_offsets@;
    let lim: nat = if t.len() < o.len() { t.len() } else { o.len() };
    lemma_found_len(t, o, p.controls@.len(), lim);
}

/// The control positions of any paragraph never decrease and lie within
/// its text.
pub proof fn law_para_positions_sorted(p: Paragraph)
    requires
        p.text@.len() <= usize::MAX,
    ensures
        sorted(para_positions(p)),
        within(para_positions(p), p.text@.len()),
        para_positions(p).len() == p.controls@.len(),
{
    let t = p.text@;
    let o = p.char_offsets@;
    let m = p.controls@.len();
    let lim: nat = if t.len() < o.len() { t.len() } else { o.len() };
    let f = found(t, o, m, lim);
    lemma_found_sorted(t, o, m, lim);
    lemma_found_len(t, o, m, lim);
    let r = para_positions(p);
    let tail = Seq::new((m - f.len()) as nat, |x: int| t.len() as usize);
    assert(r == f + tail);
    assert forall|a: int, b: int| 0 <= a <= b < r.len() implies r[a] <= r[b] by {
        if a < f.len() {
            assert(r[a] == f[a]);
            assert(f[a] < lim);
            if b < f.len() {
                assert(r[b] == f[b]);
                assert(f[a] <= f[b]);
            } else {
                assert(r[b] == tail[b - f.len()]);
            }
        } else {
            assert(r[a] == tail[a - f.len()]);
            assert(r[b] == tail[b - f.len()]);
        }
    }
    assert forall|a: int| 0 <= a < r.len() implies #[trigger] r[a] <= t.len() by {
        if a < f.len() {
            assert(r[a] == f[a]);
        } else {
            assert(r[a] == tail[a - f.len()]);
        }
    }
}

} // verus!
