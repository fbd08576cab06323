//! Traces that character shapes leave: a coloured placeholder shape carried
//! into the body text, and the tail of a paragraph left at an old size.
//! Both are judged by proportion; white space and control characters are
//! not counted, nor characters without a known shape.
use vstd::prelude::*;
use crate::collect::{all_paragraphs, located_view};
use crate::decimal::{fixed1, fixed1_hundredths, push_fixed1, push_fixed1_hundredths};
use crate::lint_base::{findings_view, lemma_findings_push, Finding, FindingView, Level, LintScan};
use crate::lint_cells::join_locs;
use crate::text::join;
use crate::lint_style::{css_color, css_color_exec};
use crate::model::{CharShape, DocumentCore, Paragraph};
use crate::num::{dec, push_dec};
use crate::text::is_ws;

verus! {

/// A control character (general category Cc).
pub open spec fn is_control(c: char) -> bool {
    (c as u32) <= 0x1f || (0x7f <= (c as u32) && (c as u32) <= 0x9f)
}

/// Each channel of the colour is at most 0x40: black or close to it.
pub open spec fn blackish(color: u32) -> bool {
    color % 256 <= 0x40 && (color / 256) % 256 <= 0x40 && (color / 65536) % 256 <= 0x40
}

/// The shape id in force at position `pos`: that of the last reference
/// from `j` on that starts at or before `pos` (the references are read in
/// order, up to the first one that starts after `pos`).
pub open spec fn shape_from(p: Paragraph, pos: nat, j: nat, acc: Option<u32>) -> Option<u32>
    decreases p.char_shapes@.len() - j,
{
    if j >= p.char_shapes@.len() || p.char_shapes@[j as int].start_pos > pos {
        acc
    } else {
        shape_from(p, pos, j + 1, Some(p.char_shapes@[j as int].char_shape_id))
    }
}

/// The shape id of the `i`-th character: found at its stored offset, or
/// at `i` where no offset is stored.
pub open spec fn char_shape_id_at(p: Paragraph, i: nat) -> Option<u32> {
    let pos = if i < p.char_offsets@.len() { p.char_offsets@[i as int] as nat } else { i };
    shape_from(p, pos, 0, None)
}

/// The shapes of the visible characters among the first `k` of `p` that
/// have a known shape.
pub open spec fn visible(d: DocumentCore, p: Paragraph, k: nat) -> Seq<CharShape>
    decreases k,
{
    if k == 0 || k > p.text@.len() {
        Seq::empty()
    } else {
        let c = p.text@[k - 1];
        let shapes = d.document.doc_info.char_shapes@;
        visible(d, p, (k - 1) as nat) + if is_ws(c) || is_control(c) {
            Seq::empty()
        } else {
            match char_shape_id_at(p, (k - 1) as nat) {
                Some(id) => if id < shapes.len() {
                    seq![shapes[id as int]]
                } else {
                    Seq::empty()
                },
                None => Seq::empty(),
            }
        }
    }
}

/// How many of the first `k` characters of `p` are neither white space nor
/// control characters.
pub open spec fn visible_count(p: Paragraph, k: nat) -> nat
    decreases k,
{
    if k == 0 || k > p.text@.len() {
        0
    } else {
        let c = p.text@[k - 1];
        visible_count(p, (k - 1) as nat) + if is_ws(c) || is_control(c) { 0nat } else { 1nat }
    }
}

pub open spec fn shapes_of(d: DocumentCore, p: Paragraph) -> Seq<CharShape> {
    visible(d, p, p.text@.len())
}

/// How many of the first `k` shapes are coloured.
pub open spec fn colored_count(v: Seq<CharShape>, k: nat) -> nat
    decreases k,
{
    if k == 0 {
        0
    } else {
        colored_count(v, (k - 1) as nat) + if blackish(v[k - 1].text_color) { 0nat } else { 1nat }
    }
}

/// The position of `x` among the keys of a tally.
pub open spec fn key_index<A>(t: Seq<(A, nat)>, x: A, j: nat) -> Option<nat>
    decreases t.len() - j,
{
    if j >= t.len() {
        None
    } else if t[j as int].0 == x {
        Some(j)
    } else {
        key_index(t, x, j + 1)
    }
}

/// The tally with one more `x`: its count raised, or a new entry at the end.
pub open spec fn tally_add<A>(t: Seq<(A, nat)>, x: A) -> Seq<(A, nat)> {
    match key_index(t, x, 0) {
        Some(j) => t.update(j as int, (x, t[j as int].1 + 1)),
        None => t.push((x, 1)),
    }
}

/// Each distinct value of the first `k` and how often it occurs, in the
/// order of first occurrence.
pub open spec fn tally<A>(xs: Seq<A>, k: nat) -> Seq<(A, nat)>
    decreases k,
{
    if k == 0 {
        Seq::empty()
    } else {
        tally_add(tally(xs, (k - 1) as nat), xs[k - 1])
    }
}

/// The sizes of the shapes and how many characters have each.
pub open spec fn sizes_of(v: Seq<CharShape>) -> Seq<(i32, nat)> {
    tally(v.map_values(|s: CharShape| s.base_size), v.len())
}

/// The most common size among the first `k` entries; ties go to the larger.
pub open spec fn dominant(t: Seq<(i32, nat)>, k: nat) -> (i32, nat)
    decreases k,
{
    if k <= 1 {
        t[0]
    } else {
        let b = dominant(t, (k - 1) as nat);
        let e = t[k - 1];
        if e.1 > b.1 || (e.1 == b.1 && e.0 > b.0) {
            e
        } else {
            b
        }
    }
}

/// The entries other than size `s`, in order.
pub open spec fn others(t: Seq<(i32, nat)>, s: i32, k: nat) -> Seq<(i32, nat)>
    decreases k,
{
    if k == 0 {
        Seq::empty()
    } else {
        others(t, s, (k - 1) as nat) + if t[k - 1].0 == s {
            Seq::empty()
        } else {
            seq![t[k - 1]]
        }
    }
}

/// The first position in `order` whose count is below `c`.
pub open spec fn first_below(order: Seq<nat>, counts: Seq<nat>, c: nat, j: nat) -> nat
    decreases order.len() - j,
{
    if j >= order.len() {
        order.len()
    } else if counts[order[j as int] as int] < c {
        j
    } else {
        first_below(order, counts, c, j + 1)
    }
}

/// The indices of the first `k` counts, most first; equal counts keep
/// their order (a stable sort).
pub open spec fn order_desc(counts: Seq<nat>, k: nat) -> Seq<nat>
    decreases k,
{
    if k == 0 {
        Seq::empty()
    } else {
        let o = order_desc(counts, (k - 1) as nat);
        o.insert(first_below(o, counts, counts[k - 1], 0) as int, (k - 1) as nat)
    }
}

pub open spec fn counts_of<A>(t: Seq<(A, nat)>) -> Seq<nat> {
    t.map_values(|e: (A, nat)| e.1)
}

/// The entries of a tally, most common first (stable).
pub open spec fn by_count<A>(t: Seq<(A, nat)>) -> Seq<(A, nat)> {
    order_desc(counts_of(t), t.len()).map_values(|i: nat| t[i as int])
}

/// `{:.1}pt {n}자({:.1}%)` for a minority size.
pub open spec fn size_text(e: (i32, nat), total: nat) -> Seq<char> {
    fixed1_hundredths(e.0 as int) + "pt "@ + dec(e.1) + "자("@ + fixed1(e.1 * 100, total) + "%)"@
}

/// The size warning of a paragraph: at least 10 counted characters in at
/// least two sizes, and the characters not in the most common size are
/// fewer than a fifth of them.
pub open spec fn size_finding(loc: Seq<char>, v: Seq<CharShape>) -> Seq<FindingView> {
    let total = v.len();
    let sizes = sizes_of(v);
    if total < 10 || sizes.len() < 2 {
        Seq::empty()
    } else {
        let dom = dominant(sizes, sizes.len());
        let minority = total - dom.1;
        if minority > 0 && 5 * minority < total {
            let rest = by_count(others(sizes, dom.0, sizes.len()));
            seq![FindingView {
                level: Level::Warn,
                code: "char-size-mixed"@,
                location: loc,
                message: "문단 "@ + dec(total) + "자 중 대부분은 "@ + fixed1_hundredths(dom.0 as int) + "pt("@ + dec(dom.1)
                    + "자)인데 "@ + join_locs(rest.map_values(|e: (i32, nat)| size_text(e, total)))
                    + " 가 섞였다 — 글자 수를 줄일 때 꼬리 몇 자가 옛 크기로 남은 자국이다 (문단 전체에 크기를 다시 걸어라)"@,
            }]
        } else {
            Seq::empty()
        }
    }
}

/// The size warnings of the first `k` located paragraphs.
pub open spec fn size_findings(d: DocumentCore, ps: Seq<(Seq<char>, Paragraph)>, k: nat) -> Seq<FindingView>
    decreases k,
{
    if k == 0 {
        Seq::empty()
    } else {
        size_findings(d, ps, (k - 1) as nat) + size_finding(ps[k - 1].0, shapes_of(d, ps[k - 1].1))
    }
}

/// Counted characters in the first `k` located paragraphs.
pub open spec fn total_chars(d: DocumentCore, ps: Seq<(Seq<char>, Paragraph)>, k: nat) -> nat
    decreases k,
{
    if k == 0 {
        0
    } else {
        total_chars(d, ps, (k - 1) as nat) + shapes_of(d, ps[k - 1].1).len()
    }
}

/// Characters read in the first `k` located paragraphs: every one that is
/// neither white space nor a control character, whether or not it has a
/// known shape.
pub open spec fn scanned_chars(ps: Seq<(Seq<char>, Paragraph)>, k: nat) -> nat
    decreases k,
{
    if k == 0 {
        0
    } else {
        scanned_chars(ps, (k - 1) as nat) + visible_count(ps[k - 1].1, ps[k - 1].1.text@.len())
    }
}

/// Coloured characters in the first `k` located paragraphs.
pub open spec fn total_colored(d: DocumentCore, ps: Seq<(Seq<char>, Paragraph)>, k: nat) -> nat
    decreases k,
{
    if k == 0 {
        0
    } else {
        let v = shapes_of(d, ps[k - 1].1);
        total_colored(d, ps, (k - 1) as nat) + colored_count(v, v.len())
    }
}

/// The colours of the coloured characters among the first `k` shapes.
pub open spec fn colors_in(v: Seq<CharShape>, k: nat) -> Seq<Seq<char>>
    decreases k,
{
    if k == 0 {
        Seq::empty()
    } else {
        colors_in(v, (k - 1) as nat) + if blackish(v[k - 1].text_color) {
            Seq::empty()
        } else {
            seq![css_color(v[k - 1].text_color)]
        }
    }
}

/// The colours of the coloured characters of the first `k` paragraphs.
pub open spec fn all_colors(d: DocumentCore, ps: Seq<(Seq<char>, Paragraph)>, k: nat) -> Seq<Seq<char>>
    decreases k,
{
    if k == 0 {
        Seq::empty()
    } else {
        let v = shapes_of(d, ps[k - 1].1);
        all_colors(d, ps, (k - 1) as nat) + colors_in(v, v.len())
    }
}

/// The paragraphs among the first `k` with coloured characters, and how
/// many.
pub open spec fn colored_locs(d: DocumentCore, ps: Seq<(Seq<char>, Paragraph)>, k: nat) -> Seq<(Seq<char>, nat)>
    decreases k,
{
    if k == 0 {
        Seq::empty()
    } else {
        let v = shapes_of(d, ps[k - 1].1);
        let n = colored_count(v, v.len());
        colored_locs(d, ps, (k - 1) as nat) + if n > 0 {
            seq![(ps[k - 1].0, n)]
        } else {
            Seq::empty()
        }
    }
}

/// The first (at most) three entries.
pub open spec fn top3<A>(s: Seq<A>) -> Seq<A> {
    if s.len() > 3 {
        s.take(3)
    } else {
        s
    }
}

/// The colour warning, given the counted and coloured characters, the
/// paragraphs with coloured characters and the tally of colours: at least
/// 100 characters counted and more than 3 in 100 of them coloured. It names
/// the (at most) three paragraphs with most coloured characters and the
/// three most used colours.
pub open spec fn color_warning(total: nat, colored: nat, by_loc: Seq<(Seq<char>, nat)>, colors: Seq<(Seq<char>, nat)>) -> Seq<FindingView> {
    if total >= 100 && 100 * colored > 3 * total {
        let locs = by_count(by_loc);
        let cs = by_count(colors);
        seq![FindingView {
            level: Level::Warn,
            code: "char-color-placeholder"@,
            location: join_locs(top3(locs).map_values(|e: (Seq<char>, nat)| e.0)) + if locs.len() > 3 {
                " 외 "@ + dec((locs.len() - 3) as nat) + "곳"@
            } else {
                Seq::empty()
            },
            message: "검정이 아닌 글자가 "@ + dec(colored) + "자 / 전체 "@ + dec(total) + "자 = "@ + fixed1(colored * 100, total)
                + "% ("@ + join_locs(top3(cs).map_values(|e: (Seq<char>, nat)| e.0 + " "@ + dec(e.1) + "자"@))
                + ") — 배포 양식 안내문(파란 12pt)의 글자모양을 물려받은 본문이 남아 있다 (해당 범위에 검정을 다시 걸어라)"@,
        }]
    } else {
        Seq::empty()
    }
}

pub open spec fn color_finding(d: DocumentCore, ps: Seq<(Seq<char>, Paragraph)>) -> Seq<FindingView> {
    let cs = all_colors(d, ps, ps.len());
    color_warning(total_chars(d, ps, ps.len()), total_colored(d, ps, ps.len()), colored_locs(d, ps, ps.len()), tally(cs, cs.len()))
}

/// What the character-style check reports.
pub open spec fn char_findings(d: DocumentCore) -> Seq<FindingView> {
    let ps = all_paragraphs(d);
    size_findings(d, ps, ps.len()) + color_finding(d, ps)
}

fn is_control_exec(c: char) -> (b: bool)
    ensures
        b == is_control(c),
{
    let u = c as u32;
    u <= 0x1f || (0x7f <= u && u <= 0x9f)
}

fn blackish_exec(color: u32) -> (b: bool)
    ensures
        b == blackish(color),
{
    color % 256 <= 0x40 && (color / 256) % 256 <= 0x40 && (color / 65536) % 256 <= 0x40
}

/// The shape id of the `i`-th character of `p`.
pub fn shape_id_at(p: &Paragraph, i: usize) -> (r: Option<u32>)
    ensures
        r == char_shape_id_at(*p, i as nat),
{
    let pos: u64 = if i < p.char_offsets.len() { p.char_offsets[i] as u64 } else { i as u64 };
    let n = p.char_shapes.len();
    let mut acc: Option<u32> = None;
    let mut j: usize = 0;
    while j < n
        invariant
            n == p.char_shapes@.len(),
            j <= n,
            pos == (if i < p.char_offsets@.len() { p.char_offsets@[i as int] as nat } else { i as nat }),
            char_shape_id_at(*p, i as nat) == shape_from(*p, pos as nat, j as nat, acc),
        decreases n - j,
    {
        let r = p.char_shapes[j];
        if r.start_pos as u64 > pos {
            return acc;
        }
        acc = Some(r.char_shape_id);
        j = j + 1;
    }
    acc
}

impl DocumentCore {
    /// The shapes of the visible characters of `p` that have a known shape,
    /// and how many visible characters `p` has.
    fn visible_shapes(&self, p: &Paragraph) -> (r: (Vec<CharShape>, usize))
        ensures
            r.0@ == shapes_of(*self, *p),
            r.1 == visible_count(*p, p.text@.len()),
    {
        let chars = crate::text::chars_of(p.text.as_str());
        let shapes = &self.document.doc_info.char_shapes;
        let mut v: Vec<CharShape> = Vec::new();
        let mut count: usize = 0;
        let n = chars.len();
        for i in 0..n
            invariant
                n == chars@.len(),
                chars@ == p.text@,
                *shapes == self.document.doc_info.char_shapes,
                v@ == visible(*self, *p, i as nat),
                count == visible_count(*p, i as nat),
                count <= i,
        {
            let c = chars[i];
            if !crate::text::is_whitespace(c) && !is_control_exec(c) {
                count = count + 1;
                match shape_id_at(p, i) {
                    Some(id) => {
                        if (id as usize) < shapes.len() {
                            v.push(shapes[id as usize]);
                        }
                    },
                    None => {},
                }
            }
            assert(v@ =~= visible(*self, *p, (i + 1) as nat));
        }
        (v, count)
    }
}

pub open spec fn size_tally_view(v: Seq<(i32, usize)>) -> Seq<(i32, nat)> {
    v.map_values(|e: (i32, usize)| (e.0, e.1 as nat))
}

pub open spec fn str_tally_view(v: Seq<(String, usize)>) -> Seq<(Seq<char>, nat)> {
    v.map_values(|e: (String, usize)| (e.0@, e.1 as nat))
}

pub proof fn lemma_tally_prefix<A>(xs: Seq<A>, ys: Seq<A>, k: nat)
    requires
        k <= xs.len(),
        k <= ys.len(),
        xs.take(k as int) == ys.take(k as int),
    ensures
        tally(xs, k) == tally(ys, k),
    decreases k,
{
    if k > 0 {
        assert(xs.take((k - 1) as int) =~= xs.take(k as int).take((k - 1) as int));
        assert(ys.take((k - 1) as int) =~= ys.take(k as int).take((k - 1) as int));
        assert(xs[k - 1] == xs.take(k as int)[k - 1]);
        assert(ys[k - 1] == ys.take(k as int)[k - 1]);
        lemma_tally_prefix(xs, ys, (k - 1) as nat);
    }
}

/// Counts `x` in a tally of sizes.
fn add_size(t: &mut Vec<(i32, usize)>, x: i32, bound: usize)
    requires
        bound >= 1,
        forall|i: int| 0 <= i < old(t)@.len() ==> #[trigger] old(t)@[i].1 < bound,
    ensures
        size_tally_view(final(t)@) == tally_add(size_tally_view(old(t)@), x),
        forall|i: int| 0 <= i < final(t)@.len() ==> #[trigger] final(t)@[i].1 <= bound,
{
    let ghost tv = size_tally_view(t@);
    let n = t.len();
    let mut j: usize = 0;
    while j < n
        invariant
            n == t@.len(),
            j <= n,
            t@ == old(t)@,
            forall|i: int| 0 <= i < old(t)@.len() ==> #[trigger] old(t)@[i].1 < bound,
            tv == size_tally_view(t@),
            key_index(tv, x, 0) == key_index(tv, x, j as nat),
        decreases n - j,
    {
        if t[j].0 == x {
            assert(tv[j as int].0 == x);
            let c = t[j].1;
            assert(c < bound);
            t.set(j, (x, c + 1));
            assert(size_tally_view(t@) =~= tv.update(j as int, (x, tv[j as int].1 + 1)));
            assert forall|i: int| 0 <= i < t@.len() implies #[trigger] t@[i].1 <= bound by {
                if i != j {
                    assert(t@[i] == old(t)@[i]);
                }
            }
            return;
        }
        j = j + 1;
    }
    t.push((x, 1));
    assert(size_tally_view(t@) =~= tv.push((x, 1nat)));
    assert forall|i: int| 0 <= i < t@.len() implies #[trigger] t@[i].1 <= bound by {
        if i < n {
            assert(t@[i] == old(t)@[i]);
        }
    }
}

/// Counts `x` in a tally of strings.
fn add_str(t: &mut Vec<(String, usize)>, x: String, bound: usize)
    requires
        bound >= 1,
        forall|i: int| 0 <= i < old(t)@.len() ==> #[trigger] old(t)@[i].1 < bound,
    ensures
        str_tally_view(final(t)@) == tally_add(str_tally_view(old(t)@), x@),
        forall|i: int| 0 <= i < final(t)@.len() ==> #[trigger] final(t)@[i].1 <= bound,
{
    let ghost tv = str_tally_view(t@);
    let n = t.len();
    let mut j: usize = 0;
    while j < n
        invariant
            n == t@.len(),
            j <= n,
            t@ == old(t)@,
            forall|i: int| 0 <= i < old(t)@.len() ==> #[trigger] old(t)@[i].1 < bound,
            tv == str_tally_view(t@),
            key_index(tv, x@, 0) == key_index(tv, x@, j as nat),
        decreases n - j,
    {
        if t[j].0 == x {
            assert(tv[j as int].0 == x@);
            let c = t[j].1;
            assert(c < bound);
            t.set(j, (x, c + 1));
            assert(str_tally_view(t@) =~= tv.update(j as int, (x@, tv[j as int].1 + 1)));
            assert forall|i: int| 0 <= i < t@.len() implies #[trigger] t@[i].1 <= bound by {
                if i != j {
                    assert(t@[i] == old(t)@[i]);
                }
            }
            return;
        }
        j = j + 1;
    }
    let ghost xv = x@;
    t.push((x, 1));
    assert(str_tally_view(t@) =~= tv.push((xv, 1nat)));
    assert forall|i: int| 0 <= i < t@.len() implies #[trigger] t@[i].1 <= bound by {
        if i < n {
            assert(t@[i] == old(t)@[i]);
        }
    }
}

pub open spec fn nat_view(v: Seq<usize>) -> Seq<nat> {
    v.map_values(|x: usize| x as nat)
}

proof fn lemma_first_below(order: Seq<nat>, counts: Seq<nat>, c: nat, j: nat)
    ensures
        j <= order.len() ==> j <= first_below(order, counts, c, j) <= order.len(),
    decreases order.len() - j,
{
    if j < order.len() && counts[order[j as int] as int] >= c {
        lemma_first_below(order, counts, c, j + 1);
    }
}

/// Indices of the counts, most first (stable).
fn order_desc_exec(counts: &Vec<usize>) -> (o: Vec<usize>)
    ensures
        nat_view(o@) == order_desc(nat_view(counts@), counts@.len()),
        o@.len() == counts@.len(),
        forall|i: int| 0 <= i < o@.len() ==> #[trigger] o@[i] < counts@.len(),
{
    let ghost cv = nat_view(counts@);
    let mut o: Vec<usize> = Vec::new();
    let n = counts.len();
    for k in 0..n
        invariant
            n == counts@.len(),
            cv == nat_view(counts@),
            nat_view(o@) == order_desc(cv, k as nat),
            o@.len() == k,
            forall|i: int| 0 <= i < o@.len() ==> #[trigger] o@[i] < k,
    {
        let c = counts[k];
        let ghost ov = nat_view(o@);
        let mut p: usize = 0;
        while p < o.len() && counts[o[p]] >= c
            invariant
                n == counts@.len(),
                k < n,
                cv == nat_view(counts@),
                ov == nat_view(o@),
                o@.len() == k,
                forall|i: int| 0 <= i < o@.len() ==> #[trigger] o@[i] < k,
                c == counts@[k as int],
                p <= o@.len(),
                first_below(ov, cv, cv[k as int], 0) == first_below(ov, cv, cv[k as int], p as nat),
            decreases o@.len() - p,
        {
            p = p + 1;
        }
        proof {
            lemma_first_below(ov, cv, cv[k as int], p as nat);
            assert(first_below(ov, cv, cv[k as int], p as nat) == p);
        }
        let ghost ob = o@;
        o.insert(p, k);
        assert(nat_view(o@) =~= ov.insert(p as int, k as nat));
        assert forall|i: int| 0 <= i < o@.len() implies #[trigger] o@[i] < k + 1 by {
            if i < p {
                assert(o@[i] == ob[i]);
            } else if i > p {
                assert(o@[i] == ob[i - 1]);
            }
        }
    }
    o
}

fn sizes_exec(v: &Vec<CharShape>) -> (t: Vec<(i32, usize)>)
    ensures
        size_tally_view(t@) == sizes_of(v@),
        forall|i: int| 0 <= i < t@.len() ==> #[trigger] t@[i].1 <= v@.len(),
{
    let ghost xs = v@.map_values(|s: CharShape| s.base_size);
    let mut t: Vec<(i32, usize)> = Vec::new();
    assert(size_tally_view(t@) =~= Seq::<(i32, nat)>::empty());
    let n = v.len();
    for k in 0..n
        invariant
            n == v@.len(),
            xs == v@.map_values(|s: CharShape| s.base_size),
            size_tally_view(t@) == tally(xs, k as nat),
            forall|i: int| 0 <= i < t@.len() ==> #[trigger] t@[i].1 <= k,
    {
        add_size(&mut t, v[k].base_size, k + 1);
        assert(xs[k as int] == v@[k as int].base_size);
    }
    t
}

fn colored_count_exec(v: &Vec<CharShape>) -> (c: usize)
    ensures
        c == colored_count(v@, v@.len()),
        c <= v@.len(),
{
    let mut c: usize = 0;
    let n = v.len();
    for k in 0..n
        invariant
            n == v@.len(),
            c == colored_count(v@, k as nat),
            c <= k,
    {
        if !blackish_exec(v[k].text_color) {
            c = c + 1;
        }
    }
    c
}

fn dominant_exec(t: &Vec<(i32, usize)>) -> (d: (i32, usize))
    requires
        t@.len() >= 1,
    ensures
        (d.0, d.1 as nat) == dominant(size_tally_view(t@), t@.len()),
{
    let ghost tv = size_tally_view(t@);
    let mut b = t[0];
    let n = t.len();
    let mut k: usize = 1;
    while k < n
        invariant
            n == t@.len(),
            1 <= k <= n,
            tv == size_tally_view(t@),
            (b.0, b.1 as nat) == dominant(tv, k as nat),
        decreases n - k,
    {
        let e = t[k];
        if e.1 > b.1 || (e.1 == b.1 && e.0 > b.0) {
            b = e;
        }
        k = k + 1;
    }
    b
}

fn others_exec(t: &Vec<(i32, usize)>, s: i32) -> (r: Vec<(i32, usize)>)
    ensures
        size_tally_view(r@) == others(size_tally_view(t@), s, t@.len()),
{
    let ghost tv = size_tally_view(t@);
    let mut r: Vec<(i32, usize)> = Vec::new();
    let n = t.len();
    for k in 0..n
        invariant
            n == t@.len(),
            tv == size_tally_view(t@),
            size_tally_view(r@) == others(tv, s, k as nat),
    {
        let e = t[k];
        if e.0 != s {
            r.push(e);
        }
        assert(size_tally_view(r@) =~= others(tv, s, (k + 1) as nat));
    }
    r
}

fn size_counts(t: &Vec<(i32, usize)>) -> (c: Vec<usize>)
    ensures
        nat_view(c@) == counts_of(size_tally_view(t@)),
        c@.len() == t@.len(),
{
    let mut c: Vec<usize> = Vec::new();
    let n = t.len();
    for k in 0..n
        invariant
            n == t@.len(),
            nat_view(c@) == counts_of(size_tally_view(t@)).take(k as int),
            c@.len() == k,
    {
        c.push(t[k].1);
        assert(nat_view(c@) =~= counts_of(size_tally_view(t@)).take((k + 1) as int));
    }
    assert(counts_of(size_tally_view(t@)).take(n as int) =~= counts_of(size_tally_view(t@)));
    c
}

/// The sizes, most common first (stable).
fn sizes_by_count(t: &Vec<(i32, usize)>) -> (r: Vec<(i32, usize)>)
    ensures
        size_tally_view(r@) == by_count(size_tally_view(t@)),
{
    let ghost tv = size_tally_view(t@);
    let counts = size_counts(t);
    let o = order_desc_exec(&counts);
    let ghost ov = order_desc(counts_of(tv), tv.len());
    let mut r: Vec<(i32, usize)> = Vec::new();
    let n = o.len();
    for k in 0..n
        invariant
            n == o@.len(),
            o@.len() == t@.len(),
            tv == size_tally_view(t@),
            nat_view(o@) == ov,
            forall|i: int| 0 <= i < o@.len() ==> #[trigger] o@[i] < t@.len(),
            size_tally_view(r@) == ov.map_values(|i: nat| tv[i as int]).take(k as int),
    {
        let e = t[o[k]];
        let ghost r0 = r@;
        r.push(e);
        assert(size_tally_view(r@) =~= size_tally_view(r0).push((e.0, e.1 as nat)));
        assert(ov[k as int] == o@[k as int] as nat);
        assert(ov.len() == n);
        assert(tv[o@[k as int] as int] == (e.0, e.1 as nat));
        assert(ov.map_values(|i: nat| tv[i as int])[k as int] == tv[ov[k as int] as int]);
        assert(size_tally_view(r@) =~= ov.map_values(|i: nat| tv[i as int]).take((k + 1) as int));
    }
    assert(ov.map_values(|i: nat| tv[i as int]).take(n as int) =~= ov.map_values(|i: nat| tv[i as int]));
    r
}

fn size_text_exec(e: (i32, usize), total: usize) -> (s: String)
    requires
        total > 0,
    ensures
        s@ == size_text((e.0, e.1 as nat), total as nat),
{
    let mut s = String::new();
    push_fixed1_hundredths(&mut s, e.0);
    s.append("pt ");
    push_dec(&mut s, e.1 as u64);
    s.append("자(");
    push_fixed1(&mut s, (e.1 as u128) * 100, total as u64);
    s.append("%)");
    assert(s@ =~= size_text((e.0, e.1 as nat), total as nat));
    s
}

/// The size warning of one paragraph, if any.
fn size_finding_exec(loc: &String, v: &Vec<CharShape>) -> (r: Option<Finding>)
    ensures
        (match r {
            Some(f) => seq![f@],
            None => Seq::<FindingView>::empty(),
        }) == size_finding(loc@, v@),
{
    let total = v.len();
    let sizes = sizes_exec(v);
    if total < 10 || sizes.len() < 2 {
        return None;
    }
    let dom = dominant_exec(&sizes);
    assert(dom.1 <= total) by {
        lemma_dominant_in(size_tally_view(sizes@), sizes@.len());
    }
    let minority = total - dom.1;
    if !(minority > 0 && (minority as u128) * 5 < total as u128) {
        return None;
    }
    let rest = sizes_by_count(&others_exec(&sizes, dom.0));
    let ghost rv = size_tally_view(rest@);
    let mut texts: Vec<String> = Vec::new();
    let n = rest.len();
    for k in 0..n
        invariant
            n == rest@.len(),
            rv == size_tally_view(rest@),
            total > 0,
            texts@.map_values(|t: String| t@) == rv.map_values(|e: (i32, nat)| size_text(e, total as nat)).take(k as int),
    {
        let t = size_text_exec(rest[k], total);
        let ghost t0 = texts@;
        texts.push(t);
        assert(texts@.map_values(|t: String| t@) =~= t0.map_values(|t: String| t@).push(t@));
        assert(rv[k as int] == (rest@[k as int].0, rest@[k as int].1 as nat));
        assert(texts@.map_values(|t: String| t@) =~= rv.map_values(|e: (i32, nat)| size_text(e, total as nat)).take((k + 1) as int));
    }
    assert(rv.map_values(|e: (i32, nat)| size_text(e, total as nat)).take(n as int) =~= rv.map_values(|e: (i32, nat)| size_text(e, total as nat)));
    let mut m = String::new();
    m.append("문단 ");
    push_dec(&mut m, total as u64);
    m.append("자 중 대부분은 ");
    push_fixed1_hundredths(&mut m, dom.0);
    m.append("pt(");
    push_dec(&mut m, dom.1 as u64);
    m.append("자)인데 ");
    let joined = join(&texts, ", ");
    m.append(joined.as_str());
    m.append(" 가 섞였다 — 글자 수를 줄일 때 꼬리 몇 자가 옛 크기로 남은 자국이다 (문단 전체에 크기를 다시 걸어라)");
    let f = Finding { level: Level::Warn, code: "char-size-mixed", location: loc.clone(), message: m };
    Some(f)
}

proof fn lemma_dominant_in(t: Seq<(i32, nat)>, k: nat)
    requires
        1 <= k <= t.len(),
    ensures
        exists|i: int| 0 <= i < k && t[i] == dominant(t, k),
    decreases k,
{
    if k > 1 {
        lemma_dominant_in(t, (k - 1) as nat);
    } else {
        assert(t[0] == dominant(t, k));
    }
}

fn str_counts(t: &Vec<(String, usize)>) -> (c: Vec<usize>)
    ensures
        nat_view(c@) == counts_of(str_tally_view(t@)),
        c@.len() == t@.len(),
{
    let mut c: Vec<usize> = Vec::new();
    let n = t.len();
    for k in 0..n
        invariant
            n == t@.len(),
            nat_view(c@) == counts_of(str_tally_view(t@)).take(k as int),
            c@.len() == k,
    {
        c.push(t[k].1);
        assert(nat_view(c@) =~= counts_of(str_tally_view(t@)).take((k + 1) as int));
    }
    assert(counts_of(str_tally_view(t@)).take(n as int) =~= counts_of(str_tally_view(t@)));
    c
}

/// The entries, most common first (stable).
fn strs_by_count(t: &Vec<(String, usize)>) -> (r: Vec<(String, usize)>)
    ensures
        str_tally_view(r@) == by_count(str_tally_view(t@)),
{
    let ghost tv = str_tally_view(t@);
    let counts = str_counts(t);
    let o = order_desc_exec(&counts);
    let ghost ov = order_desc(counts_of(tv), tv.len());
    let mut r: Vec<(String, usize)> = Vec::new();
    let n = o.len();
    for k in 0..n
        invariant
            n == o@.len(),
            o@.len() == t@.len(),
            tv == str_tally_view(t@),
            nat_view(o@) == ov,
            forall|i: int| 0 <= i < o@.len() ==> #[trigger] o@[i] < t@.len(),
            str_tally_view(r@) == ov.map_values(|i: nat| tv[i as int]).take(k as int),
    {
        let e = &t[o[k]];
        let ghost r0 = r@;
        r.push((e.0.clone(), e.1));
        assert(str_tally_view(r@) =~= str_tally_view(r0).push((e.0@, e.1 as nat)));
        assert(ov[k as int] == o@[k as int] as nat);
        assert(ov.len() == n);
        assert(tv[o@[k as int] as int] == (e.0@, e.1 as nat));
        assert(ov.map_values(|i: nat| tv[i as int])[k as int] == tv[ov[k as int] as int]);
        assert(str_tally_view(r@) =~= ov.map_values(|i: nat| tv[i as int]).take((k + 1) as int));
    }
    assert(ov.map_values(|i: nat| tv[i as int]).take(n as int) =~= ov.map_values(|i: nat| tv[i as int]));
    r
}

fn color_finding_exec(total: usize, colored: usize, by_loc: &Vec<(String, usize)>, colors: &Vec<(String, usize)>) -> (r: Option<Finding>)
    ensures
        (match r {
            Some(f) => seq![f@],
            None => Seq::<FindingView>::empty(),
        }) == color_warning(total as nat, colored as nat, str_tally_view(by_loc@), str_tally_view(colors@)),
{
    if !(total >= 100 && (colored as u128) * 100 > (total as u128) * 3) {
        return None;
    }
    let locs = strs_by_count(by_loc);
    let cs = strs_by_count(colors);
    let ghost lv = str_tally_view(locs@);
    let ghost cv = str_tally_view(cs@);
    let nl: usize = if locs.len() > 3 { 3 } else { locs.len() };
    let mut names: Vec<String> = Vec::new();
    for k in 0..nl
        invariant
            nl <= locs@.len(),
            nl == top3(lv).len(),
            lv == str_tally_view(locs@),
            names@.map_values(|t: String| t@) == top3(lv).map_values(|e: (Seq<char>, nat)| e.0).take(k as int),
    {
        let ghost n0 = names@;
        names.push(locs[k].0.clone());
        assert(names@.map_values(|t: String| t@) =~= n0.map_values(|t: String| t@).push(locs@[k as int].0@));
        assert(top3(lv)[k as int] == lv[k as int]);
        assert(names@.map_values(|t: String| t@) =~= top3(lv).map_values(|e: (Seq<char>, nat)| e.0).take((k + 1) as int));
    }
    assert(top3(lv).map_values(|e: (Seq<char>, nat)| e.0).take(nl as int) =~= top3(lv).map_values(|e: (Seq<char>, nat)| e.0));
    let mut loc = join(&names, ", ");
    let ghost l0 = loc@;
    if locs.len() > 3 {
        loc.append(" 외 ");
        push_dec(&mut loc, (locs.len() - 3) as u64);
        loc.append("곳");
    }
    assert(loc@ =~= l0 + if lv.len() > 3 {
        " 외 "@ + dec((lv.len() - 3) as nat) + "곳"@
    } else {
        Seq::empty()
    });
    let nc: usize = if cs.len() > 3 { 3 } else { cs.len() };
    let mut ctexts: Vec<String> = Vec::new();
    for k in 0..nc
        invariant
            nc <= cs@.len(),
            nc == top3(cv).len(),
            cv == str_tally_view(cs@),
            ctexts@.map_values(|t: String| t@) == top3(cv).map_values(|e: (Seq<char>, nat)| e.0 + " "@ + dec(e.1) + "자"@).take(k as int),
    {
        let mut t = cs[k].0.clone();
        t.append(" ");
        push_dec(&mut t, cs[k].1 as u64);
        t.append("자");
        let ghost n0 = ctexts@;
        let ghost tv = t@;
        ctexts.push(t);
        assert(ctexts@.map_values(|t: String| t@) =~= n0.map_values(|t: String| t@).push(tv));
        assert(top3(cv)[k as int] == cv[k as int]);
        assert(ctexts@.map_values(|t: String| t@) =~= top3(cv).map_values(|e: (Seq<char>, nat)| e.0 + " "@ + dec(e.1) + "자"@).take((k + 1) as int));
    }
    assert(top3(cv).map_values(|e: (Seq<char>, nat)| e.0 + " "@ + dec(e.1) + "자"@).take(nc as int) =~= top3(cv).map_values(|e: (Seq<char>, nat)| e.0 + " "@ + dec(e.1) + "자"@));
    let mut m = String::new();
    m.append("검정이 아닌 글자가 ");
    push_dec(&mut m, colored as u64);
    m.append("자 / 전체 ");
    push_dec(&mut m, total as u64);
    m.append("자 = ");
    push_fixed1(&mut m, (colored as u128) * 100, total as u64);
    m.append("% (");
    let joined = join(&ctexts, ", ");
    m.append(joined.as_str());
    m.append(") — 배포 양식 안내문(파란 12pt)의 글자모양을 물려받은 본문이 남아 있다 (해당 범위에 검정을 다시 걸어라)");
    assert(m@ =~= "검정이 아닌 글자가 "@ + dec(colored as nat) + "자 / 전체 "@ + dec(total as nat) + "자 = "@ + fixed1((colored * 100) as nat, total as nat)
        + "% ("@ + join_locs(top3(cv).map_values(|e: (Seq<char>, nat)| e.0 + " "@ + dec(e.1) + "자"@))
        + ") — 배포 양식 안내문(파란 12pt)의 글자모양을 물려받은 본문이 남아 있다 (해당 범위에 검정을 다시 걸어라)"@);
    let f = Finding { level: Level::Warn, code: "char-color-placeholder", location: loc, message: m };
    Some(f)
}

proof fn lemma_colored_count(v: Seq<CharShape>, k: nat)
    ensures
        colored_count(v, k) <= k,
        colors_in(v, k).len() == colored_count(v, k),
    decreases k,
{
    if k > 0 {
        lemma_colored_count(v, (k - 1) as nat);
    }
}

proof fn lemma_totals(d: DocumentCore, ps: Seq<(Seq<char>, Paragraph)>, k: nat)
    ensures
        total_colored(d, ps, k) <= total_chars(d, ps, k),
        all_colors(d, ps, k).len() == total_colored(d, ps, k),
    decreases k,
{
    if k > 0 {
        lemma_totals(d, ps, (k - 1) as nat);
        let v = shapes_of(d, ps[k - 1].1);
        lemma_colored_count(v, v.len());
    }
}

proof fn lemma_visible_le(d: DocumentCore, p: Paragraph, k: nat)
    ensures
        visible(d, p, k).len() <= visible_count(p, k),
    decreases k,
{
    if k > 0 && k <= p.text@.len() {
        lemma_visible_le(d, p, (k - 1) as nat);
    }
}

proof fn lemma_scanned(d: DocumentCore, ps: Seq<(Seq<char>, Paragraph)>, k: nat)
    ensures
        total_chars(d, ps, k) <= scanned_chars(ps, k),
    decreases k,
{
    if k > 0 {
        lemma_scanned(d, ps, (k - 1) as nat);
        lemma_visible_le(d, ps[k - 1].1, ps[k - 1].1.text@.len());
    }
}

proof fn lemma_scanned_mono(ps: Seq<(Seq<char>, Paragraph)>, j: nat, k: nat)
    requires
        j <= k,
    ensures
        scanned_chars(ps, j) <= scanned_chars(ps, k),
    decreases k,
{
    if j < k {
        lemma_scanned_mono(ps, j, (k - 1) as nat);
    }
}

proof fn lemma_total_mono(d: DocumentCore, ps: Seq<(Seq<char>, Paragraph)>, j: nat, k: nat)
    requires
        j <= k,
    ensures
        total_chars(d, ps, j) <= total_chars(d, ps, k),
    decreases k,
{
    if j < k {
        lemma_total_mono(d, ps, j, (k - 1) as nat);
    }
}

impl DocumentCore {
    /// Checks the traces character shapes leave. A paragraph of at least
    /// ten counted characters in two or more sizes is reported when fewer
    /// than a fifth of them are not in its most common size (the tail left
    /// at an old size). The document is reported when at least 100
    /// characters are counted and more than 3 in 100 are not black or near
    /// black (each channel at most 0x40): a placeholder's coloured shape
    /// carried into the text. Counts the paragraphs read and the characters
    /// read (every one that is neither white space nor a control character).
    pub fn lint_char_style(&self, findings: &mut Vec<Finding>, scan: &mut LintScan)
        requires
            scanned_chars(all_paragraphs(*self), all_paragraphs(*self).len()) <= usize::MAX,
        ensures
            findings_view(final(findings)@) == findings_view(old(findings)@) + char_findings(*self),
            final(scan).paragraphs == all_paragraphs(*self).len(),
            final(scan).chars == scanned_chars(all_paragraphs(*self), all_paragraphs(*self).len()),
            final(scan).pages == old(scan).pages,
            final(scan).cells == old(scan).cells,
            final(scan).text_runs == old(scan).text_runs,
            final(scan).cell_seams == old(scan).cell_seams,
    {
        let ghost f0 = findings_view(findings@);
        let paras = self.collect_paragraphs();
        let ghost ps = located_view(paras@);
        scan.paragraphs = paras.len();
        let mut total: usize = 0;
        let mut scanned: usize = 0;
        let mut colored: usize = 0;
        let mut colors: Vec<(String, usize)> = Vec::new();
        let mut by_loc: Vec<(String, usize)> = Vec::new();
        assert(str_tally_view(colors@) =~= Seq::<(Seq<char>, nat)>::empty());
        assert(str_tally_view(by_loc@) =~= Seq::<(Seq<char>, nat)>::empty());
        let n = paras.len();
        for k in 0..n
            invariant
                n == paras@.len(),
                ps == located_view(paras@),
                ps == all_paragraphs(*self),
                scanned_chars(ps, n as nat) <= usize::MAX,
                total == total_chars(*self, ps, k as nat),
                scanned == scanned_chars(ps, k as nat),
                colored == total_colored(*self, ps, k as nat),
                findings_view(findings@) == f0 + size_findings(*self, ps, k as nat),
                str_tally_view(colors@) == tally(all_colors(*self, ps, k as nat), all_colors(*self, ps, k as nat).len()),
                forall|i: int| 0 <= i < colors@.len() ==> #[trigger] colors@[i].1 <= colored,
                str_tally_view(by_loc@) == colored_locs(*self, ps, k as nat),
                scan.paragraphs == n,
                scan.chars == old(scan).chars,
                scan.pages == old(scan).pages,
                scan.cells == old(scan).cells,
                scan.text_runs == old(scan).text_runs,
                scan.cell_seams == old(scan).cell_seams,
        {
            let loc = &paras[k].0;
            let p = paras[k].1;
            assert(ps[k as int] == (loc@, *p));
            let (v, nv) = self.visible_shapes(p);
            proof {
                lemma_totals(*self, ps, k as nat);
                lemma_totals(*self, ps, (k + 1) as nat);
                lemma_total_mono(*self, ps, (k + 1) as nat, n as nat);
                lemma_scanned(*self, ps, n as nat);
                lemma_scanned(*self, ps, (k + 1) as nat);
                lemma_scanned_mono(ps, (k + 1) as nat, n as nat);
                lemma_colored_count(v@, v@.len());
            }
            let ghost base = all_colors(*self, ps, k as nat);
            let mut seen: usize = colored;
            let m = v.len();
            for j in 0..m
                invariant
                    m == v@.len(),
                    base == all_colors(*self, ps, k as nat),
                    base.len() == colored,
                    colored + colored_count(v@, m as nat) <= usize::MAX,
                    seen == colored + colored_count(v@, j as nat),
                    str_tally_view(colors@) == tally(base + colors_in(v@, j as nat), (base + colors_in(v@, j as nat)).len()),
                    forall|i: int| 0 <= i < colors@.len() ==> #[trigger] colors@[i].1 <= seen,
            {
                proof {
                    lemma_colored_count(v@, j as nat);
                    lemma_colored_count(v@, (j + 1) as nat);
                    assert(colored_count(v@, (j + 1) as nat) <= colored_count(v@, m as nat)) by {
                        lemma_colored_count_mono(v@, (j + 1) as nat, m as nat);
                    }
                }
                let color = v[j].text_color;
                if !blackish_exec(color) {
                    let css = css_color_exec(color);
                    let ghost cur = base + colors_in(v@, j as nat);
                    let ghost nxt = base + colors_in(v@, (j + 1) as nat);
                    assert(nxt =~= cur.push(css@));
                    add_str(&mut colors, css, seen + 1);
                    proof {
                        assert(nxt.take(cur.len() as int) =~= cur.take(cur.len() as int));
                        lemma_tally_prefix(nxt, cur, cur.len());
                    }
                    seen = seen + 1;
                } else {
                    assert(base + colors_in(v@, (j + 1) as nat) =~= base + colors_in(v@, j as nat));
                }
            }
            let pc = colored_count_exec(&v);
            total = total + v.len();
            scanned = scanned + nv;
            colored = colored + pc;
            assert(base + colors_in(v@, m as nat) =~= all_colors(*self, ps, (k + 1) as nat));
            if pc > 0 {
                let ghost b0 = by_loc@;
                by_loc.push((loc.clone(), pc));
                assert(str_tally_view(by_loc@) =~= str_tally_view(b0).push((loc@, pc as nat)));
            }
            assert(str_tally_view(by_loc@) =~= colored_locs(*self, ps, (k + 1) as nat));
            match size_finding_exec(loc, &v) {
                Some(f) => {
                    proof {
                        lemma_findings_push(findings@, f);
                    }
                    findings.push(f);
                },
                None => {},
            }
            assert(findings_view(findings@) =~= f0 + size_findings(*self, ps, (k + 1) as nat));
        }
        scan.chars = scanned;
        match color_finding_exec(total, colored, &by_loc, &colors) {
            Some(f) => {
                proof {
                    lemma_findings_push(findings@, f);
                }
                findings.push(f);
            },
            None => {},
        }
        assert(findings_view(findings@) =~= f0 + char_findings(*self));
    }
}

proof fn lemma_colored_count_mono(v: Seq<CharShape>, j: nat, k: nat)
    requires
        j <= k,
    ensures
        colored_count(v, j) <= colored_count(v, k),
    decreases k,
{
    if j < k {
        lemma_colored_count_mono(v, j, (k - 1) as nat);
    }
}

/// The size a paragraph is compared with is its most common one: no size
/// has more characters, and none with as many is larger.
pub proof fn law_dominant_is_most_common(t: Seq<(i32, nat)>, k: nat)
    requires
        1 <= k <= t.len(),
    ensures
        exists|i: int| 0 <= i < k && t[i] == dominant(t, k),
        forall|i: int| 0 <= i < k ==> (#[trigger] t[i]).1 <= dominant(t, k).1,
        forall|i: int| 0 <= i < k && (#[trigger] t[i]).1 == dominant(t, k).1 ==> t[i].0 <= dominant(t, k).0,
    decreases k,
{
    lemma_dominant_in(t, k);
    if k > 1 {
        law_dominant_is_most_common(t, (k - 1) as nat);
    }
}

} // verus!
