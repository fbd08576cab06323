//! A paragraph block pushed into the cell below although the page-sized cell
//! above still has room for all of it.
use vstd::prelude::*;
use crate::lint_base::{
    body_height, findings_view, half, is_meaningful, lemma_findings_push, meaningful, outline_level,
    outline_level_spec, page_body_height, title, title_of, Finding, FindingView, Level,
};
use crate::lint_orphan::{
    below_from, cell_loc, find_below, find_first_meaningful, first_meaningful, half_exec,
    page_sized, push_cell_loc,
};
use crate::lint_walk::{in_controls, in_paras, in_sections, over_tables, TableCheck};
use crate::model::{Cell, Control, DocumentCore, LineSeg, ParaShape, Paragraph, Section, Table};
use crate::num::{dec, dec_int, push_dec, push_dec_i128};
use crate::text::{chars_of, skip_ws_start, trim_start};

verus! {

/// A cell small enough for exact height sums: fewer than 2^31 paragraphs,
/// each with fewer than 2^31 lines.
pub open spec fn cell_sizes_ok(c: Cell) -> bool {
    &&& c.paragraphs@.len() < 0x8000_0000
    &&& forall|i: int| 0 <= i < c.paragraphs@.len() ==> #[trigger] c.paragraphs@[i].line_segs@.len() < 0x8000_0000
}

pub open spec fn table_sizes_ok(t: Table) -> bool {
    forall|k: int| 0 <= k < t.cells@.len() ==> #[trigger] cell_sizes_ok(t.cells@[k])
}

/// Every table of the body paragraphs has cells of sizes that sum exactly.
pub open spec fn body_tables_ok(d: DocumentCore) -> bool {
    forall|si: int, pi: int, ci: int|
        0 <= si < d.document.sections@.len() && 0 <= pi < d.document.sections@[si].paragraphs@.len()
            && 0 <= ci < d.document.sections@[si].paragraphs@[pi].controls@.len()
            ==> match #[trigger] d.document.sections@[si].paragraphs@[pi].controls@[ci] {
            Control::Table(t) => table_sizes_ok(*t),
            _ => true,
        }
}

/// The space before a paragraph (its shape stores twice the HWPUNIT value;
/// an unknown shape gives none; never negative).
pub open spec fn space_before(shapes: Seq<ParaShape>, p: Paragraph) -> int {
    if (p.para_shape_id as int) < shapes.len() {
        let v = half(shapes[p.para_shape_id as int].spacing_before as int);
        if v > 0 { v } else { 0 }
    } else {
        0
    }
}

/// Height of the first `k` lines.
pub open spec fn lines_height(segs: Seq<LineSeg>, k: nat) -> int
    decreases k,
{
    if k == 0 {
        0
    } else {
        lines_height(segs, (k - 1) as nat) + segs[k - 1].line_height + segs[k - 1].line_spacing
    }
}

/// A paragraph's height: its space before and its lines.
pub open spec fn para_height(shapes: Seq<ParaShape>, p: Paragraph) -> int {
    space_before(shapes, p) + lines_height(p.line_segs@, p.line_segs@.len())
}

/// Height of the first `k` paragraphs.
pub open spec fn paras_height(shapes: Seq<ParaShape>, ps: Seq<Paragraph>, k: nat) -> int
    decreases k,
{
    if k == 0 {
        0
    } else {
        paras_height(shapes, ps, (k - 1) as nat) + para_height(shapes, ps[k - 1])
    }
}

/// The bottom of a paragraph's last line, if it has lines.
pub open spec fn last_bottom(p: Paragraph) -> Option<int> {
    if p.line_segs@.len() == 0 {
        None
    } else {
        let l = p.line_segs@.last();
        Some(l.vertical_pos + l.line_height + l.line_spacing)
    }
}

/// The lowest line bottom among the first `k` paragraphs (0 if none is
/// lower).
pub open spec fn content_bottom(ps: Seq<Paragraph>, k: nat) -> int
    decreases k,
{
    if k == 0 {
        0
    } else {
        let prev = content_bottom(ps, (k - 1) as nat);
        match last_bottom(ps[k - 1]) {
            Some(b) => if b > prev { b } else { prev },
            None => prev,
        }
    }
}

/// Height a cell's content uses: its lowest line bottom and its top and
/// bottom padding (negative padding counts as none).
pub open spec fn cell_used(c: Cell) -> int {
    content_bottom(c.paragraphs@, c.paragraphs@.len()) + (if c.padding.top > 0 { c.padding.top as int } else { 0 })
        + (if c.padding.bottom > 0 { c.padding.bottom as int } else { 0 })
}

/// The paragraph is a caption: its text starts with `[그림]` or `[표]`.
pub open spec fn is_caption(p: Paragraph) -> bool {
    let t = trim_start(p.text@);
    (t.len() >= 4 && t.take(4) == "[그림]"@) || (t.len() >= 3 && t.take(3) == "[표]"@)
}

/// From `e` on, the paragraphs that belong under a heading of level `mine`:
/// empty ones, deeper ones and ones holding controls.
pub open spec fn extend_block(ps: Seq<Paragraph>, e: nat, mine: u8) -> nat
    decreases ps.len() - e,
{
    if e < ps.len() && (!meaningful(ps[e as int]) || outline_level_spec(ps[e as int].text@) > mine
        || ps[e as int].controls@.len() > 0) {
        extend_block(ps, e + 1, mine)
    } else {
        e
    }
}

/// The end of the block that starts at paragraph `hi`: an object with its
/// caption, a heading with everything deeper, or a single leaf.
pub open spec fn block_end(ps: Seq<Paragraph>, hi: nat) -> nat {
    let head = ps[hi as int];
    if head.controls@.len() > 0 {
        if hi + 1 < ps.len() && is_caption(ps[hi + 1 as int]) {
            hi + 2
        } else {
            hi + 1
        }
    } else {
        let mine = outline_level_spec(head.text@);
        if mine <= 2 {
            extend_block(ps, hi + 1, mine)
        } else {
            hi + 1
        }
    }
}

pub open spec fn pushed_finding(
    si: nat,
    pi: nat,
    ci: nat,
    above: Cell,
    slack: int,
    head: Paragraph,
    end: nat,
    h: int,
) -> FindingView {
    FindingView {
        level: Level::Warn,
        code: "paragraph-pushed-despite-room"@,
        location: cell_loc(si, pi, ci, above),
        message: "앞 칸에 "@ + dec_int(slack) + "HWPU 여유가 있는데 다음 칸 첫 덩어리 「"@ + title_of(head.text@, 28)
            + "」("@ + dec(end) + "문단, "@ + dec_int(h) + "HWPU)가 넘어가 있다 — 앞 칸으로 끌어올릴 것"@,
    }
}

/// What the pushed-paragraph check finds at cell `k` of a table.
pub open spec fn pushed_at(shapes: Seq<ParaShape>, si: nat, sec: Section, pi: nat, ci: nat, t: Table, k: nat) -> Seq<FindingView> {
    let above = t.cells@[k as int];
    let slack = above.height - cell_used(above);
    if !page_sized(sec, above) {
        Seq::empty()
    } else {
        match below_from(t.cells@, above, 0) {
            None => Seq::empty(),
            Some(b) => {
                let ps = t.cells@[b as int].paragraphs@;
                if slack <= 0 {
                    Seq::empty()
                } else {
                    match first_meaningful(ps, 0) {
                        None => Seq::empty(),
                        Some(hi) => {
                            let end = block_end(ps, hi);
                            let h = paras_height(shapes, ps, end);
                            if end >= ps.len() || h == 0 || h > slack {
                                Seq::empty()
                            } else {
                                seq![pushed_finding(si, pi, ci, above, slack, ps[hi as int], end, h)]
                            }
                        },
                    }
                }
            },
        }
    }
}

pub open spec fn pushed_cells(shapes: Seq<ParaShape>, si: nat, sec: Section, pi: nat, ci: nat, t: Table, k: nat) -> Seq<FindingView>
    decreases k,
{
    if k == 0 {
        Seq::empty()
    } else {
        pushed_cells(shapes, si, sec, pi, ci, t, (k - 1) as nat) + pushed_at(shapes, si, sec, pi, ci, t, (k - 1) as nat)
    }
}

/// The pushed-paragraph check on a table, given the paragraph shapes.
pub open spec fn pushed_check(shapes: Seq<ParaShape>) -> TableCheck {
    |si: nat, sec: Section, pi: nat, ci: nat, t: Table| pushed_cells(shapes, si, sec, pi, ci, t, t.cells@.len())
}

proof fn lemma_lines_height_bound(segs: Seq<LineSeg>, k: nat)
    requires
        k <= segs.len(),
    ensures
        -0x1_0000_0000 * k <= lines_height(segs, k) <= 0x1_0000_0000 * k,
    decreases k,
{
    if k > 0 {
        lemma_lines_height_bound(segs, (k - 1) as nat);
    }
}

/// The space before a paragraph.
fn space_before_exec(shapes: &Vec<ParaShape>, p: &Paragraph) -> (v: i64)
    ensures
        v == space_before(shapes@, *p),
        0 <= v < 0x4000_0000,
{
    let id = p.para_shape_id as usize;
    if id < shapes.len() {
        let v = half_exec(shapes[id].spacing_before as i64);
        if v > 0 { v } else { 0 }
    } else {
        0
    }
}

/// A paragraph's height.
fn para_height_exec(shapes: &Vec<ParaShape>, p: &Paragraph) -> (h: i128)
    requires
        p.line_segs@.len() < 0x8000_0000,
    ensures
        h == para_height(shapes@, *p),
        -0x80_0000_0000_0000_0000 <= h <= 0x80_0000_0000_0000_0000,
{
    let n = p.line_segs.len();
    let mut sum: i128 = 0;
    for i in 0..n
        invariant
            n == p.line_segs@.len(),
            n < 0x8000_0000,
            sum == lines_height(p.line_segs@, i as nat),
    {
        proof {
            lemma_lines_height_bound(p.line_segs@, i as nat);
        }
        let l = p.line_segs[i];
        sum = sum + l.line_height as i128 + l.line_spacing as i128;
    }
    proof {
        lemma_lines_height_bound(p.line_segs@, n as nat);
    }
    space_before_exec(shapes, p) as i128 + sum
}

/// The height of the first `end` paragraphs of a cell.
fn block_height(shapes: &Vec<ParaShape>, c: &Cell, end: usize) -> (h: i128)
    requires
        cell_sizes_ok(*c),
        end <= c.paragraphs@.len(),
    ensures
        h == paras_height(shapes@, c.paragraphs@, end as nat),
        -0x4000_0000_0000_0000_0000_0000_0000 <= h <= 0x4000_0000_0000_0000_0000_0000_0000,
{
    let mut sum: i128 = 0;
    for i in 0..end
        invariant
            end <= c.paragraphs@.len(),
            end < 0x8000_0000,
            cell_sizes_ok(*c),
            sum == paras_height(shapes@, c.paragraphs@, i as nat),
            -0x80_0000_0000_0000_0000 * i <= sum <= 0x80_0000_0000_0000_0000 * i,
    {
        let ph = para_height_exec(shapes, &c.paragraphs[i]);
        sum = sum + ph;
    }
    sum
}

/// Height a cell's content uses.
pub(crate) fn cell_used_exec(c: &Cell) -> (u: i64)
    ensures
        u == cell_used(*c),
        -0x2_0000_0000 <= u <= 0x2_0001_0000,
{
    let n = c.paragraphs.len();
    let mut used: i64 = 0;
    for i in 0..n
        invariant
            n == c.paragraphs@.len(),
            used == content_bottom(c.paragraphs@, i as nat),
            -0x2_0000_0000 <= used <= 0x2_0000_0000,
    {
        let p = &c.paragraphs[i];
        if p.line_segs.len() > 0 {
            let last = p.line_segs[p.line_segs.len() - 1];
            let b = last.vertical_pos as i64 + last.line_height as i64 + last.line_spacing as i64;
            if b > used {
                used = b;
            }
        }
    }
    let top: i64 = if c.padding.top > 0 { c.padding.top as i64 } else { 0 };
    let bottom: i64 = if c.padding.bottom > 0 { c.padding.bottom as i64 } else { 0 };
    used + top + bottom
}

/// Whether the text, once leading white space is dropped, starts with the
/// given characters.
fn starts_with_after_ws(text: &str, pat: &str) -> (b: bool)
    ensures
        b == (trim_start(text@).len() >= pat@.len() && trim_start(text@).take(pat@.len() as int) == pat@),
{
    let v = chars_of(text);
    let w = chars_of(pat);
    let k = skip_ws_start(&v);
    let n = w.len();
    if v.len() - k < n {
        return false;
    }
    let ghost t = trim_start(text@);
    for i in 0..n
        invariant
            n == w@.len(),
            w@ == pat@,
            t == v@.skip(k as int),
            t == trim_start(text@),
            k + n <= v@.len(),
            v@.len() == v.len(),
            k + n <= v.len(),
            forall|j: int| 0 <= j < i ==> t[j] == w@[j],
    {
        assert(t[i as int] == v@[k + i]);
        if v[k + i] != w[i] {
            assert(t.take(n as int)[i as int] != pat@[i as int]);
            return false;
        }
    }
    assert(t.take(n as int) =~= pat@);
    true
}

fn is_caption_exec(p: &Paragraph) -> (b: bool)
    ensures
        b == is_caption(*p),
{
    proof {
        reveal_strlit("[그림]");
        reveal_strlit("[표]");
    }
    starts_with_after_ws(p.text.as_str(), "[그림]") || starts_with_after_ws(p.text.as_str(), "[표]")
}

/// The end of the block that starts at paragraph `hi`.
fn block_end_exec(ps: &Vec<Paragraph>, hi: usize) -> (e: usize)
    requires
        hi < ps@.len(),
    ensures
        e == block_end(ps@, hi as nat),
        hi < e <= ps@.len(),
{
    let len = ps.len();
    let head = &ps[hi];
    if head.controls.len() > 0 {
        if hi + 1 < ps.len() && is_caption_exec(&ps[hi + 1]) {
            hi + 2
        } else {
            hi + 1
        }
    } else {
        let mine = outline_level(head.text.as_str());
        if mine <= 2 {
            let mut e = hi + 1;
            while e < ps.len() && (!is_meaningful(&ps[e]) || outline_level(ps[e].text.as_str()) > mine
                || ps[e].controls.len() > 0)
                invariant
                    hi < e <= ps@.len(),
                    extend_block(ps@, (hi + 1) as nat, mine) == extend_block(ps@, e as nat, mine),
                decreases ps@.len() - e,
            {
                e = e + 1;
            }
            e
        } else {
            hi + 1
        }
    }
}

/// The pushed-paragraph check at one cell.
fn pushed_cell(
    shapes: &Vec<ParaShape>,
    si: usize,
    sec: &Section,
    half_page: i64,
    pi: usize,
    ci: usize,
    t: &Table,
    k: usize,
) -> (r: Option<Finding>)
    requires
        k < t.cells@.len(),
        half_page == half(body_height(*sec)),
        table_sizes_ok(*t),
    ensures
        match r {
            Some(f) => pushed_at(shapes@, si as nat, *sec, pi as nat, ci as nat, *t, k as nat) == seq![f@],
            None => pushed_at(shapes@, si as nat, *sec, pi as nat, ci as nat, *t, k as nat) == Seq::<FindingView>::empty(),
        },
{
    let above = &t.cells[k];
    if (above.height as i64) < half_page {
        return None;
    }
    let b = match find_below(&t.cells, above) {
        Some(b) => b,
        None => return None,
    };
    let used = cell_used_exec(above);
    let slack: i64 = above.height as i64 - used;
    if slack <= 0 {
        return None;
    }
    let below = &t.cells[b];
    assert(cell_sizes_ok(t.cells@[b as int]));
    let ps = &below.paragraphs;
    let hi = match find_first_meaningful(ps) {
        Some(i) => i,
        None => return None,
    };
    let end = block_end_exec(ps, hi);
    if end >= ps.len() {
        return None;
    }
    let h = block_height(shapes, below, end);
    if h == 0 || h > slack as i128 {
        return None;
    }
    let head = &ps[hi];
    let mut location = String::new();
    push_cell_loc(&mut location, si, pi, ci, above);
    let mut message = String::new();
    message.append("앞 칸에 ");
    push_dec_i128(&mut message, slack as i128);
    message.append("HWPU 여유가 있는데 다음 칸 첫 덩어리 「");
    let tt = title(head.text.as_str(), 28);
    message.append(tt.as_str());
    message.append("」(");
    push_dec(&mut message, end as u64);
    message.append("문단, ");
    push_dec_i128(&mut message, h);
    message.append("HWPU)가 넘어가 있다 — 앞 칸으로 끌어올릴 것");
    let f = Finding { level: Level::Warn, code: "paragraph-pushed-despite-room", location, message };
    proof {
        let want = pushed_finding(si as nat, pi as nat, ci as nat, *above, slack as int, *head, end as nat, h as int);
        assert(f@.location =~= want.location);
        assert(f@.message =~= want.message);
    }
    Some(f)
}

/// The pushed-paragraph check over one table.
fn pushed_table(
    shapes: &Vec<ParaShape>,
    si: usize,
    sec: &Section,
    half_page: i64,
    pi: usize,
    ci: usize,
    t: &Table,
    findings: &mut Vec<Finding>,
)
    requires
        half_page == half(body_height(*sec)),
        table_sizes_ok(*t),
    ensures
        findings_view(final(findings)@) == findings_view(old(findings)@) + pushed_cells(
            shapes@,
            si as nat,
            *sec,
            pi as nat,
            ci as nat,
            *t,
            t.cells@.len(),
        ),
{
    let n = t.cells.len();
    let ghost start = findings_view(findings@);
    for k in 0..n
        invariant
            n == t.cells@.len(),
            half_page == half(body_height(*sec)),
            table_sizes_ok(*t),
            findings_view(findings@) == start + pushed_cells(shapes@, si as nat, *sec, pi as nat, ci as nat, *t, k as nat),
    {
        match pushed_cell(shapes, si, sec, half_page, pi, ci, t, k) {
            Some(f) => {
                proof {
                    lemma_findings_push(findings@, f);
                }
                findings.push(f);
            },
            None => {},
        }
        assert(findings_view(findings@) =~= start + pushed_cells(shapes@, si as nat, *sec, pi as nat, ci as nat, *t, (k + 1) as nat));
    }
}

impl DocumentCore {
    /// Finds blocks that start the cell below a page-sized answer cell
    /// although the cell above has room for all of them. A block is an
    /// object with its caption, a heading with everything deeper that
    /// follows, or a single leaf; one that would empty the cell below is left
    /// alone.
    pub fn lint_pushed_paragraph(&self, findings: &mut Vec<Finding>, scan: &mut crate::lint_base::LintScan)
        requires
            body_tables_ok(*self),
        ensures
            findings_view(final(findings)@) == findings_view(old(findings)@) + over_tables(
                *self,
                pushed_check(self.document.doc_info.para_shapes@),
            ),
            *final(scan) == *old(scan),
    {
        let shapes = &self.document.doc_info.para_shapes;
        let ghost start = findings_view(findings@);
        let ghost f = pushed_check(shapes@);
        let ns = self.document.sections.len();
        for si in 0..ns
            invariant
                ns == self.document.sections@.len(),
                *shapes == self.document.doc_info.para_shapes,
                f == pushed_check(shapes@),
                body_tables_ok(*self),
                findings_view(findings@) == start + in_sections(*self, f, si as nat),
        {
            let sec = &self.document.sections[si];
            let half_page = half_exec(page_body_height(sec));
            let np = sec.paragraphs.len();
            for pi in 0..np
                invariant
                    np == sec.paragraphs@.len(),
                    si < ns,
                    ns == self.document.sections@.len(),
                    *sec == self.document.sections@[si as int],
                    half_page == half(body_height(*sec)),
                    f == pushed_check(shapes@),
                    body_tables_ok(*self),
                    findings_view(findings@) == start + in_sections(*self, f, si as nat) + in_paras(si as nat, *sec, f, pi as nat),
            {
                let para = &sec.paragraphs[pi];
                let nc = para.controls.len();
                for ci in 0..nc
                    invariant
                        nc == para.controls@.len(),
                        si < ns,
                        ns == self.document.sections@.len(),
                        pi < np,
                        np == sec.paragraphs@.len(),
                        *sec == self.document.sections@[si as int],
                        *para == sec.paragraphs@[pi as int],
                        half_page == half(body_height(*sec)),
                        f == pushed_check(shapes@),
                        body_tables_ok(*self),
                        findings_view(findings@) == start + in_sections(*self, f, si as nat) + in_paras(si as nat, *sec, f, pi as nat)
                            + in_controls(si as nat, *sec, pi as nat, *para, f, ci as nat),
                {
                    match &para.controls[ci] {
                        Control::Table(t) => {
                            assert(match self.document.sections@[si as int].paragraphs@[pi as int].controls@[ci as int] {
                                Control::Table(t) => table_sizes_ok(*t),
                                _ => true,
                            });
                            pushed_table(shapes, si, sec, half_page, pi, ci, t, findings);
                        },
                        _ => {},
                    }
                    assert(findings_view(findings@) =~= start + in_sections(*self, f, si as nat) + in_paras(si as nat, *sec, f, pi as nat)
                        + in_controls(si as nat, *sec, pi as nat, *para, f, (ci + 1) as nat));
                }
                assert(findings_view(findings@) =~= start + in_sections(*self, f, si as nat) + in_paras(si as nat, *sec, f, (pi + 1) as nat));
            }
            assert(findings_view(findings@) =~= start + in_sections(*self, f, (si + 1) as nat));
        }
    }
}

/// A block is reported only when it fits whole in the room left in the
/// page-sized cell above, and moving it would not empty the cell it starts.
pub proof fn law_reported_block_fits(shapes: Seq<ParaShape>, si: nat, sec: Section, pi: nat, ci: nat, t: Table, k: nat)
    requires
        k < t.cells@.len(),
        pushed_at(shapes, si, sec, pi, ci, t, k).len() > 0,
    ensures
        ({
            let above = t.cells@[k as int];
            &&& page_sized(sec, above)
            &&& below_from(t.cells@, above, 0) matches Some(b) && {
                let ps = t.cells@[b as int].paragraphs@;
                &&& first_meaningful(ps, 0) matches Some(hi) && {
                    let end = block_end(ps, hi);
                    &&& end < ps.len()
                    &&& paras_height(shapes, ps, end) != 0
                    &&& paras_height(shapes, ps, end) <= above.height - cell_used(above)
                }
            }
        }),
{
}

} // verus!
