//! A heading left alone at the end of a page-sized answer cell while its
//! content starts in the cell below (the next page).
use vstd::prelude::*;
use crate::lint_base::{
    body_height, findings_view, half, is_meaningful, lemma_findings_push, meaningful, outline_level,
    outline_level_spec, page_body_height, title, title_of, Finding, FindingView, Level, LintScan,
};
use crate::lint_walk::{
    count_controls, count_paras, count_sections, count_tables, in_controls, in_paras, in_sections,
    lemma_count_controls_mono, lemma_count_paras_mono, lemma_count_sections_mono, over_tables,
    TableCheck, TableCount,
};
use crate::model::{Cell, Control, DocumentCore, Paragraph, Section, Table};
use crate::num::{dec, push_dec};

verus! {

/// Index of the first cell (from `j`) that continues `above` downward: the
/// next row, the same column and the same column span.
pub open spec fn below_from(cells: Seq<Cell>, above: Cell, j: nat) -> Option<nat>
    decreases cells.len() - j,
{
    if j >= cells.len() {
        None
    } else if cells[j as int].row == above.row + above.row_span && cells[j as int].col == above.col
        && cells[j as int].col_span == above.col_span {
        Some(j)
    } else {
        below_from(cells, above, j + 1)
    }
}

/// Index of the last paragraph among `ps[0..k]` that counts.
pub open spec fn last_meaningful(ps: Seq<Paragraph>, k: nat) -> Option<nat>
    decreases k,
{
    if k == 0 {
        None
    } else if meaningful(ps[k - 1]) {
        Some((k - 1) as nat)
    } else {
        last_meaningful(ps, (k - 1) as nat)
    }
}

/// Index of the first paragraph from `j` on that counts.
pub open spec fn first_meaningful(ps: Seq<Paragraph>, j: nat) -> Option<nat>
    decreases ps.len() - j,
{
    if j >= ps.len() {
        None
    } else if meaningful(ps[j as int]) {
        Some(j)
    } else {
        first_meaningful(ps, j + 1)
    }
}

/// A cell as tall as half the page body or more: its lower edge is a page
/// break.
pub open spec fn page_sized(sec: Section, c: Cell) -> bool {
    c.height >= half(body_height(sec))
}

/// `heading` (level `up`) is a heading for what follows at level `down`: a
/// section bullet before anything deeper, an item bullet before a leaf.
pub open spec fn is_heading(up: u8, down: u8) -> bool {
    (up == 1 && down > 1) || (up == 2 && down == 3)
}

pub open spec fn cell_loc(si: nat, pi: nat, ci: nat, c: Cell) -> Seq<char> {
    "sec"@ + dec(si) + " para"@ + dec(pi) + " ctrl"@ + dec(ci) + " r"@ + dec(c.row as nat) + "c"@ + dec(
        c.col as nat,
    )
}

pub open spec fn orphan_finding(si: nat, pi: nat, ci: nat, above: Cell, tail: Paragraph) -> FindingView {
    FindingView {
        level: Level::Warn,
        code: "heading-orphaned-at-cell-end"@,
        location: cell_loc(si, pi, ci, above),
        message: "소제목 「"@ + title_of(tail.text@, 28) + "」만 이 칸 끝에 남고 내용은 다음 칸(=다음 쪽)에서 시작한다 — 다음 칸 맨 앞으로 옮길 것"@,
    }
}

/// The cell below `above`, when `above` is page-sized and one continues it.
pub open spec fn seam_below(sec: Section, t: Table, k: nat) -> Option<nat> {
    let above = t.cells@[k as int];
    if !page_sized(sec, above) {
        None
    } else {
        below_from(t.cells@, above, 0)
    }
}

/// What the orphan check finds at cell `k` of a table.
pub open spec fn orphan_at(si: nat, sec: Section, pi: nat, ci: nat, t: Table, k: nat) -> Seq<FindingView> {
    let above = t.cells@[k as int];
    match seam_below(sec, t, k) {
        None => Seq::empty(),
        Some(b) => {
            let below = t.cells@[b as int];
            match (last_meaningful(above.paragraphs@, above.paragraphs@.len()), first_meaningful(below.paragraphs@, 0)) {
                (Some(ti), Some(hi)) => {
                    let tail = above.paragraphs@[ti as int];
                    let head = below.paragraphs@[hi as int];
                    if tail.controls@.len() == 0 && is_heading(outline_level_spec(tail.text@), outline_level_spec(head.text@)) {
                        seq![orphan_finding(si, pi, ci, above, tail)]
                    } else {
                        Seq::empty()
                    }
                },
                _ => Seq::empty(),
            }
        },
    }
}

/// What the orphan check finds in the first `k` cells of a table.
pub open spec fn orphan_cells(si: nat, sec: Section, pi: nat, ci: nat, t: Table, k: nat) -> Seq<FindingView>
    decreases k,
{
    if k == 0 {
        Seq::empty()
    } else {
        orphan_cells(si, sec, pi, ci, t, (k - 1) as nat) + orphan_at(si, sec, pi, ci, t, (k - 1) as nat)
    }
}

/// Seams among the first `k` cells of a table.
pub open spec fn seams_cells(sec: Section, t: Table, k: nat) -> nat
    decreases k,
{
    if k == 0 {
        0
    } else {
        seams_cells(sec, t, (k - 1) as nat) + if seam_below(sec, t, (k - 1) as nat) is Some { 1nat } else { 0nat }
    }
}

/// The orphan check on a table.
pub open spec fn orphan_check() -> TableCheck {
    |si: nat, sec: Section, pi: nat, ci: nat, t: Table| orphan_cells(si, sec, pi, ci, t, t.cells@.len())
}

/// The seams of a table.
pub open spec fn seam_count() -> TableCount {
    |si: nat, sec: Section, pi: nat, ci: nat, t: Table| seams_cells(sec, t, t.cells@.len())
}

/// The first cell that continues `above` downward.
pub fn find_below(cells: &Vec<Cell>, above: &Cell) -> (r: Option<usize>)
    ensures
        match r {
            Some(b) => below_from(cells@, *above, 0) == Some(b as nat) && b < cells@.len(),
            None => below_from(cells@, *above, 0) is None,
        },
{
    let n = cells.len();
    let want_row: u32 = above.row as u32 + above.row_span as u32;
    let mut j: usize = 0;
    while j < n
        invariant
            n == cells@.len(),
            j <= n,
            want_row == above.row + above.row_span,
            below_from(cells@, *above, 0) == below_from(cells@, *above, j as nat),
        decreases n - j,
    {
        let c = &cells[j];
        if c.row as u32 == want_row && c.col == above.col && c.col_span == above.col_span {
            return Some(j);
        }
        j = j + 1;
    }
    None
}

pub fn find_last_meaningful(ps: &Vec<Paragraph>) -> (r: Option<usize>)
    ensures
        match r {
            Some(i) => last_meaningful(ps@, ps@.len()) == Some(i as nat) && i < ps@.len(),
            None => last_meaningful(ps@, ps@.len()) is None,
        },
{
    let mut k = ps.len();
    while k > 0
        invariant
            k <= ps@.len(),
            last_meaningful(ps@, ps@.len()) == last_meaningful(ps@, k as nat),
        decreases k,
    {
        if is_meaningful(&ps[k - 1]) {
            return Some(k - 1);
        }
        k = k - 1;
    }
    None
}

pub fn find_first_meaningful(ps: &Vec<Paragraph>) -> (r: Option<usize>)
    ensures
        match r {
            Some(i) => first_meaningful(ps@, 0) == Some(i as nat) && i < ps@.len(),
            None => first_meaningful(ps@, 0) is None,
        },
{
    let n = ps.len();
    let mut j: usize = 0;
    while j < n
        invariant
            n == ps@.len(),
            j <= n,
            first_meaningful(ps@, 0) == first_meaningful(ps@, j as nat),
        decreases n - j,
    {
        if is_meaningful(&ps[j]) {
            return Some(j);
        }
        j = j + 1;
    }
    None
}

/// Half of `x`, rounded toward zero.
pub fn half_exec(x: i64) -> (h: i64)
    ensures
        h == half(x as int),
{
    if x >= 0 {
        x / 2
    } else {
        0 - ((0 - (x as i128)) / 2) as i64
    }
}

pub fn push_cell_loc(m: &mut String, si: usize, pi: usize, ci: usize, c: &Cell)
    ensures
        final(m)@ == old(m)@ + cell_loc(si as nat, pi as nat, ci as nat, *c),
{
    let ghost start = m@;
    m.append("sec");
    push_dec(m, si as u64);
    m.append(" para");
    push_dec(m, pi as u64);
    m.append(" ctrl");
    push_dec(m, ci as u64);
    m.append(" r");
    push_dec(m, c.row as u64);
    m.append("c");
    push_dec(m, c.col as u64);
    assert(m@ =~= start + cell_loc(si as nat, pi as nat, ci as nat, *c));
}

/// The orphan check at one cell: the finding (if any) and whether a seam
/// was seen.
fn orphan_cell(si: usize, sec: &Section, half_page: i64, pi: usize, ci: usize, t: &Table, k: usize) -> (r: (Option<Finding>, bool))
    requires
        k < t.cells@.len(),
        half_page == half(body_height(*sec)),
    ensures
        r.1 == seam_below(*sec, *t, k as nat) is Some,
        match r.0 {
            Some(f) => orphan_at(si as nat, *sec, pi as nat, ci as nat, *t, k as nat) == seq![f@],
            None => orphan_at(si as nat, *sec, pi as nat, ci as nat, *t, k as nat) == Seq::<FindingView>::empty(),
        },
{
    let above = &t.cells[k];
    if (above.height as i64) < half_page {
        return (None, false);
    }
    let b = match find_below(&t.cells, above) {
        Some(b) => b,
        None => return (None, false),
    };
    let below = &t.cells[b];
    let ti = match find_last_meaningful(&above.paragraphs) {
        Some(i) => i,
        None => return (None, true),
    };
    let hi = match find_first_meaningful(&below.paragraphs) {
        Some(i) => i,
        None => return (None, true),
    };
    let tail = &above.paragraphs[ti];
    let head = &below.paragraphs[hi];
    if tail.controls.len() != 0 {
        return (None, true);
    }
    let up = outline_level(tail.text.as_str());
    let down = outline_level(head.text.as_str());
    let heading = (up == 1 && down > 1) || (up == 2 && down == 3);
    if !heading {
        return (None, true);
    }
    let mut location = String::new();
    push_cell_loc(&mut location, si, pi, ci, above);
    let mut message = String::new();
    message.append("소제목 「");
    let tt = title(tail.text.as_str(), 28);
    message.append(tt.as_str());
    message.append("」만 이 칸 끝에 남고 내용은 다음 칸(=다음 쪽)에서 시작한다 — 다음 칸 맨 앞으로 옮길 것");
    let f = Finding { level: Level::Warn, code: "heading-orphaned-at-cell-end", location, message };
    proof {
        assert(location@ =~= cell_loc(si as nat, pi as nat, ci as nat, *above));
        assert(f@ == orphan_finding(si as nat, pi as nat, ci as nat, *above, *tail)) by {
            assert(f@.location =~= cell_loc(si as nat, pi as nat, ci as nat, *above));
            assert(f@.message =~= orphan_finding(si as nat, pi as nat, ci as nat, *above, *tail).message);
        }
    }
    (Some(f), true)
}

/// The orphan check over one table.
fn orphan_table(
    si: usize,
    sec: &Section,
    half_page: i64,
    pi: usize,
    ci: usize,
    t: &Table,
    findings: &mut Vec<Finding>,
    seams: &mut usize,
)
    requires
        half_page == half(body_height(*sec)),
        *old(seams) + seams_cells(*sec, *t, t.cells@.len()) <= usize::MAX,
    ensures
        findings_view(final(findings)@) == findings_view(old(findings)@) + orphan_cells(
            si as nat,
            *sec,
            pi as nat,
            ci as nat,
            *t,
            t.cells@.len(),
        ),
        *final(seams) == *old(seams) + seams_cells(*sec, *t, t.cells@.len()),
{
    let n = t.cells.len();
    let ghost start = findings_view(findings@);
    for k in 0..n
        invariant
            n == t.cells@.len(),
            half_page == half(body_height(*sec)),
            *old(seams) + seams_cells(*sec, *t, n as nat) <= usize::MAX,
            findings_view(findings@) == start + orphan_cells(si as nat, *sec, pi as nat, ci as nat, *t, k as nat),
            *seams == *old(seams) + seams_cells(*sec, *t, k as nat),
    {
        proof {
            lemma_seams_mono(*sec, *t, (k + 1) as nat, n as nat);
        }
        let (f, seam) = orphan_cell(si, sec, half_page, pi, ci, t, k);
        if seam {
            *seams = *seams + 1;
        }
        match f {
            Some(f) => {
                proof {
                    lemma_findings_push(findings@, f);
                }
                findings.push(f);
            },
            None => {},
        }
        assert(findings_view(findings@) =~= start + orphan_cells(si as nat, *sec, pi as nat, ci as nat, *t, (k + 1) as nat));
    }
}

proof fn lemma_seams_mono(sec: Section, t: Table, j: nat, k: nat)
    requires
        j <= k,
    ensures
        seams_cells(sec, t, j) <= seams_cells(sec, t, k),
    decreases k,
{
    if j < k {
        lemma_seams_mono(sec, t, j, (k - 1) as nat);
    }
}

impl DocumentCore {
    /// Finds headings left alone at the end of a page-sized answer cell while
    /// their content starts in the cell below, which is the next page. A
    /// heading is a section bullet (□) before anything deeper, or an item
    /// bullet (◦) before a leaf (-); a paragraph holding a control is none.
    /// Counts the seams (page-sized cell, continued below) it looked at.
    pub fn lint_orphan_heading(&self, findings: &mut Vec<Finding>, scan: &mut LintScan)
        requires
            old(scan).cell_seams + count_tables(*self, seam_count()) <= usize::MAX,
        ensures
            findings_view(final(findings)@) == findings_view(old(findings)@) + over_tables(*self, orphan_check()),
            final(scan).cell_seams == old(scan).cell_seams + count_tables(*self, seam_count()),
            final(scan).pages == old(scan).pages,
            final(scan).cells == old(scan).cells,
            final(scan).text_runs == old(scan).text_runs,
            final(scan).paragraphs == old(scan).paragraphs,
            final(scan).chars == old(scan).chars,
    {
        let ghost start = findings_view(findings@);
        let ghost f = orphan_check();
        let ghost g = seam_count();
        let ghost seams0 = scan.cell_seams;
        let ns = self.document.sections.len();
        for si in 0..ns
            invariant
                ns == self.document.sections@.len(),
                f == orphan_check(),
                g == seam_count(),
                seams0 + count_tables(*self, g) <= usize::MAX,
                findings_view(findings@) == start + in_sections(*self, f, si as nat),
                scan.cell_seams == seams0 + count_sections(*self, g, si as nat),
                scan.pages == old(scan).pages,
                scan.cells == old(scan).cells,
                scan.text_runs == old(scan).text_runs,
                scan.paragraphs == old(scan).paragraphs,
                scan.chars == old(scan).chars,
        {
            let sec = &self.document.sections[si];
            let half_page = half_exec(page_body_height(sec));
            let np = sec.paragraphs.len();
            proof {
                lemma_count_sections_mono(*self, g, (si + 1) as nat, ns as nat);
            }
            for pi in 0..np
                invariant
                    np == sec.paragraphs@.len(),
                    *sec == self.document.sections@[si as int],
                    half_page == half(body_height(*sec)),
                    f == orphan_check(),
                    g == seam_count(),
                    seams0 + count_sections(*self, g, si as nat) + count_paras(si as nat, *sec, g, np as nat) <= usize::MAX,
                    findings_view(findings@) == start + in_sections(*self, f, si as nat) + in_paras(si as nat, *sec, f, pi as nat),
                    scan.cell_seams == seams0 + count_sections(*self, g, si as nat) + count_paras(si as nat, *sec, g, pi as nat),
                    scan.pages == old(scan).pages,
                    scan.cells == old(scan).cells,
                    scan.text_runs == old(scan).text_runs,
                    scan.paragraphs == old(scan).paragraphs,
                    scan.chars == old(scan).chars,
            {
                let para = &sec.paragraphs[pi];
                let nc = para.controls.len();
                proof {
                    lemma_count_paras_mono(si as nat, *sec, g, (pi + 1) as nat, np as nat);
                }
                for ci in 0..nc
                    invariant
                        nc == para.controls@.len(),
                        *para == sec.paragraphs@[pi as int],
                        half_page == half(body_height(*sec)),
                        f == orphan_check(),
                        g == seam_count(),
                        seams0 + count_sections(*self, g, si as nat) + count_paras(si as nat, *sec, g, pi as nat)
                            + count_controls(si as nat, *sec, pi as nat, *para, g, nc as nat) <= usize::MAX,
                        findings_view(findings@) == start + in_sections(*self, f, si as nat) + in_paras(si as nat, *sec, f, pi as nat)
                            + in_controls(si as nat, *sec, pi as nat, *para, f, ci as nat),
                        scan.cell_seams == seams0 + count_sections(*self, g, si as nat) + count_paras(si as nat, *sec, g, pi as nat)
                            + count_controls(si as nat, *sec, pi as nat, *para, g, ci as nat),
                        scan.pages == old(scan).pages,
                        scan.cells == old(scan).cells,
                        scan.text_runs == old(scan).text_runs,
                        scan.paragraphs == old(scan).paragraphs,
                        scan.chars == old(scan).chars,
                {
                    proof {
                        lemma_count_controls_mono(si as nat, *sec, pi as nat, *para, g, (ci + 1) as nat, nc as nat);
                    }
                    match &para.controls[ci] {
                        Control::Table(t) => {
                            orphan_table(si, sec, half_page, pi, ci, t, findings, &mut scan.cell_seams);
                        },
                        _ => {},
                    }
                    assert(findings_view(findings@) =~= start + in_sections(*self, f, si as nat) + in_paras(si as nat, *sec, f, pi as nat)
                        + in_controls(si as nat, *sec, pi as nat, *para, f, (ci + 1) as nat));
                }
                assert(findings_view(findings@) =~= start + in_sections(*self, f, si as nat) + in_paras(si as nat, *sec, f, (pi + 1) as nat));
            }
            assert(findings_view(findings@) =~= start + in_sections(*self, f, (si + 1) as nat));
        }
    }
}

/// A list that continues across the page is no heading: a paragraph is
/// never a heading for one at its own level, nor for a higher one.
pub proof fn law_no_heading_without_depth(up: u8, down: u8)
    requires
        down <= up,
    ensures
        !is_heading(up, down),
{
}

/// A seam is counted at a cell exactly when the cell is at least half the
/// page body tall (the body height halved, rounded down) and a cell
/// continues it in the next row.
pub proof fn law_seam_at_half_page(sec: Section, t: Table, k: nat)
    requires
        k < t.cells@.len(),
    ensures
        seam_below(sec, t, k) is Some <==> (t.cells@[k as int].height >= body_height(sec) / 2 && below_from(
            t.cells@,
            t.cells@[k as int],
            0,
        ) is Some),
{
}

/// A heading left as the last paragraph that counts in a cell at least
/// half the page body tall, while what it heads opens the cell below, is
/// reported once, as a warning about that cell: a section bullet (□,
/// level 1) before anything deeper, or an item bullet (◦, level 2) before
/// a leaf (-, level 3).
pub proof fn law_orphan_heading_reported(si: nat, sec: Section, pi: nat, ci: nat, t: Table, k: nat, b: nat, ti: nat, hi: nat)
    requires
        k < t.cells@.len(),
        t.cells@[k as int].height >= body_height(sec) / 2,
        below_from(t.cells@, t.cells@[k as int], 0) == Some(b),
        b < t.cells@.len(),
        last_meaningful(t.cells@[k as int].paragraphs@, t.cells@[k as int].paragraphs@.len()) == Some(ti),
        ti < t.cells@[k as int].paragraphs@.len(),
        first_meaningful(t.cells@[b as int].paragraphs@, 0) == Some(hi),
        hi < t.cells@[b as int].paragraphs@.len(),
        t.cells@[k as int].paragraphs@[ti as int].controls@.len() == 0,
        ({
            let up = outline_level_spec(t.cells@[k as int].paragraphs@[ti as int].text@);
            let down = outline_level_spec(t.cells@[b as int].paragraphs@[hi as int].text@);
            (up == 1 && down > 1) || (up == 2 && down == 3)
        }),
    ensures
        orphan_at(si, sec, pi, ci, t, k).len() == 1,
        orphan_at(si, sec, pi, ci, t, k)[0].level == Level::Warn,
        orphan_at(si, sec, pi, ci, t, k)[0].code == "heading-orphaned-at-cell-end"@,
        orphan_at(si, sec, pi, ci, t, k)[0].location == cell_loc(si, pi, ci, t.cells@[k as int]),
{
    law_seam_at_half_page(sec, t, k);
}

} // verus!
