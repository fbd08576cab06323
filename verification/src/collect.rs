//! Every paragraph of the document with where it stands: the body
//! paragraphs, and the paragraphs of table cells, nested tables included.
use vstd::prelude::*;
use crate::lint_cells::table_loc;
use crate::model::{Cell, Control, DocumentCore, Paragraph, Section, Table};
use crate::num::{dec, push_dec};

verus! {

/// Where the paragraphs of cell `c` of the table at `loc` are reported.
pub open spec fn cell_para_loc(loc: Seq<char>, c: Cell) -> Seq<char> {
    loc + " cell(r"@ + dec(c.row as nat) + "c"@ + dec(c.col as nat) + ")"@
}

/// The paragraphs of the first `k` cells of `t` (at `loc`), each followed by
/// those of the tables nested in it.
pub open spec fn walk_cells(t: Table, loc: Seq<char>, k: nat) -> Seq<(Seq<char>, Paragraph)>
    decreases t, k,
{
    if k == 0 || k > t.cells@.len() {
        Seq::empty()
    } else {
        let c = t.cells@[k - 1];
        walk_cells(t, loc, (k - 1) as nat) + walk_paras(c, cell_para_loc(loc, c), c.paragraphs@.len())
    }
}

/// The first `i` paragraphs of a cell, each followed by the paragraphs of
/// its nested tables.
pub open spec fn walk_paras(c: Cell, cloc: Seq<char>, i: nat) -> Seq<(Seq<char>, Paragraph)>
    decreases c, i,
{
    if i == 0 || i > c.paragraphs@.len() {
        Seq::empty()
    } else {
        let p = c.paragraphs@[i - 1];
        walk_paras(c, cloc, (i - 1) as nat) + seq![(cloc + " para"@ + dec((i - 1) as nat), p)]
            + walk_controls(p, cloc + " 중첩표"@, p.controls@.len())
    }
}

/// The paragraphs of the tables among the first `j` controls of `p`.
pub open spec fn walk_controls(p: Paragraph, nl: Seq<char>, j: nat) -> Seq<(Seq<char>, Paragraph)>
    decreases p, j,
{
    if j == 0 || j > p.controls@.len() {
        Seq::empty()
    } else {
        walk_controls(p, nl, (j - 1) as nat) + match p.controls@[j - 1] {
            Control::Table(u) => walk_cells(*u, nl, u.cells@.len()),
            _ => Seq::empty(),
        }
    }
}

pub open spec fn body_loc(si: nat, pi: nat) -> Seq<char> {
    "sec"@ + dec(si) + " para"@ + dec(pi)
}

/// The paragraphs of the tables among the first `j` controls of a body
/// paragraph.
pub open spec fn body_controls(si: nat, pi: nat, p: Paragraph, j: nat) -> Seq<(Seq<char>, Paragraph)>
    decreases j,
{
    if j == 0 {
        Seq::empty()
    } else {
        body_controls(si, pi, p, (j - 1) as nat) + match p.controls@[j - 1] {
            Control::Table(t) => walk_cells(*t, table_loc(si, pi, (j - 1) as nat), t.cells@.len()),
            _ => Seq::empty(),
        }
    }
}

/// The first `i` body paragraphs of a section, each followed by the
/// paragraphs of its tables.
pub open spec fn body_paras(si: nat, sec: Section, i: nat) -> Seq<(Seq<char>, Paragraph)>
    decreases i,
{
    if i == 0 {
        Seq::empty()
    } else {
        let p = sec.paragraphs@[i - 1];
        body_paras(si, sec, (i - 1) as nat) + seq![(body_loc(si, (i - 1) as nat), p)]
            + body_controls(si, (i - 1) as nat, p, p.controls@.len())
    }
}

pub open spec fn sections_paras(d: DocumentCore, s: nat) -> Seq<(Seq<char>, Paragraph)>
    decreases s,
{
    if s == 0 {
        Seq::empty()
    } else {
        let sec = d.document.sections@[s - 1];
        sections_paras(d, (s - 1) as nat) + body_paras((s - 1) as nat, sec, sec.paragraphs@.len())
    }
}

/// Every paragraph of the document, in document order, with its location.
pub open spec fn all_paragraphs(d: DocumentCore) -> Seq<(Seq<char>, Paragraph)> {
    sections_paras(d, d.document.sections@.len())
}

pub open spec fn located_view<'a>(v: Seq<(String, &'a Paragraph)>) -> Seq<(Seq<char>, Paragraph)> {
    v.map_values(|e: (String, &'a Paragraph)| (e.0@, *e.1))
}

proof fn lemma_located_push<'a>(v: Seq<(String, &'a Paragraph)>, e: (String, &'a Paragraph))
    ensures
        located_view(v.push(e)) == located_view(v).push((e.0@, *e.1)),
{
    assert(located_view(v.push(e)) =~= located_view(v).push((e.0@, *e.1)));
}

/// Appends the paragraphs of a table's cells (nested tables included).
fn walk_table<'a>(t: &'a Table, loc: &str, out: &mut Vec<(String, &'a Paragraph)>)
    ensures
        located_view(final(out)@) == located_view(old(out)@) + walk_cells(*t, loc@, t.cells@.len()),
    decreases *t,
{
    let ghost o0 = located_view(out@);
    let n = t.cells.len();
    for k in 0..n
        invariant
            n == t.cells@.len(),
            located_view(out@) == o0 + walk_cells(*t, loc@, k as nat),
    {
        let cell = &t.cells[k];
        let mut cloc = String::from_str(loc);
        cloc.append(" cell(r");
        push_dec(&mut cloc, cell.row as u64);
        cloc.append("c");
        push_dec(&mut cloc, cell.col as u64);
        cloc.append(")");
        assert(cloc@ =~= cell_para_loc(loc@, *cell));
        let ghost o1 = located_view(out@);
        let np = cell.paragraphs.len();
        for pi in 0..np
            invariant
                np == cell.paragraphs@.len(),
                n == t.cells@.len(),
                k < n,
                *cell == t.cells@[k as int],
                cloc@ == cell_para_loc(loc@, *cell),
                located_view(out@) == o1 + walk_paras(*cell, cloc@, pi as nat),
        {
            let cp = &cell.paragraphs[pi];
            let mut ploc = cloc.clone();
            ploc.append(" para");
            push_dec(&mut ploc, pi as u64);
            assert(ploc@ =~= cloc@ + " para"@ + dec(pi as nat));
            let ghost o2 = located_view(out@);
            proof {
                lemma_located_push(out@, (ploc, cp));
            }
            out.push((ploc, cp));
            let mut nl = cloc.clone();
            nl.append(" 중첩표");
            assert(nl@ =~= cloc@ + " 중첩표"@);
            let ghost o3 = located_view(out@);
            let nc = cp.controls.len();
            for ci in 0..nc
                invariant
                    nc == cp.controls@.len(),
                    np == cell.paragraphs@.len(),
                    pi < np,
                    n == t.cells@.len(),
                    k < n,
                    *cell == t.cells@[k as int],
                    *cp == cell.paragraphs@[pi as int],
                    nl@ == cloc@ + " 중첩표"@,
                    located_view(out@) == o3 + walk_controls(*cp, nl@, ci as nat),
            {
                match &cp.controls[ci] {
                    Control::Table(inner) => {
                        walk_table(inner, nl.as_str(), out);
                    },
                    _ => {},
                }
                assert(located_view(out@) =~= o3 + walk_controls(*cp, nl@, (ci + 1) as nat));
            }
            assert(located_view(out@) =~= o1 + walk_paras(*cell, cloc@, (pi + 1) as nat));
        }
        assert(located_view(out@) =~= o0 + walk_cells(*t, loc@, (k + 1) as nat));
    }
}

impl DocumentCore {
    /// Every paragraph of the document with where it stands, in document
    /// order: each body paragraph (`sec{s} para{p}`) followed by the
    /// paragraphs of its tables' cells (`... cell(r{r}c{c}) para{i}`), each
    /// cell paragraph followed by those of the tables nested in it.
    pub fn collect_paragraphs(&self) -> (out: Vec<(String, &Paragraph)>)
        ensures
            located_view(out@) == all_paragraphs(*self),
    {
        let mut out: Vec<(String, &Paragraph)> = Vec::new();
        assert(located_view(out@) =~= Seq::<(Seq<char>, Paragraph)>::empty());
        let ns = self.document.sections.len();
        for si in 0..ns
            invariant
                ns == self.document.sections@.len(),
                located_view(out@) == sections_paras(*self, si as nat),
        {
            let sec = &self.document.sections[si];
            let np = sec.paragraphs.len();
            for pi in 0..np
                invariant
                    np == sec.paragraphs@.len(),
                    *sec == self.document.sections@[si as int],
                    located_view(out@) == sections_paras(*self, si as nat) + body_paras(si as nat, *sec, pi as nat),
            {
                let para = &sec.paragraphs[pi];
                let mut ploc = String::new();
                ploc.append("sec");
                push_dec(&mut ploc, si as u64);
                ploc.append(" para");
                push_dec(&mut ploc, pi as u64);
                assert(ploc@ =~= body_loc(si as nat, pi as nat));
                proof {
                    lemma_located_push(out@, (ploc, para));
                }
                out.push((ploc, para));
                let ghost o1 = located_view(out@);
                let nc = para.controls.len();
                for ci in 0..nc
                    invariant
                        nc == para.controls@.len(),
                        *para == sec.paragraphs@[pi as int],
                        located_view(out@) == o1 + body_controls(si as nat, pi as nat, *para, ci as nat),
                {
                    match &para.controls[ci] {
                        Control::Table(t) => {
                            let mut loc = String::new();
                            loc.append("sec");
                            push_dec(&mut loc, si as u64);
                            loc.append(" para");
                            push_dec(&mut loc, pi as u64);
                            loc.append(" ctrl");
                            push_dec(&mut loc, ci as u64);
                            assert(loc@ =~= table_loc(si as nat, pi as nat, ci as nat));
                            walk_table(t, loc.as_str(), &mut out);
                        },
                        _ => {},
                    }
                    assert(located_view(out@) =~= o1 + body_controls(si as nat, pi as nat, *para, (ci + 1) as nat));
                }
                assert(located_view(out@) =~= sections_paras(*self, si as nat) + body_paras(si as nat, *sec, (pi + 1) as nat));
            }
            assert(located_view(out@) =~= sections_paras(*self, (si + 1) as nat));
        }
        out
    }
}

} // verus!
