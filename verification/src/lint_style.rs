//! Whether the tables of a document are styled alike: the header fill, the
//! rule under the header, the header and body alignment and the body's
//! vertical alignment of each table are compared with the most common value
//! among the tables. Nested tables (placed in answer cells) are compared
//! among themselves when there are any; otherwise the body tables are.
use vstd::prelude::*;
use crate::lint_base::{findings_view, lemma_findings_push, Finding, FindingView, Level};
use crate::lint_cells::{join_locs, table_loc};
use crate::text::join;
use crate::lint_walk::{in_controls, in_paras, in_sections, over_tables};
use crate::model::{Alignment, Cell, Control, DocumentCore, FillType, Paragraph, Section, Table, VerticalAlign};
use crate::num::{dec, digit, digit_char, push_dec};
use crate::text::{chars_of, push_char};

verus! {

/// Two lower-case hexadecimal digits of a byte.
pub open spec fn hex2(n: nat) -> Seq<char> {
    seq![digit(n / 16), digit(n % 16)]
}

/// A COLORREF (0x00BBGGRR) as a CSS colour `#rrggbb`.
pub open spec fn css_color(c: u32) -> Seq<char> {
    "#"@ + hex2((c % 256) as nat) + hex2(((c / 256) % 256) as nat) + hex2(((c / 65536) % 256) as nat)
}

/// The fill of border/fill `id` (1-based; 0 is none): its solid colour, or
/// `none`.
pub open spec fn fill_of(d: DocumentCore, id: u16) -> Seq<char> {
    let bfs = d.document.doc_info.border_fills@;
    if id == 0 || id - 1 >= bfs.len() {
        "none"@
    } else {
        let bf = bfs[id - 1];
        match bf.fill.solid {
            Some(sf) => if bf.fill.fill_type == FillType::Solid {
                css_color(sf.background_color)
            } else {
                "none"@
            },
            None => "none"@,
        }
    }
}

/// The kind of the bottom line of border/fill `id` (0 when there is none).
pub open spec fn rule_of(d: DocumentCore, id: u16) -> u8 {
    let bfs = d.document.doc_info.border_fills@;
    if id == 0 || id - 1 >= bfs.len() {
        0
    } else {
        bfs[id - 1].borders@[3].line_type
    }
}

pub open spec fn align_name(a: Alignment) -> Seq<char> {
    match a {
        Alignment::Justify => "Justify"@,
        Alignment::Left => "Left"@,
        Alignment::Right => "Right"@,
        Alignment::Center => "Center"@,
        Alignment::Distribute => "Distribute"@,
        Alignment::Split => "Split"@,
    }
}

/// The alignment of a cell's first paragraph, or `?`.
pub open spec fn align_of(d: DocumentCore, c: Cell) -> Seq<char> {
    let shapes = d.document.doc_info.para_shapes@;
    if c.paragraphs@.len() == 0 {
        "?"@
    } else if c.paragraphs@[0].para_shape_id < shapes.len() {
        align_name(shapes[c.paragraphs@[0].para_shape_id as int].alignment)
    } else {
        "?"@
    }
}

pub open spec fn valign_name(v: VerticalAlign) -> Seq<char> {
    match v {
        VerticalAlign::Top => "Top"@,
        VerticalAlign::Center => "Center"@,
        VerticalAlign::Bottom => "Bottom"@,
    }
}

/// The first cell from `j` on in the header row (`head`) or below it.
pub open spec fn first_cell(cells: Seq<Cell>, head: bool, j: nat) -> Option<nat>
    decreases cells.len() - j,
{
    if j >= cells.len() {
        None
    } else if (head && cells[j as int].row == 0) || (!head && cells[j as int].row > 0) {
        Some(j)
    } else {
        first_cell(cells, head, j + 1)
    }
}

/// The first header cell and the first body cell of a table that has at
/// least two rows and two columns.
pub open spec fn head_body(t: Table) -> Option<(Cell, Cell)> {
    if t.row_count < 2 || t.col_count < 2 {
        None
    } else {
        match (first_cell(t.cells@, true, 0), first_cell(t.cells@, false, 0)) {
            (Some(h), Some(b)) => Some((t.cells@[h as int], t.cells@[b as int])),
            _ => None,
        }
    }
}

/// What is compared of a table.
pub struct StyleView {
    pub loc: Seq<char>,
    pub head_fill: Seq<char>,
    pub head_rule: Seq<char>,
    pub head_align: Seq<char>,
    pub body_align: Seq<char>,
    pub body_valign: Seq<char>,
}

pub open spec fn style_of(d: DocumentCore, t: Table, loc: Seq<char>) -> Seq<StyleView> {
    match head_body(t) {
        Some((h, b)) => seq![StyleView {
            loc,
            head_fill: fill_of(d, h.border_fill_id),
            head_rule: dec(rule_of(d, h.border_fill_id) as nat),
            head_align: align_of(d, h),
            body_align: align_of(d, b),
            body_valign: valign_name(b.vertical_align),
        }],
        None => Seq::empty(),
    }
}

/// The warning for a header row filled like the body.
pub open spec fn shade_of(d: DocumentCore, t: Table, loc: Seq<char>) -> Seq<FindingView> {
    match head_body(t) {
        Some((h, b)) => if fill_of(d, h.border_fill_id) == fill_of(d, b.border_fill_id) {
            seq![FindingView {
                level: Level::Warn,
                code: "table-header-no-shade"@,
                location: loc,
                message: "머리행 채움("@ + fill_of(d, h.border_fill_id)
                    + ")이 본문과 같아 구분되지 않는다 — 관공서 작성 예시는 머리행에 음영(#d9d9d9)을 준다"@,
            }]
        } else {
            Seq::empty()
        },
        None => Seq::empty(),
    }
}

/// Where a table nested in cell `c` of the table at `loc` is reported.
pub open spec fn inner_loc(loc: Seq<char>, c: Cell) -> Seq<char> {
    loc + " cell(r"@ + dec(c.row as nat) + "c"@ + dec(c.col as nat) + ") 중첩표"@
}

/// What `f` gives for the tables among the first `j` controls of `p`.
pub open spec fn inner_controls<A>(p: Paragraph, l: Seq<char>, f: spec_fn(Table, Seq<char>) -> Seq<A>, j: nat) -> Seq<A>
    decreases j,
{
    if j == 0 {
        Seq::empty()
    } else {
        inner_controls(p, l, f, (j - 1) as nat) + match p.controls@[j - 1] {
            Control::Table(u) => f(*u, l),
            _ => Seq::<A>::empty(),
        }
    }
}

pub open spec fn inner_paras<A>(c: Cell, l: Seq<char>, f: spec_fn(Table, Seq<char>) -> Seq<A>, i: nat) -> Seq<A>
    decreases i,
{
    if i == 0 {
        Seq::empty()
    } else {
        let p = c.paragraphs@[i - 1];
        inner_paras(c, l, f, (i - 1) as nat) + inner_controls(p, l, f, p.controls@.len())
    }
}

/// What `f` gives for the tables nested in the first `k` cells of `t`.
pub open spec fn inner_cells<A>(t: Table, loc: Seq<char>, f: spec_fn(Table, Seq<char>) -> Seq<A>, k: nat) -> Seq<A>
    decreases k,
{
    if k == 0 {
        Seq::empty()
    } else {
        let c = t.cells@[k - 1];
        inner_cells(t, loc, f, (k - 1) as nat) + inner_paras(c, inner_loc(loc, c), f, c.paragraphs@.len())
    }
}

pub open spec fn style_fn(d: DocumentCore) -> spec_fn(Table, Seq<char>) -> Seq<StyleView> {
    |t: Table, l: Seq<char>| style_of(d, t, l)
}

pub open spec fn shade_fn(d: DocumentCore) -> spec_fn(Table, Seq<char>) -> Seq<FindingView> {
    |t: Table, l: Seq<char>| shade_of(d, t, l)
}

/// The style of each body table.
pub open spec fn top_styles(d: DocumentCore) -> spec_fn(nat, Section, nat, nat, Table) -> Seq<StyleView> {
    |si: nat, sec: Section, pi: nat, ci: nat, t: Table| style_of(d, t, table_loc(si, pi, ci))
}

/// The styles of the tables nested in a body table's cells.
pub open spec fn nested_styles(d: DocumentCore) -> spec_fn(nat, Section, nat, nat, Table) -> Seq<StyleView> {
    |si: nat, sec: Section, pi: nat, ci: nat, t: Table| inner_cells(t, table_loc(si, pi, ci), style_fn(d), t.cells@.len())
}

/// The header-shade warnings of a body table and of the tables nested in it.
pub open spec fn shades(d: DocumentCore) -> spec_fn(nat, Section, nat, nat, Table) -> Seq<FindingView> {
    |si: nat, sec: Section, pi: nat, ci: nat, t: Table| {
        let loc = table_loc(si, pi, ci);
        shade_of(d, t, loc) + inner_cells(t, loc, shade_fn(d), t.cells@.len())
    }
}

/// Some style is reported at `loc`.
pub open spec fn has_loc(styles: Seq<StyleView>, loc: Seq<char>) -> bool {
    exists|i: int| 0 <= i < styles.len() && #[trigger] styles[i].loc == loc
}

/// The first `k` warnings whose location is that of a compared table.
pub open spec fn kept(ws: Seq<FindingView>, styles: Seq<StyleView>, k: nat) -> Seq<FindingView>
    decreases k,
{
    if k == 0 {
        Seq::empty()
    } else {
        kept(ws, styles, (k - 1) as nat) + if has_loc(styles, ws[k - 1].location) {
            seq![ws[k - 1]]
        } else {
            Seq::empty()
        }
    }
}

/// Lexicographic order of character sequences (as strings compare).
pub open spec fn lex_lt(a: Seq<char>, b: Seq<char>) -> bool
    decreases a.len(),
{
    if a.len() == 0 {
        b.len() > 0
    } else if b.len() == 0 {
        false
    } else if a[0] == b[0] {
        lex_lt(a.drop_first(), b.drop_first())
    } else {
        (a[0] as u32) < (b[0] as u32)
    }
}

/// How often `v` occurs among the first `k` values.
pub open spec fn count_of(vals: Seq<Seq<char>>, v: Seq<char>, k: nat) -> nat
    decreases k,
{
    if k == 0 {
        0
    } else {
        count_of(vals, v, (k - 1) as nat) + if vals[k - 1] == v { 1nat } else { 0nat }
    }
}

/// `a` is preferred to `b` as the most common value: it occurs more often,
/// or as often and is the greater string.
pub open spec fn better(vals: Seq<Seq<char>>, a: Seq<char>, b: Seq<char>) -> bool {
    let ca = count_of(vals, a, vals.len());
    let cb = count_of(vals, b, vals.len());
    ca > cb || (ca == cb && lex_lt(b, a))
}

/// The preferred value among the first `k` (`k` at least 1).
pub open spec fn best(vals: Seq<Seq<char>>, k: nat) -> Seq<char>
    decreases k,
{
    if k <= 1 {
        vals[0]
    } else {
        let b = best(vals, (k - 1) as nat);
        if better(vals, vals[k - 1], b) {
            vals[k - 1]
        } else {
            b
        }
    }
}

/// The most common value; ties go to the greatest string.
pub open spec fn mode(vals: Seq<Seq<char>>) -> Seq<char> {
    best(vals, vals.len())
}

/// The modes of the five compared items.
pub struct Modes {
    pub fill: Seq<char>,
    pub rule: Seq<char>,
    pub head_align: Seq<char>,
    pub body_align: Seq<char>,
    pub valign: Seq<char>,
}

/// The compared items: 0 header fill, 1 rule under the header, 2 header
/// alignment, 3 body alignment, 4 body vertical alignment.
pub open spec fn item(s: StyleView, w: u8) -> Seq<char> {
    if w == 0 {
        s.head_fill
    } else if w == 1 {
        s.head_rule
    } else if w == 2 {
        s.head_align
    } else if w == 3 {
        s.body_align
    } else {
        s.body_valign
    }
}

/// The values of item `w` over the tables.
pub open spec fn items(styles: Seq<StyleView>, w: u8) -> Seq<Seq<char>> {
    styles.map_values(|s: StyleView| item(s, w))
}

pub open spec fn modes_of(styles: Seq<StyleView>) -> Modes {
    Modes {
        fill: mode(items(styles, 0)),
        rule: mode(items(styles, 1)),
        head_align: mode(items(styles, 2)),
        body_align: mode(items(styles, 3)),
        valign: mode(items(styles, 4)),
    }
}

pub open spec fn diff_item(label: Seq<char>, v: Seq<char>, m: Seq<char>) -> Seq<Seq<char>> {
    if v != m {
        seq![label + v + " (다수 "@ + m + ")"@]
    } else {
        Seq::empty()
    }
}

/// How a table's style differs from the modes.
pub open spec fn diffs(s: StyleView, m: Modes) -> Seq<Seq<char>> {
    diff_item("머리행 채움 "@, s.head_fill, m.fill) + diff_item("머리행 아래 선 종류 "@, s.head_rule, m.rule)
        + diff_item("머리행 정렬 "@, s.head_align, m.head_align) + diff_item("본문 정렬 "@, s.body_align, m.body_align)
        + diff_item("세로 정렬 "@, s.body_valign, m.valign)
}

/// A warning for each of the first `k` tables styled otherwise than the
/// modes.
pub open spec fn inconsistent(styles: Seq<StyleView>, m: Modes, k: nat) -> Seq<FindingView>
    decreases k,
{
    if k == 0 {
        Seq::empty()
    } else {
        let s = styles[k - 1];
        let ds = diffs(s, m);
        inconsistent(styles, m, (k - 1) as nat) + if ds.len() > 0 {
            seq![FindingView {
                level: Level::Warn,
                code: "table-style-inconsistent"@,
                location: s.loc,
                message: "문서 안 다른 표와 서식이 다름 — "@ + join_locs(ds),
            }]
        } else {
            Seq::empty()
        }
    }
}

/// The tables that are compared: the nested ones if there are any, else
/// the body tables.
pub open spec fn compared(d: DocumentCore) -> Seq<StyleView> {
    let nested = over_tables(d, nested_styles(d));
    if nested.len() > 0 {
        nested
    } else {
        over_tables(d, top_styles(d))
    }
}

/// What the table-style check reports: the header-shade warnings of the
/// compared tables, then, when at least two tables are compared, a warning
/// for each one styled otherwise than most.
pub open spec fn style_findings(d: DocumentCore) -> Seq<FindingView> {
    let styles = compared(d);
    let ws = over_tables(d, shades(d));
    let k = kept(ws, styles, ws.len());
    if styles.len() < 2 {
        k
    } else {
        k + inconsistent(styles, modes_of(styles), styles.len())
    }
}

/// What is compared of a table.
pub struct TableStyle {
    pub loc: String,
    pub head_fill: String,
    pub head_rule: String,
    pub head_align: String,
    pub body_align: String,
    pub body_valign: String,
}

impl View for TableStyle {
    type V = StyleView;

    open spec fn view(&self) -> StyleView {
        StyleView {
            loc: self.loc@,
            head_fill: self.head_fill@,
            head_rule: self.head_rule@,
            head_align: self.head_align@,
            body_align: self.body_align@,
            body_valign: self.body_valign@,
        }
    }
}

pub open spec fn styles_view(v: Seq<TableStyle>) -> Seq<StyleView> {
    v.map_values(|s: TableStyle| s@)
}

fn push_hex2(m: &mut String, n: u32)
    requires
        n < 256,
    ensures
        final(m)@ == old(m)@ + hex2(n as nat),
{
    push_char(m, digit_char((n / 16) as u64));
    push_char(m, digit_char((n % 16) as u64));
    assert(m@ =~= old(m)@ + hex2(n as nat));
}

pub(crate) fn css_color_exec(c: u32) -> (s: String)
    ensures
        s@ == css_color(c),
{
    let mut s = String::new();
    s.append("#");
    push_hex2(&mut s, c % 256);
    push_hex2(&mut s, (c / 256) % 256);
    push_hex2(&mut s, (c / 65536) % 256);
    assert(s@ =~= css_color(c));
    s
}

fn align_name_exec(a: Alignment) -> (s: &'static str)
    ensures
        s@ == align_name(a),
{
    match a {
        Alignment::Justify => "Justify",
        Alignment::Left => "Left",
        Alignment::Right => "Right",
        Alignment::Center => "Center",
        Alignment::Distribute => "Distribute",
        Alignment::Split => "Split",
    }
}

fn valign_name_exec(v: VerticalAlign) -> (s: &'static str)
    ensures
        s@ == valign_name(v),
{
    match v {
        VerticalAlign::Top => "Top",
        VerticalAlign::Center => "Center",
        VerticalAlign::Bottom => "Bottom",
    }
}

fn find_first_cell(cells: &Vec<Cell>, head: bool) -> (r: Option<usize>)
    ensures
        match r {
            Some(j) => j < cells@.len() && first_cell(cells@, head, 0) == Some(j as nat),
            None => first_cell(cells@, head, 0) is None,
        },
{
    let n = cells.len();
    let mut j: usize = 0;
    while j < n
        invariant
            n == cells@.len(),
            j <= n,
            first_cell(cells@, head, 0) == first_cell(cells@, head, j as nat),
        decreases n - j,
    {
        let row = cells[j].row;
        if (head && row == 0) || (!head && row > 0) {
            return Some(j);
        }
        j = j + 1;
    }
    None
}

fn head_body_exec(t: &Table) -> (r: Option<(usize, usize)>)
    ensures
        match r {
            Some((h, b)) => h < t.cells@.len() && b < t.cells@.len() && head_body(*t) == Some(
                (t.cells@[h as int], t.cells@[b as int]),
            ),
            None => head_body(*t) is None,
        },
{
    if t.row_count < 2 || t.col_count < 2 {
        return None;
    }
    match (find_first_cell(&t.cells, true), find_first_cell(&t.cells, false)) {
        (Some(h), Some(b)) => Some((h, b)),
        _ => None,
    }
}

impl DocumentCore {
    fn fill_of_exec(&self, id: u16) -> (s: String)
        ensures
            s@ == fill_of(*self, id),
    {
        let bfs = &self.document.doc_info.border_fills;
        if id == 0 || (id - 1) as usize >= bfs.len() {
            return String::from_str("none");
        }
        let bf = &bfs[(id - 1) as usize];
        match bf.fill.solid {
            Some(sf) => if bf.fill.fill_type == FillType::Solid {
                css_color_exec(sf.background_color)
            } else {
                String::from_str("none")
            },
            None => String::from_str("none"),
        }
    }

    fn rule_of_exec(&self, id: u16) -> (r: u8)
        ensures
            r == rule_of(*self, id),
    {
        let bfs = &self.document.doc_info.border_fills;
        if id == 0 || (id - 1) as usize >= bfs.len() {
            return 0;
        }
        bfs[(id - 1) as usize].borders[3].line_type
    }

    fn align_of_exec(&self, c: &Cell) -> (s: &'static str)
        ensures
            s@ == align_of(*self, *c),
    {
        let shapes = &self.document.doc_info.para_shapes;
        if c.paragraphs.len() == 0 {
            return "?";
        }
        let id = c.paragraphs[0].para_shape_id as usize;
        if id < shapes.len() {
            align_name_exec(shapes[id].alignment)
        } else {
            "?"
        }
    }

    /// The style of one table (if it has a header row and a body) and the
    /// warning for a header filled like the body.
    fn style_one(&self, t: &Table, loc: &str, out: &mut Vec<TableStyle>, shade: &mut Vec<Finding>)
        ensures
            styles_view(final(out)@) == styles_view(old(out)@) + style_of(*self, *t, loc@),
            findings_view(final(shade)@) == findings_view(old(shade)@) + shade_of(*self, *t, loc@),
    {
        match head_body_exec(t) {
            None => {
                assert(styles_view(out@) =~= styles_view(out@) + style_of(*self, *t, loc@));
                assert(findings_view(shade@) =~= findings_view(shade@) + shade_of(*self, *t, loc@));
            },
            Some((h, b)) => {
                let h0 = &t.cells[h];
                let b0 = &t.cells[b];
                let head_fill = self.fill_of_exec(h0.border_fill_id);
                let body_fill = self.fill_of_exec(b0.border_fill_id);
                let mut rule = String::new();
                push_dec(&mut rule, self.rule_of_exec(h0.border_fill_id) as u64);
                let st = TableStyle {
                    loc: String::from_str(loc),
                    head_fill: head_fill.clone(),
                    head_rule: rule,
                    head_align: String::from_str(self.align_of_exec(h0)),
                    body_align: String::from_str(self.align_of_exec(b0)),
                    body_valign: String::from_str(valign_name_exec(b0.vertical_align)),
                };
                assert(rule@ =~= dec(rule_of(*self, h0.border_fill_id) as nat));
                out.push(st);
                assert(styles_view(out@) =~= styles_view(old(out)@) + style_of(*self, *t, loc@));
                if head_fill == body_fill {
                    let mut m = String::new();
                    m.append("머리행 채움(");
                    m.append(head_fill.as_str());
                    m.append(")이 본문과 같아 구분되지 않는다 — 관공서 작성 예시는 머리행에 음영(#d9d9d9)을 준다");
                    let f = Finding { level: Level::Warn, code: "table-header-no-shade", location: String::from_str(loc), message: m };
                    proof {
                        lemma_findings_push(shade@, f);
                    }
                    shade.push(f);
                }
                assert(findings_view(shade@) =~= findings_view(old(shade)@) + shade_of(*self, *t, loc@));
            },
        }
    }
}

impl DocumentCore {
    fn styles_in_para(&self, p: &Paragraph, il: &str, nested: &mut Vec<TableStyle>, shade: &mut Vec<Finding>)
        ensures
            styles_view(final(nested)@) == styles_view(old(nested)@) + inner_controls(*p, il@, style_fn(*self), p.controls@.len()),
            findings_view(final(shade)@) == findings_view(old(shade)@) + inner_controls(*p, il@, shade_fn(*self), p.controls@.len()),
    {
        let ghost n0 = styles_view(nested@);
        let ghost s0 = findings_view(shade@);
        let n = p.controls.len();
        for j in 0..n
            invariant
                n == p.controls@.len(),
                styles_view(nested@) == n0 + inner_controls(*p, il@, style_fn(*self), j as nat),
                findings_view(shade@) == s0 + inner_controls(*p, il@, shade_fn(*self), j as nat),
        {
            match &p.controls[j] {
                Control::Table(u) => {
                    self.style_one(u, il, nested, shade);
                },
                _ => {},
            }
            assert(styles_view(nested@) =~= n0 + inner_controls(*p, il@, style_fn(*self), (j + 1) as nat));
            assert(findings_view(shade@) =~= s0 + inner_controls(*p, il@, shade_fn(*self), (j + 1) as nat));
        }
    }

    fn styles_in_cell(&self, c: &Cell, il: &str, nested: &mut Vec<TableStyle>, shade: &mut Vec<Finding>)
        ensures
            styles_view(final(nested)@) == styles_view(old(nested)@) + inner_paras(*c, il@, style_fn(*self), c.paragraphs@.len()),
            findings_view(final(shade)@) == findings_view(old(shade)@) + inner_paras(*c, il@, shade_fn(*self), c.paragraphs@.len()),
    {
        let ghost n0 = styles_view(nested@);
        let ghost s0 = findings_view(shade@);
        let n = c.paragraphs.len();
        for i in 0..n
            invariant
                n == c.paragraphs@.len(),
                styles_view(nested@) == n0 + inner_paras(*c, il@, style_fn(*self), i as nat),
                findings_view(shade@) == s0 + inner_paras(*c, il@, shade_fn(*self), i as nat),
        {
            self.styles_in_para(&c.paragraphs[i], il, nested, shade);
            assert(styles_view(nested@) =~= n0 + inner_paras(*c, il@, style_fn(*self), (i + 1) as nat));
            assert(findings_view(shade@) =~= s0 + inner_paras(*c, il@, shade_fn(*self), (i + 1) as nat));
        }
    }

    /// The styles and shade warnings of one body table and its nested tables.
    fn styles_in_table(
        &self,
        si: usize,
        sec: &Section,
        pi: usize,
        ci: usize,
        t: &Table,
        top: &mut Vec<TableStyle>,
        nested: &mut Vec<TableStyle>,
        shade: &mut Vec<Finding>,
    )
        ensures
            styles_view(final(top)@) == styles_view(old(top)@) + (top_styles(*self))(si as nat, *sec, pi as nat, ci as nat, *t),
            styles_view(final(nested)@) == styles_view(old(nested)@) + (nested_styles(*self))(si as nat, *sec, pi as nat, ci as nat, *t),
            findings_view(final(shade)@) == findings_view(old(shade)@) + (shades(*self))(si as nat, *sec, pi as nat, ci as nat, *t),
    {
        let mut loc = String::new();
        loc.append("sec");
        push_dec(&mut loc, si as u64);
        loc.append(" para");
        push_dec(&mut loc, pi as u64);
        loc.append(" ctrl");
        push_dec(&mut loc, ci as u64);
        assert(loc@ =~= table_loc(si as nat, pi as nat, ci as nat));
        self.style_one(t, loc.as_str(), top, shade);
        let ghost n0 = styles_view(nested@);
        let ghost s0 = findings_view(shade@);
        let n = t.cells.len();
        for k in 0..n
            invariant
                n == t.cells@.len(),
                loc@ == table_loc(si as nat, pi as nat, ci as nat),
                styles_view(nested@) == n0 + inner_cells(*t, loc@, style_fn(*self), k as nat),
                findings_view(shade@) == s0 + inner_cells(*t, loc@, shade_fn(*self), k as nat),
        {
            let c = &t.cells[k];
            let mut il = loc.clone();
            il.append(" cell(r");
            push_dec(&mut il, c.row as u64);
            il.append("c");
            push_dec(&mut il, c.col as u64);
            il.append(") 중첩표");
            assert(il@ =~= inner_loc(loc@, *c));
            self.styles_in_cell(c, il.as_str(), nested, shade);
            assert(styles_view(nested@) =~= n0 + inner_cells(*t, loc@, style_fn(*self), (k + 1) as nat));
            assert(findings_view(shade@) =~= s0 + inner_cells(*t, loc@, shade_fn(*self), (k + 1) as nat));
        }
        assert(findings_view(shade@) =~= findings_view(old(shade)@) + (shades(*self))(si as nat, *sec, pi as nat, ci as nat, *t));
        assert(styles_view(nested@) =~= styles_view(old(nested)@) + (nested_styles(*self))(si as nat, *sec, pi as nat, ci as nat, *t));
    }
}

impl DocumentCore {
    /// The styles of the body tables, of the tables nested in them, and the
    /// header-shade warnings of both, in document order.
    fn collect_styles(&self, top: &mut Vec<TableStyle>, nested: &mut Vec<TableStyle>, shade: &mut Vec<Finding>)
        requires
            old(top)@.len() == 0,
            old(nested)@.len() == 0,
            old(shade)@.len() == 0,
        ensures
            styles_view(final(top)@) == over_tables(*self, top_styles(*self)),
            styles_view(final(nested)@) == over_tables(*self, nested_styles(*self)),
            findings_view(final(shade)@) == over_tables(*self, shades(*self)),
    {
        let ghost ft = top_styles(*self);
        let ghost fn_ = nested_styles(*self);
        let ghost fs = shades(*self);
        assert(styles_view(top@) =~= Seq::<StyleView>::empty());
        assert(styles_view(nested@) =~= Seq::<StyleView>::empty());
        assert(findings_view(shade@) =~= Seq::<FindingView>::empty());
        let ns = self.document.sections.len();
        for si in 0..ns
            invariant
                ns == self.document.sections@.len(),
                ft == top_styles(*self),
                fn_ == nested_styles(*self),
                fs == shades(*self),
                styles_view(top@) == in_sections(*self, ft, si as nat),
                styles_view(nested@) == in_sections(*self, fn_, si as nat),
                findings_view(shade@) == in_sections(*self, fs, si as nat),
        {
            let sec = &self.document.sections[si];
            let np = sec.paragraphs.len();
            for pi in 0..np
                invariant
                    np == sec.paragraphs@.len(),
                    *sec == self.document.sections@[si as int],
                    ft == top_styles(*self),
                    fn_ == nested_styles(*self),
                    fs == shades(*self),
                    styles_view(top@) == in_sections(*self, ft, si as nat) + in_paras(si as nat, *sec, ft, pi as nat),
                    styles_view(nested@) == in_sections(*self, fn_, si as nat) + in_paras(si as nat, *sec, fn_, pi as nat),
                    findings_view(shade@) == in_sections(*self, fs, si as nat) + in_paras(si as nat, *sec, fs, pi as nat),
            {
                let para = &sec.paragraphs[pi];
                let nc = para.controls.len();
                for ci in 0..nc
                    invariant
                        nc == para.controls@.len(),
                        *para == sec.paragraphs@[pi as int],
                        ft == top_styles(*self),
                        fn_ == nested_styles(*self),
                        fs == shades(*self),
                        styles_view(top@) == in_sections(*self, ft, si as nat) + in_paras(si as nat, *sec, ft, pi as nat)
                            + in_controls(si as nat, *sec, pi as nat, *para, ft, ci as nat),
                        styles_view(nested@) == in_sections(*self, fn_, si as nat) + in_paras(si as nat, *sec, fn_, pi as nat)
                            + in_controls(si as nat, *sec, pi as nat, *para, fn_, ci as nat),
                        findings_view(shade@) == in_sections(*self, fs, si as nat) + in_paras(si as nat, *sec, fs, pi as nat)
                            + in_controls(si as nat, *sec, pi as nat, *para, fs, ci as nat),
                {
                    match &para.controls[ci] {
                        Control::Table(t) => {
                            self.styles_in_table(si, sec, pi, ci, t, top, nested, shade);
                        },
                        _ => {},
                    }
                    assert(styles_view(top@) =~= in_sections(*self, ft, si as nat) + in_paras(si as nat, *sec, ft, pi as nat)
                        + in_controls(si as nat, *sec, pi as nat, *para, ft, (ci + 1) as nat));
                    assert(styles_view(nested@) =~= in_sections(*self, fn_, si as nat) + in_paras(si as nat, *sec, fn_, pi as nat)
                        + in_controls(si as nat, *sec, pi as nat, *para, fn_, (ci + 1) as nat));
                    assert(findings_view(shade@) =~= in_sections(*self, fs, si as nat) + in_paras(si as nat, *sec, fs, pi as nat)
                        + in_controls(si as nat, *sec, pi as nat, *para, fs, (ci + 1) as nat));
                }
                assert(styles_view(top@) =~= in_sections(*self, ft, si as nat) + in_paras(si as nat, *sec, ft, (pi + 1) as nat));
                assert(styles_view(nested@) =~= in_sections(*self, fn_, si as nat) + in_paras(si as nat, *sec, fn_, (pi + 1) as nat));
                assert(findings_view(shade@) =~= in_sections(*self, fs, si as nat) + in_paras(si as nat, *sec, fs, (pi + 1) as nat));
            }
            assert(styles_view(top@) =~= in_sections(*self, ft, (si + 1) as nat));
            assert(styles_view(nested@) =~= in_sections(*self, fn_, (si + 1) as nat));
            assert(findings_view(shade@) =~= in_sections(*self, fs, (si + 1) as nat));
        }
    }
}

pub open spec fn strs_view(v: Seq<String>) -> Seq<Seq<char>> {
    v.map_values(|s: String| s@)
}

fn lex_less(a: &Vec<char>, b: &Vec<char>) -> (r: bool)
    ensures
        r == lex_lt(a@, b@),
{
    let mut i: usize = 0;
    assert(a@.skip(0) =~= a@);
    assert(b@.skip(0) =~= b@);
    loop
        invariant
            i <= a@.len(),
            i <= b@.len(),
            lex_lt(a@, b@) == lex_lt(a@.skip(i as int), b@.skip(i as int)),
        decreases a@.len() - i,
    {
        if i == a.len() {
            return i < b.len();
        }
        if i == b.len() {
            return false;
        }
        if a[i] != b[i] {
            return (a[i] as u32) < (b[i] as u32);
        }
        assert(a@.skip(i as int).drop_first() =~= a@.skip(i + 1));
        assert(b@.skip(i as int).drop_first() =~= b@.skip(i + 1));
        i = i + 1;
    }
}

fn count_exec(vals: &Vec<String>, v: &String) -> (c: usize)
    ensures
        c == count_of(strs_view(vals@), v@, vals@.len()),
{
    let ghost sv = strs_view(vals@);
    let n = vals.len();
    let mut c: usize = 0;
    for k in 0..n
        invariant
            n == vals@.len(),
            sv == strs_view(vals@),
            c == count_of(sv, v@, k as nat),
            c <= k,
    {
        if vals[k] == *v {
            c = c + 1;
        }
    }
    c
}

/// The most common of the values; ties go to the greatest string.
pub fn mode_exec(vals: &Vec<String>) -> (m: String)
    requires
        vals@.len() >= 1,
    ensures
        m@ == mode(strs_view(vals@)),
{
    let ghost sv = strs_view(vals@);
    let n = vals.len();
    let mut b: usize = 0;
    let mut cb = count_exec(vals, &vals[0]);
    let mut bc = chars_of(vals[0].as_str());
    let mut k: usize = 1;
    while k < n
        invariant
            n == vals@.len(),
            sv == strs_view(vals@),
            1 <= k <= n,
            b < n,
            sv[b as int] == best(sv, k as nat),
            cb == count_of(sv, sv[b as int], n as nat),
            bc@ == sv[b as int],
        decreases n - k,
    {
        let ck = count_exec(vals, &vals[k]);
        let kc = chars_of(vals[k].as_str());
        if ck > cb || (ck == cb && lex_less(&bc, &kc)) {
            b = k;
            cb = ck;
            bc = kc;
        }
        k = k + 1;
    }
    vals[b].clone()
}

/// The values of item `w` over the tables.
fn items_exec(styles: &Vec<TableStyle>, w: u8) -> (r: Vec<String>)
    ensures
        strs_view(r@) == items(styles_view(styles@), w),
        r@.len() == styles@.len(),
{
    let mut r: Vec<String> = Vec::new();
    let n = styles.len();
    for k in 0..n
        invariant
            n == styles@.len(),
            strs_view(r@) == items(styles_view(styles@), w).take(k as int),
    {
        let s = &styles[k];
        let v = if w == 0 {
            s.head_fill.clone()
        } else if w == 1 {
            s.head_rule.clone()
        } else if w == 2 {
            s.head_align.clone()
        } else if w == 3 {
            s.body_align.clone()
        } else {
            s.body_valign.clone()
        };
        assert(styles_view(styles@)[k as int] == s@);
        assert(v@ == item(s@, w));
        let ghost r0 = r@;
        r.push(v);
        assert(strs_view(r@) =~= strs_view(r0).push(v@));
        assert(items(styles_view(styles@), w)[k as int] == item(s@, w));
        assert(strs_view(r@) =~= items(styles_view(styles@), w).take((k + 1) as int));
    }
    assert(items(styles_view(styles@), w).take(n as int) =~= items(styles_view(styles@), w));
    r
}

fn loc_in(styles: &Vec<TableStyle>, loc: &String) -> (b: bool)
    ensures
        b == has_loc(styles_view(styles@), loc@),
{
    let n = styles.len();
    for k in 0..n
        invariant
            n == styles@.len(),
            forall|i: int| 0 <= i < k ==> #[trigger] styles_view(styles@)[i].loc != loc@,
    {
        if styles[k].loc == *loc {
            assert(styles_view(styles@)[k as int].loc == loc@);
            return true;
        }
    }
    false
}

fn push_diff(ds: &mut Vec<String>, label: &str, v: &String, m: &String)
    ensures
        strs_view(final(ds)@) == strs_view(old(ds)@) + diff_item(label@, v@, m@),
{
    if *v != *m {
        let mut e = String::from_str(label);
        e.append(v.as_str());
        e.append(" (다수 ");
        e.append(m.as_str());
        e.append(")");
        let ghost d0 = ds@;
        ds.push(e);
        assert(strs_view(ds@) =~= strs_view(d0) + diff_item(label@, v@, m@));
    } else {
        assert(strs_view(ds@) =~= strs_view(ds@) + diff_item(label@, v@, m@));
    }
}

/// The modes as strings.
struct ModeStrings {
    fill: String,
    rule: String,
    head_align: String,
    body_align: String,
    valign: String,
}

fn style_diffs(s: &TableStyle, m: &ModeStrings) -> (ds: Vec<String>)
    ensures
        strs_view(ds@) == diffs(
            s@,
            Modes {
                fill: m.fill@,
                rule: m.rule@,
                head_align: m.head_align@,
                body_align: m.body_align@,
                valign: m.valign@,
            },
        ),
{
    let mut ds: Vec<String> = Vec::new();
    assert(strs_view(ds@) =~= Seq::<Seq<char>>::empty());
    push_diff(&mut ds, "머리행 채움 ", &s.head_fill, &m.fill);
    push_diff(&mut ds, "머리행 아래 선 종류 ", &s.head_rule, &m.rule);
    push_diff(&mut ds, "머리행 정렬 ", &s.head_align, &m.head_align);
    push_diff(&mut ds, "본문 정렬 ", &s.body_align, &m.body_align);
    push_diff(&mut ds, "세로 정렬 ", &s.body_valign, &m.valign);
    ds
}

impl DocumentCore {
    /// Checks whether the tables are styled alike. The nested tables (those
    /// placed in answer cells) are compared among themselves when there are
    /// any, else the body tables are; a table needs two rows and two columns
    /// to be compared. Reports a compared table whose header row is filled
    /// like its body, and, when at least two tables are compared, each table
    /// whose header fill, rule under the header, header or body alignment or
    /// vertical alignment differs from the most common one.
    pub fn lint_table_style(&self, findings: &mut Vec<Finding>)
        ensures
            findings_view(final(findings)@) == findings_view(old(findings)@) + style_findings(*self),
    {
        let ghost f0 = findings_view(findings@);
        let mut top: Vec<TableStyle> = Vec::new();
        let mut nested: Vec<TableStyle> = Vec::new();
        let mut shade: Vec<Finding> = Vec::new();
        self.collect_styles(&mut top, &mut nested, &mut shade);
        let styles = if nested.len() > 0 { nested } else { top };
        let ghost sv = styles_view(styles@);
        assert(sv == compared(*self));
        let ghost ws = findings_view(shade@);
        let n = shade.len();
        for k in 0..n
            invariant
                n == shade@.len(),
                ws == findings_view(shade@),
                sv == styles_view(styles@),
                findings_view(findings@) == f0 + kept(ws, sv, k as nat),
        {
            let w = &shade[k];
            if loc_in(&styles, &w.location) {
                let f = Finding { level: w.level, code: w.code, location: w.location.clone(), message: w.message.clone() };
                assert(f@ == ws[k as int]);
                proof {
                    lemma_findings_push(findings@, f);
                }
                findings.push(f);
            }
            assert(findings_view(findings@) =~= f0 + kept(ws, sv, (k + 1) as nat));
        }
        let ghost f1 = findings_view(findings@);
        if styles.len() < 2 {
            return;
        }
        let m = ModeStrings {
            fill: mode_exec(&items_exec(&styles, 0)),
            rule: mode_exec(&items_exec(&styles, 1)),
            head_align: mode_exec(&items_exec(&styles, 2)),
            body_align: mode_exec(&items_exec(&styles, 3)),
            valign: mode_exec(&items_exec(&styles, 4)),
        };
        let ghost mv = Modes {
            fill: m.fill@,
            rule: m.rule@,
            head_align: m.head_align@,
            body_align: m.body_align@,
            valign: m.valign@,
        };
        assert(mv == modes_of(sv));
        let ns = styles.len();
        for k in 0..ns
            invariant
                ns == styles@.len(),
                sv == styles_view(styles@),
                mv == modes_of(sv),
                mv == (Modes {
                    fill: m.fill@,
                    rule: m.rule@,
                    head_align: m.head_align@,
                    body_align: m.body_align@,
                    valign: m.valign@,
                }),
                findings_view(findings@) == f1 + inconsistent(sv, mv, k as nat),
        {
            let s = &styles[k];
            let ds = style_diffs(s, &m);
            assert(sv[k as int] == s@);
            if ds.len() > 0 {
                let mut msg = String::new();
                msg.append("문서 안 다른 표와 서식이 다름 — ");
                let joined = join(&ds, ", ");
                msg.append(joined.as_str());
                let f = Finding { level: Level::Warn, code: "table-style-inconsistent", location: s.loc.clone(), message: msg };
                proof {
                    lemma_findings_push(findings@, f);
                }
                findings.push(f);
            }
            assert(findings_view(findings@) =~= f1 + inconsistent(sv, mv, (k + 1) as nat));
        }
    }
}

proof fn lemma_lex_trans(a: Seq<char>, b: Seq<char>, c: Seq<char>)
    requires
        lex_lt(a, b),
        lex_lt(b, c),
    ensures
        lex_lt(a, c),
    decreases a.len(),
{
    if a.len() > 0 && b.len() > 0 && c.len() > 0 && a[0] == b[0] && b[0] == c[0] {
        lemma_lex_trans(a.drop_first(), b.drop_first(), c.drop_first());
    }
}

proof fn lemma_lex_irrefl(a: Seq<char>)
    ensures
        !lex_lt(a, a),
    decreases a.len(),
{
    if a.len() > 0 {
        lemma_lex_irrefl(a.drop_first());
    }
}

proof fn lemma_better_trans(vals: Seq<Seq<char>>, a: Seq<char>, b: Seq<char>, c: Seq<char>)
    requires
        better(vals, a, b),
        better(vals, b, c),
    ensures
        better(vals, a, c),
{
    let ca = count_of(vals, a, vals.len());
    let cb = count_of(vals, b, vals.len());
    let cc = count_of(vals, c, vals.len());
    if ca == cb && cb == cc {
        lemma_lex_trans(c, b, a);
    }
}

proof fn lemma_best(vals: Seq<Seq<char>>, k: nat)
    requires
        1 <= k <= vals.len(),
    ensures
        forall|i: int| 0 <= i < k ==> !better(vals, #[trigger] vals[i], best(vals, k)),
        exists|i: int| 0 <= i < k && vals[i] == best(vals, k),
    decreases k,
{
    if k == 1 {
        lemma_lex_irrefl(vals[0]);
        assert(vals[0] == best(vals, k));
    } else {
        lemma_best(vals, (k - 1) as nat);
        let b = best(vals, (k - 1) as nat);
        let e = vals[k - 1];
        if better(vals, e, b) {
            assert forall|i: int| 0 <= i < k implies !better(vals, #[trigger] vals[i], best(vals, k)) by {
                if i == k - 1 {
                    lemma_lex_irrefl(e);
                } else if better(vals, vals[i], e) {
                    lemma_better_trans(vals, vals[i], e, b);
                }
            }
            assert(vals[k - 1] == best(vals, k));
        } else {
            assert forall|i: int| 0 <= i < k implies !better(vals, #[trigger] vals[i], best(vals, k)) by {
                if i < k - 1 {
                    assert(!better(vals, vals[i], b));
                }
            }
        }
    }
}

/// The value a table is compared with is the most common one: it is one
/// of the values, none occurs more often, and none that occurs as often is
/// a greater string.
pub proof fn law_mode_is_most_common(vals: Seq<Seq<char>>)
    requires
        vals.len() > 0,
    ensures
        exists|i: int| 0 <= i < vals.len() && vals[i] == mode(vals),
        forall|i: int|
            0 <= i < vals.len() ==> count_of(vals, #[trigger] vals[i], vals.len()) <= count_of(vals, mode(vals), vals.len()),
        forall|i: int|
            0 <= i < vals.len() && count_of(vals, #[trigger] vals[i], vals.len()) == count_of(vals, mode(vals), vals.len())
                ==> !lex_lt(mode(vals), vals[i]),
{
    lemma_best(vals, vals.len());
    assert forall|i: int| 0 <= i < vals.len() implies count_of(vals, #[trigger] vals[i], vals.len()) <= count_of(vals, mode(vals), vals.len()) by {
        assert(!better(vals, vals[i], mode(vals)));
    }
    assert forall|i: int|
        0 <= i < vals.len() && count_of(vals, #[trigger] vals[i], vals.len()) == count_of(vals, mode(vals), vals.len())
            implies !lex_lt(mode(vals), vals[i]) by {
        assert(!better(vals, vals[i], mode(vals)));
    }
}

/// With fewer than two tables to compare there is nothing to compare them
/// with: only the header-shade warnings of the compared tables are reported.
pub proof fn law_no_majority_without_two_tables(d: DocumentCore)
    requires
        compared(d).len() < 2,
    ensures
        style_findings(d) == kept(over_tables(d, shades(d)), compared(d), over_tables(d, shades(d)).len()),
{
}

/// Only a table that differs from the most common style is reported: each
/// inconsistency warning stands at a compared table whose style differs from
/// the modes, and says how.
pub proof fn law_only_differing_tables_are_reported(styles: Seq<StyleView>, m: Modes, k: nat, j: int)
    requires
        k <= styles.len(),
        0 <= j < inconsistent(styles, m, k).len(),
    ensures
        exists|x: int|
            0 <= x < k && #[trigger] styles[x].loc == inconsistent(styles, m, k)[j].location && diffs(styles[x], m).len() > 0
                && inconsistent(styles, m, k)[j].message == "문서 안 다른 표와 서식이 다름 — "@ + join_locs(diffs(styles[x], m)),
    decreases k,
{
    let prev = inconsistent(styles, m, (k - 1) as nat);
    if j < prev.len() {
        law_only_differing_tables_are_reported(styles, m, (k - 1) as nat, j);
        assert(inconsistent(styles, m, k)[j] == prev[j]);
    } else {
        assert(styles[k - 1].loc == inconsistent(styles, m, k)[j].location);
    }
}

} // verus!
