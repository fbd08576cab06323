//! The structural checks of every body table and its cells: border/fill and
//! shape ids that point nowhere, cells taller than a page, vertically
//! centred cells with slack, nested tables' headers, and repeated instance
//! ids.
use vstd::prelude::*;
use crate::lint_base::{body_height, findings_view, lemma_findings_push, page_body_height, Finding, FindingView, Level};
use crate::lint_pushed::{cell_used, cell_used_exec};
use crate::lint_table::{
    common_event, common_findings, lemma_register_all_concat, lemma_register_all_push, lint_table_common,
    register_all, registry_view,
};
use crate::lint_walk::{in_controls, in_paras, in_sections, over_tables};
use crate::model::{Cell, Control, DocumentCore, Paragraph, Section, Table, VerticalAlign};
use crate::num::{dec, dec_int, hex_alt, push_dec, push_dec_i64, push_hex_alt};
use crate::text::{join, joined};

verus! {

pub open spec fn table_loc(si: nat, pi: nat, ci: nat) -> Seq<char> {
    "sec"@ + dec(si) + " para"@ + dec(pi) + " ctrl"@ + dec(ci)
}

pub open spec fn cell_loc_k(loc: Seq<char>, k: nat, c: Cell) -> Seq<char> {
    loc + " cell"@ + dec(k) + "(r"@ + dec(c.row as nat) + "c"@ + dec(c.col as nat) + ")"@
}

pub open spec fn nested_loc(cloc: Seq<char>) -> Seq<char> {
    cloc + " 중첩표"@
}

/// The common-header findings of the nested tables among a paragraph's
/// first `j` controls.
pub open spec fn nested_commons(p: Paragraph, nloc: Seq<char>, bf: nat, j: nat) -> Seq<FindingView>
    decreases j,
{
    if j == 0 {
        Seq::empty()
    } else {
        nested_commons(p, nloc, bf, (j - 1) as nat) + match p.controls@[j - 1] {
            Control::Table(t) => common_findings(*t, nloc, true, bf),
            _ => Seq::empty(),
        }
    }
}

/// The instance ids that the nested tables among the first `j` controls
/// register.
pub open spec fn nested_events(p: Paragraph, nloc: Seq<char>, j: nat) -> Seq<(u32, Seq<char>)>
    decreases j,
{
    if j == 0 {
        Seq::empty()
    } else {
        nested_events(p, nloc, (j - 1) as nat) + match p.controls@[j - 1] {
            Control::Table(t) => common_event(*t, nloc),
            _ => Seq::empty(),
        }
    }
}

/// Character shape references among the first `j` that point beyond the
/// document's character shapes.
pub open spec fn charshape_checks(p: Paragraph, cloc: Seq<char>, cs: nat, j: nat) -> Seq<FindingView>
    decreases j,
{
    if j == 0 {
        Seq::empty()
    } else {
        let id = p.char_shapes@[j - 1].char_shape_id;
        charshape_checks(p, cloc, cs, (j - 1) as nat) + if id >= (if cs > 0 { cs } else { 1 }) {
            seq![FindingView {
                level: Level::Error,
                code: "charshape-dangling"@,
                location: cloc,
                message: "글자모양 id "@ + dec(id as nat) + " 범위 초과("@ + dec(cs) + "개)"@,
            }]
        } else {
            Seq::empty()
        }
    }
}

/// What the checks find in one cell paragraph: its nested tables, its
/// paragraph shape and its character shapes.
pub open spec fn cell_para_checks(p: Paragraph, cloc: Seq<char>, bf: nat, ps: nat, cs: nat) -> Seq<FindingView> {
    nested_commons(p, nested_loc(cloc), bf, p.controls@.len()) + (if p.para_shape_id >= (if ps > 0 { ps } else { 1 }) {
        seq![FindingView {
            level: Level::Error,
            code: "parashape-dangling"@,
            location: cloc,
            message: "문단모양 id "@ + dec(p.para_shape_id as nat) + " 범위 초과("@ + dec(ps) + "개)"@,
        }]
    } else {
        Seq::empty()
    }) + charshape_checks(p, cloc, cs, p.char_shapes@.len())
}

pub open spec fn cell_paras_checks(c: Cell, cloc: Seq<char>, bf: nat, ps: nat, cs: nat, j: nat) -> Seq<FindingView>
    decreases j,
{
    if j == 0 {
        Seq::empty()
    } else {
        cell_paras_checks(c, cloc, bf, ps, cs, (j - 1) as nat) + cell_para_checks(c.paragraphs@[j - 1], cloc, bf, ps, cs)
    }
}

pub open spec fn cell_paras_events(c: Cell, nloc: Seq<char>, j: nat) -> Seq<(u32, Seq<char>)>
    decreases j,
{
    if j == 0 {
        Seq::empty()
    } else {
        let p = c.paragraphs@[j - 1];
        cell_paras_events(c, nloc, (j - 1) as nat) + nested_events(p, nloc, p.controls@.len())
    }
}

/// What the checks find in one cell of a body table.
pub open spec fn cell_checks(sec: Section, c: Cell, cloc: Seq<char>, bf: nat, ps: nat, cs: nat) -> Seq<FindingView> {
    let border = if c.border_fill_id == 0 {
        seq![FindingView {
            level: Level::Warn,
            code: "cell-borderfill-zero"@,
            location: cloc,
            message: "셀 borderFillId 0 — 한컴에서 무테·무채움으로 보인다"@,
        }]
    } else if c.border_fill_id > bf {
        seq![FindingView {
            level: Level::Error,
            code: "cell-borderfill-dangling"@,
            location: cloc,
            message: "셀 borderFillId "@ + dec(c.border_fill_id as nat) + " 가 DocInfo("@ + dec(bf)
                + "개) 범위를 벗어남 — 재로드 시 0으로 클램프"@,
        }]
    } else {
        Seq::empty()
    };
    let taller = if c.height > body_height(sec) {
        seq![FindingView {
            level: Level::Info,
            code: "cell-taller-than-page"@,
            location: cloc,
            message: "셀 높이 "@ + dec(c.height as nat) + " > 페이지 내지 "@ + dec_int(body_height(sec))
                + " — 페이지 이월 셀. 데스크톱 한글은 이어 그리지만 한컴독스 웹·업스트림 뷰어는 초과분을 자른다"@,
        }]
    } else {
        Seq::empty()
    };
    let slack = c.height - cell_used(c);
    let slack_f = if c.vertical_align != VerticalAlign::Top && slack > 3000 && c.paragraphs@.len() > 0 {
        seq![FindingView {
            level: Level::Warn,
            code: "cell-valign-slack"@,
            location: cloc,
            message: "세로 "@ + (if c.vertical_align == VerticalAlign::Center { "가운데"@ } else { "아래"@ })
                + "정렬 + 여유 "@ + dec_int(slack) + "HWPU — 한컴에서 내용 위에 공백이 뜬다 (위 정렬 권장)"@,
        }]
    } else {
        Seq::empty()
    };
    border + cell_paras_checks(c, cloc, bf, ps, cs, c.paragraphs@.len()) + taller + slack_f
}

pub open spec fn table_cells_checks(sec: Section, t: Table, loc: Seq<char>, bf: nat, ps: nat, cs: nat, k: nat) -> Seq<FindingView>
    decreases k,
{
    if k == 0 {
        Seq::empty()
    } else {
        let c = t.cells@[k - 1];
        table_cells_checks(sec, t, loc, bf, ps, cs, (k - 1) as nat) + cell_checks(sec, c, cell_loc_k(loc, (k - 1) as nat, c), bf, ps, cs)
    }
}

pub open spec fn table_cells_events(t: Table, loc: Seq<char>, k: nat) -> Seq<(u32, Seq<char>)>
    decreases k,
{
    if k == 0 {
        Seq::empty()
    } else {
        let c = t.cells@[k - 1];
        table_cells_events(t, loc, (k - 1) as nat) + cell_paras_events(c, nested_loc(cell_loc_k(loc, (k - 1) as nat, c)), c.paragraphs@.len())
    }
}

/// The structural checks of one body table, given the numbers of
/// border/fill, paragraph shape and character shape entries.
pub open spec fn structure_check(bf: nat, ps: nat, cs: nat) -> spec_fn(nat, Section, nat, nat, Table) -> Seq<FindingView> {
    |si: nat, sec: Section, pi: nat, ci: nat, t: Table| {
        let loc = table_loc(si, pi, ci);
        common_findings(t, loc, false, bf) + table_cells_checks(sec, t, loc, bf, ps, cs, t.cells@.len())
    }
}

/// The instance ids that a body table and its nested tables register.
pub open spec fn structure_events() -> spec_fn(nat, Section, nat, nat, Table) -> Seq<(u32, Seq<char>)> {
    |si: nat, sec: Section, pi: nat, ci: nat, t: Table| {
        let loc = table_loc(si, pi, ci);
        common_event(t, loc) + table_cells_events(t, loc, t.cells@.len())
    }
}

fn finding(level: Level, code: &'static str, location: String, message: String) -> (f: Finding)
    ensures
        f@ == (FindingView { level, code: code@, location: location@, message: message@ }),
{
    Finding { level, code, location, message }
}

/// Common-header checks of the nested tables of one cell paragraph.
fn check_nested(
    p: &Paragraph,
    nloc: &str,
    findings: &mut Vec<Finding>,
    iids: &mut Vec<(u32, Vec<String>)>,
    bf: usize,
)
    ensures
        findings_view(final(findings)@) == findings_view(old(findings)@) + nested_commons(*p, nloc@, bf as nat, p.controls@.len()),
        registry_view(final(iids)@) == register_all(registry_view(old(iids)@), nested_events(*p, nloc@, p.controls@.len())),
{
    let ghost f0 = findings_view(findings@);
    let ghost r0 = registry_view(iids@);
    let n = p.controls.len();
    for j in 0..n
        invariant
            n == p.controls@.len(),
            findings_view(findings@) == f0 + nested_commons(*p, nloc@, bf as nat, j as nat),
            registry_view(iids@) == register_all(r0, nested_events(*p, nloc@, j as nat)),
    {
        match &p.controls[j] {
            Control::Table(t) => {
                let ghost rb = registry_view(iids@);
                lint_table_common(t, nloc, true, findings, iids, bf);
                proof {
                    lemma_register_all_concat(r0, nested_events(*p, nloc@, j as nat), common_event(**t, nloc@));
                }
            },
            _ => {
                assert(nested_events(*p, nloc@, (j + 1) as nat) =~= nested_events(*p, nloc@, j as nat));
            },
        }
        assert(findings_view(findings@) =~= f0 + nested_commons(*p, nloc@, bf as nat, (j + 1) as nat));
    }
}

/// Character shape references of one paragraph that point nowhere.
fn check_charshapes(p: &Paragraph, cloc: &str, findings: &mut Vec<Finding>, cs: usize)
    ensures
        findings_view(final(findings)@) == findings_view(old(findings)@) + charshape_checks(*p, cloc@, cs as nat, p.char_shapes@.len()),
{
    let ghost f0 = findings_view(findings@);
    let n = p.char_shapes.len();
    let lim: usize = if cs > 0 { cs } else { 1 };
    for j in 0..n
        invariant
            n == p.char_shapes@.len(),
            lim == (if cs > 0 { cs } else { 1 }),
            findings_view(findings@) == f0 + charshape_checks(*p, cloc@, cs as nat, j as nat),
    {
        let id = p.char_shapes[j].char_shape_id;
        if id as usize >= lim {
            let mut m = String::new();
            m.append("글자모양 id ");
            push_dec(&mut m, id as u64);
            m.append(" 범위 초과(");
            push_dec(&mut m, cs as u64);
            m.append("개)");
            let f = finding(Level::Error, "charshape-dangling", String::from_str(cloc), m);
            proof {
                lemma_findings_push(findings@, f);
            }
            findings.push(f);
        }
        assert(findings_view(findings@) =~= f0 + charshape_checks(*p, cloc@, cs as nat, (j + 1) as nat));
    }
}

/// The checks of one cell paragraph.
fn check_cell_para(
    p: &Paragraph,
    cloc: &str,
    nloc: &str,
    findings: &mut Vec<Finding>,
    iids: &mut Vec<(u32, Vec<String>)>,
    bf: usize,
    ps: usize,
    cs: usize,
)
    requires
        nloc@ == nested_loc(cloc@),
    ensures
        findings_view(final(findings)@) == findings_view(old(findings)@) + cell_para_checks(*p, cloc@, bf as nat, ps as nat, cs as nat),
        registry_view(final(iids)@) == register_all(registry_view(old(iids)@), nested_events(*p, nloc@, p.controls@.len())),
{
    let ghost f0 = findings_view(findings@);
    check_nested(p, nloc, findings, iids, bf);
    let lim: usize = if ps > 0 { ps } else { 1 };
    if p.para_shape_id as usize >= lim {
        let mut m = String::new();
        m.append("문단모양 id ");
        push_dec(&mut m, p.para_shape_id as u64);
        m.append(" 범위 초과(");
        push_dec(&mut m, ps as u64);
        m.append("개)");
        let f = finding(Level::Error, "parashape-dangling", String::from_str(cloc), m);
        proof {
            lemma_findings_push(findings@, f);
        }
        findings.push(f);
    }
    check_charshapes(p, cloc, findings, cs);
    assert(findings_view(findings@) =~= f0 + cell_para_checks(*p, cloc@, bf as nat, ps as nat, cs as nat));
}

fn push_cell_loc_k(m: &mut String, loc: &str, k: usize, c: &Cell)
    ensures
        final(m)@ == old(m)@ + cell_loc_k(loc@, k as nat, *c),
{
    let ghost start = m@;
    m.append(loc);
    m.append(" cell");
    push_dec(m, k as u64);
    m.append("(r");
    push_dec(m, c.row as u64);
    m.append("c");
    push_dec(m, c.col as u64);
    m.append(")");
    assert(m@ =~= start + cell_loc_k(loc@, k as nat, *c));
}

/// The border/fill finding of a cell, if any.
fn border_finding(c: &Cell, cloc: &str, bf: usize) -> (r: Option<Finding>)
    ensures
        (match r {
            Some(f) => seq![f@],
            None => Seq::<FindingView>::empty(),
        }) == (if c.border_fill_id == 0 {
            seq![FindingView {
                level: Level::Warn,
                code: "cell-borderfill-zero"@,
                location: cloc@,
                message: "셀 borderFillId 0 — 한컴에서 무테·무채움으로 보인다"@,
            }]
        } else if c.border_fill_id > bf {
            seq![FindingView {
                level: Level::Error,
                code: "cell-borderfill-dangling"@,
                location: cloc@,
                message: "셀 borderFillId "@ + dec(c.border_fill_id as nat) + " 가 DocInfo("@ + dec(bf as nat)
                    + "개) 범위를 벗어남 — 재로드 시 0으로 클램프"@,
            }]
        } else {
            Seq::empty()
        }),
{
    if c.border_fill_id == 0 {
        Some(finding(
            Level::Warn,
            "cell-borderfill-zero",
            String::from_str(cloc),
            String::from_str("셀 borderFillId 0 — 한컴에서 무테·무채움으로 보인다"),
        ))
    } else if c.border_fill_id as usize > bf {
        let mut m = String::new();
        m.append("셀 borderFillId ");
        push_dec(&mut m, c.border_fill_id as u64);
        m.append(" 가 DocInfo(");
        push_dec(&mut m, bf as u64);
        m.append("개) 범위를 벗어남 — 재로드 시 0으로 클램프");
        let f = finding(Level::Error, "cell-borderfill-dangling", String::from_str(cloc), m);
        assert(f@.message =~= "셀 borderFillId "@ + dec(c.border_fill_id as nat) + " 가 DocInfo("@ + dec(bf as nat)
            + "개) 범위를 벗어남 — 재로드 시 0으로 클램프"@);
        Some(f)
    } else {
        None
    }
}

fn push_opt(findings: &mut Vec<Finding>, r: Option<Finding>)
    ensures
        findings_view(final(findings)@) == findings_view(old(findings)@) + match r {
            Some(f) => seq![f@],
            None => Seq::<FindingView>::empty(),
        },
{
    match r {
        Some(f) => {
            proof {
                lemma_findings_push(findings@, f);
            }
            findings.push(f);
        },
        None => {
            assert(findings_view(findings@) =~= findings_view(findings@) + Seq::<FindingView>::empty());
        },
    }
}

/// The taller-than-page and vertical-slack findings of a cell.
fn size_findings(c: &Cell, cloc: &str, body_h: i64, findings: &mut Vec<Finding>)
    ensures
        findings_view(final(findings)@) == findings_view(old(findings)@) + (if c.height > body_h {
            seq![FindingView {
                level: Level::Info,
                code: "cell-taller-than-page"@,
                location: cloc@,
                message: "셀 높이 "@ + dec(c.height as nat) + " > 페이지 내지 "@ + dec_int(body_h as int)
                    + " — 페이지 이월 셀. 데스크톱 한글은 이어 그리지만 한컴독스 웹·업스트림 뷰어는 초과분을 자른다"@,
            }]
        } else {
            Seq::empty()
        }) + (if c.vertical_align != VerticalAlign::Top && c.height - cell_used(*c) > 3000 && c.paragraphs@.len() > 0 {
            seq![FindingView {
                level: Level::Warn,
                code: "cell-valign-slack"@,
                location: cloc@,
                message: "세로 "@ + (if c.vertical_align == VerticalAlign::Center { "가운데"@ } else { "아래"@ })
                    + "정렬 + 여유 "@ + dec_int(c.height - cell_used(*c)) + "HWPU — 한컴에서 내용 위에 공백이 뜬다 (위 정렬 권장)"@,
            }]
        } else {
            Seq::empty()
        }),
{
    let ghost f0 = findings_view(findings@);
    if (c.height as i64) > body_h {
        let mut m = String::new();
        m.append("셀 높이 ");
        push_dec(&mut m, c.height as u64);
        m.append(" > 페이지 내지 ");
        push_dec_i64(&mut m, body_h);
        m.append(" — 페이지 이월 셀. 데스크톱 한글은 이어 그리지만 한컴독스 웹·업스트림 뷰어는 초과분을 자른다");
        let f = finding(Level::Info, "cell-taller-than-page", String::from_str(cloc), m);
        proof {
            lemma_findings_push(findings@, f);
        }
        findings.push(f);
    }
    let ghost f1 = findings_view(findings@);
    let used = cell_used_exec(c);
    let slack: i64 = c.height as i64 - used;
    let is_top = match c.vertical_align {
        VerticalAlign::Top => true,
        _ => false,
    };
    if !is_top && slack > 3000 && c.paragraphs.len() > 0 {
        let mut m = String::new();
        m.append("세로 ");
        match c.vertical_align {
            VerticalAlign::Center => m.append("가운데"),
            _ => m.append("아래"),
        }
        m.append("정렬 + 여유 ");
        push_dec_i64(&mut m, slack);
        m.append("HWPU — 한컴에서 내용 위에 공백이 뜬다 (위 정렬 권장)");
        let f = finding(Level::Warn, "cell-valign-slack", String::from_str(cloc), m);
        proof {
            lemma_findings_push(findings@, f);
        }
        findings.push(f);
    }
    assert(findings_view(findings@) =~= findings_view(old(findings)@) + (if c.height > body_h {
            seq![FindingView {
                level: Level::Info,
                code: "cell-taller-than-page"@,
                location: cloc@,
                message: "셀 높이 "@ + dec(c.height as nat) + " > 페이지 내지 "@ + dec_int(body_h as int)
                    + " — 페이지 이월 셀. 데스크톱 한글은 이어 그리지만 한컴독스 웹·업스트림 뷰어는 초과분을 자른다"@,
            }]
        } else {
            Seq::empty()
        }) + (if c.vertical_align != VerticalAlign::Top && c.height - cell_used(*c) > 3000 && c.paragraphs@.len() > 0 {
            seq![FindingView {
                level: Level::Warn,
                code: "cell-valign-slack"@,
                location: cloc@,
                message: "세로 "@ + (if c.vertical_align == VerticalAlign::Center { "가운데"@ } else { "아래"@ })
                    + "정렬 + 여유 "@ + dec_int(c.height - cell_used(*c)) + "HWPU — 한컴에서 내용 위에 공백이 뜬다 (위 정렬 권장)"@,
            }]
        } else {
            Seq::empty()
        }));
}

/// All checks of one cell of a body table.
fn check_cell(
    sec: &Section,
    body_h: i64,
    c: &Cell,
    cloc: &str,
    findings: &mut Vec<Finding>,
    iids: &mut Vec<(u32, Vec<String>)>,
    bf: usize,
    ps: usize,
    cs: usize,
)
    requires
        body_h == body_height(*sec),
    ensures
        findings_view(final(findings)@) == findings_view(old(findings)@) + cell_checks(*sec, *c, cloc@, bf as nat, ps as nat, cs as nat),
        registry_view(final(iids)@) == register_all(
            registry_view(old(iids)@),
            cell_paras_events(*c, nested_loc(cloc@), c.paragraphs@.len()),
        ),
{
    let ghost f0 = findings_view(findings@);
    let ghost r0 = registry_view(iids@);
    push_opt(findings, border_finding(c, cloc, bf));
    let ghost f1 = findings_view(findings@);
    let mut nloc = String::from_str(cloc);
    nloc.append(" 중첩표");
    assert(nloc@ =~= nested_loc(cloc@));
    let n = c.paragraphs.len();
    for j in 0..n
        invariant
            n == c.paragraphs@.len(),
            nloc@ == nested_loc(cloc@),
            findings_view(findings@) == f1 + cell_paras_checks(*c, cloc@, bf as nat, ps as nat, cs as nat, j as nat),
            registry_view(iids@) == register_all(r0, cell_paras_events(*c, nloc@, j as nat)),
    {
        let p = &c.paragraphs[j];
        check_cell_para(p, cloc, nloc.as_str(), findings, iids, bf, ps, cs);
        proof {
            lemma_register_all_concat(r0, cell_paras_events(*c, nloc@, j as nat), nested_events(*p, nloc@, p.controls@.len()));
        }
        assert(findings_view(findings@) =~= f1 + cell_paras_checks(*c, cloc@, bf as nat, ps as nat, cs as nat, (j + 1) as nat));
    }
    size_findings(c, cloc, body_h, findings);
    assert(findings_view(findings@) =~= f0 + cell_checks(*sec, *c, cloc@, bf as nat, ps as nat, cs as nat));
}

/// All structural checks of one body table, its cells and nested tables.
fn check_table(
    si: usize,
    sec: &Section,
    body_h: i64,
    pi: usize,
    ci: usize,
    t: &Table,
    findings: &mut Vec<Finding>,
    iids: &mut Vec<(u32, Vec<String>)>,
    bf: usize,
    ps: usize,
    cs: usize,
)
    requires
        body_h == body_height(*sec),
    ensures
        findings_view(final(findings)@) == findings_view(old(findings)@) + (structure_check(bf as nat, ps as nat, cs as nat))(
            si as nat,
            *sec,
            pi as nat,
            ci as nat,
            *t,
        ),
        registry_view(final(iids)@) == register_all(
            registry_view(old(iids)@),
            (structure_events())(si as nat, *sec, pi as nat, ci as nat, *t),
        ),
{
    let ghost f0 = findings_view(findings@);
    let ghost r0 = registry_view(iids@);
    let mut loc = String::new();
    loc.append("sec");
    push_dec(&mut loc, si as u64);
    loc.append(" para");
    push_dec(&mut loc, pi as u64);
    loc.append(" ctrl");
    push_dec(&mut loc, ci as u64);
    assert(loc@ =~= table_loc(si as nat, pi as nat, ci as nat));
    lint_table_common(t, loc.as_str(), false, findings, iids, bf);
    let ghost f1 = findings_view(findings@);
    let ghost ev0 = common_event(*t, loc@);
    let n = t.cells.len();
    for k in 0..n
        invariant
            n == t.cells@.len(),
            body_h == body_height(*sec),
            loc@ == table_loc(si as nat, pi as nat, ci as nat),
            findings_view(findings@) == f1 + table_cells_checks(*sec, *t, loc@, bf as nat, ps as nat, cs as nat, k as nat),
            registry_view(iids@) == register_all(r0, ev0 + table_cells_events(*t, loc@, k as nat)),
    {
        let c = &t.cells[k];
        let mut cloc = String::new();
        push_cell_loc_k(&mut cloc, loc.as_str(), k, c);
        let ghost rb = registry_view(iids@);
        check_cell(sec, body_h, c, cloc.as_str(), findings, iids, bf, ps, cs);
        proof {
            let a = ev0 + table_cells_events(*t, loc@, k as nat);
            let b = cell_paras_events(*c, nested_loc(cloc@), c.paragraphs@.len());
            lemma_register_all_concat(r0, a, b);
            assert(a + b =~= ev0 + table_cells_events(*t, loc@, (k + 1) as nat));
        }
        assert(findings_view(findings@) =~= f1 + table_cells_checks(*sec, *t, loc@, bf as nat, ps as nat, cs as nat, (k + 1) as nat));
    }
    assert(findings_view(findings@) =~= f0 + (structure_check(bf as nat, ps as nat, cs as nat))(si as nat, *sec, pi as nat, ci as nat, *t));
}

impl DocumentCore {
    /// The structural checks of every table in a body paragraph, in document
    /// order; registers each table's instance id (body and nested tables).
    pub fn lint_structure(&self, findings: &mut Vec<Finding>, iids: &mut Vec<(u32, Vec<String>)>)
        ensures
            findings_view(final(findings)@) == findings_view(old(findings)@) + over_tables(
                *self,
                structure_check(
                    self.document.doc_info.border_fills@.len(),
                    self.document.doc_info.para_shapes@.len(),
                    self.document.doc_info.char_shapes@.len(),
                ),
            ),
            registry_view(final(iids)@) == register_all(registry_view(old(iids)@), over_tables(*self, structure_events())),
    {
        let bf = self.document.doc_info.border_fills.len();
        let ps = self.document.doc_info.para_shapes.len();
        let cs = self.document.doc_info.char_shapes.len();
        let ghost f = structure_check(bf as nat, ps as nat, cs as nat);
        let ghost g = structure_events();
        let ghost start = findings_view(findings@);
        let ghost r0 = registry_view(iids@);
        let ns = self.document.sections.len();
        for si in 0..ns
            invariant
                ns == self.document.sections@.len(),
                f == structure_check(bf as nat, ps as nat, cs as nat),
                g == structure_events(),
                findings_view(findings@) == start + in_sections(*self, f, si as nat),
                registry_view(iids@) == register_all(r0, in_sections(*self, g, si as nat)),
        {
            let sec = &self.document.sections[si];
            let body_h = page_body_height(sec);
            let np = sec.paragraphs.len();
            for pi in 0..np
                invariant
                    np == sec.paragraphs@.len(),
                    *sec == self.document.sections@[si as int],
                    body_h == body_height(*sec),
                    f == structure_check(bf as nat, ps as nat, cs as nat),
                    g == structure_events(),
                    findings_view(findings@) == start + in_sections(*self, f, si as nat) + in_paras(si as nat, *sec, f, pi as nat),
                    registry_view(iids@) == register_all(r0, in_sections(*self, g, si as nat) + in_paras(si as nat, *sec, g, pi as nat)),
            {
                let para = &sec.paragraphs[pi];
                let nc = para.controls.len();
                for ci in 0..nc
                    invariant
                        nc == para.controls@.len(),
                        *para == sec.paragraphs@[pi as int],
                        *sec == self.document.sections@[si as int],
                        body_h == body_height(*sec),
                        f == structure_check(bf as nat, ps as nat, cs as nat),
                        g == structure_events(),
                        findings_view(findings@) == start + in_sections(*self, f, si as nat) + in_paras(si as nat, *sec, f, pi as nat)
                            + in_controls(si as nat, *sec, pi as nat, *para, f, ci as nat),
                        registry_view(iids@) == register_all(
                            r0,
                            in_sections(*self, g, si as nat) + in_paras(si as nat, *sec, g, pi as nat) + in_controls(
                                si as nat,
                                *sec,
                                pi as nat,
                                *para,
                                g,
                                ci as nat,
                            ),
                        ),
                {
                    let ghost before = in_sections(*self, g, si as nat) + in_paras(si as nat, *sec, g, pi as nat) + in_controls(
                        si as nat,
                        *sec,
                        pi as nat,
                        *para,
                        g,
                        ci as nat,
                    );
                    match &para.controls[ci] {
                        Control::Table(t) => {
                            check_table(si, sec, body_h, pi, ci, t, findings, iids, bf, ps, cs);
                            proof {
                                lemma_register_all_concat(r0, before, g(si as nat, *sec, pi as nat, ci as nat, **t));
                            }
                        },
                        _ => {},
                    }
                    assert(findings_view(findings@) =~= start + in_sections(*self, f, si as nat) + in_paras(si as nat, *sec, f, pi as nat)
                        + in_controls(si as nat, *sec, pi as nat, *para, f, (ci + 1) as nat));
                    assert(before + match para.controls@[ci as int] {
                        Control::Table(t) => g(si as nat, *sec, pi as nat, ci as nat, *t),
                        _ => Seq::<(u32, Seq<char>)>::empty(),
                    } =~= in_sections(*self, g, si as nat) + in_paras(si as nat, *sec, g, pi as nat) + in_controls(
                        si as nat,
                        *sec,
                        pi as nat,
                        *para,
                        g,
                        (ci + 1) as nat,
                    ));
                }
                assert(findings_view(findings@) =~= start + in_sections(*self, f, si as nat) + in_paras(si as nat, *sec, f, (pi + 1) as nat));
                assert(in_sections(*self, g, si as nat) + in_paras(si as nat, *sec, g, pi as nat) + in_controls(
                    si as nat,
                    *sec,
                    pi as nat,
                    *para,
                    g,
                    nc as nat,
                ) =~= in_sections(*self, g, si as nat) + in_paras(si as nat, *sec, g, (pi + 1) as nat));
            }
            assert(findings_view(findings@) =~= start + in_sections(*self, f, (si + 1) as nat));
            assert(in_sections(*self, g, si as nat) + in_paras(si as nat, *sec, g, np as nat) =~= in_sections(*self, g, (si + 1) as nat));
        }
    }
}

/// The locations joined with ", ".
pub open spec fn join_locs(locs: Seq<Seq<char>>) -> Seq<char> {
    joined(locs, ", "@)
}

/// One finding for each of the first `k` registered instance ids met at
/// more than one place, in the order the ids were first met.
pub open spec fn dup_findings(reg: Seq<(u32, Seq<Seq<char>>)>, k: nat) -> Seq<FindingView>
    decreases k,
{
    if k == 0 {
        Seq::empty()
    } else {
        let e = reg[k - 1];
        dup_findings(reg, (k - 1) as nat) + if e.1.len() > 1 {
            seq![FindingView {
                level: Level::Warn,
                code: "instance-id-duplicate"@,
                location: join_locs(e.1),
                message: "표 instance id "@ + hex_alt(e.0 as nat) + " 가 "@ + dec(e.1.len()) + "곳에서 중복"@,
            }]
        } else {
            Seq::empty()
        }
    }
}

/// Reports each instance id registered at more than one place.
pub fn report_duplicates(iids: &Vec<(u32, Vec<String>)>, findings: &mut Vec<Finding>)
    ensures
        findings_view(final(findings)@) == findings_view(old(findings)@) + dup_findings(registry_view(iids@), iids@.len()),
{
    let ghost f0 = findings_view(findings@);
    let ghost reg = registry_view(iids@);
    let n = iids.len();
    for k in 0..n
        invariant
            n == iids@.len(),
            reg == registry_view(iids@),
            findings_view(findings@) == f0 + dup_findings(reg, k as nat),
    {
        let entry = &iids[k];
        let count = entry.1.len();
        if count > 1 {
            let loc = join(&entry.1, ", ");
            let mut m = String::new();
            m.append("표 instance id ");
            push_hex_alt(&mut m, entry.0 as u64);
            m.append(" 가 ");
            push_dec(&mut m, count as u64);
            m.append("곳에서 중복");
            let f = finding(Level::Warn, "instance-id-duplicate", loc, m);
            proof {
                lemma_findings_push(findings@, f);
                assert(reg[k as int].1 == entry.1@.map_values(|l: String| l@));
            }
            findings.push(f);
        }
        assert(findings_view(findings@) =~= f0 + dup_findings(reg, (k + 1) as nat));
    }
}

} // verus!
