//! Checks of one table's control header and cells that the desktop viewer
//! trips over, and the registry of table instance ids.
use vstd::prelude::*;
use crate::lint_base::{findings_view, lemma_findings_push, Finding, FindingView, Level};
use crate::model::{Table, TablePageBreak, CTRL_HEADER_FLAGS_AT, CTRL_HEADER_INSTANCE_ID_AT, CTRL_HEADER_MIN_LEN};
use crate::num::{dec, hex_alt, hex_alt_08, push_dec, push_hex_alt, push_hex_alt_08};
use crate::text::push_char;

verus! {

/// The little-endian 32-bit value at `at`.
pub open spec fn le_u32(b: Seq<u8>, at: int) -> nat {
    (b[at] + 256 * b[at + 1] + 65536 * b[at + 2] + 16777216 * b[at + 3]) as nat
}

pub open spec fn header_flags(t: Table) -> nat {
    le_u32(t.raw_ctrl_data@, CTRL_HEADER_FLAGS_AT as int)
}

pub open spec fn header_iid(t: Table) -> nat {
    le_u32(t.raw_ctrl_data@, CTRL_HEADER_INSTANCE_ID_AT as int)
}

pub open spec fn header_short(t: Table) -> bool {
    t.raw_ctrl_data@.len() < CTRL_HEADER_MIN_LEN
}

pub open spec fn cell_rc(loc: Seq<char>, row: u16, col: u16) -> Seq<char> {
    loc + " r"@ + dec(row as nat) + "c"@ + dec(col as nat)
}

/// Cells from `k` on whose border/fill id lies beyond the document's list.
pub open spec fn dangling_cells(t: Table, loc: Seq<char>, bf: nat, k: nat) -> Seq<FindingView>
    decreases k,
{
    if k == 0 {
        Seq::empty()
    } else {
        let c = t.cells@[k - 1];
        dangling_cells(t, loc, bf, (k - 1) as nat) + if c.border_fill_id > bf {
            seq![FindingView {
                level: Level::Error,
                code: "cell-borderfill-dangling"@,
                location: cell_rc(loc, c.row, c.col),
                message: "셀 borderFillId "@ + dec(c.border_fill_id as nat) + " 가 DocInfo("@ + dec(bf) + "개) 범위를 벗어남"@,
            }]
        } else {
            Seq::empty()
        }
    }
}

/// What `lint_table_common` finds in a table at `loc` (`nested`: the table
/// stands in a cell) given the number of border/fill entries.
pub open spec fn common_findings(t: Table, loc: Seq<char>, nested: bool, bf: nat) -> Seq<FindingView> {
    if header_short(t) {
        seq![FindingView {
            level: Level::Warn,
            code: "ctrl-header-short"@,
            location: loc,
            message: "컨트롤 공통 헤더 "@ + dec(t.raw_ctrl_data@.len()) + "B < 최소 "@ + dec(CTRL_HEADER_MIN_LEN as nat)
                + "B — 한컴 파서가 필드를 어긋나게 읽을 수 있다"@,
        }]
    } else {
        let not_tac = if nested && header_flags(t) % 2 == 0 {
            seq![FindingView {
                level: Level::Error,
                code: "nested-table-not-tac"@,
                location: loc,
                message: "셀 안 표의 like_char(tac) 비트가 0 (flags="@ + hex_alt_08(header_flags(t))
                    + ") — 한컴이 표를 통째로 버린다 (repair-nested-tables 로 수리)"@,
            }]
        } else {
            Seq::empty()
        };
        let splits = if nested && t.page_break != TablePageBreak::NoBreak {
            seq![FindingView {
                level: Level::Warn,
                code: "nested-table-pagebreak"@,
                location: loc,
                message: "셀 안 표가 쪽 경계 나눔 허용 — 간이 뷰어에서 반쯤 잘린다 (나누지 않음 권장)"@,
            }]
        } else {
            Seq::empty()
        };
        let zero = if header_iid(t) == 0 {
            seq![FindingView {
                level: Level::Warn,
                code: "instance-id-zero"@,
                location: loc,
                message: "표 instance id 0 — 한컴은 고유한 비-0 값을 기대"@,
            }]
        } else {
            Seq::empty()
        };
        not_tac + splits + zero + dangling_cells(t, loc, bf, t.cells@.len())
    }
}

/// The (instance id, location) that a table registers: none when its header
/// is short or its id is 0.
pub open spec fn common_event(t: Table, loc: Seq<char>) -> Seq<(u32, Seq<char>)> {
    if !header_short(t) && header_iid(t) != 0 {
        seq![(header_iid(t) as u32, loc)]
    } else {
        Seq::empty()
    }
}

/// Index of the entry for `iid`, if any.
pub open spec fn entry_of(reg: Seq<(u32, Seq<Seq<char>>)>, iid: u32, j: nat) -> Option<nat>
    decreases reg.len() - j,
{
    if j >= reg.len() {
        None
    } else if reg[j as int].0 == iid {
        Some(j)
    } else {
        entry_of(reg, iid, j + 1)
    }
}

/// The registry with one more location for `iid` (a new entry at the end
/// for an id not seen yet).
pub open spec fn register(reg: Seq<(u32, Seq<Seq<char>>)>, e: (u32, Seq<char>)) -> Seq<(u32, Seq<Seq<char>>)> {
    match entry_of(reg, e.0, 0) {
        Some(j) => reg.update(j as int, (e.0, reg[j as int].1.push(e.1))),
        None => reg.push((e.0, seq![e.1])),
    }
}

/// The registry after the given registrations in order.
pub open spec fn register_all(reg: Seq<(u32, Seq<Seq<char>>)>, es: Seq<(u32, Seq<char>)>) -> Seq<(u32, Seq<Seq<char>>)>
    decreases es.len(),
{
    if es.len() == 0 {
        reg
    } else {
        register(register_all(reg, es.drop_last()), es.last())
    }
}

pub open spec fn registry_view(v: Seq<(u32, Vec<String>)>) -> Seq<(u32, Seq<Seq<char>>)> {
    v.map_values(|e: (u32, Vec<String>)| (e.0, e.1@.map_values(|s: String| s@)))
}

pub proof fn lemma_register_all_push(reg: Seq<(u32, Seq<Seq<char>>)>, es: Seq<(u32, Seq<char>)>, e: (u32, Seq<char>))
    ensures
        register_all(reg, es.push(e)) == register(register_all(reg, es), e),
{
    assert(es.push(e).drop_last() =~= es);
}

pub proof fn lemma_register_all_concat(reg: Seq<(u32, Seq<Seq<char>>)>, a: Seq<(u32, Seq<char>)>, b: Seq<(u32, Seq<char>)>)
    ensures
        register_all(reg, a + b) == register_all(register_all(reg, a), b),
    decreases b.len(),
{
    if b.len() == 0 {
        assert(a + b =~= a);
    } else {
        lemma_register_all_concat(reg, a, b.drop_last());
        assert((a + b).drop_last() =~= a + b.drop_last());
    }
}

/// Adds `loc` to the entry of `iid` (a new entry at the end if none).
pub fn register_iid(iids: &mut Vec<(u32, Vec<String>)>, iid: u32, loc: String)
    ensures
        registry_view(final(iids)@) == register(registry_view(old(iids)@), (iid, loc@)),
{
    let ghost rv = registry_view(iids@);
    let n = iids.len();
    let mut j: usize = 0;
    while j < n
        invariant
            n == iids@.len(),
            j <= n,
            rv == registry_view(iids@),
            iids@ == old(iids)@,
            entry_of(rv, iid, 0) == entry_of(rv, iid, j as nat),
        decreases n - j,
    {
        if iids[j].0 == iid {
            assert(rv.len() == n);
            assert(rv[j as int].0 == iid);
            assert(entry_of(rv, iid, j as nat) == Some(j as nat));
            let ghost old_entry = iids@[j as int];
            let mut entry = iids.remove(j);
            entry.1.push(loc);
            proof {
                assert(entry.1@.map_values(|s: String| s@) =~= old_entry.1@.map_values(|s: String| s@).push(loc@));
            }
            iids.insert(j, entry);
            assert(registry_view(iids@) =~= rv.update(j as int, (iid, rv[j as int].1.push(loc@))));
            return;
        }
        j = j + 1;
    }
    let mut locs: Vec<String> = Vec::new();
    locs.push(loc);
    assert(locs@.map_values(|s: String| s@) =~= seq![loc@]);
    iids.push((iid, locs));
    assert(registry_view(iids@) =~= rv.push((iid, seq![loc@])));
}

fn le_u32_at(b: &Vec<u8>, at: usize) -> (v: u32)
    requires
        at + 4 <= b@.len(),
    ensures
        v == le_u32(b@, at as int),
{
    let n = b.len();
    assert(at + 4 <= n);
    b[at] as u32 + 256 * (b[at + 1] as u32) + 65536 * (b[at + 2] as u32) + 16777216 * (b[at + 3] as u32)
}

fn push_cell_rc(m: &mut String, loc: &str, row: u16, col: u16)
    ensures
        final(m)@ == old(m)@ + cell_rc(loc@, row, col),
{
    let ghost start = m@;
    m.append(loc);
    m.append(" r");
    push_dec(m, row as u64);
    m.append("c");
    push_dec(m, col as u64);
    assert(m@ =~= start + cell_rc(loc@, row, col));
}

fn finding(level: Level, code: &'static str, location: String, message: String) -> (f: Finding)
    ensures
        f@ == (FindingView { level, code: code@, location: location@, message: message@ }),
{
    Finding { level, code, location, message }
}

/// `lint_table_common`: header length, like-character and page-split flags
/// of a nested table, instance id, and dangling border/fill ids; registers
/// the table's instance id.
pub fn lint_table_common(
    table: &Table,
    loc: &str,
    nested: bool,
    findings: &mut Vec<Finding>,
    iids: &mut Vec<(u32, Vec<String>)>,
    bf_count: usize,
)
    ensures
        findings_view(final(findings)@) == findings_view(old(findings)@) + common_findings(*table, loc@, nested, bf_count as nat),
        registry_view(final(iids)@) == register_all(registry_view(old(iids)@), common_event(*table, loc@)),
{
    let ghost start = findings_view(findings@);
    let raw = &table.raw_ctrl_data;
    if raw.len() < CTRL_HEADER_MIN_LEN {
        let mut m = String::new();
        m.append("컨트롤 공통 헤더 ");
        push_dec(&mut m, raw.len() as u64);
        m.append("B < 최소 ");
        push_dec(&mut m, CTRL_HEADER_MIN_LEN as u64);
        m.append("B — 한컴 파서가 필드를 어긋나게 읽을 수 있다");
        let f = finding(Level::Warn, "ctrl-header-short", String::from_str(loc), m);
        proof {
            lemma_findings_push(findings@, f);
        }
        findings.push(f);
        assert(findings_view(findings@) =~= start + common_findings(*table, loc@, nested, bf_count as nat));
        assert(registry_view(iids@) == register_all(registry_view(iids@), Seq::<(u32, Seq<char>)>::empty()));
        return;
    }
    let flags = le_u32_at(raw, CTRL_HEADER_FLAGS_AT);
    let iid = le_u32_at(raw, CTRL_HEADER_INSTANCE_ID_AT);
    if nested && flags % 2 == 0 {
        let mut m = String::new();
        m.append("셀 안 표의 like_char(tac) 비트가 0 (flags=");
        push_hex_alt_08(&mut m, flags);
        m.append(") — 한컴이 표를 통째로 버린다 (repair-nested-tables 로 수리)");
        let f = finding(Level::Error, "nested-table-not-tac", String::from_str(loc), m);
        proof {
            lemma_findings_push(findings@, f);
        }
        findings.push(f);
    }
    let ghost after_tac = findings_view(findings@);
    if nested && table.page_break != TablePageBreak::NoBreak {
        let f = finding(
            Level::Warn,
            "nested-table-pagebreak",
            String::from_str(loc),
            String::from_str("셀 안 표가 쪽 경계 나눔 허용 — 간이 뷰어에서 반쯤 잘린다 (나누지 않음 권장)"),
        );
        proof {
            lemma_findings_push(findings@, f);
        }
        findings.push(f);
    }
    let ghost after_split = findings_view(findings@);
    if iid == 0 {
        let f = finding(
            Level::Warn,
            "instance-id-zero",
            String::from_str(loc),
            String::from_str("표 instance id 0 — 한컴은 고유한 비-0 값을 기대"),
        );
        proof {
            lemma_findings_push(findings@, f);
        }
        findings.push(f);
        assert(registry_view(iids@) == register_all(registry_view(iids@), Seq::<(u32, Seq<char>)>::empty()));
    } else {
        let ghost r0 = registry_view(iids@);
        register_iid(iids, iid, String::from_str(loc));
        proof {
            assert(seq![(iid, loc@)].drop_last() =~= Seq::<(u32, Seq<char>)>::empty());
            assert(register_all(r0, seq![(iid, loc@)]) == register(register_all(r0, Seq::<(u32, Seq<char>)>::empty()), (iid, loc@)));
        }
    }
    let ghost mid = findings_view(findings@);
    let n = table.cells.len();
    for k in 0..n
        invariant
            n == table.cells@.len(),
            findings_view(findings@) == mid + dangling_cells(*table, loc@, bf_count as nat, k as nat),
    {
        let c = &table.cells[k];
        if c.border_fill_id as usize > bf_count {
            let mut l = String::new();
            push_cell_rc(&mut l, loc, c.row, c.col);
            let mut m = String::new();
            m.append("셀 borderFillId ");
            push_dec(&mut m, c.border_fill_id as u64);
            m.append(" 가 DocInfo(");
            push_dec(&mut m, bf_count as u64);
            m.append("개) 범위를 벗어남");
            assert(l@ =~= cell_rc(loc@, c.row, c.col));
            let f = finding(Level::Error, "cell-borderfill-dangling", l, m);
            proof {
                lemma_findings_push(findings@, f);
                assert(f@.message =~= "셀 borderFillId "@ + dec(c.border_fill_id as nat) + " 가 DocInfo("@ + dec(bf_count as nat) + "개) 범위를 벗어남"@);
            }
            findings.push(f);
        }
        assert(findings_view(findings@) =~= mid + dangling_cells(*table, loc@, bf_count as nat, (k + 1) as nat));
    }
    proof {
        assert(findings_view(findings@) =~= start + common_findings(*table, loc@, nested, bf_count as nat));
    }
}

} // verus!
