//! The whole compatibility check of a document and its JSON report.
use vstd::prelude::*;
use crate::collect::all_paragraphs;
use crate::lint_base::{finding_json, findings_view, lemma_findings_push, scan_json, Finding, FindingView, Level, LintScan};
use crate::lint_cells::{dup_findings, report_duplicates, structure_check, structure_events};
use crate::lint_chars::{char_findings, scanned_chars};
use crate::lint_orphan::{orphan_check, seam_count};
use crate::lint_pushed::{body_tables_ok, pushed_check};
use crate::lint_style::style_findings;
use crate::lint_table::{register_all, registry_view};
use crate::lint_walk::{count_tables, over_tables};
use crate::model::{DocumentCore, HwpError};
use crate::num::{dec, push_dec};
use crate::text::{join, joined};

verus! {

/// The structural findings: those of every body table, then one for each
/// instance id met at more than one place (in the order ids were first met).
pub open spec fn structure_findings(d: DocumentCore) -> Seq<FindingView> {
    let reg = register_all(Seq::empty(), over_tables(d, structure_events()));
    over_tables(
        d,
        structure_check(
            d.document.doc_info.border_fills@.len(),
            d.document.doc_info.para_shapes@.len(),
            d.document.doc_info.char_shapes@.len(),
        ),
    ) + dup_findings(reg, reg.len())
}

/// Everything the check finds, in report order.
pub open spec fn lint_findings(d: DocumentCore) -> Seq<FindingView> {
    structure_findings(d) + style_findings(d) + over_tables(d, orphan_check()) + over_tables(
        d,
        pushed_check(d.document.doc_info.para_shapes@),
    ) + char_findings(d)
}

/// Documents the check can count: every cell's height sums fit (see
/// `body_tables_ok`), and the seams and characters counted fit in `usize`.
pub open spec fn lint_limits(d: DocumentCore) -> bool {
    &&& body_tables_ok(d)
    &&& count_tables(d, seam_count()) <= usize::MAX
    &&& scanned_chars(all_paragraphs(d), all_paragraphs(d).len()) <= usize::MAX
}

/// What the check looked at (the layout checks do not run: no pages, cells
/// or text runs).
pub open spec fn lint_scan(d: DocumentCore) -> LintScan {
    LintScan {
        pages: 0,
        cells: 0,
        text_runs: 0,
        paragraphs: all_paragraphs(d).len() as usize,
        chars: scanned_chars(all_paragraphs(d), all_paragraphs(d).len()) as usize,
        cell_seams: count_tables(d, seam_count()) as usize,
    }
}

/// How many of the first `k` findings have level `l`.
pub open spec fn level_count(fs: Seq<FindingView>, l: Level, k: nat) -> nat
    decreases k,
{
    if k == 0 {
        0
    } else {
        level_count(fs, l, (k - 1) as nat) + if fs[k - 1].level == l { 1nat } else { 0nat }
    }
}

/// The report: the numbers of errors and warnings, what was scanned, and
/// the findings.
pub open spec fn report_json(fs: Seq<FindingView>, scan: LintScan) -> Seq<char> {
    "{\"ok\":true,\"errors\":"@ + dec(level_count(fs, Level::Error, fs.len())) + ",\"warnings\":"@ + dec(
        level_count(fs, Level::Warn, fs.len()),
    ) + ",\"scanned\":"@ + scan_json(scan) + ",\"findings\":["@ + joined(fs.map_values(|f: FindingView| finding_json(f)), ","@)
        + "]}"@
}

pub open spec fn lint_json(d: DocumentCore) -> Seq<char> {
    report_json(lint_findings(d), lint_scan(d))
}

/// The JSON report of the given findings and scan counts.
pub fn report(findings: &Vec<Finding>, scan: &LintScan) -> (s: String)
    ensures
        s@ == report_json(findings_view(findings@), *scan),
{
    let ghost fv = findings_view(findings@);
    let mut errors: usize = 0;
    let mut warns: usize = 0;
    let mut body: Vec<String> = Vec::new();
    let n = findings.len();
    for k in 0..n
        invariant
            n == findings@.len(),
            fv == findings_view(findings@),
            errors == level_count(fv, Level::Error, k as nat),
            warns == level_count(fv, Level::Warn, k as nat),
            errors + warns <= k,
            body@.map_values(|t: String| t@) == fv.map_values(|f: FindingView| finding_json(f)).take(k as int),
    {
        let f = &findings[k];
        assert(fv[k as int] == f@);
        match f.level {
            Level::Error => {
                errors = errors + 1;
            },
            Level::Warn => {
                warns = warns + 1;
            },
            Level::Info => {},
        }
        let j = f.json();
        let ghost b0 = body@;
        body.push(j);
        assert(body@.map_values(|t: String| t@) =~= b0.map_values(|t: String| t@).push(j@));
        assert(body@.map_values(|t: String| t@) =~= fv.map_values(|f: FindingView| finding_json(f)).take((k + 1) as int));
    }
    assert(fv.map_values(|f: FindingView| finding_json(f)).take(n as int) =~= fv.map_values(|f: FindingView| finding_json(f)));
    let mut s = String::new();
    s.append("{\"ok\":true,\"errors\":");
    push_dec(&mut s, errors as u64);
    s.append(",\"warnings\":");
    push_dec(&mut s, warns as u64);
    s.append(",\"scanned\":");
    let sj = scan.json();
    s.append(sj.as_str());
    s.append(",\"findings\":[");
    let b = join(&body, ",");
    s.append(b.as_str());
    s.append("]}");
    assert(s@ =~= report_json(fv, *scan));
    s
}

/// What the check looked at, with the counts of the layout checks.
pub open spec fn scan_with(d: DocumentCore, pages: usize, cells: usize, text_runs: usize) -> LintScan {
    LintScan { pages, cells, text_runs, ..lint_scan(d) }
}

impl DocumentCore {
    /// The report of the whole check with the findings and counts of the
    /// layout checks (which need laid-out pages, so they run elsewhere)
    /// appended: the model checks as `lint_native` runs them, then the
    /// layout findings.
    pub fn lint_with_layout(
        &self,
        layout: &Vec<Finding>,
        pages: usize,
        cells: usize,
        text_runs: usize,
    ) -> (s: String)
        requires
            lint_limits(*self),
        ensures
            s@ == report_json(lint_findings(*self) + findings_view(layout@), scan_with(*self, pages, cells, text_runs)),
    {
        let mut findings: Vec<Finding> = Vec::new();
        let mut iids: Vec<(u32, Vec<String>)> = Vec::new();
        assert(findings_view(findings@) =~= Seq::<FindingView>::empty());
        assert(registry_view(iids@) =~= Seq::<(u32, Seq<Seq<char>>)>::empty());
        self.lint_structure(&mut findings, &mut iids);
        report_duplicates(&iids, &mut findings);
        let mut scan = LintScan { pages: 0, cells: 0, text_runs: 0, paragraphs: 0, chars: 0, cell_seams: 0 };
        self.lint_table_style(&mut findings);
        self.lint_orphan_heading(&mut findings, &mut scan);
        self.lint_pushed_paragraph(&mut findings, &mut scan);
        self.lint_char_style(&mut findings, &mut scan);
        let ghost model = findings_view(findings@);
        assert(model =~= lint_findings(*self));
        let n = layout.len();
        for k in 0..n
            invariant
                n == layout@.len(),
                findings_view(findings@) == model + findings_view(layout@).take(k as int),
        {
            let f = &layout[k];
            let g = Finding { level: f.level, code: f.code, location: f.location.clone(), message: f.message.clone() };
            assert(g@ == f@);
            proof {
                lemma_findings_push(findings@, g);
            }
            findings.push(g);
            assert(findings_view(findings@) =~= model + findings_view(layout@).take((k + 1) as int));
        }
        assert(findings_view(layout@).take(n as int) =~= findings_view(layout@));
        scan.pages = pages;
        scan.cells = cells;
        scan.text_runs = text_runs;
        assert(scan == scan_with(*self, pages, cells, text_runs));
        report(&findings, &scan)
    }

    /// Checks the whole document for what the desktop and web viewers trip
    /// over, and reports the findings as JSON: the structure of every body
    /// table and its cells, repeated instance ids, table styles, headings
    /// left alone and blocks pushed to the next page, and character-shape
    /// traces. The checks that need a page layout do not run here (no pages
    /// are counted); see `lint_with_layout`.
    pub fn lint_native(&self) -> (r: Result<String, HwpError>)
        requires
            lint_limits(*self),
        ensures
            match r {
                Ok(s) => s@ == lint_json(*self),
                Err(_) => false,
            },
    {
        let none: Vec<Finding> = Vec::new();
        let s = self.lint_with_layout(&none, 0, 0, 0);
        assert(lint_findings(*self) + findings_view(none@) =~= lint_findings(*self));
        assert(scan_with(*self, 0, 0, 0) == lint_scan(*self));
        Ok(s)
    }
}

/// The findings of level `l`.
pub open spec fn of_level(fs: Seq<FindingView>, l: Level) -> Seq<FindingView> {
    fs.filter(|f: FindingView| f.level == l)
}

proof fn lemma_level_count_filter(fs: Seq<FindingView>, l: Level, k: nat)
    requires
        k <= fs.len(),
    ensures
        level_count(fs, l, k) == of_level(fs.take(k as int), l).len(),
    decreases k,
{
    reveal(Seq::filter);
    if k > 0 {
        lemma_level_count_filter(fs, l, (k - 1) as nat);
        let s = fs.take(k as int);
        assert(s.drop_last() =~= fs.take(k - 1));
        assert(s.last() == fs[k - 1]);
    } else {
        assert(fs.take(0) =~= Seq::<FindingView>::empty());
    }
}

/// The report opens with the number of findings of level error and the
/// number of level warn; findings of level info count in neither.
pub proof fn law_report_counts_by_level(fs: Seq<FindingView>, scan: LintScan)
    ensures
        ("{\"ok\":true,\"errors\":"@ + dec(of_level(fs, Level::Error).len()) + ",\"warnings\":"@ + dec(
            of_level(fs, Level::Warn).len(),
        ) + ",\"scanned\":"@).is_prefix_of(report_json(fs, scan)),
{
    lemma_level_count_filter(fs, Level::Error, fs.len());
    lemma_level_count_filter(fs, Level::Warn, fs.len());
    assert(fs.take(fs.len() as int) =~= fs);
    let p = "{\"ok\":true,\"errors\":"@ + dec(of_level(fs, Level::Error).len()) + ",\"warnings\":"@ + dec(
        of_level(fs, Level::Warn).len(),
    ) + ",\"scanned\":"@;
    let r = report_json(fs, scan);
    assert(r.subrange(0, p.len() as int) =~= p);
}

} // verus!
