//! What the compatibility checks report, how the report is written, and the
//! paragraph facts that several checks share.
use vstd::prelude::*;
use crate::json::{esc_spec, push_esc};
use crate::model::{Paragraph, Section};
use crate::num::{dec, push_dec};
use crate::text::{chars_of, skip_ws_start, trim, trim_bounds, trim_start, string_from_range};

verus! {

/// How serious a finding is.
#[derive(Clone, Copy, Debug, PartialEq, Eq, Structural)]
pub enum Level {
    Error,
    Warn,
    Info,
}

/// One finding: its level, a stable code, where it is and what is wrong.
#[derive(Debug)]
pub struct Finding {
    pub level: Level,
    pub code: &'static str,
    pub location: String,
    pub message: String,
}

/// A finding as mathematical values.
pub struct FindingView {
    pub level: Level,
    pub code: Seq<char>,
    pub location: Seq<char>,
    pub message: Seq<char>,
}

impl View for Finding {
    type V = FindingView;

    open spec fn view(&self) -> FindingView {
        FindingView {
            level: self.level,
            code: self.code@,
            location: self.location@,
            message: self.message@,
        }
    }
}

pub open spec fn findings_view(v: Seq<Finding>) -> Seq<FindingView> {
    v.map_values(|f: Finding| f@)
}

pub proof fn lemma_findings_push(v: Seq<Finding>, f: Finding)
    ensures
        findings_view(v.push(f)) == findings_view(v).push(f@),
{
    assert(findings_view(v.push(f)) =~= findings_view(v).push(f@));
}

/// How many things each check actually looked at.
#[derive(Debug, Default)]
pub struct LintScan {
    /// Pages laid out (0: the layout checks did not run).
    pub pages: usize,
    /// Cells met in the laid-out pages.
    pub cells: usize,
    /// Text runs met in the laid-out pages.
    pub text_runs: usize,
    /// Paragraphs read in the model (body, cells, nested cells).
    pub paragraphs: usize,
    /// Characters read in the model (no white space or control characters).
    pub chars: usize,
    /// Pairs of answer cells, one above the other, that the orphan check saw.
    pub cell_seams: usize,
}

pub open spec fn level_name(l: Level) -> Seq<char> {
    match l {
        Level::Error => "error"@,
        Level::Warn => "warn"@,
        Level::Info => "info"@,
    }
}

fn level_str(l: Level) -> (s: &'static str)
    ensures
        s@ == level_name(l),
{
    match l {
        Level::Error => "error",
        Level::Warn => "warn",
        Level::Info => "info",
    }
}

/// `Finding::json`.
pub open spec fn finding_json(f: FindingView) -> Seq<char> {
    "{\"level\":\""@ + level_name(f.level) + "\",\"code\":\""@ + f.code + "\",\"location\":\""@
        + esc_spec(f.location) + "\",\"message\":\""@ + esc_spec(f.message) + "\"}"@
}

/// `LintScan::json`.
pub open spec fn scan_json(s: LintScan) -> Seq<char> {
    "{\"pages\":"@ + dec(s.pages as nat) + ",\"cells\":"@ + dec(s.cells as nat) + ",\"textRuns\":"@
        + dec(s.text_runs as nat) + ",\"paragraphs\":"@ + dec(s.paragraphs as nat) + ",\"chars\":"@
        + dec(s.chars as nat) + ",\"cellSeams\":"@ + dec(s.cell_seams as nat) + "}"@
}

impl Finding {
    /// The finding as a JSON object.
    pub fn json(&self) -> (s: String)
        ensures
            s@ == finding_json(self@),
    {
        let mut s = String::new();
        s.append("{\"level\":\"");
        s.append(level_str(self.level));
        s.append("\",\"code\":\"");
        s.append(self.code);
        s.append("\",\"location\":\"");
        push_esc(&mut s, self.location.as_str());
        s.append("\",\"message\":\"");
        push_esc(&mut s, self.message.as_str());
        s.append("\"}");
        assert(s@ =~= finding_json(self@));
        s
    }
}

impl LintScan {
    /// The counts as a JSON object.
    pub fn json(&self) -> (s: String)
        ensures
            s@ == scan_json(*self),
    {
        let mut s = String::new();
        s.append("{\"pages\":");
        push_dec(&mut s, self.pages as u64);
        s.append(",\"cells\":");
        push_dec(&mut s, self.cells as u64);
        s.append(",\"textRuns\":");
        push_dec(&mut s, self.text_runs as u64);
        s.append(",\"paragraphs\":");
        push_dec(&mut s, self.paragraphs as u64);
        s.append(",\"chars\":");
        push_dec(&mut s, self.chars as u64);
        s.append(",\"cellSeams\":");
        push_dec(&mut s, self.cell_seams as u64);
        s.append("}");
        assert(s@ =~= scan_json(*self));
        s
    }
}

/// The outline level that a paragraph's bullet gives it; smaller is higher.
/// Plain text (no bullet) is the deepest.
pub open spec fn outline_level_spec(text: Seq<char>) -> u8 {
    let t = trim_start(text);
    if t.len() == 0 {
        9
    } else {
        let c = t[0];
        if c == '□' || c == '■' || c == '▣' || c == '◆' {
            1
        } else if c == '◦' || c == '○' || c == '●' || c == 'ㅇ' {
            2
        } else if c == '-' || c == '–' || c == '‐' || c == '•' || c == '∙' {
            3
        } else {
            9
        }
    }
}

/// `outline_level`: 1 for a section bullet, 2 for an item bullet, 3 for a
/// leaf bullet, 9 otherwise.
pub fn outline_level(text: &str) -> (l: u8)
    ensures
        l == outline_level_spec(text@),
{
    let v = chars_of(text);
    let k = skip_ws_start(&v);
    if k == v.len() {
        return 9;
    }
    let c = v[k];
    assert(c == trim_start(text@)[0]);
    if c == '□' || c == '■' || c == '▣' || c == '◆' {
        1
    } else if c == '◦' || c == '○' || c == '●' || c == 'ㅇ' {
        2
    } else if c == '-' || c == '–' || c == '‐' || c == '•' || c == '∙' {
        3
    } else {
        9
    }
}

/// The height of a page's body: the page without its margins (HWPUNIT).
pub open spec fn body_height(sec: Section) -> int {
    let pd = sec.section_def.page_def;
    pd.height - pd.margin_top - pd.margin_bottom - pd.margin_header - pd.margin_footer
}

/// `page_body_height`.
pub fn page_body_height(sec: &Section) -> (h: i64)
    ensures
        h == body_height(*sec),
{
    let pd = &sec.section_def.page_def;
    pd.height as i64 - pd.margin_top as i64 - pd.margin_bottom as i64 - pd.margin_header as i64
        - pd.margin_footer as i64
}

/// Half, rounded toward zero (integer `/ 2`).
pub open spec fn half(x: int) -> int {
    if x >= 0 {
        x / 2
    } else {
        -((-x) / 2)
    }
}

/// A paragraph counts when it has visible text or a control.
pub open spec fn meaningful(p: Paragraph) -> bool {
    trim(p.text@).len() > 0 || p.controls@.len() > 0
}

pub fn is_meaningful(p: &Paragraph) -> (b: bool)
    ensures
        b == meaningful(*p),
{
    if p.controls.len() > 0 {
        return true;
    }
    let v = chars_of(p.text.as_str());
    let (lo, hi) = trim_bounds(&v);
    lo < hi
}

/// The first `n` characters of the trimmed text (all of it when shorter).
pub open spec fn title_of(text: Seq<char>, n: nat) -> Seq<char> {
    let t = trim(text);
    if t.len() <= n {
        t
    } else {
        t.take(n as int)
    }
}

pub fn title(text: &str, n: usize) -> (s: String)
    ensures
        s@ == title_of(text@, n as nat),
{
    let v = chars_of(text);
    let (lo, hi) = trim_bounds(&v);
    let end = if hi - lo <= n { hi } else { lo + n };
    let s = string_from_range(&v, lo, end);
    assert(s@ =~= title_of(text@, n as nat));
    s
}

} // verus!
