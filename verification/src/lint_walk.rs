//! Checks that look at every table anchored in a body paragraph: what they
//! find, concatenated in document order.
use vstd::prelude::*;
use crate::lint_base::FindingView;
use crate::model::{Control, DocumentCore, Paragraph, Section, Table};

verus! {

/// A check of one table: (section index, section, paragraph index, control
/// index, table) to findings.
pub type TableCheck = spec_fn(nat, Section, nat, nat, Table) -> Seq<FindingView>;

/// A count taken over one table.
pub type TableCount = spec_fn(nat, Section, nat, nat, Table) -> nat;

/// What `f` gives for the tables among the first `j` controls of a paragraph.
pub open spec fn in_controls<A>(si: nat, sec: Section, pi: nat, p: Paragraph, f: spec_fn(nat, Section, nat, nat, Table) -> Seq<A>, j: nat) -> Seq<A>
    decreases j,
{
    if j == 0 {
        Seq::empty()
    } else {
        in_controls(si, sec, pi, p, f, (j - 1) as nat) + match p.controls@[j - 1] {
            Control::Table(t) => f(si, sec, pi, (j - 1) as nat, *t),
            _ => Seq::<A>::empty(),
        }
    }
}

/// What `f` finds in the tables of the first `i` paragraphs of a section.
pub open spec fn in_paras<A>(si: nat, sec: Section, f: spec_fn(nat, Section, nat, nat, Table) -> Seq<A>, i: nat) -> Seq<A>
    decreases i,
{
    if i == 0 {
        Seq::empty()
    } else {
        let p = sec.paragraphs@[i - 1];
        in_paras(si, sec, f, (i - 1) as nat) + in_controls(si, sec, (i - 1) as nat, p, f, p.controls@.len())
    }
}

/// What `f` finds in the tables of the first `s` sections.
pub open spec fn in_sections<A>(d: DocumentCore, f: spec_fn(nat, Section, nat, nat, Table) -> Seq<A>, s: nat) -> Seq<A>
    decreases s,
{
    if s == 0 {
        Seq::empty()
    } else {
        let sec = d.document.sections@[s - 1];
        in_sections(d, f, (s - 1) as nat) + in_paras((s - 1) as nat, sec, f, sec.paragraphs@.len())
    }
}

/// What `f` finds in every table of the document's body paragraphs.
pub open spec fn over_tables<A>(d: DocumentCore, f: spec_fn(nat, Section, nat, nat, Table) -> Seq<A>) -> Seq<A> {
    in_sections(d, f, d.document.sections@.len())
}

pub open spec fn count_controls(si: nat, sec: Section, pi: nat, p: Paragraph, f: TableCount, j: nat) -> nat
    decreases j,
{
    if j == 0 {
        0
    } else {
        count_controls(si, sec, pi, p, f, (j - 1) as nat) + match p.controls@[j - 1] {
            Control::Table(t) => f(si, sec, pi, (j - 1) as nat, *t),
            _ => 0,
        }
    }
}

pub open spec fn count_paras(si: nat, sec: Section, f: TableCount, i: nat) -> nat
    decreases i,
{
    if i == 0 {
        0
    } else {
        let p = sec.paragraphs@[i - 1];
        count_paras(si, sec, f, (i - 1) as nat) + count_controls(si, sec, (i - 1) as nat, p, f, p.controls@.len())
    }
}

pub open spec fn count_sections(d: DocumentCore, f: TableCount, s: nat) -> nat
    decreases s,
{
    if s == 0 {
        0
    } else {
        let sec = d.document.sections@[s - 1];
        count_sections(d, f, (s - 1) as nat) + count_paras((s - 1) as nat, sec, f, sec.paragraphs@.len())
    }
}

/// `f` summed over every table of the document's body paragraphs.
pub open spec fn count_tables(d: DocumentCore, f: TableCount) -> nat {
    count_sections(d, f, d.document.sections@.len())
}

pub proof fn lemma_count_controls_mono(si: nat, sec: Section, pi: nat, p: Paragraph, f: TableCount, j: nat, k: nat)
    requires
        j <= k,
    ensures
        count_controls(si, sec, pi, p, f, j) <= count_controls(si, sec, pi, p, f, k),
    decreases k,
{
    if j < k {
        lemma_count_controls_mono(si, sec, pi, p, f, j, (k - 1) as nat);
    }
}

pub proof fn lemma_count_paras_mono(si: nat, sec: Section, f: TableCount, i: nat, k: nat)
    requires
        i <= k,
    ensures
        count_paras(si, sec, f, i) <= count_paras(si, sec, f, k),
    decreases k,
{
    if i < k {
        lemma_count_paras_mono(si, sec, f, i, (k - 1) as nat);
    }
}

pub proof fn lemma_count_sections_mono(d: DocumentCore, f: TableCount, s: nat, k: nat)
    requires
        s <= k,
    ensures
        count_sections(d, f, s) <= count_sections(d, f, k),
    decreases k,
{
    if s < k {
        lemma_count_sections_mono(d, f, s, (k - 1) as nat);
    }
}

} // verus!
