//! Reaching a paragraph inside tables and text boxes by a path of
//! (control, cell, paragraph) steps.
use vstd::prelude::*;
use crate::model::{Control, HwpError, Paragraph, Section};
use crate::num::{dec, push_dec};

verus! {

/// One step: (control index, cell index, paragraph index in that cell).
/// A text box is entered with cell index 0.
pub type Step = (usize, usize, usize);

pub open spec fn at_step(i: nat) -> Seq<char> {
    "경로["@ + dec(i) + "]: "@
}

pub open spec fn msg_step_control_range(i: nat, c: nat) -> Seq<char> {
    at_step(i) + "controls["@ + dec(c) + "] 범위 초과"@
}

pub open spec fn msg_step_cell_range(i: nat, c: nat) -> Seq<char> {
    at_step(i) + "cells["@ + dec(c) + "] 범위 초과"@
}

pub open spec fn msg_step_para_range(i: nat, c: nat) -> Seq<char> {
    at_step(i) + "paragraphs["@ + dec(c) + "] 범위 초과"@
}

pub open spec fn msg_step_box_cell(i: nat, c: nat) -> Seq<char> {
    at_step(i) + "글상자의 cell_index는 0이어야 합니다 ("@ + dec(c) + ")"@
}

pub open spec fn msg_step_not_text_box(i: nat, c: nat) -> Seq<char> {
    at_step(i) + "controls["@ + dec(c) + "]가 텍스트 글상자가 아닙니다"@
}

pub open spec fn msg_step_box_para(i: nat, c: nat) -> Seq<char> {
    at_step(i) + "글상자문단 "@ + dec(c) + " 범위 초과"@
}

pub open spec fn msg_step_not_container(i: nat, c: nat) -> Seq<char> {
    at_step(i) + "controls["@ + dec(c) + "] 가 표/글상자가 아닙니다"@
}

pub open spec fn msg_para_index(p: nat) -> Seq<char> {
    "문단 인덱스 "@ + dec(p) + " 범위 초과"@
}

/// The paragraph that step `i` (`s`) reaches from `p`, or the error message.
pub open spec fn step(p: Paragraph, s: Step, i: nat) -> Result<Paragraph, Seq<char>> {
    let (ci, cell, cp) = s;
    if ci >= p.controls@.len() {
        Err(msg_step_control_range(i, ci as nat))
    } else {
        match p.controls@[ci as int] {
            Control::Table(t) => if cell >= t.cells@.len() {
                Err(msg_step_cell_range(i, cell as nat))
            } else if cp >= t.cells@[cell as int].paragraphs@.len() {
                Err(msg_step_para_range(i, cp as nat))
            } else {
                Ok(t.cells@[cell as int].paragraphs@[cp as int])
            },
            Control::Shape(sh) => if cell != 0 {
                Err(msg_step_box_cell(i, cell as nat))
            } else {
                match sh.text_box {
                    Some(tb) => if cp >= tb.paragraphs@.len() {
                        Err(msg_step_box_para(i, cp as nat))
                    } else {
                        Ok(tb.paragraphs@[cp as int])
                    },
                    None => Err(msg_step_not_text_box(i, ci as nat)),
                }
            },
            _ => Err(msg_step_not_container(i, ci as nat)),
        }
    }
}

/// The paragraph that steps `i..` of the path reach from `p`.
pub open spec fn descend(p: Paragraph, path: Seq<Step>, i: nat) -> Result<Paragraph, Seq<char>>
    decreases path.len() - i,
{
    if i >= path.len() {
        Ok(p)
    } else {
        match step(p, path[i as int], i) {
            Ok(q) => descend(q, path, i + 1),
            Err(m) => Err(m),
        }
    }
}

/// `new` is `old` with the paragraph that step `s` reaches replaced (and
/// nothing else changed); the two reached paragraphs are `inner_old` and
/// `inner_new`.
pub open spec fn step_edit(old: Paragraph, new: Paragraph, s: Step, inner_old: Paragraph, inner_new: Paragraph) -> bool {
    let (ci, cell, cp) = s;
    &&& new.text == old.text
    &&& new.char_offsets == old.char_offsets
    &&& new.char_shapes == old.char_shapes
    &&& new.line_segs == old.line_segs
    &&& new.para_shape_id == old.para_shape_id
    &&& new.field_ranges == old.field_ranges
    &&& new.ctrl_data_records == old.ctrl_data_records
    &&& new.controls@.len() == old.controls@.len()
    &&& ci < old.controls@.len()
    &&& forall|j: int| 0 <= j < old.controls@.len() && j != ci ==> #[trigger] new.controls@[j] == old.controls@[j]
    &&& match (old.controls@[ci as int], new.controls@[ci as int]) {
        (Control::Table(ot), Control::Table(nt)) => {
            &&& nt.row_count == ot.row_count
            &&& nt.col_count == ot.col_count
            &&& nt.raw_ctrl_data == ot.raw_ctrl_data
            &&& nt.page_break == ot.page_break
            &&& nt.cells@.len() == ot.cells@.len()
            &&& cell < ot.cells@.len()
            &&& forall|k: int| 0 <= k < ot.cells@.len() && k != cell ==> #[trigger] nt.cells@[k] == ot.cells@[k]
            &&& {
                let oc = ot.cells@[cell as int];
                let nc = nt.cells@[cell as int];
                &&& nc.row == oc.row
                &&& nc.col == oc.col
                &&& nc.row_span == oc.row_span
                &&& nc.col_span == oc.col_span
                &&& nc.height == oc.height
                &&& nc.border_fill_id == oc.border_fill_id
                &&& nc.padding == oc.padding
                &&& nc.vertical_align == oc.vertical_align
                &&& nc.paragraphs@ == oc.paragraphs@.update(cp as int, inner_new)
                &&& cp < oc.paragraphs@.len()
                &&& oc.paragraphs@[cp as int] == inner_old
            }
        },
        (Control::Shape(os), Control::Shape(ns)) => match (os.text_box, ns.text_box) {
            (Some(otb), Some(ntb)) => {
                &&& cp < otb.paragraphs@.len()
                &&& otb.paragraphs@[cp as int] == inner_old
                &&& ntb.paragraphs@ == otb.paragraphs@.update(cp as int, inner_new)
            },
            _ => false,
        },
        _ => false,
    }
}

/// The paragraph at step `s` of `p` (meaningful where the step succeeds).
pub open spec fn reach(p: Paragraph, s: Step) -> Paragraph {
    let (ci, cell, cp) = s;
    match p.controls@[ci as int] {
        Control::Table(t) => t.cells@[cell as int].paragraphs@[cp as int],
        Control::Shape(sh) => sh.text_box.unwrap().paragraphs@[cp as int],
        _ => p,
    }
}

/// `new` is `old` with only the paragraph that steps `i..` reach changed,
/// from `target_old` to `target_new`.
pub open spec fn path_edit(
    old: Paragraph,
    new: Paragraph,
    path: Seq<Step>,
    i: nat,
    target_old: Paragraph,
    target_new: Paragraph,
) -> bool
    decreases path.len() - i,
{
    if i >= path.len() {
        old == target_old && new == target_new
    } else {
        let s = path[i as int];
        step_edit(old, new, s, reach(old, s), reach(new, s)) && path_edit(
            reach(old, s),
            reach(new, s),
            path,
            i + 1,
            target_old,
            target_new,
        )
    }
}

fn step_error(i: usize, pre: &str, n: usize, post: &str) -> (e: HwpError)
    ensures
        e matches HwpError::RenderError(m) && m@ == at_step(i as nat) + pre@ + dec(n as nat) + post@,
{
    let mut m = String::new();
    m.append("경로[");
    push_dec(&mut m, i as u64);
    m.append("]: ");
    m.append(pre);
    push_dec(&mut m, n as u64);
    m.append(post);
    assert(m@ =~= at_step(i as nat) + pre@ + dec(n as nat) + post@);
    HwpError::RenderError(m)
}

/// Follows steps `i..` of the path from `p` and reports the paragraph they
/// reach, or the first step that fails.
pub fn descend_ref<'a>(p: &'a Paragraph, path: &[Step], i: usize) -> (r: Result<&'a Paragraph, HwpError>)
    requires
        i <= path@.len(),
    ensures
        match r {
            Ok(q) => descend(*p, path@, i as nat) == Ok::<Paragraph, Seq<char>>(*q),
            Err(HwpError::RenderError(m)) => descend(*p, path@, i as nat) == Err::<Paragraph, Seq<char>>(m@),
        },
    decreases path@.len() - i,
{
    if i >= path.len() {
        return Ok(p);
    }
    let (ci, cell, cp) = path[i];
    if ci >= p.controls.len() {
        return Err(step_error(i, "controls[", ci, "] 범위 초과"));
    }
    match &p.controls[ci] {
        Control::Table(t) => {
            if cell >= t.cells.len() {
                Err(step_error(i, "cells[", cell, "] 범위 초과"))
            } else if cp >= t.cells[cell].paragraphs.len() {
                Err(step_error(i, "paragraphs[", cp, "] 범위 초과"))
            } else {
                descend_ref(&t.cells[cell].paragraphs[cp], path, i + 1)
            }
        },
        Control::Shape(sh) => {
            if cell != 0 {
                Err(step_error(i, "글상자의 cell_index는 0이어야 합니다 (", cell, ")"))
            } else {
                match &sh.text_box {
                    Some(tb) => if cp >= tb.paragraphs.len() {
                        Err(step_error(i, "글상자문단 ", cp, " 범위 초과"))
                    } else {
                        descend_ref(&tb.paragraphs[cp], path, i + 1)
                    },
                    None => Err(step_error(i, "controls[", ci, "]가 텍스트 글상자가 아닙니다")),
                }
            }
        },
        _ => Err(step_error(i, "controls[", ci, "] 가 표/글상자가 아닙니다")),
    }
}

/// Follows steps `i..` of a path that leads somewhere and lends out the
/// paragraph it reaches.
pub fn descend_mut<'a>(p: &'a mut Paragraph, path: &[Step], i: usize) -> (q: &'a mut Paragraph)
    requires
        i <= path@.len(),
        descend(*old(p), path@, i as nat) is Ok,
    ensures
        descend(*old(p), path@, i as nat) == Ok::<Paragraph, Seq<char>>(*q),
        path_edit(*old(p), *final(p), path@, i as nat, *q, *final(q)),
    decreases path@.len() - i,
{
    if i >= path.len() {
        return p;
    }
    let (ci, cell, cp) = path[i];
    match &mut p.controls[ci] {
        Control::Table(t) => descend_mut(&mut t.cells[cell].paragraphs[cp], path, i + 1),
        Control::Shape(sh) => match &mut sh.text_box {
            Some(tb) => descend_mut(&mut tb.paragraphs[cp], path, i + 1),
            None => vstd::pervasive::unreached(),
        },
        _ => vstd::pervasive::unreached(),
    }
}

/// The paragraph that a path reaches from paragraph `parent` of a section.
pub open spec fn resolve(sec: Section, parent: usize, path: Seq<Step>) -> Result<Paragraph, Seq<char>> {
    if parent >= sec.paragraphs@.len() {
        Err(msg_para_index(parent as nat))
    } else {
        descend(sec.paragraphs@[parent as int], path, 0)
    }
}

/// `new` is `old` with only the paragraph that the path reaches from
/// paragraph `parent` changed, from `target_old` to `target_new`.
pub open spec fn section_path_edit(
    old: Section,
    new: Section,
    parent: usize,
    path: Seq<Step>,
    target_old: Paragraph,
    target_new: Paragraph,
) -> bool {
    &&& new.section_def == old.section_def
    &&& new.raw_stream == old.raw_stream
    &&& new.paragraphs@.len() == old.paragraphs@.len()
    &&& parent < old.paragraphs@.len()
    &&& forall|j: int| 0 <= j < old.paragraphs@.len() && j != parent ==> #[trigger] new.paragraphs@[j] == old.paragraphs@[j]
    &&& path_edit(old.paragraphs@[parent as int], new.paragraphs@[parent as int], path, 0, target_old, target_new)
}

/// Lends out the paragraph that the cell path reaches from paragraph
/// `parent_para_idx` of the section; the error names the first step that
/// fails.
pub fn resolve_form_cell_paragraph_mut<'a>(
    section: &'a mut Section,
    parent_para_idx: usize,
    path: &[Step],
) -> (r: Result<&'a mut Paragraph, HwpError>)
    ensures
        match r {
            Ok(q) => resolve(*old(section), parent_para_idx, path@) == Ok::<Paragraph, Seq<char>>(*q)
                && section_path_edit(*old(section), *final(section), parent_para_idx, path@, *q, *final(q)),
            Err(HwpError::RenderError(m)) => resolve(*old(section), parent_para_idx, path@) == Err::<Paragraph, Seq<char>>(m@)
                && *final(section) == *old(section),
        },
{
    if parent_para_idx >= section.paragraphs.len() {
        let mut m = String::new();
        m.append("문단 인덱스 ");
        push_dec(&mut m, parent_para_idx as u64);
        m.append(" 범위 초과");
        assert(m@ =~= msg_para_index(parent_para_idx as nat));
        return Err(HwpError::RenderError(m));
    }
    match descend_ref(&section.paragraphs[parent_para_idx], path, 0) {
        Err(e) => return Err(e),
        Ok(_) => {},
    }
    Ok(descend_mut(&mut section.paragraphs[parent_para_idx], path, 0))
}

/// Reads the paragraph that the cell path reaches from paragraph
/// `parent_para_idx` of the section.
pub fn resolve_ref<'a>(section: &'a Section, parent_para_idx: usize, path: &[Step]) -> (r: Result<&'a Paragraph, HwpError>)
    ensures
        match r {
            Ok(q) => resolve(*section, parent_para_idx, path@) == Ok::<Paragraph, Seq<char>>(*q),
            Err(HwpError::RenderError(m)) => resolve(*section, parent_para_idx, path@) == Err::<Paragraph, Seq<char>>(m@),
        },
{
    if parent_para_idx >= section.paragraphs.len() {
        let mut m = String::new();
        m.append("문단 인덱스 ");
        push_dec(&mut m, parent_para_idx as u64);
        m.append(" 범위 초과");
        assert(m@ =~= msg_para_index(parent_para_idx as nat));
        return Err(HwpError::RenderError(m));
    }
    descend_ref(&section.paragraphs[parent_para_idx], path, 0)
}

/// After an edit along the path, the path still reaches the edited
/// paragraph.
pub proof fn lemma_path_edit_descend(
    old: Paragraph,
    new: Paragraph,
    path: Seq<Step>,
    i: nat,
    target_old: Paragraph,
    target_new: Paragraph,
)
    requires
        i <= path.len(),
        path_edit(old, new, path, i, target_old, target_new),
        descend(old, path, i) is Ok,
    ensures
        descend(old, path, i) == Ok::<Paragraph, Seq<char>>(target_old),
        descend(new, path, i) == Ok::<Paragraph, Seq<char>>(target_new),
    decreases path.len() - i,
{
    if i < path.len() {
        let s = path[i as int];
        lemma_path_edit_descend(reach(old, s), reach(new, s), path, i + 1, target_old, target_new);
    }
}

} // verus!
