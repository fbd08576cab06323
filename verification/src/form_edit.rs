//! Putting a form object into a paragraph and taking one out, keeping the
//! other controls where they stand in the text.
use vstd::prelude::*;
use crate::model::{Control, FieldRange, FormObject, FormType, HwpError, Paragraph};
use crate::num::{dec, push_dec};
use crate::positions::{
    find_control_text_positions, lemma_end_ge_len, lemma_end_insert, law_para_positions_sorted, law_positions_roundtrip,
    offsets_in_range, para_positions,
    rebuild_offsets_from_control_positions, rebuilt_offsets, sorted, within,
};
use crate::props::{parse_form_properties_json, props_spec, props_view};
use crate::text::{chars_of, trim, trim_str};

verus! {

/// The index of the first position after `c`, or the number of positions.
pub open spec fn first_after(p: Seq<usize>, c: int) -> nat
    decreases p.len(),
{
    if p.len() == 0 {
        0
    } else if p[0] > c {
        0
    } else {
        1 + first_after(p.drop_first(), c)
    }
}

/// The form object made from the given settings.
pub open spec fn form_made(
    f: FormObject,
    form_type: FormType,
    name: Seq<char>,
    caption: Seq<char>,
    text: Seq<char>,
    width: u32,
    height: u32,
    value: i32,
    enabled: bool,
    properties_json: Seq<char>,
) -> bool {
    &&& f.form_type == form_type
    &&& f.name@ == trim(name)
    &&& f.caption@ == caption
    &&& f.text@ == text
    &&& f.width == width
    &&& f.height == height
    &&& f.fore_color == 0
    &&& f.back_color == 0x00ff_ffff
    &&& f.value == value
    &&& f.enabled == enabled
    &&& props_view(f.properties@) == props_spec(properties_json)
}

/// Field ranges after a control was put in at `idx`: those referring to
/// `idx` or later move up by one.
pub open spec fn ranges_shifted_up(old: Seq<FieldRange>, new: Seq<FieldRange>, idx: int) -> bool {
    &&& new.len() == old.len()
    &&& forall|i: int|
        0 <= i < old.len() ==> #[trigger] new[i] == (if old[i].control_idx >= idx {
            FieldRange { control_idx: (old[i].control_idx + 1) as usize, ..old[i] }
        } else {
            old[i]
        })
}

/// Field ranges after control `idx` was taken out: those after it move down
/// by one.
pub open spec fn ranges_shifted_down(old: Seq<FieldRange>, new: Seq<FieldRange>, idx: int) -> bool {
    &&& new.len() == old.len()
    &&& forall|i: int|
        0 <= i < old.len() ==> #[trigger] new[i] == (if old[i].control_idx > idx {
            FieldRange { control_idx: (old[i].control_idx - 1) as usize, ..old[i] }
        } else {
            old[i]
        })
}

/// A form can be put into the paragraph at `c`: the offsets with the new
/// control in place stay within 32 bits, and no field range index is at its
/// limit.
pub open spec fn can_insert(p: Paragraph, c: usize) -> bool {
    let pos = para_positions(p);
    &&& offsets_in_range(p.text@, pos.insert(first_after(pos, c as int) as int, c))
    &&& forall|i: int|
        0 <= i < p.field_ranges@.len() ==> #[trigger] p.field_ranges@[i].control_idx
            < usize::MAX
}

/// Control `idx` can be taken out of the paragraph: the offsets without it
/// stay within 32 bits.
pub open spec fn can_delete(p: Paragraph, idx: int) -> bool {
    offsets_in_range(p.text@, para_positions(p).remove(idx))
}

pub open spec fn msg_offset_beyond(c: nat, n: nat) -> Seq<char> {
    "문자 오프셋 "@ + dec(c) + "이 문단 길이 "@ + dec(n) + "를 초과합니다."@
}

pub open spec fn msg_control_index(i: nat) -> Seq<char> {
    "컨트롤 인덱스 "@ + dec(i) + " 범위 초과"@
}

pub open spec fn msg_not_form() -> Seq<char> {
    "지정된 컨트롤이 양식 개체가 아닙니다"@
}

/// The error carries the given message.
pub open spec fn err_is<T>(r: Result<T, HwpError>, m: Seq<char>) -> bool {
    match r {
        Err(HwpError::RenderError(s)) => s@ == m,
        Ok(_) => false,
    }
}

/// What putting a form in at `idx` does to a paragraph.
pub open spec fn form_inserted(
    old: Paragraph,
    new: Paragraph,
    idx: int,
    char_offset: usize,
    form_type: FormType,
    name: Seq<char>,
    caption: Seq<char>,
    text: Seq<char>,
    width: u32,
    height: u32,
    value: i32,
    enabled: bool,
    properties_json: Seq<char>,
) -> bool {
    &&& idx == first_after(para_positions(old), char_offset as int)
    &&& new.text == old.text
    &&& new.char_shapes == old.char_shapes
    &&& new.line_segs == old.line_segs
    &&& new.para_shape_id == old.para_shape_id
    &&& new.controls@.len() == old.controls@.len() + 1
    &&& forall|j: int| 0 <= j < idx ==> #[trigger] new.controls@[j] == old.controls@[j]
    &&& forall|j: int|
        idx < j < new.controls@.len() ==> #[trigger] new.controls@[j] == old.controls@[j - 1]
    &&& (new.controls@[idx] matches Control::Form(f) && form_made(
        *f,
        form_type,
        name,
        caption,
        text,
        width,
        height,
        value,
        enabled,
        properties_json,
    ))
    &&& ranges_shifted_up(old.field_ranges@, new.field_ranges@, idx)
    &&& new.ctrl_data_records@ == (if old.ctrl_data_records@.len() >= idx {
        old.ctrl_data_records@.insert(idx, None)
    } else {
        old.ctrl_data_records@
    })
    &&& new.char_offsets@ == rebuilt_offsets(
        old.text@,
        para_positions(old).insert(idx, char_offset),
    )
}

pub proof fn lemma_first_after_bound(p: Seq<usize>, c: int)
    ensures
        first_after(p, c) <= p.len(),
        forall|j: int| 0 <= j < first_after(p, c) ==> #[trigger] p[j] <= c,
        first_after(p, c) < p.len() ==> p[first_after(p, c) as int] > c,
    decreases p.len(),
{
    if p.len() > 0 && p[0] <= c {
        lemma_first_after_bound(p.drop_first(), c);
        assert forall|j: int| 0 <= j < first_after(p, c) implies #[trigger] p[j] <= c by {
            if j > 0 {
                assert(p[j] == p.drop_first()[j - 1]);
            }
        }
    }
}

/// The error for a character offset beyond the paragraph's text.
pub fn offset_error(char_offset: usize, text_len: usize) -> (e: HwpError)
    ensures
        e matches HwpError::RenderError(m) && m@ == msg_offset_beyond(char_offset as nat, text_len as nat),
{
    let mut m = String::new();
    m.append("문자 오프셋 ");
    push_dec(&mut m, char_offset as u64);
    m.append("이 문단 길이 ");
    push_dec(&mut m, text_len as u64);
    m.append("를 초과합니다.");
    assert(m@ =~= msg_offset_beyond(char_offset as nat, text_len as nat));
    HwpError::RenderError(m)
}

/// The error for a control index beyond the paragraph's controls.
pub fn control_index_error(control_idx: usize) -> (e: HwpError)
    ensures
        e matches HwpError::RenderError(m) && m@ == msg_control_index(control_idx as nat),
{
    let mut m = String::new();
    m.append("컨트롤 인덱스 ");
    push_dec(&mut m, control_idx as u64);
    m.append(" 범위 초과");
    assert(m@ =~= msg_control_index(control_idx as nat));
    HwpError::RenderError(m)
}

/// Puts a form object into the paragraph before the first control that
/// stands after `char_offset`, and returns its control index.
pub fn insert_form_into_paragraph(
    paragraph: &mut Paragraph,
    char_offset: usize,
    form_type: FormType,
    name: &str,
    caption: &str,
    text: &str,
    width: u32,
    height: u32,
    value: i32,
    enabled: bool,
    properties_json: &str,
) -> (r: Result<usize, HwpError>)
    requires
        char_offset <= old(paragraph).text@.len() ==> can_insert(*old(paragraph), char_offset),
    ensures
        char_offset > old(paragraph).text@.len() ==> {
            &&& err_is(r, msg_offset_beyond(char_offset as nat, old(paragraph).text@.len()))
            &&& *final(paragraph) == *old(paragraph)
        },
        char_offset <= old(paragraph).text@.len() ==> (r matches Ok(idx) && form_inserted(
            *old(paragraph),
            *final(paragraph),
            idx as int,
            char_offset,
            form_type,
            name@,
            caption@,
            text@,
            width,
            height,
            value,
            enabled,
            properties_json@,
        )),
{
    let text_len = chars_of(paragraph.text.as_str()).len();
    if char_offset > text_len {
        return Err(offset_error(char_offset, text_len));
    }
    let form = FormObject {
        form_type,
        name: trim_str(name),
        caption: String::from_str(caption),
        text: String::from_str(text),
        width,
        height,
        fore_color: 0,
        back_color: 0x00ff_ffff,
        value,
        enabled,
        properties: parse_form_properties_json(properties_json),
    };
    let ghost old_p = *paragraph;
    let mut positions = find_control_text_positions(paragraph);
    let ghost pos = positions@;
    let m = paragraph.controls.len();
    // The first control that stands after the offset, else the end.
    let mut insert_idx: usize = 0;
    proof {
        lemma_first_after_bound(pos, char_offset as int);
    }
    while insert_idx < m && positions[insert_idx] <= char_offset
        invariant
            m == pos.len(),
            positions@ == pos,
            insert_idx <= m,
            forall|j: int| 0 <= j < insert_idx ==> #[trigger] pos[j] <= char_offset,
            first_after(pos, char_offset as int) <= pos.len(),
            forall|j: int| 0 <= j < first_after(pos, char_offset as int) ==> #[trigger] pos[j] <= char_offset,
            first_after(pos, char_offset as int) < pos.len() ==> pos[first_after(pos, char_offset as int) as int] > char_offset,
        decreases m - insert_idx,
    {
        insert_idx = insert_idx + 1;
    }
    proof {
        if insert_idx < first_after(pos, char_offset as int) {
            assert(pos[insert_idx as int] <= char_offset);
        }
        if insert_idx > first_after(pos, char_offset as int) {
            let k = first_after(pos, char_offset as int) as int;
            assert(pos[k] <= char_offset);
        }
    }
    let nr = paragraph.field_ranges.len();
    for i in 0..nr
        invariant
            nr == old_p.field_ranges@.len(),
            paragraph.field_ranges@.len() == nr,
            can_insert(old_p, char_offset),
            forall|j: int|
                0 <= j < i ==> #[trigger] paragraph.field_ranges@[j] == (if old_p.field_ranges@[j].control_idx
                    >= insert_idx {
                    FieldRange { control_idx: (old_p.field_ranges@[j].control_idx + 1) as usize, ..old_p.field_ranges@[j] }
                } else {
                    old_p.field_ranges@[j]
                }),
            forall|j: int| i <= j < nr ==> #[trigger] paragraph.field_ranges@[j] == old_p.field_ranges@[j],
            paragraph.text == old_p.text,
            paragraph.controls == old_p.controls,
            paragraph.char_offsets == old_p.char_offsets,
            paragraph.char_shapes == old_p.char_shapes,
            paragraph.line_segs == old_p.line_segs,
            paragraph.para_shape_id == old_p.para_shape_id,
            paragraph.ctrl_data_records == old_p.ctrl_data_records,
    {
        let mut fr = paragraph.field_ranges[i];
        if fr.control_idx >= insert_idx {
            fr.control_idx = fr.control_idx + 1;
        }
        paragraph.field_ranges.set(i, fr);
    }
    positions.insert(insert_idx, char_offset);
    paragraph.controls.insert(insert_idx, Control::Form(Box::new(form)));
    if paragraph.ctrl_data_records.len() >= insert_idx {
        paragraph.ctrl_data_records.insert(insert_idx, None);
    }
    rebuild_offsets_from_control_positions(paragraph, &positions);
    proof {
        assert(ranges_shifted_up(old_p.field_ranges@, paragraph.field_ranges@, insert_idx as int));
    }
    Ok(insert_idx)
}

/// Takes the form object at `control_idx` out of the paragraph.
pub fn delete_form_from_paragraph(paragraph: &mut Paragraph, control_idx: usize) -> (r: Result<(), HwpError>)
    requires
        control_idx < old(paragraph).controls@.len() && old(paragraph).controls@[control_idx as int] is Form ==> can_delete(
            *old(paragraph),
            control_idx as int,
        ),
    ensures
        control_idx >= old(paragraph).controls@.len() ==> {
            &&& err_is(r, msg_control_index(control_idx as nat))
            &&& *final(paragraph) == *old(paragraph)
        },
        control_idx < old(paragraph).controls@.len() && !(old(paragraph).controls@[control_idx as int] is Form) ==> {
            &&& err_is(r, msg_not_form())
            &&& *final(paragraph) == *old(paragraph)
        },
        control_idx < old(paragraph).controls@.len() && old(paragraph).controls@[control_idx as int] is Form ==> {
            &&& r is Ok
            &&& form_deleted(*old(paragraph), *final(paragraph), control_idx as int)
        },
{
    if control_idx >= paragraph.controls.len() {
        return Err(control_index_error(control_idx));
    }
    let is_form = match &paragraph.controls[control_idx] {
        Control::Form(_) => true,
        _ => false,
    };
    if !is_form {
        let m = String::from_str("지정된 컨트롤이 양식 개체가 아닙니다");
        return Err(HwpError::RenderError(m));
    }
    let ghost old_p = *paragraph;
    let mut positions = find_control_text_positions(paragraph);
    positions.remove(control_idx);
    paragraph.controls.remove(control_idx);
    if control_idx < paragraph.ctrl_data_records.len() {
        paragraph.ctrl_data_records.remove(control_idx);
    }
    let nr = paragraph.field_ranges.len();
    for i in 0..nr
        invariant
            nr == old_p.field_ranges@.len(),
            paragraph.field_ranges@.len() == nr,
            forall|j: int|
                0 <= j < i ==> #[trigger] paragraph.field_ranges@[j] == (if old_p.field_ranges@[j].control_idx
                    > control_idx {
                    FieldRange { control_idx: (old_p.field_ranges@[j].control_idx - 1) as usize, ..old_p.field_ranges@[j] }
                } else {
                    old_p.field_ranges@[j]
                }),
            forall|j: int| i <= j < nr ==> #[trigger] paragraph.field_ranges@[j] == old_p.field_ranges@[j],
            paragraph.text == old_p.text,
            control_idx < old_p.controls@.len(),
            positions@ == para_positions(old_p).remove(control_idx as int),
            positions@.len() == old_p.controls@.len() - 1,
            can_delete(old_p, control_idx as int),
            paragraph.controls@ == old_p.controls@.remove(control_idx as int),
            paragraph.char_offsets == old_p.char_offsets,
            paragraph.char_shapes == old_p.char_shapes,
            paragraph.line_segs == old_p.line_segs,
            paragraph.para_shape_id == old_p.para_shape_id,
            paragraph.ctrl_data_records@ == (if control_idx < old_p.ctrl_data_records@.len() {
                old_p.ctrl_data_records@.remove(control_idx as int)
            } else {
                old_p.ctrl_data_records@
            }),
    {
        let mut fr = paragraph.field_ranges[i];
        if fr.control_idx > control_idx {
            fr.control_idx = fr.control_idx - 1;
        }
        paragraph.field_ranges.set(i, fr);
    }
    rebuild_offsets_from_control_positions(paragraph, &positions);
    Ok(())
}

/// What taking control `idx` out does to a paragraph.
pub open spec fn form_deleted(old: Paragraph, new: Paragraph, idx: int) -> bool {
    &&& new.text == old.text
    &&& new.char_shapes == old.char_shapes
    &&& new.line_segs == old.line_segs
    &&& new.para_shape_id == old.para_shape_id
    &&& new.controls@ == old.controls@.remove(idx)
    &&& ranges_shifted_down(old.field_ranges@, new.field_ranges@, idx)
    &&& new.ctrl_data_records@ == (if idx < old.ctrl_data_records@.len() {
        old.ctrl_data_records@.remove(idx)
    } else {
        old.ctrl_data_records@
    })
    &&& new.char_offsets@ == rebuilt_offsets(old.text@, para_positions(old).remove(idx))
}

/// Putting a form object into a paragraph keeps every other control where
/// it stands in the text, and the new one stands at the character offset.
pub proof fn law_insert_places_form(
    old: Paragraph,
    new: Paragraph,
    idx: int,
    char_offset: usize,
    form_type: FormType,
    name: Seq<char>,
    caption: Seq<char>,
    text: Seq<char>,
    width: u32,
    height: u32,
    value: i32,
    enabled: bool,
    properties_json: Seq<char>,
)
    requires
        can_insert(old, char_offset),
        char_offset <= old.text@.len(),
        form_inserted(old, new, idx, char_offset, form_type, name, caption, text, width, height, value, enabled, properties_json),
    ensures
        para_positions(new) == para_positions(old).insert(idx, char_offset),
{
    let p = para_positions(old);
    lemma_end_ge_len(old.text@, p.insert(first_after(p, char_offset as int) as int, char_offset));
    law_para_positions_sorted(old);
    lemma_first_after_bound(p, char_offset as int);
    let q = p.insert(idx, char_offset);
    assert forall|a: int, b: int| 0 <= a <= b < q.len() implies q[a] <= q[b] by {
        if a < idx {
            assert(q[a] == p[a]);
            assert(p[a] <= char_offset);
            if b < idx {
                assert(q[b] == p[b]);
            } else if b > idx {
                assert(q[b] == p[b - 1]);
                assert(p[idx] > char_offset);
                assert(p[idx] <= p[b - 1]);
            }
        } else if a == idx {
            if b > idx {
                assert(q[b] == p[b - 1]);
                assert(p[idx] > char_offset);
                assert(p[idx] <= p[b - 1]);
            }
        } else {
            assert(q[a] == p[a - 1]);
            assert(q[b] == p[b - 1]);
        }
    }
    assert forall|a: int| 0 <= a < q.len() implies #[trigger] q[a] <= new.text@.len() by {
        if a < idx {
            assert(q[a] == p[a]);
        } else if a > idx {
            assert(q[a] == p[a - 1]);
        }
    }
    assert(sorted(q));
    assert(within(q, new.text@.len()));
    law_positions_roundtrip(new.text@, q);
}

/// Taking control `idx` out of a paragraph keeps every other control where
/// it stands in the text.
pub proof fn law_delete_keeps_positions(old: Paragraph, new: Paragraph, idx: int)
    requires
        can_delete(old, idx),
        0 <= idx < old.controls@.len(),
        form_deleted(old, new, idx),
    ensures
        para_positions(new) == para_positions(old).remove(idx),
{
    let p = para_positions(old);
    lemma_end_ge_len(old.text@, p.remove(idx));
    law_para_positions_sorted(old);
    let q = p.remove(idx);
    assert forall|a: int, b: int| 0 <= a <= b < q.len() implies q[a] <= q[b] by {
        if a < idx {
            assert(q[a] == p[a]);
        } else {
            assert(q[a] == p[a + 1]);
        }
        if b < idx {
            assert(q[b] == p[b]);
        } else {
            assert(q[b] == p[b + 1]);
        }
    }
    assert forall|a: int| 0 <= a < q.len() implies #[trigger] q[a] <= new.text@.len() by {
        if a < idx {
            assert(q[a] == p[a]);
        } else {
            assert(q[a] == p[a + 1]);
        }
    }
    law_positions_roundtrip(new.text@, q);
}

/// Taking out the form object just put in gives the paragraph back: the
/// same text, controls, field ranges, shapes, lines and records, and every
/// control where it stood; the character offsets are those the control
/// positions give.
pub proof fn law_delete_undoes_insert(
    p: Paragraph,
    p2: Paragraph,
    p3: Paragraph,
    idx: int,
    char_offset: usize,
    form_type: FormType,
    name: Seq<char>,
    caption: Seq<char>,
    text: Seq<char>,
    width: u32,
    height: u32,
    value: i32,
    enabled: bool,
    properties_json: Seq<char>,
)
    requires
        can_insert(p, char_offset),
        char_offset <= p.text@.len(),
        form_inserted(p, p2, idx, char_offset, form_type, name, caption, text, width, height, value, enabled, properties_json),
        form_deleted(p2, p3, idx),
    ensures
        p3.text == p.text,
        p3.controls@ == p.controls@,
        p3.field_ranges@ == p.field_ranges@,
        p3.char_shapes == p.char_shapes,
        p3.line_segs == p.line_segs,
        p3.para_shape_id == p.para_shape_id,
        p3.ctrl_data_records@ == p.ctrl_data_records@,
        para_positions(p3) == para_positions(p),
        p3.char_offsets@ == rebuilt_offsets(p.text@, para_positions(p)),
{
    law_insert_places_form(p, p2, idx, char_offset, form_type, name, caption, text, width, height, value, enabled, properties_json);
    lemma_first_after_bound(para_positions(p), char_offset as int);
    lemma_end_ge_len(p.text@, para_positions(p).insert(idx, char_offset));
    law_para_positions_sorted(p);
    assert(para_positions(p2).remove(idx) =~= para_positions(p));
    lemma_end_insert(p.text@, para_positions(p), idx, char_offset);
    law_delete_keeps_positions(p2, p3, idx);
    assert(para_positions(p).insert(idx, char_offset).remove(idx) =~= para_positions(p));
    assert(p3.controls@ =~= p.controls@);
    assert(p3.field_ranges@ =~= p.field_ranges@) by {
        assert forall|i: int| 0 <= i < p.field_ranges@.len() implies p3.field_ranges@[i] == p.field_ranges@[i] by {
            assert(p2.field_ranges@[i] == (if p.field_ranges@[i].control_idx >= idx {
                FieldRange { control_idx: (p.field_ranges@[i].control_idx + 1) as usize, ..p.field_ranges@[i] }
            } else {
                p.field_ranges@[i]
            }));
        }
    }
    if p.ctrl_data_records@.len() >= idx {
        assert(p.ctrl_data_records@.insert(idx, None).remove(idx) =~= p.ctrl_data_records@);
    }
}

/// The form object just put into a paragraph can be taken out again: the
/// control at the index it was given is that form, and the offsets without
/// it stay within 32 bits (they are those the paragraph had room for).
pub proof fn law_inserted_form_can_be_deleted(
    p: Paragraph,
    p2: Paragraph,
    idx: int,
    char_offset: usize,
    form_type: FormType,
    name: Seq<char>,
    caption: Seq<char>,
    text: Seq<char>,
    width: u32,
    height: u32,
    value: i32,
    enabled: bool,
    properties_json: Seq<char>,
)
    requires
        can_insert(p, char_offset),
        char_offset <= p.text@.len(),
        form_inserted(p, p2, idx, char_offset, form_type, name, caption, text, width, height, value, enabled, properties_json),
    ensures
        0 <= idx < p2.controls@.len(),
        p2.controls@[idx] is Form,
        can_delete(p2, idx),
{
    law_insert_places_form(p, p2, idx, char_offset, form_type, name, caption, text, width, height, value, enabled, properties_json);
    lemma_first_after_bound(para_positions(p), char_offset as int);
    crate::positions::lemma_para_positions_len(p);
    assert(para_positions(p2).remove(idx) =~= para_positions(p));
    lemma_end_insert(p.text@, para_positions(p), idx, char_offset);
}

} // verus!
