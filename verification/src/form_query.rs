//! Form objects in a document: creating them in body paragraphs and in cell
//! or text box paragraphs, reading their values and details, setting their
//! values and deleting them. Every operation answers with a JSON text.
use vstd::prelude::*;
use crate::extract::{
    apply_form_value, escaped_text, form_value_applied, law_escaped_text_set_is_read, law_text_set_is_read, law_value_set_is_read, plain_text, string_only_json,
    value_only_json,
};
use crate::form_edit::{
    control_index_error, offset_error,
    can_delete, can_insert, delete_form_from_paragraph, err_is, first_after, form_deleted, form_inserted,
    form_made, insert_form_into_paragraph, law_delete_undoes_insert, law_inserted_form_can_be_deleted, msg_control_index, msg_not_form, msg_offset_beyond,
};
use crate::form_json::{
    create_cell_json_spec, create_json_spec, delete_cell_json_spec, delete_json_spec,
    info_fields_spec, push_create_cell_json, push_create_json, push_delete_cell_json,
    push_delete_json, push_info_fields, push_set_cell_json, push_set_json, push_set_path_json,
    push_value_json, set_cell_json_spec, set_json_spec, set_path_json_spec, value_json_spec,
    cell_path_json_spec, push_cell_path_json, bool_text, form_type_name,
};
use crate::model::{Control, DocumentCore, FormObject, FormType, HwpError, Paragraph, Section};
use crate::json::escape_json_spec;
use crate::num::{dec, dec_int, push_dec};
use crate::path::{
    step, descend, descend_mut, descend_ref, lemma_path_edit_descend, path_edit, resolve,
    resolve_form_cell_paragraph_mut, resolve_ref, section_path_edit, Step,
};
use crate::text::chars_of;
use crate::positions::{para_positions, rebuilt_offsets};
use crate::script::{combobox_items, extract_combobox_items_from_script};
use crate::text::{trim, trim_str};

verus! {

pub open spec fn msg_section_range() -> Seq<char> {
    "구역 위치 초과"@
}

pub open spec fn msg_para_range() -> Seq<char> {
    "문단 위치 초과"@
}

pub open spec fn msg_empty_path() -> Seq<char> {
    "cell_path가 비어 있습니다."@
}

pub open spec fn not_form_json() -> Seq<char> {
    "{\"ok\":false,\"error\":\"not a form object\"}"@
}

pub open spec fn not_cell_form_json() -> Seq<char> {
    "{\"ok\":false,\"error\":\"not a cell form object\"}"@
}

pub open spec fn cell_form_missing_json() -> Seq<char> {
    "{\"ok\":false,\"error\":\"cell form not found\"}"@
}

/// The answer is `Ok` with the given text.
pub open spec fn ok_is(r: Result<String, HwpError>, s: Seq<char>) -> bool {
    match r {
        Ok(t) => t@ == s,
        Err(_) => false,
    }
}

/// Only section `sec` of the document may differ.
pub open spec fn only_section(old: DocumentCore, new: DocumentCore, sec: int) -> bool {
    &&& new.document.doc_info == old.document.doc_info
    &&& new.document.extra_streams == old.document.extra_streams
    &&& new.document.sections@.len() == old.document.sections@.len()
    &&& forall|j: int|
        0 <= j < old.document.sections@.len() && j != sec ==> #[trigger] new.document.sections@[j]
            == old.document.sections@[j]
}

/// The section lost its stored stream and nothing else changed.
pub open spec fn stream_dropped(old: Section, new: Section) -> bool {
    &&& new.section_def == old.section_def
    &&& new.raw_stream is None
    &&& new.paragraphs@ == old.paragraphs@
}

/// The section lost its stored stream and only paragraph `para` changed.
pub open spec fn para_changed(old: Section, new: Section, para: int) -> bool {
    &&& new.section_def == old.section_def
    &&& new.raw_stream is None
    &&& 0 <= para < old.paragraphs@.len()
    &&& new.paragraphs@ == old.paragraphs@.update(para, new.paragraphs@[para])
}

/// `new` is `old` with only control `ci` changed.
pub open spec fn control_changed(old: Paragraph, new: Paragraph, ci: int) -> bool {
    &&& new.text == old.text
    &&& new.char_offsets == old.char_offsets
    &&& new.char_shapes == old.char_shapes
    &&& new.line_segs == old.line_segs
    &&& new.para_shape_id == old.para_shape_id
    &&& new.field_ranges == old.field_ranges
    &&& new.ctrl_data_records == old.ctrl_data_records
    &&& 0 <= ci < old.controls@.len()
    &&& new.controls@ == old.controls@.update(ci, new.controls@[ci])
}

/// The form object that control `ci` of a paragraph is, if it is one.
pub open spec fn form_in(p: Paragraph, ci: usize) -> Option<FormObject> {
    if ci < p.controls@.len() {
        match p.controls@[ci as int] {
            Control::Form(f) => Some(*f),
            _ => None,
        }
    } else {
        None
    }
}

/// The form object at (section, paragraph, control), if there is one.
pub open spec fn form_at(d: DocumentCore, sec: usize, para: usize, ci: usize) -> Option<FormObject> {
    if sec < d.document.sections@.len() && para < d.document.sections@[sec as int].paragraphs@.len() {
        form_in(d.document.sections@[sec as int].paragraphs@[para as int], ci)
    } else {
        None
    }
}

/// Control `ci` of `new` is `old`'s form with the value JSON applied.
pub open spec fn form_set_in(old: Paragraph, new: Paragraph, ci: usize, json: Seq<char>) -> bool {
    &&& control_changed(old, new, ci as int)
    &&& form_in(old, ci) matches Some(of)
    &&& form_in(new, ci) matches Some(nf)
    &&& form_value_applied(of, nf, json)
}

/// The paragraph that a cell path reaches in a document.
pub open spec fn resolve_doc(d: DocumentCore, sec: usize, parent: usize, path: Seq<Step>) -> Result<Paragraph, Seq<char>> {
    if sec >= d.document.sections@.len() {
        Err(msg_section_range())
    } else {
        resolve(d.document.sections@[sec as int], parent, path)
    }
}

/// The combo box items shown for a form (none unless it is a combo box).
pub open spec fn form_items(streams: Seq<(String, Vec<u8>)>, f: FormObject) -> Seq<Seq<char>> {
    if f.form_type == FormType::ComboBox {
        combobox_items(streams, f.name@)
    } else {
        Seq::empty()
    }
}

/// `format_form_info_json`: the form's details, properties and items.
pub open spec fn form_info_json(f: FormObject, streams: Seq<(String, Vec<u8>)>) -> Seq<char> {
    info_fields_spec(f, form_items(streams, f)) + "}"@
}

/// The form's details with where in the cell it stands.
pub open spec fn cell_form_info_json(
    f: FormObject,
    streams: Seq<(String, Vec<u8>)>,
    para: usize,
    ci: usize,
    path: Seq<Step>,
) -> Seq<char> {
    info_fields_spec(f, form_items(streams, f)) + ",\"container\":\"cell\",\"paraIdx\":"@ + dec(
        para as nat,
    ) + ",\"controlIdx\":"@ + dec(ci as nat) + ",\"cellPath\":"@ + cell_path_json_spec(path) + "}"@
}

fn render_error(msg: &str) -> (e: HwpError)
    ensures
        e matches HwpError::RenderError(m) && m@ == msg@,
{
    HwpError::RenderError(String::from_str(msg))
}

fn form_items_of(extra_streams: &Vec<(String, Vec<u8>)>, f: &FormObject) -> (items: Vec<String>)
    ensures
        items@.map_values(|s: String| s@) == form_items(extra_streams@, *f),
{
    if f.form_type == FormType::ComboBox {
        extract_combobox_items_from_script(extra_streams, f.name.as_str())
    } else {
        let items: Vec<String> = Vec::new();
        assert(items@.map_values(|s: String| s@) =~= Seq::<Seq<char>>::empty());
        items
    }
}

/// `format_form_info_json`: the form's details as JSON, with the combo box
/// items that the document script adds.
pub fn format_form_info_json(f: &FormObject, extra_streams: &Vec<(String, Vec<u8>)>) -> (s: String)
    ensures
        s@ == form_info_json(*f, extra_streams@),
{
    let items = form_items_of(extra_streams, f);
    let mut s = String::new();
    push_info_fields(&mut s, f, &items);
    s.append("}");
    assert(s@ =~= form_info_json(*f, extra_streams@));
    s
}

/// `cell_path_json`: the steps as a JSON array.
pub fn cell_path_json(path: &[Step]) -> (s: String)
    ensures
        s@ == cell_path_json_spec(path@),
{
    let mut s = String::new();
    push_cell_path_json(&mut s, path);
    assert(s@ =~= cell_path_json_spec(path@));
    s
}

/// The form object that control `ci` of a paragraph is, if it is one.
fn form_ref(p: &Paragraph, ci: usize) -> (r: Option<&FormObject>)
    ensures
        match r {
            Some(f) => form_in(*p, ci) == Some(*f),
            None => form_in(*p, ci) is None,
        },
{
    if ci >= p.controls.len() {
        return None;
    }
    match &p.controls[ci] {
        Control::Form(f) => Some(&**f),
        _ => None,
    }
}

/// Applies the value JSON to the form object at control `ci` of a paragraph
/// known to hold one there.
fn set_form_in<'a>(p: &'a mut Paragraph, ci: usize, value_json: &str) -> (f: &'a FormObject)
    requires
        form_in(*old(p), ci) is Some,
    ensures
        form_set_in(*old(p), *final(p), ci, value_json@),
        form_in(*final(p), ci) == Some(*f),
{
    match &mut p.controls[ci] {
        Control::Form(f) => {
            apply_form_value(&mut **f, value_json);
            &**f
        },
        _ => vstd::pervasive::unreached(),
    }
}

/// Only the paragraph that the cell path reaches from paragraph `parent`
/// changed (from `t` to `tn`), and the section lost its stored stream.
pub open spec fn cell_para_changed(
    os: Section,
    ns: Section,
    parent: usize,
    path: Seq<Step>,
    t: Paragraph,
    tn: Paragraph,
) -> bool {
    &&& ns.section_def == os.section_def
    &&& ns.raw_stream is None
    &&& ns.paragraphs@.len() == os.paragraphs@.len()
    &&& parent < os.paragraphs@.len()
    &&& forall|j: int| 0 <= j < os.paragraphs@.len() && j != parent ==> #[trigger] ns.paragraphs@[j] == os.paragraphs@[j]
    &&& path_edit(os.paragraphs@[parent as int], ns.paragraphs@[parent as int], path, 0, t, tn)
}

/// The form object in a table cell paragraph, reached through a table
/// control of a body paragraph.
pub open spec fn cell_form_at(
    d: DocumentCore,
    sec: usize,
    table_para: usize,
    table_ci: usize,
    cell_idx: usize,
    cell_para: usize,
    form_ci: usize,
) -> Option<FormObject> {
    if sec < d.document.sections@.len() && table_para < d.document.sections@[sec as int].paragraphs@.len() {
        let p = d.document.sections@[sec as int].paragraphs@[table_para as int];
        if table_ci < p.controls@.len() {
            match p.controls@[table_ci as int] {
                Control::Table(t) => if cell_idx < t.cells@.len() && cell_para
                    < t.cells@[cell_idx as int].paragraphs@.len() {
                    form_in(t.cells@[cell_idx as int].paragraphs@[cell_para as int], form_ci)
                } else {
                    None
                },
                _ => None,
            }
        } else {
            None
        }
    } else {
        None
    }
}

/// The form object in a table cell paragraph, if there is one there.
fn cell_form_ref(
    d: &DocumentCore,
    sec: usize,
    table_para: usize,
    table_ci: usize,
    cell_idx: usize,
    cell_para: usize,
    form_ci: usize,
) -> (found: bool)
    ensures
        found == cell_form_at(*d, sec, table_para, table_ci, cell_idx, cell_para, form_ci) is Some,
{
    if sec >= d.document.sections.len() || table_para >= d.document.sections[sec].paragraphs.len() {
        return false;
    }
    let p = &d.document.sections[sec].paragraphs[table_para];
    if table_ci >= p.controls.len() {
        return false;
    }
    match &p.controls[table_ci] {
        Control::Table(t) => {
            if cell_idx < t.cells.len() && cell_para < t.cells[cell_idx].paragraphs.len() {
                form_ref(&t.cells[cell_idx].paragraphs[cell_para], form_ci).is_some()
            } else {
                false
            }
        },
        _ => false,
    }
}

impl DocumentCore {
    /// The paragraph that a cell path reaches from paragraph `parent_para` of
    /// section `sec`.
    pub fn resolve_paragraph_by_path(&self, sec: usize, parent_para: usize, cell_path: &[Step]) -> (r: Result<&Paragraph, HwpError>)
        ensures
            match r {
                Ok(q) => resolve_doc(*self, sec, parent_para, cell_path@) == Ok::<Paragraph, Seq<char>>(*q),
                Err(HwpError::RenderError(m)) => resolve_doc(*self, sec, parent_para, cell_path@) == Err::<Paragraph, Seq<char>>(m@),
            },
    {
        if sec >= self.document.sections.len() {
            return Err(render_error("구역 위치 초과"));
        }
        resolve_ref(&self.document.sections[sec], parent_para, cell_path)
    }

    /// Creates a form object in the cell or text box paragraph that the cell
    /// path reaches from paragraph `parent_para`.
    ///
    /// The section is not laid out again here: its stored stream is dropped,
    /// and the caller lays the section out anew after a successful edit.
    pub fn create_cell_form_object_native(
        &mut self,
        sec: usize,
        parent_para: usize,
        cell_path: &[Step],
        char_offset: usize,
        form_type: FormType,
        name: &str,
        caption: &str,
        text: &str,
        width: u32,
        height: u32,
        value: i32,
        enabled: bool,
        properties_json: &str,
    ) -> (r: Result<String, HwpError>)
        requires
            cell_path@.len() > 0 ==> match resolve_doc(*old(self), sec, parent_para, cell_path@) {
                Ok(t) => char_offset <= t.text@.len() ==> can_insert(t, char_offset),
                Err(_) => true,
            },
        ensures
            cell_path@.len() == 0 ==> err_is(r, msg_empty_path()) && *final(self) == *old(self),
            cell_path@.len() > 0 && sec >= old(self).document.sections@.len() ==> err_is(r, msg_section_range())
                && *final(self) == *old(self),
            cell_path@.len() > 0 && sec < old(self).document.sections@.len() ==> {
                let os = old(self).document.sections@[sec as int];
                let ns = final(self).document.sections@[sec as int];
                &&& only_section(*old(self), *final(self), sec as int)
                &&& match resolve(os, parent_para, cell_path@) {
                    Err(m) => err_is(r, m) && stream_dropped(os, ns),
                    Ok(t) => {
                        &&& char_offset > t.text@.len() ==> err_is(r, msg_offset_beyond(char_offset as nat, t.text@.len()))
                            && stream_dropped(os, ns)
                        &&& char_offset <= t.text@.len() ==> {
                            let idx = first_after(para_positions(t), char_offset as int) as usize;
                            &&& ok_is(r, create_cell_json_spec(form_type, trim(name@), caption@, text@, value, enabled, width, height, parent_para, idx, cell_path@))
                            &&& resolve(ns, parent_para, cell_path@) matches Ok(tn)
                            &&& cell_para_changed(os, ns, parent_para, cell_path@, t, tn)
                            &&& form_inserted(t, tn, idx as int, char_offset, form_type, name@, caption@, text@, width, height, value, enabled, properties_json@)
                        }
                    },
                }
            },
    {
        if cell_path.len() == 0 {
            return Err(render_error("cell_path가 비어 있습니다."));
        }
        if sec >= self.document.sections.len() {
            return Err(render_error("구역 위치 초과"));
        }
        let section = &mut self.document.sections[sec];
        section.raw_stream = None;
        let text_len = match resolve_ref(section, parent_para, cell_path) {
            Err(e) => return Err(e),
            Ok(t) => chars_of(t.text.as_str()).len(),
        };
        if char_offset > text_len {
            return Err(offset_error(char_offset, text_len));
        }
        let ghost mid = *section;
        let paragraph = match resolve_form_cell_paragraph_mut(section, parent_para, cell_path) {
            Ok(q) => q,
            Err(_) => vstd::pervasive::unreached(),
        };
        let ghost t_old = *paragraph;
        let inserted = insert_form_into_paragraph(
            paragraph,
            char_offset,
            form_type,
            name,
            caption,
            text,
            width,
            height,
            value,
            enabled,
            properties_json,
        );
        let insert_idx = match inserted {
            Ok(i) => i,
            Err(_) => vstd::pervasive::unreached(),
        };
        let ghost t_new = *paragraph;
        proof {
            lemma_path_edit_descend(
                mid.paragraphs@[parent_para as int],
                section.paragraphs@[parent_para as int],
                cell_path@,
                0,
                t_old,
                t_new,
            );
        }
        let trimmed = trim_str(name);
        let mut m = String::new();
        push_create_cell_json(&mut m, form_type, trimmed.as_str(), caption, text, value, enabled, width, height, parent_para, insert_idx, cell_path);
        Ok(m)
    }

    /// Creates a form object in body paragraph `para` of section `sec`, before
    /// the first control that stands after `char_offset`.
    ///
    /// The section is not laid out again here: its stored stream is dropped,
    /// and the caller lays the section out anew after a successful edit.
    pub fn create_form_object_native(
        &mut self,
        sec: usize,
        para: usize,
        char_offset: usize,
        form_type: FormType,
        name: &str,
        caption: &str,
        text: &str,
        width: u32,
        height: u32,
        value: i32,
        enabled: bool,
        properties_json: &str,
    ) -> (r: Result<String, HwpError>)
        requires
            sec < old(self).document.sections@.len() && para < old(self).document.sections@[sec as int].paragraphs@.len()
                && char_offset <= old(self).document.sections@[sec as int].paragraphs@[para as int].text@.len()
                ==> can_insert(old(self).document.sections@[sec as int].paragraphs@[para as int], char_offset),
        ensures
            sec >= old(self).document.sections@.len() ==> err_is(r, msg_section_range()) && *final(self)
                == *old(self),
            sec < old(self).document.sections@.len() ==> {
                let os = old(self).document.sections@[sec as int];
                let ns = final(self).document.sections@[sec as int];
                &&& only_section(*old(self), *final(self), sec as int)
                &&& para >= os.paragraphs@.len() ==> err_is(r, msg_para_range()) && stream_dropped(os, ns)
                &&& para < os.paragraphs@.len() ==> {
                    let op = os.paragraphs@[para as int];
                    let np = ns.paragraphs@[para as int];
                    &&& char_offset > op.text@.len() ==> err_is(
                        r,
                        msg_offset_beyond(char_offset as nat, op.text@.len()),
                    ) && stream_dropped(os, ns)
                    &&& char_offset <= op.text@.len() ==> {
                        let idx = first_after(para_positions(op), char_offset as int) as usize;
                        &&& ok_is(r, create_json_spec(form_type, trim(name@), caption@, text@, value, enabled, width, height, para, idx))
                        &&& para_changed(os, ns, para as int)
                        &&& form_inserted(op, np, idx as int, char_offset, form_type, name@, caption@, text@, width, height, value, enabled, properties_json@)
                    }
                }
            },
    {
        if sec >= self.document.sections.len() {
            return Err(render_error("구역 위치 초과"));
        }
        let section = &mut self.document.sections[sec];
        section.raw_stream = None;
        if para >= section.paragraphs.len() {
            return Err(render_error("문단 위치 초과"));
        }
        let ghost before = section.paragraphs@;
        let inserted = insert_form_into_paragraph(
            &mut section.paragraphs[para],
            char_offset,
            form_type,
            name,
            caption,
            text,
            width,
            height,
            value,
            enabled,
            properties_json,
        );
        match inserted {
            Err(e) => {
                assert(section.paragraphs@ =~= before);
                Err(e)
            },
            Ok(insert_idx) => {
                let trimmed = trim_str(name);
                let mut m = String::new();
                push_create_json(&mut m, form_type, trimmed.as_str(), caption, text, value, enabled, width, height, para, insert_idx);
                assert(m@ =~= create_json_spec(form_type, trim(name@), caption@, text@, value, enabled, width, height, para, insert_idx));
                Ok(m)
            },
        }
    }

    /// Reads the value of the form object at (section, paragraph, control).
    pub fn get_form_value_native(&self, sec: usize, para: usize, ci: usize) -> (r: Result<String, HwpError>)
        ensures
            ok_is(r, match form_at(*self, sec, para, ci) {
                Some(f) => value_json_spec(f),
                None => not_form_json(),
            }),
    {
        if sec < self.document.sections.len() && para < self.document.sections[sec].paragraphs.len() {
            if let Some(f) = form_ref(&self.document.sections[sec].paragraphs[para], ci) {
                let mut m = String::new();
                push_value_json(&mut m, f);
                assert(m@ =~= value_json_spec(*f));
                return Ok(m);
            }
        }
        Ok(String::from_str("{\"ok\":false,\"error\":\"not a form object\"}"))
    }

    /// Sets the value, text and caption of the form object at (section,
    /// paragraph, control) from `{"value":..,"text":"..","caption":".."}`.
    ///
    /// The section is not laid out again here: its stored stream is dropped,
    /// and the caller lays the section out anew after a successful edit.
    pub fn set_form_value_native(&mut self, sec: usize, para: usize, ci: usize, value_json: &str) -> (r: Result<String, HwpError>)
        ensures
            sec >= old(self).document.sections@.len() ==> err_is(r, msg_section_range()) && *final(self)
                == *old(self),
            sec < old(self).document.sections@.len() ==> {
                let os = old(self).document.sections@[sec as int];
                let ns = final(self).document.sections@[sec as int];
                &&& only_section(*old(self), *final(self), sec as int)
                &&& match form_at(*old(self), sec, para, ci) {
                    Some(f) => {
                        &&& para_changed(os, ns, para as int)
                        &&& form_set_in(os.paragraphs@[para as int], ns.paragraphs@[para as int], ci, value_json@)
                        &&& form_at(*final(self), sec, para, ci) matches Some(nf) && ok_is(r, set_json_spec(sec, para, ci, nf))
                    },
                    None => stream_dropped(os, ns) && ok_is(r, not_form_json()),
                }
            },
    {
        if sec >= self.document.sections.len() {
            return Err(render_error("구역 위치 초과"));
        }
        let section = &mut self.document.sections[sec];
        section.raw_stream = None;
        let is_form = para < section.paragraphs.len() && form_ref(&section.paragraphs[para], ci).is_some();
        if !is_form {
            return Ok(String::from_str("{\"ok\":false,\"error\":\"not a form object\"}"));
        }
        let f = set_form_in(&mut section.paragraphs[para], ci, value_json);
        let mut m = String::new();
        push_set_json(&mut m, sec, para, ci, f);
        assert(m@ =~= set_json_spec(sec, para, ci, *f));
        Ok(m)
    }

    /// Deletes the form object at (section, paragraph, control).
    ///
    /// The section is not laid out again here: its stored stream is dropped,
    /// and the caller lays the section out anew after a successful edit.
    pub fn delete_form_object_native(&mut self, sec: usize, para: usize, ci: usize) -> (r: Result<String, HwpError>)
        requires
            sec < old(self).document.sections@.len() && para < old(self).document.sections@[sec as int].paragraphs@.len()
                ==> {
                let p = old(self).document.sections@[sec as int].paragraphs@[para as int];
                form_in(p, ci) is Some ==> can_delete(p, ci as int)
            },
        ensures
            sec >= old(self).document.sections@.len() ==> err_is(r, msg_section_range()) && *final(self)
                == *old(self),
            sec < old(self).document.sections@.len() ==> {
                let os = old(self).document.sections@[sec as int];
                let ns = final(self).document.sections@[sec as int];
                &&& only_section(*old(self), *final(self), sec as int)
                &&& para >= os.paragraphs@.len() ==> err_is(r, msg_para_range()) && stream_dropped(os, ns)
                &&& para < os.paragraphs@.len() ==> {
                    let op = os.paragraphs@[para as int];
                    &&& ci >= op.controls@.len() ==> err_is(r, msg_control_index(ci as nat)) && stream_dropped(os, ns)
                    &&& ci < op.controls@.len() && form_in(op, ci) is None ==> err_is(r, msg_not_form()) && stream_dropped(os, ns)
                    &&& form_in(op, ci) is Some ==> {
                        &&& ok_is(r, delete_json_spec(sec, para, ci))
                        &&& para_changed(os, ns, para as int)
                        &&& form_deleted(op, ns.paragraphs@[para as int], ci as int)
                    }
                }
            },
    {
        if sec >= self.document.sections.len() {
            return Err(render_error("구역 위치 초과"));
        }
        let section = &mut self.document.sections[sec];
        section.raw_stream = None;
        if para >= section.paragraphs.len() {
            return Err(render_error("문단 위치 초과"));
        }
        let ghost before = section.paragraphs@;
        match delete_form_from_paragraph(&mut section.paragraphs[para], ci) {
            Err(e) => {
                assert(section.paragraphs@ =~= before);
                Err(e)
            },
            Ok(()) => {
                let mut m = String::new();
                push_delete_json(&mut m, sec, para, ci);
                assert(m@ =~= delete_json_spec(sec, para, ci));
                Ok(m)
            },
        }
    }

    /// Sets the value of the form object in a table cell paragraph, reached
    /// through table control `table_ci` of body paragraph `table_para`.
    ///
    /// The section is not laid out again here: its stored stream is dropped,
    /// and the caller lays the section out anew after a successful edit.
    pub fn set_form_value_in_cell_native(
        &mut self,
        sec: usize,
        table_para: usize,
        table_ci: usize,
        cell_idx: usize,
        cell_para: usize,
        form_ci: usize,
        value_json: &str,
    ) -> (r: Result<String, HwpError>)
        ensures
            cell_form_at(*old(self), sec, table_para, table_ci, cell_idx, cell_para, form_ci) is None ==> ok_is(
                r,
                cell_form_missing_json(),
            ) && *final(self) == *old(self),
            cell_form_at(*old(self), sec, table_para, table_ci, cell_idx, cell_para, form_ci) is Some ==> {
                let path = seq![(table_ci, cell_idx, cell_para)];
                let os = old(self).document.sections@[sec as int];
                let ns = final(self).document.sections@[sec as int];
                &&& only_section(*old(self), *final(self), sec as int)
                &&& resolve(os, table_para, path) matches Ok(t)
                &&& resolve(ns, table_para, path) matches Ok(tn)
                &&& cell_para_changed(os, ns, table_para, path, t, tn)
                &&& form_set_in(t, tn, form_ci, value_json@)
                &&& form_in(tn, form_ci) matches Some(nf) && ok_is(
                    r,
                    set_cell_json_spec(sec, table_para, form_ci, cell_idx, cell_para, nf),
                )
            },
    {
        if !cell_form_ref(self, sec, table_para, table_ci, cell_idx, cell_para, form_ci) {
            return Ok(String::from_str("{\"ok\":false,\"error\":\"cell form not found\"}"));
        }
        let path: Vec<Step> = vec![(table_ci, cell_idx, cell_para)];
        assert(path@ =~= seq![(table_ci, cell_idx, cell_para)]);
        let ghost mid = self.document.sections@[sec as int];
        proof {
            let p0 = mid.paragraphs@[table_para as int];
            let t = p0.controls@[table_ci as int]->Table_0;
            let inner = t.cells@[cell_idx as int].paragraphs@[cell_para as int];
            assert(step(p0, path@[0], 0) == Ok::<Paragraph, Seq<char>>(inner));
            assert(descend(inner, path@, 1) == Ok::<Paragraph, Seq<char>>(inner));
            assert(descend(p0, path@, 0) == Ok::<Paragraph, Seq<char>>(inner));
        }
        let section = &mut self.document.sections[sec];
        let paragraph = match resolve_form_cell_paragraph_mut(section, table_para, path.as_slice()) {
            Ok(q) => q,
            Err(_) => vstd::pervasive::unreached(),
        };
        let ghost t_old = *paragraph;
        let f = set_form_in(paragraph, form_ci, value_json);
        let mut m = String::new();
        push_set_cell_json(&mut m, sec, table_para, form_ci, cell_idx, cell_para, f);
        let ghost t_new = *paragraph;
        proof {
            lemma_path_edit_descend(mid.paragraphs@[table_para as int], section.paragraphs@[table_para as int], path@, 0, t_old, t_new);
        }
        section.raw_stream = None;
        Ok(m)
    }

    /// The details of the form object at control `ci` of the paragraph that
    /// the cell path reaches.
    pub fn get_cell_form_object_info_native(&self, sec: usize, parent_para: usize, cell_path: &[Step], ci: usize) -> (r: Result<String, HwpError>)
        ensures
            match resolve_doc(*self, sec, parent_para, cell_path@) {
                Err(m) => err_is(r, m),
                Ok(t) => ok_is(r, match form_in(t, ci) {
                    Some(f) => cell_form_info_json(f, self.document.extra_streams@, parent_para, ci, cell_path@),
                    None => not_cell_form_json(),
                }),
            },
    {
        let paragraph = self.resolve_paragraph_by_path(sec, parent_para, cell_path)?;
        match form_ref(paragraph, ci) {
            Some(f) => {
                let items = form_items_of(&self.document.extra_streams, f);
                let mut m = String::new();
                push_info_fields(&mut m, f, &items);
                m.append(",\"container\":\"cell\",\"paraIdx\":");
                push_dec(&mut m, parent_para as u64);
                m.append(",\"controlIdx\":");
                push_dec(&mut m, ci as u64);
                m.append(",\"cellPath\":");
                push_cell_path_json(&mut m, cell_path);
                m.append("}");
                assert(m@ =~= cell_form_info_json(*f, self.document.extra_streams@, parent_para, ci, cell_path@));
                Ok(m)
            },
            None => Ok(String::from_str("{\"ok\":false,\"error\":\"not a cell form object\"}")),
        }
    }

    /// Sets the value of the form object at control `ci` of the paragraph that
    /// the cell path reaches.
    ///
    /// The section is not laid out again here: its stored stream is dropped,
    /// and the caller lays the section out anew after a successful edit.
    pub fn set_cell_form_value_by_path_native(
        &mut self,
        sec: usize,
        parent_para: usize,
        cell_path: &[Step],
        ci: usize,
        value_json: &str,
    ) -> (r: Result<String, HwpError>)
        ensures
            sec >= old(self).document.sections@.len() ==> err_is(r, msg_section_range()) && *final(self)
                == *old(self),
            sec < old(self).document.sections@.len() ==> {
                let os = old(self).document.sections@[sec as int];
                let ns = final(self).document.sections@[sec as int];
                &&& only_section(*old(self), *final(self), sec as int)
                &&& match resolve(os, parent_para, cell_path@) {
                    Err(m) => err_is(r, m) && stream_dropped(os, ns),
                    Ok(t) => match form_in(t, ci) {
                        None => ok_is(r, not_cell_form_json()) && stream_dropped(os, ns),
                        Some(_) => {
                            &&& resolve(ns, parent_para, cell_path@) matches Ok(tn)
                            &&& cell_para_changed(os, ns, parent_para, cell_path@, t, tn)
                            &&& form_set_in(t, tn, ci, value_json@)
                            &&& form_in(tn, ci) matches Some(nf) && ok_is(r, set_path_json_spec(sec, parent_para, ci, cell_path@, nf))
                        },
                    },
                }
            },
    {
        if sec >= self.document.sections.len() {
            return Err(render_error("구역 위치 초과"));
        }
        let section = &mut self.document.sections[sec];
        section.raw_stream = None;
        let is_form = match resolve_ref(section, parent_para, cell_path) {
            Err(e) => return Err(e),
            Ok(t) => form_ref(t, ci).is_some(),
        };
        if !is_form {
            return Ok(String::from_str("{\"ok\":false,\"error\":\"not a cell form object\"}"));
        }
        let ghost mid = *section;
        let paragraph = match resolve_form_cell_paragraph_mut(section, parent_para, cell_path) {
            Ok(q) => q,
            Err(_) => vstd::pervasive::unreached(),
        };
        let ghost t_old = *paragraph;
        let f = set_form_in(paragraph, ci, value_json);
        let mut m = String::new();
        push_set_path_json(&mut m, sec, parent_para, ci, cell_path, f);
        let ghost t_new = *paragraph;
        proof {
            lemma_path_edit_descend(mid.paragraphs@[parent_para as int], section.paragraphs@[parent_para as int], cell_path@, 0, t_old, t_new);
        }
        Ok(m)
    }

    /// Deletes the form object at control `ci` of the paragraph that the cell
    /// path reaches.
    ///
    /// The section is not laid out again here: its stored stream is dropped,
    /// and the caller lays the section out anew after a successful edit.
    pub fn delete_cell_form_object_by_path_native(
        &mut self,
        sec: usize,
        parent_para: usize,
        cell_path: &[Step],
        ci: usize,
    ) -> (r: Result<String, HwpError>)
        requires
            match resolve_doc(*old(self), sec, parent_para, cell_path@) {
                Ok(t) => form_in(t, ci) is Some ==> can_delete(t, ci as int),
                Err(_) => true,
            },
        ensures
            sec >= old(self).document.sections@.len() ==> err_is(r, msg_section_range()) && *final(self)
                == *old(self),
            sec < old(self).document.sections@.len() ==> {
                let os = old(self).document.sections@[sec as int];
                let ns = final(self).document.sections@[sec as int];
                &&& only_section(*old(self), *final(self), sec as int)
                &&& match resolve(os, parent_para, cell_path@) {
                    Err(m) => err_is(r, m) && stream_dropped(os, ns),
                    Ok(t) => {
                        &&& ci >= t.controls@.len() ==> err_is(r, msg_control_index(ci as nat)) && stream_dropped(os, ns)
                        &&& ci < t.controls@.len() && form_in(t, ci) is None ==> err_is(r, msg_not_form()) && stream_dropped(os, ns)
                        &&& form_in(t, ci) is Some ==> {
                            &&& ok_is(r, delete_cell_json_spec(sec, parent_para, ci, cell_path@))
                            &&& resolve(ns, parent_para, cell_path@) matches Ok(tn)
                            &&& cell_para_changed(os, ns, parent_para, cell_path@, t, tn)
                            &&& form_deleted(t, tn, ci as int)
                        }
                    },
                }
            },
    {
        if sec >= self.document.sections.len() {
            return Err(render_error("구역 위치 초과"));
        }
        let section = &mut self.document.sections[sec];
        section.raw_stream = None;
        let fault: u8 = match resolve_ref(section, parent_para, cell_path) {
            Err(e) => return Err(e),
            Ok(t) => if ci >= t.controls.len() {
                1
            } else if form_ref(t, ci).is_none() {
                2
            } else {
                0
            },
        };
        if fault == 1 {
            return Err(control_index_error(ci));
        } else if fault == 2 {
            return Err(render_error("지정된 컨트롤이 양식 개체가 아닙니다"));
        }
        let ghost mid = *section;
        let paragraph = match resolve_form_cell_paragraph_mut(section, parent_para, cell_path) {
            Ok(q) => q,
            Err(_) => vstd::pervasive::unreached(),
        };
        let ghost t_old = *paragraph;
        match delete_form_from_paragraph(paragraph, ci) {
            Ok(()) => {},
            Err(_) => vstd::pervasive::unreached(),
        }
        let ghost t_new = *paragraph;
        proof {
            lemma_path_edit_descend(mid.paragraphs@[parent_para as int], section.paragraphs@[parent_para as int], cell_path@, 0, t_old, t_new);
        }
        let mut m = String::new();
        push_delete_cell_json(&mut m, sec, parent_para, ci, cell_path);
        assert(m@ =~= delete_cell_json_spec(sec, parent_para, ci, cell_path@));
        Ok(m)
    }

    /// The details of the form object at (section, paragraph, control),
    /// with the combo box items that the document script adds.
    pub fn get_form_object_info_native(&self, sec: usize, para: usize, ci: usize) -> (r: Result<String, HwpError>)
        ensures
            ok_is(r, match form_at(*self, sec, para, ci) {
                Some(f) => form_info_json(f, self.document.extra_streams@),
                None => not_form_json(),
            }),
    {
        if sec < self.document.sections.len() && para < self.document.sections[sec].paragraphs.len() {
            if let Some(f) = form_ref(&self.document.sections[sec].paragraphs[para], ci) {
                return Ok(format_form_info_json(f, &self.document.extra_streams));
            }
        }
        Ok(String::from_str("{\"ok\":false,\"error\":\"not a form object\"}"))
    }
}

/// Deleting the form object just created in a body paragraph gives the
/// document back: every other section and paragraph as it was, and in that
/// paragraph the same text, controls, field ranges, shapes, lines and
/// records, every control where it stood, and the offsets those positions
/// give. The section loses its stored stream.
pub proof fn law_delete_undoes_create(
    d1: DocumentCore,
    d2: DocumentCore,
    d3: DocumentCore,
    sec: usize,
    para: usize,
    idx: int,
    char_offset: usize,
    form_type: FormType,
    name: Seq<char>,
    caption: Seq<char>,
    text: Seq<char>,
    width: u32,
    height: u32,
    value: i32,
    enabled: bool,
    properties_json: Seq<char>,
)
    requires
        sec < d1.document.sections@.len(),
        para < d1.document.sections@[sec as int].paragraphs@.len(),
        char_offset <= d1.document.sections@[sec as int].paragraphs@[para as int].text@.len(),
        can_insert(d1.document.sections@[sec as int].paragraphs@[para as int], char_offset),
        only_section(d1, d2, sec as int),
        para_changed(d1.document.sections@[sec as int], d2.document.sections@[sec as int], para as int),
        form_inserted(
            d1.document.sections@[sec as int].paragraphs@[para as int],
            d2.document.sections@[sec as int].paragraphs@[para as int],
            idx,
            char_offset,
            form_type,
            name,
            caption,
            text,
            width,
            height,
            value,
            enabled,
            properties_json,
        ),
        only_section(d2, d3, sec as int),
        para_changed(d2.document.sections@[sec as int], d3.document.sections@[sec as int], para as int),
        form_deleted(
            d2.document.sections@[sec as int].paragraphs@[para as int],
            d3.document.sections@[sec as int].paragraphs@[para as int],
            idx,
        ),
    ensures
        only_section(d1, d3, sec as int),
        d3.document.sections@[sec as int].section_def == d1.document.sections@[sec as int].section_def,
        d3.document.sections@[sec as int].raw_stream is None,
        d3.document.sections@[sec as int].paragraphs@.len() == d1.document.sections@[sec as int].paragraphs@.len(),
        forall|j: int|
            0 <= j < d1.document.sections@[sec as int].paragraphs@.len() && j != para ==> #[trigger] d3.document.sections@[sec as int].paragraphs@[j]
                == d1.document.sections@[sec as int].paragraphs@[j],
        ({
            let p = d1.document.sections@[sec as int].paragraphs@[para as int];
            let q = d3.document.sections@[sec as int].paragraphs@[para as int];
            &&& q.text == p.text
            &&& q.controls@ == p.controls@
            &&& q.field_ranges@ == p.field_ranges@
            &&& q.char_shapes == p.char_shapes
            &&& q.line_segs == p.line_segs
            &&& q.para_shape_id == p.para_shape_id
            &&& q.ctrl_data_records@ == p.ctrl_data_records@
            &&& para_positions(q) == para_positions(p)
            &&& q.char_offsets@ == rebuilt_offsets(p.text@, para_positions(p))
        }),
{
    let s1 = d1.document.sections@[sec as int];
    let s2 = d2.document.sections@[sec as int];
    let s3 = d3.document.sections@[sec as int];
    law_delete_undoes_insert(
        s1.paragraphs@[para as int],
        s2.paragraphs@[para as int],
        s3.paragraphs@[para as int],
        idx,
        char_offset,
        form_type,
        name,
        caption,
        text,
        width,
        height,
        value,
        enabled,
        properties_json,
    );
    assert forall|j: int| 0 <= j < s1.paragraphs@.len() && j != para implies #[trigger] s3.paragraphs@[j] == s1.paragraphs@[j] by {
        assert(s2.paragraphs@[j] == s1.paragraphs@[j]);
        assert(s3.paragraphs@[j] == s2.paragraphs@[j]);
    }
    assert forall|j: int| 0 <= j < d1.document.sections@.len() && j != sec implies #[trigger] d3.document.sections@[j] == d1.document.sections@[j] by {
        assert(d2.document.sections@[j] == d1.document.sections@[j]);
    }
}

/// What setting writes, reading gives back: after `{"value":N}` is set on
/// the form at (section, paragraph, control), the form there has value N
/// (and reading its value answers with that form).
pub proof fn law_value_read_after_set(d1: DocumentCore, d2: DocumentCore, sec: usize, para: usize, ci: usize, v: i32)
    requires
        sec < d1.document.sections@.len(),
        form_at(d1, sec, para, ci) is Some,
        only_section(d1, d2, sec as int),
        para_changed(d1.document.sections@[sec as int], d2.document.sections@[sec as int], para as int),
        form_set_in(
            d1.document.sections@[sec as int].paragraphs@[para as int],
            d2.document.sections@[sec as int].paragraphs@[para as int],
            ci,
            value_only_json(v),
        ),
    ensures
        form_at(d2, sec, para, ci) matches Some(nf) && nf.value == v,
{
    let op = d1.document.sections@[sec as int].paragraphs@[para as int];
    let np = d2.document.sections@[sec as int].paragraphs@[para as int];
    let of = form_in(op, ci).unwrap();
    let nf = form_in(np, ci).unwrap();
    law_value_set_is_read(of, nf, v);
}

/// After `{"text":"T"}` (T without quotes or backslashes) is set on the form
/// at (section, paragraph, control), the form there has text T.
pub proof fn law_text_read_after_set(d1: DocumentCore, d2: DocumentCore, sec: usize, para: usize, ci: usize, t: Seq<char>)
    requires
        plain_text(t),
        sec < d1.document.sections@.len(),
        form_at(d1, sec, para, ci) is Some,
        only_section(d1, d2, sec as int),
        para_changed(d1.document.sections@[sec as int], d2.document.sections@[sec as int], para as int),
        form_set_in(
            d1.document.sections@[sec as int].paragraphs@[para as int],
            d2.document.sections@[sec as int].paragraphs@[para as int],
            ci,
            string_only_json("text"@, t),
        ),
    ensures
        form_at(d2, sec, para, ci) matches Some(nf) && nf.text@ == t,
{
    let op = d1.document.sections@[sec as int].paragraphs@[para as int];
    let np = d2.document.sections@[sec as int].paragraphs@[para as int];
    let of = form_in(op, ci).unwrap();
    let nf = form_in(np, ci).unwrap();
    law_text_set_is_read(of, nf, t);
}

/// After `{"text":"T"}` is set on the form at (section, paragraph,
/// control), T escaped as JSON writes it (its quotes preceded by a
/// backslash), the form there has text T exactly as written.
pub proof fn law_escaped_text_read_after_set(
    d1: DocumentCore,
    d2: DocumentCore,
    sec: usize,
    para: usize,
    ci: usize,
    t: Seq<char>,
)
    requires
        escaped_text(t),
        sec < d1.document.sections@.len(),
        form_at(d1, sec, para, ci) is Some,
        only_section(d1, d2, sec as int),
        para_changed(d1.document.sections@[sec as int], d2.document.sections@[sec as int], para as int),
        form_set_in(
            d1.document.sections@[sec as int].paragraphs@[para as int],
            d2.document.sections@[sec as int].paragraphs@[para as int],
            ci,
            string_only_json("text"@, t),
        ),
    ensures
        form_at(d2, sec, para, ci) matches Some(nf) && nf.text@ == t,
{
    let op = d1.document.sections@[sec as int].paragraphs@[para as int];
    let np = d2.document.sections@[sec as int].paragraphs@[para as int];
    let of = form_in(op, ci).unwrap();
    let nf = form_in(np, ci).unwrap();
    law_escaped_text_set_is_read(of, nf, t);
}

/// What creating writes, reading gives back: after a form object is created
/// in a body paragraph, the control at the index it was given is that form,
/// with the settings given (the name trimmed), and reading its value answers
/// with them.
pub proof fn law_read_after_create(
    d1: DocumentCore,
    d2: DocumentCore,
    sec: usize,
    para: usize,
    idx: usize,
    char_offset: usize,
    form_type: FormType,
    name: Seq<char>,
    caption: Seq<char>,
    text: Seq<char>,
    width: u32,
    height: u32,
    value: i32,
    enabled: bool,
    properties_json: Seq<char>,
)
    requires
        sec < d1.document.sections@.len(),
        para < d1.document.sections@[sec as int].paragraphs@.len(),
        only_section(d1, d2, sec as int),
        para_changed(d1.document.sections@[sec as int], d2.document.sections@[sec as int], para as int),
        form_inserted(
            d1.document.sections@[sec as int].paragraphs@[para as int],
            d2.document.sections@[sec as int].paragraphs@[para as int],
            idx as int,
            char_offset,
            form_type,
            name,
            caption,
            text,
            width,
            height,
            value,
            enabled,
            properties_json,
        ),
    ensures
        form_at(d2, sec, para, idx) matches Some(f) && form_made(
            f,
            form_type,
            name,
            caption,
            text,
            width,
            height,
            value,
            enabled,
            properties_json,
        ) && value_json_spec(f) == "{\"ok\":true,\"formType\":\""@ + form_type_name(form_type) + "\",\"name\":\""@
            + escape_json_spec(trim(name)) + "\",\"value\":"@ + dec_int(value as int) + ",\"text\":\""@ + escape_json_spec(text)
            + "\",\"caption\":\""@ + escape_json_spec(caption) + "\",\"enabled\":"@ + bool_text(enabled) + "}"@,
{
    let op = d1.document.sections@[sec as int].paragraphs@[para as int];
    let np = d2.document.sections@[sec as int].paragraphs@[para as int];
    crate::form_edit::lemma_first_after_bound(para_positions(op), char_offset as int);
    crate::positions::lemma_para_positions_len(op);
}

/// The form object just created in a body paragraph can be deleted by the
/// index it was given: `delete_form_object_native`'s precondition holds
/// there, and the control is that form, so the delete succeeds.
pub proof fn law_created_form_can_be_deleted(
    d1: DocumentCore,
    d2: DocumentCore,
    sec: usize,
    para: usize,
    idx: usize,
    char_offset: usize,
    form_type: FormType,
    name: Seq<char>,
    caption: Seq<char>,
    text: Seq<char>,
    width: u32,
    height: u32,
    value: i32,
    enabled: bool,
    properties_json: Seq<char>,
)
    requires
        sec < d1.document.sections@.len(),
        para < d1.document.sections@[sec as int].paragraphs@.len(),
        char_offset <= d1.document.sections@[sec as int].paragraphs@[para as int].text@.len(),
        can_insert(d1.document.sections@[sec as int].paragraphs@[para as int], char_offset),
        only_section(d1, d2, sec as int),
        para_changed(d1.document.sections@[sec as int], d2.document.sections@[sec as int], para as int),
        form_inserted(
            d1.document.sections@[sec as int].paragraphs@[para as int],
            d2.document.sections@[sec as int].paragraphs@[para as int],
            idx as int,
            char_offset,
            form_type,
            name,
            caption,
            text,
            width,
            height,
            value,
            enabled,
            properties_json,
        ),
    ensures
        form_at(d2, sec, para, idx) is Some,
        can_delete(d2.document.sections@[sec as int].paragraphs@[para as int], idx as int),
{
    law_inserted_form_can_be_deleted(
        d1.document.sections@[sec as int].paragraphs@[para as int],
        d2.document.sections@[sec as int].paragraphs@[para as int],
        idx as int,
        char_offset,
        form_type,
        name,
        caption,
        text,
        width,
        height,
        value,
        enabled,
        properties_json,
    );
}

} // verus!
