//! The JSON texts that the form operations answer with.
use vstd::prelude::*;
use crate::json::{escape_json_spec, push_escape_json};
use crate::model::{FormObject, FormType};
use crate::num::{dec, dec_int, push_dec, push_dec_i64};
use crate::path::Step;
use crate::props::props_view;

verus! {

pub open spec fn bool_text(b: bool) -> Seq<char> {
    if b { "true"@ } else { "false"@ }
}

pub open spec fn form_type_name(ft: FormType) -> Seq<char> {
    match ft {
        FormType::PushButton => "PushButton"@,
        FormType::CheckBox => "CheckBox"@,
        FormType::ComboBox => "ComboBox"@,
        FormType::RadioButton => "RadioButton"@,
        FormType::Edit => "Edit"@,
    }
}

/// The name that JSON answers give a form type.
pub fn form_type_to_str(ft: FormType) -> (s: &'static str)
    ensures
        s@ == form_type_name(ft),
{
    match ft {
        FormType::PushButton => "PushButton",
        FormType::CheckBox => "CheckBox",
        FormType::ComboBox => "ComboBox",
        FormType::RadioButton => "RadioButton",
        FormType::Edit => "Edit",
    }
}

/// Items joined with commas.
pub open spec fn join_commas(parts: Seq<Seq<char>>) -> Seq<char>
    decreases parts.len(),
{
    if parts.len() == 0 {
        Seq::empty()
    } else if parts.len() == 1 {
        parts[0]
    } else {
        join_commas(parts.drop_last()) + ","@ + parts.last()
    }
}

pub open spec fn step_json(s: Step) -> Seq<char> {
    "{\"controlIndex\":"@ + dec(s.0 as nat) + ",\"cellIndex\":"@ + dec(s.1 as nat) + ",\"cellParaIndex\":"@ + dec(s.2 as nat) + "}"@
}

/// `cell_path_json`: the steps as a JSON array of objects.
pub open spec fn cell_path_json_spec(path: Seq<Step>) -> Seq<char> {
    "["@ + join_commas(path.map_values(|s: Step| step_json(s))) + "]"@
}

pub open spec fn prop_json(p: (Seq<char>, Seq<char>)) -> Seq<char> {
    "\""@ + escape_json_spec(p.0) + "\":\""@ + escape_json_spec(p.1) + "\""@
}

/// The properties as a JSON object of strings.
pub open spec fn props_json_spec(props: Seq<(Seq<char>, Seq<char>)>) -> Seq<char> {
    "{"@ + join_commas(props.map_values(|p: (Seq<char>, Seq<char>)| prop_json(p))) + "}"@
}

pub open spec fn item_json(s: Seq<char>) -> Seq<char> {
    "\""@ + escape_json_spec(s) + "\""@
}

/// The items as a JSON array of strings.
pub open spec fn items_json_spec(items: Seq<Seq<char>>) -> Seq<char> {
    "["@ + join_commas(items.map_values(|s: Seq<char>| item_json(s))) + "]"@
}

proof fn lemma_join_push(parts: Seq<Seq<char>>, x: Seq<char>)
    ensures
        join_commas(parts.push(x)) == (if parts.len() == 0 { x } else { join_commas(parts) + ","@ + x }),
{
    assert(parts.push(x).drop_last() =~= parts);
}

/// Appends `cell_path_json` of the steps.
#[verifier::spinoff_prover]
#[verifier::rlimit(40)]
pub fn push_cell_path_json(m: &mut String, path: &[Step])
    ensures
        final(m)@ == old(m)@ + cell_path_json_spec(path@),
{
    let ghost start = m@;
    let ghost parts = path@.map_values(|s: Step| step_json(s));
    m.append("[");
    let n = path.len();
    for i in 0..n
        invariant
            n == path@.len(),
            parts == path@.map_values(|s: Step| step_json(s)),
            m@ == start + "["@ + join_commas(parts.take(i as int)),
    {
        let ghost before = m@;
        if i > 0 {
            m.append(",");
        }
        let (c, cell, cp) = path[i];
        m.append("{\"controlIndex\":");
        push_dec(m, c as u64);
        m.append(",\"cellIndex\":");
        push_dec(m, cell as u64);
        m.append(",\"cellParaIndex\":");
        push_dec(m, cp as u64);
        m.append("}");
        proof {
            lemma_join_push(parts.take(i as int), parts[i as int]);
            assert(parts.take(i + 1) =~= parts.take(i as int).push(parts[i as int]));
            assert(parts[i as int] == step_json(path@[i as int]));
            assert(m@ =~= start + "["@ + join_commas(parts.take(i + 1)));
        }
    }
    m.append("]");
    assert(parts.take(n as int) =~= parts);
    assert(m@ =~= start + cell_path_json_spec(path@));
}

/// Appends the properties as a JSON object.
pub fn push_props_json(m: &mut String, props: &Vec<(String, String)>)
    ensures
        final(m)@ == old(m)@ + props_json_spec(props_view(props@)),
{
    let ghost start = m@;
    let ghost parts = props_view(props@).map_values(|p: (Seq<char>, Seq<char>)| prop_json(p));
    m.append("{");
    let n = props.len();
    for i in 0..n
        invariant
            n == props@.len(),
            parts == props_view(props@).map_values(|p: (Seq<char>, Seq<char>)| prop_json(p)),
            m@ == start + "{"@ + join_commas(parts.take(i as int)),
    {
        if i > 0 {
            m.append(",");
        }
        m.append("\"");
        push_escape_json(m, props[i].0.as_str());
        m.append("\":\"");
        push_escape_json(m, props[i].1.as_str());
        m.append("\"");
        proof {
            lemma_join_push(parts.take(i as int), parts[i as int]);
            assert(parts.take(i + 1) =~= parts.take(i as int).push(parts[i as int]));
            assert(parts[i as int] == prop_json((props@[i as int].0@, props@[i as int].1@)));
            assert(m@ =~= start + "{"@ + join_commas(parts.take(i + 1)));
        }
    }
    m.append("}");
    assert(parts.take(n as int) =~= parts);
    assert(m@ =~= start + props_json_spec(props_view(props@)));
}

/// Appends the items as a JSON array of strings.
pub fn push_items_json(m: &mut String, items: &Vec<String>)
    ensures
        final(m)@ == old(m)@ + items_json_spec(items@.map_values(|s: String| s@)),
{
    let ghost start = m@;
    let ghost parts = items@.map_values(|s: String| s@).map_values(|s: Seq<char>| item_json(s));
    m.append("[");
    let n = items.len();
    for i in 0..n
        invariant
            n == items@.len(),
            parts == items@.map_values(|s: String| s@).map_values(|s: Seq<char>| item_json(s)),
            m@ == start + "["@ + join_commas(parts.take(i as int)),
    {
        if i > 0 {
            m.append(",");
        }
        m.append("\"");
        push_escape_json(m, items[i].as_str());
        m.append("\"");
        proof {
            lemma_join_push(parts.take(i as int), parts[i as int]);
            assert(parts.take(i + 1) =~= parts.take(i as int).push(parts[i as int]));
            assert(parts[i as int] == item_json(items@[i as int]@));
            assert(m@ =~= start + "["@ + join_commas(parts.take(i + 1)));
        }
    }
    m.append("]");
    assert(parts.take(n as int) =~= parts);
    assert(m@ =~= start + items_json_spec(items@.map_values(|s: String| s@)));
}


/// The settings of a new form object.
pub open spec fn create_fields_spec(ft: FormType, name: Seq<char>, caption: Seq<char>, text: Seq<char>, value: i32, enabled: bool, width: u32, height: u32) -> Seq<char> {
    "\"formType\":\""@ + form_type_name(ft) + "\",\"name\":\""@ + escape_json_spec(name) + "\",\"caption\":\""@ + escape_json_spec(caption) + "\",\"text\":\""@ + escape_json_spec(text) + "\",\"value\":"@ + dec_int(value as int) + ",\"enabled\":"@ + bool_text(enabled) + ",\"width\":"@ + dec(width as nat) + ",\"height\":"@ + dec(height as nat)
}

pub fn push_create_fields(m: &mut String, ft: FormType, name: &str, caption: &str, text: &str, value: i32, enabled: bool, width: u32, height: u32)
    ensures
        final(m)@ == old(m)@ + create_fields_spec(ft, name@, caption@, text@, value, enabled, width, height),
{
    let ghost start = m@;
    m.append("\"formType\":\"");
    m.append(form_type_to_str(ft));
    m.append("\",\"name\":\"");
    push_escape_json(m, name);
    m.append("\",\"caption\":\"");
    push_escape_json(m, caption);
    m.append("\",\"text\":\"");
    push_escape_json(m, text);
    m.append("\",\"value\":");
    push_dec_i64(m, value as i64);
    m.append(",\"enabled\":");
    m.append(if enabled { "true" } else { "false" });
    m.append(",\"width\":");
    push_dec(m, width as u64);
    m.append(",\"height\":");
    push_dec(m, height as u64);
    assert(m@ =~= start + create_fields_spec(ft, name@, caption@, text@, value, enabled, width, height));
}

/// The answer to creating a form object in a paragraph.
pub open spec fn create_json_spec(ft: FormType, name: Seq<char>, caption: Seq<char>, text: Seq<char>, value: i32, enabled: bool, width: u32, height: u32, para: usize, idx: usize) -> Seq<char> {
    "{\"ok\":true,\"operation\":\"create-form\","@ + create_fields_spec(ft, name, caption, text, value, enabled, width, height) + ",\"paraIdx\":"@ + dec(para as nat) + ",\"controlIdx\":"@ + dec(idx as nat) + "}"@
}

pub fn push_create_json(m: &mut String, ft: FormType, name: &str, caption: &str, text: &str, value: i32, enabled: bool, width: u32, height: u32, para: usize, idx: usize)
    ensures
        final(m)@ == old(m)@ + create_json_spec(ft, name@, caption@, text@, value, enabled, width, height, para, idx),
{
    let ghost start = m@;
    m.append("{\"ok\":true,\"operation\":\"create-form\",");
    push_create_fields(m, ft, name, caption, text, value, enabled, width, height);
    m.append(",\"paraIdx\":");
    push_dec(m, para as u64);
    m.append(",\"controlIdx\":");
    push_dec(m, idx as u64);
    m.append("}");
    assert(m@ =~= start + create_json_spec(ft, name@, caption@, text@, value, enabled, width, height, para, idx));
}

/// The answer to creating a form object in a cell or text box paragraph.
pub open spec fn create_cell_json_spec(ft: FormType, name: Seq<char>, caption: Seq<char>, text: Seq<char>, value: i32, enabled: bool, width: u32, height: u32, para: usize, idx: usize, path: Seq<Step>) -> Seq<char> {
    "{\"ok\":true,\"operation\":\"create-form\",\"container\":\"cell\","@ + create_fields_spec(ft, name, caption, text, value, enabled, width, height) + ",\"paraIdx\":"@ + dec(para as nat) + ",\"controlIdx\":"@ + dec(idx as nat) + ",\"cellPath\":"@ + cell_path_json_spec(path) + "}"@
}

pub fn push_create_cell_json(m: &mut String, ft: FormType, name: &str, caption: &str, text: &str, value: i32, enabled: bool, width: u32, height: u32, para: usize, idx: usize, path: &[Step])
    ensures
        final(m)@ == old(m)@ + create_cell_json_spec(ft, name@, caption@, text@, value, enabled, width, height, para, idx, path@),
{
    let ghost start = m@;
    m.append("{\"ok\":true,\"operation\":\"create-form\",\"container\":\"cell\",");
    push_create_fields(m, ft, name, caption, text, value, enabled, width, height);
    m.append(",\"paraIdx\":");
    push_dec(m, para as u64);
    m.append(",\"controlIdx\":");
    push_dec(m, idx as u64);
    m.append(",\"cellPath\":");
    push_cell_path_json(m, path);
    m.append("}");
    assert(m@ =~= start + create_cell_json_spec(ft, name@, caption@, text@, value, enabled, width, height, para, idx, path@));
}

/// The answer to reading a form object's value.
pub open spec fn value_json_spec(f: FormObject) -> Seq<char> {
    "{\"ok\":true,\"formType\":\""@ + form_type_name(f.form_type) + "\",\"name\":\""@ + escape_json_spec(f.name@) + "\",\"value\":"@ + dec_int(f.value as int) + ",\"text\":\""@ + escape_json_spec(f.text@) + "\",\"caption\":\""@ + escape_json_spec(f.caption@) + "\",\"enabled\":"@ + bool_text(f.enabled) + "}"@
}

pub fn push_value_json(m: &mut String, f: &FormObject)
    ensures
        final(m)@ == old(m)@ + value_json_spec(*f),
{
    let ghost start = m@;
    m.append("{\"ok\":true,\"formType\":\"");
    m.append(form_type_to_str(f.form_type));
    m.append("\",\"name\":\"");
    push_escape_json(m, f.name.as_str());
    m.append("\",\"value\":");
    push_dec_i64(m, f.value as i64);
    m.append(",\"text\":\"");
    push_escape_json(m, f.text.as_str());
    m.append("\",\"caption\":\"");
    push_escape_json(m, f.caption.as_str());
    m.append("\",\"enabled\":");
    m.append(if f.enabled { "true" } else { "false" });
    m.append("}");
    assert(m@ =~= start + value_json_spec(*f));
}

/// The answer to setting a form object's value in a paragraph.
pub open spec fn set_json_spec(sec: usize, para: usize, ci: usize, f: FormObject) -> Seq<char> {
    "{\"ok\":true,\"operation\":\"set-form\",\"sec\":"@ + dec(sec as nat) + ",\"para\":"@ + dec(para as nat) + ",\"control\":"@ + dec(ci as nat) + ",\"value\":"@ + dec_int(f.value as int) + ",\"text\":\""@ + escape_json_spec(f.text@) + "\",\"caption\":\""@ + escape_json_spec(f.caption@) + "\"}"@
}

pub fn push_set_json(m: &mut String, sec: usize, para: usize, ci: usize, f: &FormObject)
    ensures
        final(m)@ == old(m)@ + set_json_spec(sec, para, ci, *f),
{
    let ghost start = m@;
    m.append("{\"ok\":true,\"operation\":\"set-form\",\"sec\":");
    push_dec(m, sec as u64);
    m.append(",\"para\":");
    push_dec(m, para as u64);
    m.append(",\"control\":");
    push_dec(m, ci as u64);
    m.append(",\"value\":");
    push_dec_i64(m, f.value as i64);
    m.append(",\"text\":\"");
    push_escape_json(m, f.text.as_str());
    m.append("\",\"caption\":\"");
    push_escape_json(m, f.caption.as_str());
    m.append("\"}");
    assert(m@ =~= start + set_json_spec(sec, para, ci, *f));
}

/// The answer to setting a form object's value in a table cell.
pub open spec fn set_cell_json_spec(sec: usize, para: usize, ci: usize, cell_idx: usize, cell_para: usize, f: FormObject) -> Seq<char> {
    "{\"ok\":true,\"operation\":\"set-form\",\"container\":\"cell\",\"sec\":"@ + dec(sec as nat) + ",\"para\":"@ + dec(para as nat) + ",\"control\":"@ + dec(ci as nat) + ",\"cellIndex\":"@ + dec(cell_idx as nat) + ",\"cellPara\":"@ + dec(cell_para as nat) + ",\"value\":"@ + dec_int(f.value as int) + ",\"text\":\""@ + escape_json_spec(f.text@) + "\",\"caption\":\""@ + escape_json_spec(f.caption@) + "\"}"@
}

pub fn push_set_cell_json(m: &mut String, sec: usize, para: usize, ci: usize, cell_idx: usize, cell_para: usize, f: &FormObject)
    ensures
        final(m)@ == old(m)@ + set_cell_json_spec(sec, para, ci, cell_idx, cell_para, *f),
{
    let ghost start = m@;
    m.append("{\"ok\":true,\"operation\":\"set-form\",\"container\":\"cell\",\"sec\":");
    push_dec(m, sec as u64);
    m.append(",\"para\":");
    push_dec(m, para as u64);
    m.append(",\"control\":");
    push_dec(m, ci as u64);
    m.append(",\"cellIndex\":");
    push_dec(m, cell_idx as u64);
    m.append(",\"cellPara\":");
    push_dec(m, cell_para as u64);
    m.append(",\"value\":");
    push_dec_i64(m, f.value as i64);
    m.append(",\"text\":\"");
    push_escape_json(m, f.text.as_str());
    m.append("\",\"caption\":\"");
    push_escape_json(m, f.caption.as_str());
    m.append("\"}");
    assert(m@ =~= start + set_cell_json_spec(sec, para, ci, cell_idx, cell_para, *f));
}

/// The answer to setting a form object's value at a cell path.
pub open spec fn set_path_json_spec(sec: usize, para: usize, ci: usize, path: Seq<Step>, f: FormObject) -> Seq<char> {
    "{\"ok\":true,\"operation\":\"set-form\",\"container\":\"cell\",\"sec\":"@ + dec(sec as nat) + ",\"para\":"@ + dec(para as nat) + ",\"control\":"@ + dec(ci as nat) + ",\"cellPath\":"@ + cell_path_json_spec(path) + ",\"value\":"@ + dec_int(f.value as int) + ",\"text\":\""@ + escape_json_spec(f.text@) + "\",\"caption\":\""@ + escape_json_spec(f.caption@) + "\"}"@
}

pub fn push_set_path_json(m: &mut String, sec: usize, para: usize, ci: usize, path: &[Step], f: &FormObject)
    ensures
        final(m)@ == old(m)@ + set_path_json_spec(sec, para, ci, path@, *f),
{
    let ghost start = m@;
    m.append("{\"ok\":true,\"operation\":\"set-form\",\"container\":\"cell\",\"sec\":");
    push_dec(m, sec as u64);
    m.append(",\"para\":");
    push_dec(m, para as u64);
    m.append(",\"control\":");
    push_dec(m, ci as u64);
    m.append(",\"cellPath\":");
    push_cell_path_json(m, path);
    m.append(",\"value\":");
    push_dec_i64(m, f.value as i64);
    m.append(",\"text\":\"");
    push_escape_json(m, f.text.as_str());
    m.append("\",\"caption\":\"");
    push_escape_json(m, f.caption.as_str());
    m.append("\"}");
    assert(m@ =~= start + set_path_json_spec(sec, para, ci, path@, *f));
}

/// The answer to deleting a form object from a paragraph.
pub open spec fn delete_json_spec(sec: usize, para: usize, ci: usize) -> Seq<char> {
    "{\"ok\":true,\"operation\":\"delete-form\",\"sec\":"@ + dec(sec as nat) + ",\"para\":"@ + dec(para as nat) + ",\"control\":"@ + dec(ci as nat) + "}"@
}

pub fn push_delete_json(m: &mut String, sec: usize, para: usize, ci: usize)
    ensures
        final(m)@ == old(m)@ + delete_json_spec(sec, para, ci),
{
    let ghost start = m@;
    m.append("{\"ok\":true,\"operation\":\"delete-form\",\"sec\":");
    push_dec(m, sec as u64);
    m.append(",\"para\":");
    push_dec(m, para as u64);
    m.append(",\"control\":");
    push_dec(m, ci as u64);
    m.append("}");
    assert(m@ =~= start + delete_json_spec(sec, para, ci));
}

/// The answer to deleting a form object at a cell path.
pub open spec fn delete_cell_json_spec(sec: usize, para: usize, ci: usize, path: Seq<Step>) -> Seq<char> {
    "{\"ok\":true,\"operation\":\"delete-form\",\"container\":\"cell\",\"sec\":"@ + dec(sec as nat) + ",\"para\":"@ + dec(para as nat) + ",\"control\":"@ + dec(ci as nat) + ",\"cellPath\":"@ + cell_path_json_spec(path) + "}"@
}

pub fn push_delete_cell_json(m: &mut String, sec: usize, para: usize, ci: usize, path: &[Step])
    ensures
        final(m)@ == old(m)@ + delete_cell_json_spec(sec, para, ci, path@),
{
    let ghost start = m@;
    m.append("{\"ok\":true,\"operation\":\"delete-form\",\"container\":\"cell\",\"sec\":");
    push_dec(m, sec as u64);
    m.append(",\"para\":");
    push_dec(m, para as u64);
    m.append(",\"control\":");
    push_dec(m, ci as u64);
    m.append(",\"cellPath\":");
    push_cell_path_json(m, path);
    m.append("}");
    assert(m@ =~= start + delete_cell_json_spec(sec, para, ci, path@));
}

/// A form object's kind, name, value, text, caption and state.
pub open spec fn info_head_spec(f: FormObject) -> Seq<char> {
    "{\"ok\":true,\"formType\":\""@ + form_type_name(f.form_type) + "\",\"name\":\""@ + escape_json_spec(f.name@) + "\",\"value\":"@ + dec_int(f.value as int) + ",\"text\":\""@ + escape_json_spec(f.text@) + "\",\"caption\":\""@ + escape_json_spec(f.caption@) + "\",\"enabled\":"@ + bool_text(f.enabled)
}

pub fn push_info_head(m: &mut String, f: &FormObject)
    ensures
        final(m)@ == old(m)@ + info_head_spec(*f),
{
    let ghost start = m@;
    m.append("{\"ok\":true,\"formType\":\"");
    m.append(form_type_to_str(f.form_type));
    m.append("\",\"name\":\"");
    push_escape_json(m, f.name.as_str());
    m.append("\",\"value\":");
    push_dec_i64(m, f.value as i64);
    m.append(",\"text\":\"");
    push_escape_json(m, f.text.as_str());
    m.append("\",\"caption\":\"");
    push_escape_json(m, f.caption.as_str());
    m.append("\",\"enabled\":");
    m.append(if f.enabled { "true" } else { "false" });
    assert(m@ =~= start + info_head_spec(*f));
}

/// A form object's size, colours, properties and items.
pub open spec fn info_tail_spec(f: FormObject, items: Seq<Seq<char>>) -> Seq<char> {
    ",\"width\":"@ + dec(f.width as nat) + ",\"height\":"@ + dec(f.height as nat) + ",\"foreColor\":"@ + dec(f.fore_color as nat) + ",\"backColor\":"@ + dec(f.back_color as nat) + ",\"properties\":"@ + props_json_spec(props_view(f.properties@)) + ",\"items\":"@ + items_json_spec(items)
}

pub fn push_info_tail(m: &mut String, f: &FormObject, items: &Vec<String>)
    ensures
        final(m)@ == old(m)@ + info_tail_spec(*f, items@.map_values(|s: String| s@)),
{
    let ghost start = m@;
    m.append(",\"width\":");
    push_dec(m, f.width as u64);
    m.append(",\"height\":");
    push_dec(m, f.height as u64);
    m.append(",\"foreColor\":");
    push_dec(m, f.fore_color as u64);
    m.append(",\"backColor\":");
    push_dec(m, f.back_color as u64);
    m.append(",\"properties\":");
    push_props_json(m, &f.properties);
    m.append(",\"items\":");
    push_items_json(m, items);
    assert(m@ =~= start + info_tail_spec(*f, items@.map_values(|s: String| s@)));
}

/// A form object's details (without the closing brace).
pub open spec fn info_fields_spec(f: FormObject, items: Seq<Seq<char>>) -> Seq<char> {
    info_head_spec(f) + info_tail_spec(f, items)
}

pub fn push_info_fields(m: &mut String, f: &FormObject, items: &Vec<String>)
    ensures
        final(m)@ == old(m)@ + info_fields_spec(*f, items@.map_values(|s: String| s@)),
{
    let ghost start = m@;
    push_info_head(m, f);
    push_info_tail(m, f, items);
    assert(m@ =~= start + info_fields_spec(*f, items@.map_values(|s: String| s@)));
}

} // verus!
