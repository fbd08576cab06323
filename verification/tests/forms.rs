use hwpcore::model::{Cell, Control, DocumentCore, FormType, HwpError, Paragraph, Shape, Table, TextBox};
use std::io::Write;

fn para(text: &str) -> Paragraph {
    Paragraph { text: text.to_string(), ..Default::default() }
}

fn body_doc(text: &str) -> DocumentCore {
    let mut d = DocumentCore::new_empty();
    d.document.sections.push(Default::default());
    d.document.sections[0].paragraphs.push(para(text));
    d.document.sections[0].raw_stream = Some(vec![1, 2, 3]);
    d
}

fn cell_doc() -> DocumentCore {
    let mut d = DocumentCore::new_empty();
    let mut table = Table::default();
    table.row_count = 1;
    table.col_count = 1;
    table.cells = vec![Cell { paragraphs: vec![para("칸 안")], ..Default::default() }];
    let mut p = para("");
    p.controls.push(Control::Table(Box::new(table)));
    d.document.sections.push(Default::default());
    d.document.sections[0].paragraphs.push(p);
    d
}

fn err_text<T: std::fmt::Debug>(r: Result<T, HwpError>) -> String {
    match r {
        Err(HwpError::RenderError(m)) => m,
        Ok(v) => panic!("expected an error, got {v:?}"),
    }
}

fn body_para(d: &DocumentCore) -> &Paragraph {
    &d.document.sections[0].paragraphs[0]
}

#[test]
fn create_get_set_delete_a_body_form() {
    let mut d = body_doc("abcdef");
    let r = d
        .create_form_object_native(0, 0, 3, FormType::CheckBox, " chk ", "cap", "txt", 100, 50, 1, true, r#"{"b":"x","a":1,"c":true}"#)
        .unwrap();
    assert_eq!(
        r,
        r#"{"ok":true,"operation":"create-form","formType":"CheckBox","name":"chk","caption":"cap","text":"txt","value":1,"enabled":true,"width":100,"height":50,"paraIdx":0,"controlIdx":0}"#
    );
    assert!(d.document.sections[0].raw_stream.is_none());
    assert_eq!(body_para(&d).char_offsets, vec![0, 1, 2, 11, 12, 13]);

    assert_eq!(
        d.get_form_value_native(0, 0, 0).unwrap(),
        r#"{"ok":true,"formType":"CheckBox","name":"chk","value":1,"text":"txt","caption":"cap","enabled":true}"#
    );
    assert_eq!(
        d.set_form_value_native(0, 0, 0, r#"{"value":5,"text":"new"}"#).unwrap(),
        r#"{"ok":true,"operation":"set-form","sec":0,"para":0,"control":0,"value":5,"text":"new","caption":"cap"}"#
    );
    assert_eq!(
        d.get_form_object_info_native(0, 0, 0).unwrap(),
        r#"{"ok":true,"formType":"CheckBox","name":"chk","value":5,"text":"new","caption":"cap","enabled":true,"width":100,"height":50,"foreColor":0,"backColor":16777215,"properties":{"a":"1","b":"x","c":"1"},"items":[]}"#
    );
    assert_eq!(
        d.delete_form_object_native(0, 0, 0).unwrap(),
        r#"{"ok":true,"operation":"delete-form","sec":0,"para":0,"control":0}"#
    );
    assert!(body_para(&d).controls.is_empty());
    assert_eq!(body_para(&d).char_offsets, vec![0, 1, 2, 3, 4, 5]);
}

#[test]
fn a_second_form_goes_before_the_controls_that_stand_after_it() {
    let mut d = body_doc("abcdef");
    d.create_form_object_native(0, 0, 4, FormType::Edit, "late", "", "", 1, 1, 0, true, "{}").unwrap();
    let r = d.create_form_object_native(0, 0, 1, FormType::Edit, "early", "", "", 1, 1, 0, true, "{}").unwrap();
    assert!(r.ends_with(r#""paraIdx":0,"controlIdx":0}"#), "{r}");
    let p = body_para(&d);
    assert_eq!(p.char_offsets, vec![0, 9, 10, 11, 20, 21]);
    match &p.controls[1] {
        Control::Form(f) => assert_eq!(f.name, "late"),
        _ => panic!("the later form moved"),
    }
    // taking the new one out puts the other back where it was
    d.delete_form_object_native(0, 0, 0).unwrap();
    assert_eq!(body_para(&d).char_offsets, vec![0, 1, 2, 3, 12, 13]);
}

#[test]
fn field_ranges_follow_their_controls() {
    let mut d = body_doc("abcdef");
    d.create_form_object_native(0, 0, 4, FormType::Edit, "late", "", "", 1, 1, 0, true, "{}").unwrap();
    d.document.sections[0].paragraphs[0].field_ranges.push(hwpcore::model::FieldRange {
        start_char_idx: 4,
        end_char_idx: 5,
        control_idx: 0,
    });
    d.create_form_object_native(0, 0, 0, FormType::Edit, "first", "", "", 1, 1, 0, true, "{}").unwrap();
    assert_eq!(body_para(&d).field_ranges[0].control_idx, 1);
    d.delete_form_object_native(0, 0, 0).unwrap();
    assert_eq!(body_para(&d).field_ranges[0].control_idx, 0);
}

#[test]
fn create_errors() {
    let mut d = body_doc("abc");
    assert_eq!(err_text(d.create_form_object_native(1, 0, 0, FormType::Edit, "x", "", "", 1, 1, 0, true, "{}")), "구역 위치 초과");
    assert_eq!(err_text(d.create_form_object_native(0, 4, 0, FormType::Edit, "x", "", "", 1, 1, 0, true, "{}")), "문단 위치 초과");
    assert_eq!(
        err_text(d.create_form_object_native(0, 0, 9, FormType::Edit, "x", "", "", 1, 1, 0, true, "{}")),
        "문자 오프셋 9이 문단 길이 3를 초과합니다."
    );
    assert!(body_para(&d).controls.is_empty());
}

#[test]
fn get_and_set_where_there_is_no_form() {
    let mut d = body_doc("abc");
    let not_form = r#"{"ok":false,"error":"not a form object"}"#;
    assert_eq!(d.get_form_value_native(0, 0, 0).unwrap(), not_form);
    assert_eq!(d.get_form_value_native(5, 0, 0).unwrap(), not_form);
    assert_eq!(d.get_form_object_info_native(0, 0, 0).unwrap(), not_form);
    assert_eq!(d.set_form_value_native(0, 0, 0, r#"{"value":1}"#).unwrap(), not_form);
    assert_eq!(err_text(d.set_form_value_native(3, 0, 0, r#"{"value":1}"#)), "구역 위치 초과");
}

#[test]
fn delete_errors() {
    let mut d = cell_doc();
    assert_eq!(err_text(d.delete_form_object_native(0, 0, 3)), "컨트롤 인덱스 3 범위 초과");
    assert_eq!(err_text(d.delete_form_object_native(0, 0, 0)), "지정된 컨트롤이 양식 개체가 아닙니다");
    assert_eq!(err_text(d.delete_form_object_native(0, 1, 0)), "문단 위치 초과");
    assert_eq!(err_text(d.delete_form_object_native(2, 0, 0)), "구역 위치 초과");
}

#[test]
fn set_value_reads_back() {
    let mut d = body_doc("abc");
    d.create_form_object_native(0, 0, 0, FormType::Edit, "e", "c", "t", 1, 1, 7, false, "{}").unwrap();
    for v in [0, -1, 42, i32::MAX, i32::MIN] {
        d.set_form_value_native(0, 0, 0, &format!(r#"{{"value":{v}}}"#)).unwrap();
        let got = d.get_form_value_native(0, 0, 0).unwrap();
        assert!(got.contains(&format!(r#""value":{v},"#)), "{got}");
        assert!(got.contains(r#""text":"t","caption":"c""#), "{got}");
    }
    // out of range values are ignored
    d.set_form_value_native(0, 0, 0, r#"{"value":99999999999}"#).unwrap();
    assert!(d.get_form_value_native(0, 0, 0).unwrap().contains(r#""value":-2147483648,"#));
}

#[test]
fn escaped_text_in_answers() {
    let mut d = body_doc("abc");
    let r = d
        .create_form_object_native(0, 0, 0, FormType::PushButton, "b", "say \"hi\"\n", "a\\b\t", 1, 1, 0, true, "{}")
        .unwrap();
    assert!(r.contains(r#""caption":"say \"hi\"\n","text":"a\\b\t""#), "{r}");
}

#[test]
fn cell_forms_by_path() {
    let mut d = cell_doc();
    let path = [(0usize, 0usize, 0usize)];
    let r = d
        .create_cell_form_object_native(0, 0, &path, 1, FormType::Edit, "e", "", "", 10, 10, 0, true, "{}")
        .unwrap();
    assert_eq!(
        r,
        r#"{"ok":true,"operation":"create-form","container":"cell","formType":"Edit","name":"e","caption":"","text":"","value":0,"enabled":true,"width":10,"height":10,"paraIdx":0,"controlIdx":0,"cellPath":[{"controlIndex":0,"cellIndex":0,"cellParaIndex":0}]}"#
    );
    assert_eq!(
        d.get_cell_form_object_info_native(0, 0, &path, 0).unwrap(),
        r#"{"ok":true,"formType":"Edit","name":"e","value":0,"text":"","caption":"","enabled":true,"width":10,"height":10,"foreColor":0,"backColor":16777215,"properties":{},"items":[],"container":"cell","paraIdx":0,"controlIdx":0,"cellPath":[{"controlIndex":0,"cellIndex":0,"cellParaIndex":0}]}"#
    );
    assert_eq!(
        d.set_form_value_in_cell_native(0, 0, 0, 0, 0, 0, r#"{"caption":"c"}"#).unwrap(),
        r#"{"ok":true,"operation":"set-form","container":"cell","sec":0,"para":0,"control":0,"cellIndex":0,"cellPara":0,"value":0,"text":"","caption":"c"}"#
    );
    assert_eq!(
        d.set_cell_form_value_by_path_native(0, 0, &path, 0, r#"{"text":"t"}"#).unwrap(),
        r#"{"ok":true,"operation":"set-form","container":"cell","sec":0,"para":0,"control":0,"cellPath":[{"controlIndex":0,"cellIndex":0,"cellParaIndex":0}],"value":0,"text":"t","caption":"c"}"#
    );
    assert_eq!(
        d.set_form_value_in_cell_native(0, 0, 0, 0, 0, 5, r#"{"caption":"c"}"#).unwrap(),
        r#"{"ok":false,"error":"cell form not found"}"#
    );
    assert_eq!(
        d.delete_cell_form_object_by_path_native(0, 0, &path, 0).unwrap(),
        r#"{"ok":true,"operation":"delete-form","container":"cell","sec":0,"para":0,"control":0,"cellPath":[{"controlIndex":0,"cellIndex":0,"cellParaIndex":0}]}"#
    );
    assert_eq!(
        d.get_cell_form_object_info_native(0, 0, &path, 0).unwrap(),
        r#"{"ok":false,"error":"not a cell form object"}"#
    );
}

#[test]
fn cell_path_errors() {
    let mut d = cell_doc();
    assert_eq!(
        err_text(d.create_cell_form_object_native(0, 0, &[], 0, FormType::Edit, "e", "", "", 1, 1, 0, true, "{}")),
        "cell_path가 비어 있습니다."
    );
    assert_eq!(
        err_text(d.create_cell_form_object_native(0, 3, &[(0, 0, 0)], 0, FormType::Edit, "e", "", "", 1, 1, 0, true, "{}")),
        "문단 인덱스 3 범위 초과"
    );
    assert_eq!(
        err_text(d.create_cell_form_object_native(0, 0, &[(1, 0, 0)], 0, FormType::Edit, "e", "", "", 1, 1, 0, true, "{}")),
        "경로[0]: controls[1] 범위 초과"
    );
    assert_eq!(
        err_text(d.create_cell_form_object_native(0, 0, &[(0, 2, 0)], 0, FormType::Edit, "e", "", "", 1, 1, 0, true, "{}")),
        "경로[0]: cells[2] 범위 초과"
    );
    assert_eq!(
        err_text(d.create_cell_form_object_native(0, 0, &[(0, 0, 4)], 0, FormType::Edit, "e", "", "", 1, 1, 0, true, "{}")),
        "경로[0]: paragraphs[4] 범위 초과"
    );
    assert_eq!(err_text(d.get_cell_form_object_info_native(0, 7, &[(0, 0, 0)], 0)), "문단 인덱스 7 범위 초과");
    assert_eq!(err_text(d.resolve_paragraph_by_path(1, 0, &[(0, 0, 0)])), "구역 위치 초과");
    let q = d.resolve_paragraph_by_path(0, 0, &[(0, 0, 0)]).unwrap();
    assert_eq!(q.text, "칸 안");
}

fn script_stream(script: &str) -> (String, Vec<u8>) {
    let units: Vec<u8> = script.encode_utf16().flat_map(|u| u.to_le_bytes()).collect();
    let mut enc = flate2::write::DeflateEncoder::new(Vec::new(), flate2::Compression::default());
    enc.write_all(&units).unwrap();
    ("Scripts/DefaultJScript".to_string(), enc.finish().unwrap())
}

#[test]
fn combo_box_items_come_from_the_script_in_index_order() {
    let mut d = body_doc("abc");
    d.create_form_object_native(0, 0, 0, FormType::ComboBox, "Combo1", "", "", 1, 1, 0, true, "{}").unwrap();
    d.document.extra_streams.push(script_stream(
        "function OnDocument_New()\r\n{\r\n  Combo1.InsertString(\"여름\", 1);\r\n  Combo1.InsertString(\"봄\",0);\r\n  Other.InsertString(\"x\", 0);\r\n  Combo1.InsertString(\"가을\", 1);\r\n}\r\n",
    ));
    let info = d.get_form_object_info_native(0, 0, 0).unwrap();
    assert!(info.ends_with(r#""items":["봄","여름","가을"]}"#), "{info}");
    let items = hwpcore::script::extract_combobox_items_from_script(&d.document.extra_streams, "Combo1");
    assert_eq!(items, vec!["봄", "여름", "가을"]);
    assert!(hwpcore::script::extract_combobox_items_from_script(&d.document.extra_streams, "Nope").is_empty());
}

#[test]
fn a_script_that_does_not_inflate_gives_no_items() {
    let streams = vec![("Scripts/DefaultJScript".to_string(), vec![0xff, 0xff, 0xff])];
    assert!(hwpcore::script::decode_hwp_script(&streams).is_none());
    assert!(hwpcore::script::extract_combobox_items_from_script(&streams, "Combo1").is_empty());
    let empty = vec![("/Scripts/DefaultJScript".to_string(), vec![])];
    assert!(hwpcore::script::decode_hwp_script(&empty).is_none());
}

#[test]
fn decoded_script_is_the_text() {
    let streams = vec![script_stream("var a = 1;\n")];
    assert_eq!(hwpcore::script::decode_hwp_script(&streams).as_deref(), Some("var a = 1;\n"));
}

#[test]
fn insert_string_arguments() {
    let args: Vec<char> = "\"봄\", 12);".chars().collect();
    assert_eq!(hwpcore::script::parse_insert_string_args(&args), Some(("봄".to_string(), 12)));
    let bad: Vec<char> = "\"봄\" 12);".chars().collect();
    assert_eq!(hwpcore::script::parse_insert_string_args(&bad), None);
    let no_index: Vec<char> = "\"봄\",x);".chars().collect();
    assert_eq!(hwpcore::script::parse_insert_string_args(&no_index), Some(("봄".to_string(), 0)));
}

#[test]
fn properties_from_json() {
    let props = hwpcore::props::parse_form_properties_json(r#"{"n":1.5,"s":"v","f":false,"z":null,"o":{"k":1}}"#);
    assert_eq!(
        props,
        vec![
            ("f".to_string(), "0".to_string()),
            ("n".to_string(), "1.5".to_string()),
            ("o".to_string(), "{\"k\":1}".to_string()),
            ("s".to_string(), "v".to_string()),
            ("z".to_string(), "null".to_string()),
        ]
    );
    assert!(hwpcore::props::parse_form_properties_json("not json").is_empty());
    assert!(hwpcore::props::parse_form_properties_json("[1,2]").is_empty());
}

#[test]
fn positions_read_back_from_rebuilt_offsets() {
    let mut p = para("ab\tcd");
    for _ in 0..4 {
        p.controls.push(Control::Other);
    }
    hwpcore::positions::rebuild_offsets_from_control_positions(&mut p, &vec![0, 2, 2, 5]);
    assert_eq!(p.char_offsets, vec![8, 9, 26, 34, 35]);
    assert_eq!(hwpcore::positions::find_control_text_positions(&p), vec![0, 2, 2, 5]);
    // controls the offsets do not show stand at the end of the text
    p.controls.push(Control::Other);
    assert_eq!(hwpcore::positions::find_control_text_positions(&p), vec![0, 2, 2, 5, 5]);
    let mut empty = para("");
    empty.controls.push(Control::Other);
    hwpcore::positions::rebuild_offsets_from_control_positions(&mut empty, &vec![0]);
    assert!(empty.char_offsets.is_empty());
    assert_eq!(hwpcore::positions::find_control_text_positions(&empty), vec![0]);
}

#[test]
fn text_set_reads_back() {
    let mut d = body_doc("abc");
    d.create_form_object_native(0, 0, 0, FormType::Edit, "e", "c", "t", 1, 1, 7, false, "{}").unwrap();
    d.set_form_value_native(0, 0, 0, r#"{"text":"새 글"}"#).unwrap();
    let got = d.get_form_value_native(0, 0, 0).unwrap();
    assert!(got.contains(r#""value":7,"text":"새 글","caption":"c""#), "{got}");
}

#[test]
fn text_box_paths() {
    let mut d = DocumentCore::new_empty();
    let mut p = para("");
    p.controls.push(Control::Shape(Box::new(Shape { text_box: Some(TextBox { paragraphs: vec![para("글상자")] }) })));
    p.controls.push(Control::Shape(Box::new(Shape { text_box: None })));
    p.controls.push(Control::Other);
    d.document.sections.push(Default::default());
    d.document.sections[0].paragraphs.push(p);
    let make = |d: &mut DocumentCore, path: &[(usize, usize, usize)]| {
        d.create_cell_form_object_native(0, 0, path, 0, FormType::Edit, "e", "", "", 1, 1, 0, true, "{}")
    };
    assert_eq!(err_text(make(&mut d, &[(0, 1, 0)])), "경로[0]: 글상자의 cell_index는 0이어야 합니다 (1)");
    assert_eq!(err_text(make(&mut d, &[(1, 0, 0)])), "경로[0]: controls[1]가 텍스트 글상자가 아닙니다");
    assert_eq!(err_text(make(&mut d, &[(0, 0, 3)])), "경로[0]: 글상자문단 3 범위 초과");
    assert_eq!(err_text(make(&mut d, &[(2, 0, 0)])), "경로[0]: controls[2] 가 표/글상자가 아닙니다");
    let r = make(&mut d, &[(0, 0, 0)]).unwrap();
    assert!(r.contains(r#""controlIdx":0,"cellPath":[{"controlIndex":0,"cellIndex":0,"cellParaIndex":0}]"#), "{r}");
    assert_eq!(d.resolve_paragraph_by_path(0, 0, &[(0, 0, 0)]).unwrap().controls.len(), 1);
}

#[test]
fn script_units_decode_with_replacement() {
    let units: [u16; 6] = [0x41, 0xD83D, 0xDE00, 0xDC00, 0xD800, 0x42];
    let bytes: Vec<u8> = units.iter().flat_map(|u| u.to_le_bytes()).collect();
    let mut enc = flate2::write::DeflateEncoder::new(Vec::new(), flate2::Compression::default());
    enc.write_all(&bytes).unwrap();
    let streams = vec![("/Scripts/DefaultJScript".to_string(), enc.finish().unwrap())];
    assert_eq!(hwpcore::script::decode_hwp_script(&streams).as_deref(), Some("A😀\u{FFFD}\u{FFFD}B"));
}
