use hwpcore::lint_base::{Finding, Level, LintScan};
use hwpcore::model::{
    Alignment, BorderFill, CharShape, CharShapeRef, Cell, Control, DocumentCore, Fill, FillType, ParaShape, Paragraph,
    SolidFill, Table, TablePageBreak, VerticalAlign,
};

fn para(text: &str) -> Paragraph {
    Paragraph { text: text.to_string(), ..Default::default() }
}

fn header(flags: u32, iid: u32) -> Vec<u8> {
    let mut raw = vec![0u8; 36];
    raw[0..4].copy_from_slice(&flags.to_le_bytes());
    raw[32..36].copy_from_slice(&iid.to_le_bytes());
    raw
}

fn doc_with(controls: Vec<Control>) -> DocumentCore {
    let mut d = DocumentCore::new_empty();
    let mut p = para("");
    p.controls = controls;
    d.document.sections.push(Default::default());
    d.document.sections[0].paragraphs.push(p);
    d
}

fn table(rows: u16, cols: u16, cells: Vec<Cell>, raw: Vec<u8>) -> Control {
    Control::Table(Box::new(Table {
        row_count: rows,
        col_count: cols,
        cells,
        raw_ctrl_data: raw,
        page_break: TablePageBreak::NoBreak,
    }))
}

fn codes(fs: &[Finding]) -> Vec<&'static str> {
    fs.iter().map(|f| f.code).collect()
}

#[test]
fn a_short_header_and_a_cell_without_border_fill() {
    let d = doc_with(vec![table(1, 1, vec![Cell { row_span: 1, col_span: 1, ..Default::default() }], vec![])]);
    assert_eq!(
        d.lint_native().unwrap(),
        [
            r#"{"ok":true,"errors":0,"warnings":2,"scanned":{"pages":0,"cells":0,"textRuns":0,"paragraphs":1,"chars":0,"cellSeams":0},"findings":["#,
            r#"{"level":"warn","code":"ctrl-header-short","location":"sec0 para0 ctrl0","message":"컨트롤 공통 헤더 0B < 최소 36B — 한컴 파서가 필드를 어긋나게 읽을 수 있다"},"#,
            r#"{"level":"warn","code":"cell-borderfill-zero","location":"sec0 para0 ctrl0 cell0(r0c0)","message":"셀 borderFillId 0 — 한컴에서 무테·무채움으로 보인다"}]}"#,
        ]
        .concat()
    );
}

#[test]
fn an_empty_document_reports_nothing() {
    let d = DocumentCore::new_empty();
    assert_eq!(
        d.lint_native().unwrap(),
        r#"{"ok":true,"errors":0,"warnings":0,"scanned":{"pages":0,"cells":0,"textRuns":0,"paragraphs":0,"chars":0,"cellSeams":0},"findings":[]}"#
    );
}

#[test]
fn repeated_instance_ids_and_nested_table_flags() {
    let mut nested_cell = Cell { border_fill_id: 1, ..Default::default() };
    nested_cell.paragraphs.push(para("x"));
    let nested = Table {
        row_count: 1,
        col_count: 1,
        cells: vec![Cell { border_fill_id: 1, ..Default::default() }],
        raw_ctrl_data: header(0, 0x1234),
        page_break: TablePageBreak::CellBreak,
    };
    let mut holder = para("");
    holder.controls.push(Control::Table(Box::new(nested)));
    let outer_cell = Cell { border_fill_id: 7, paragraphs: vec![holder], ..Default::default() };
    let mut d = doc_with(vec![
        table(1, 1, vec![outer_cell], header(1, 0x1234)),
        table(1, 1, vec![Cell { border_fill_id: 1, ..Default::default() }], header(1, 0)),
    ]);
    d.document.doc_info.border_fills.push(BorderFill::default());
    d.document.doc_info.para_shapes.push(ParaShape::default());
    let mut findings: Vec<Finding> = Vec::new();
    let mut iids: Vec<(u32, Vec<String>)> = Vec::new();
    d.lint_structure(&mut findings, &mut iids);
    hwpcore::lint_cells::report_duplicates(&iids, &mut findings);
    assert_eq!(
        codes(&findings),
        vec![
            "cell-borderfill-dangling",
            "cell-borderfill-dangling",
            "nested-table-not-tac",
            "nested-table-pagebreak",
            "instance-id-zero",
            "instance-id-duplicate",
        ]
    );
    assert_eq!(findings[0].location, "sec0 para0 ctrl0 r0c0");
    assert_eq!(findings[0].message, "셀 borderFillId 7 가 DocInfo(1개) 범위를 벗어남");
    assert_eq!(findings[1].location, "sec0 para0 ctrl0 cell0(r0c0)");
    assert_eq!(findings[1].message, "셀 borderFillId 7 가 DocInfo(1개) 범위를 벗어남 — 재로드 시 0으로 클램프");
    assert_eq!(findings[2].location, "sec0 para0 ctrl0 cell0(r0c0) 중첩표");
    assert_eq!(findings[2].message, "셀 안 표의 like_char(tac) 비트가 0 (flags=0x00000000) — 한컴이 표를 통째로 버린다 (repair-nested-tables 로 수리)");
    assert_eq!(findings[4].location, "sec0 para0 ctrl1");
    assert_eq!(findings[5].location, "sec0 para0 ctrl0, sec0 para0 ctrl0 cell0(r0c0) 중첩표");
    assert_eq!(findings[5].message, "표 instance id 0x1234 가 2곳에서 중복");
    assert_eq!(iids.len(), 1);
}

#[test]
fn tall_cells_slack_and_dangling_shapes() {
    let mut p = para("");
    p.para_shape_id = 3;
    p.char_shapes.push(CharShapeRef { start_pos: 0, char_shape_id: 2 });
    let cell = Cell {
        border_fill_id: 1,
        height: 9000,
        vertical_align: VerticalAlign::Bottom,
        paragraphs: vec![p],
        ..Default::default()
    };
    let mut d = doc_with(vec![table(1, 1, vec![cell], header(1, 5))]);
    d.document.doc_info.border_fills.push(BorderFill::default());
    d.document.sections[0].section_def.page_def.height = 8000;
    d.document.sections[0].section_def.page_def.margin_top = 1000;
    let mut findings: Vec<Finding> = Vec::new();
    let mut iids: Vec<(u32, Vec<String>)> = Vec::new();
    d.lint_structure(&mut findings, &mut iids);
    assert_eq!(codes(&findings), vec!["parashape-dangling", "charshape-dangling", "cell-taller-than-page", "cell-valign-slack"]);
    assert_eq!(findings[0].message, "문단모양 id 3 범위 초과(0개)");
    assert_eq!(findings[1].message, "글자모양 id 2 범위 초과(0개)");
    assert_eq!(findings[2].level, Level::Info);
    assert_eq!(
        findings[2].message,
        "셀 높이 9000 > 페이지 내지 7000 — 페이지 이월 셀. 데스크톱 한글은 이어 그리지만 한컴독스 웹·업스트림 뷰어는 초과분을 자른다"
    );
    assert_eq!(findings[3].message, "세로 아래정렬 + 여유 9000HWPU — 한컴에서 내용 위에 공백이 뜬다 (위 정렬 권장)");
    assert_eq!(iids, vec![(5u32, vec!["sec0 para0 ctrl0".to_string()])]);
}

fn styled_cell(row: u16, bf: u16, valign: VerticalAlign) -> Cell {
    Cell { row, border_fill_id: bf, vertical_align: valign, paragraphs: vec![para("칸")], ..Default::default() }
}

fn styled_table(head_bf: u16, valign: VerticalAlign) -> Control {
    table(
        2,
        2,
        vec![styled_cell(0, head_bf, VerticalAlign::Top), styled_cell(1, 2, valign)],
        header(1, 9),
    )
}

fn shaded_doc(tables: Vec<Control>) -> DocumentCore {
    let mut d = doc_with(tables);
    let shade = BorderFill {
        fill: Fill { fill_type: FillType::Solid, solid: Some(SolidFill { background_color: 0x00d9d9d9 }) },
        ..Default::default()
    };
    d.document.doc_info.border_fills.push(shade);
    d.document.doc_info.border_fills.push(BorderFill::default());
    d.document.doc_info.para_shapes.push(ParaShape { spacing_before: 0, alignment: Alignment::Center });
    d
}

#[test]
fn a_table_styled_otherwise_than_most_is_reported() {
    let d = shaded_doc(vec![
        styled_table(1, VerticalAlign::Top),
        styled_table(1, VerticalAlign::Top),
        styled_table(1, VerticalAlign::Center),
    ]);
    let mut findings: Vec<Finding> = Vec::new();
    d.lint_table_style(&mut findings);
    assert_eq!(codes(&findings), vec!["table-style-inconsistent"]);
    assert_eq!(findings[0].location, "sec0 para0 ctrl2");
    assert_eq!(findings[0].message, "문서 안 다른 표와 서식이 다름 — 세로 정렬 Center (다수 Top)");
}

#[test]
fn a_header_filled_like_the_body_is_reported_even_alone() {
    let d = shaded_doc(vec![styled_table(2, VerticalAlign::Top)]);
    let mut findings: Vec<Finding> = Vec::new();
    d.lint_table_style(&mut findings);
    assert_eq!(codes(&findings), vec!["table-header-no-shade"]);
    assert_eq!(
        findings[0].message,
        "머리행 채움(none)이 본문과 같아 구분되지 않는다 — 관공서 작성 예시는 머리행에 음영(#d9d9d9)을 준다"
    );
}

#[test]
fn ties_go_to_the_greater_value() {
    let d = shaded_doc(vec![styled_table(1, VerticalAlign::Top), styled_table(1, VerticalAlign::Center)]);
    let mut findings: Vec<Finding> = Vec::new();
    d.lint_table_style(&mut findings);
    // one each: "Top" is the greater string, so the Center table differs
    assert_eq!(codes(&findings), vec!["table-style-inconsistent"]);
    assert_eq!(findings[0].location, "sec0 para0 ctrl1");
    let fills = vec!["#d9d9d9".to_string(), "none".to_string(), "none".to_string()];
    assert_eq!(hwpcore::lint_style::mode_exec(&fills), "none");
    let tie = vec!["b".to_string(), "a".to_string()];
    assert_eq!(hwpcore::lint_style::mode_exec(&tie), "b");
}

#[test]
fn nested_tables_are_compared_among_themselves() {
    let mut holder = para("");
    if let Control::Table(t) = styled_table(2, VerticalAlign::Top) {
        holder.controls.push(Control::Table(t));
    }
    let outer = table(2, 2, vec![Cell { row: 0, border_fill_id: 1, paragraphs: vec![holder], ..Default::default() }, styled_cell(1, 2, VerticalAlign::Top)], header(1, 3));
    let d = shaded_doc(vec![outer]);
    let mut findings: Vec<Finding> = Vec::new();
    d.lint_table_style(&mut findings);
    assert_eq!(codes(&findings), vec!["table-header-no-shade"]);
    assert_eq!(findings[0].location, "sec0 para0 ctrl0 cell(r0c0) 중첩표");
}

fn shaped(text: &str, refs: &[(u32, u32)]) -> Paragraph {
    let mut p = para(text);
    for &(start_pos, id) in refs {
        p.char_shapes.push(CharShapeRef { start_pos, char_shape_id: id });
    }
    p
}

fn char_doc(paras: Vec<Paragraph>) -> DocumentCore {
    let mut d = DocumentCore::new_empty();
    d.document.sections.push(Default::default());
    d.document.sections[0].paragraphs = paras;
    d.document.doc_info.char_shapes = vec![
        CharShape { text_color: 0, base_size: 1000 },
        CharShape { text_color: 0, base_size: 1200 },
        CharShape { text_color: 0x00ff0000, base_size: 1000 },
    ];
    d
}

#[test]
fn a_tail_left_at_an_old_size_is_reported() {
    let d = char_doc(vec![shaped("가나다라마바사아자차카타파하가나다라마바", &[(0, 0), (18, 1)])]);
    let mut findings: Vec<Finding> = Vec::new();
    let mut scan = LintScan::default();
    d.lint_char_style(&mut findings, &mut scan);
    assert_eq!(scan.paragraphs, 1);
    assert_eq!(scan.chars, 20);
    assert_eq!(codes(&findings), vec!["char-size-mixed"]);
    assert_eq!(findings[0].location, "sec0 para0");
    assert_eq!(
        findings[0].message,
        "문단 20자 중 대부분은 10.0pt(18자)인데 12.0pt 2자(10.0%) 가 섞였다 — 글자 수를 줄일 때 꼬리 몇 자가 옛 크기로 남은 자국이다 (문단 전체에 크기를 다시 걸어라)"
    );
}

#[test]
fn half_and_half_sizes_are_normal() {
    let d = char_doc(vec![shaped("가나다라마바사아자차", &[(0, 0), (5, 1)])]);
    let mut findings: Vec<Finding> = Vec::new();
    let mut scan = LintScan::default();
    d.lint_char_style(&mut findings, &mut scan);
    assert!(findings.is_empty());
}

#[test]
fn coloured_placeholder_text_is_reported() {
    let body = "가".repeat(96);
    let d = char_doc(vec![shaped(&body, &[(0, 0)]), shaped("파 란 색 깔", &[(0, 2)])]);
    let mut findings: Vec<Finding> = Vec::new();
    let mut scan = LintScan::default();
    d.lint_char_style(&mut findings, &mut scan);
    assert_eq!(scan.chars, 100);
    assert_eq!(codes(&findings), vec!["char-color-placeholder"]);
    assert_eq!(findings[0].location, "sec0 para1");
    assert_eq!(
        findings[0].message,
        "검정이 아닌 글자가 4자 / 전체 100자 = 4.0% (#0000ff 4자) — 배포 양식 안내문(파란 12pt)의 글자모양을 물려받은 본문이 남아 있다 (해당 범위에 검정을 다시 걸어라)"
    );
}

#[test]
fn exactly_three_in_a_hundred_coloured_is_normal() {
    let body = "가".repeat(97);
    let d = char_doc(vec![shaped(&body, &[(0, 0)]), shaped("파 란 색", &[(0, 2)])]);
    let mut findings: Vec<Finding> = Vec::new();
    let mut scan = LintScan::default();
    d.lint_char_style(&mut findings, &mut scan);
    assert_eq!(scan.chars, 100);
    assert!(findings.is_empty());
}

#[test]
fn characters_without_a_shape_are_still_read() {
    let d = char_doc(vec![para("a b\t"), shaped("가나", &[(0, 0)])]);
    let mut findings: Vec<Finding> = Vec::new();
    let mut scan = LintScan::default();
    d.lint_char_style(&mut findings, &mut scan);
    assert_eq!(scan.paragraphs, 2);
    assert_eq!(scan.chars, 4);
    assert!(findings.is_empty());
}

#[test]
fn a_few_coloured_characters_are_normal() {
    let body = "가".repeat(98);
    let d = char_doc(vec![shaped(&body, &[(0, 0)]), shaped("파란", &[(0, 2)])]);
    let mut findings: Vec<Finding> = Vec::new();
    let mut scan = LintScan::default();
    d.lint_char_style(&mut findings, &mut scan);
    assert!(findings.is_empty());
}

#[test]
fn paragraphs_are_collected_with_their_places() {
    let mut inner_holder = para("안");
    inner_holder.controls.push(table(1, 1, vec![Cell { paragraphs: vec![para("깊은")], ..Default::default() }], vec![]));
    let cell = Cell { row: 1, col: 2, paragraphs: vec![para("첫"), inner_holder], ..Default::default() };
    let mut d = doc_with(vec![table(1, 1, vec![cell], vec![])]);
    d.document.sections[0].paragraphs.push(para("끝"));
    let got: Vec<(String, String)> = d.collect_paragraphs().into_iter().map(|(l, p)| (l, p.text.clone())).collect();
    assert_eq!(
        got,
        vec![
            ("sec0 para0".to_string(), "".to_string()),
            ("sec0 para0 ctrl0 cell(r1c2) para0".to_string(), "첫".to_string()),
            ("sec0 para0 ctrl0 cell(r1c2) para1".to_string(), "안".to_string()),
            ("sec0 para0 ctrl0 cell(r1c2) 중첩표 cell(r0c0) para0".to_string(), "깊은".to_string()),
            ("sec0 para1".to_string(), "끝".to_string()),
        ]
    );
}

#[test]
fn shape_ids_follow_the_offsets() {
    let mut p = shaped("abc", &[(0, 4), (9, 5)]);
    p.char_offsets = vec![0, 1, 10];
    assert_eq!(hwpcore::lint_chars::shape_id_at(&p, 0), Some(4));
    assert_eq!(hwpcore::lint_chars::shape_id_at(&p, 1), Some(4));
    assert_eq!(hwpcore::lint_chars::shape_id_at(&p, 2), Some(5));
    assert_eq!(hwpcore::lint_chars::shape_id_at(&p, 7), Some(4));
    let bare = para("abc");
    assert_eq!(hwpcore::lint_chars::shape_id_at(&bare, 0), None);
}

#[test]
fn layout_findings_come_last_with_their_counts() {
    let d = doc_with(vec![table(1, 1, vec![Cell { row_span: 1, col_span: 1, ..Default::default() }], vec![])]);
    let layout = vec![Finding {
        level: Level::Error,
        code: "table-fragment-unclosed",
        location: "sec0 para0 ctrl0 p1".to_string(),
        message: "m".to_string(),
    }];
    let r = d.lint_with_layout(&layout, 2, 5, 9);
    assert!(r.starts_with(r#"{"ok":true,"errors":1,"warnings":2,"scanned":{"pages":2,"cells":5,"textRuns":9,"paragraphs":1,"chars":0,"cellSeams":0},"#), "{r}");
    assert!(r.ends_with(r#"{"level":"error","code":"table-fragment-unclosed","location":"sec0 para0 ctrl0 p1","message":"m"}]}"#), "{r}");
}
