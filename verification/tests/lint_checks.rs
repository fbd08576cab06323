use hwpcore::lint_base::{Finding, LintScan};
use hwpcore::model::{Cell, Control, DocumentCore, LineSeg, Paragraph, Section, Table};

fn para(text: &str) -> Paragraph {
    Paragraph { text: text.to_string(), ..Default::default() }
}

fn cell(row: u16, texts: &[&str]) -> Cell {
    Cell {
        row,
        col: 0,
        col_span: 3,
        row_span: 1,
        paragraphs: texts.iter().map(|t| para(t)).collect(),
        border_fill_id: 1,
        ..Default::default()
    }
}

/// Two answer cells, one above the other.
fn doc(above: &[&str], below: &[&str]) -> DocumentCore {
    let mut d = DocumentCore::new_empty();
    let mut table = Table::default();
    table.row_count = 2;
    table.col_count = 3;
    table.cells = vec![cell(0, above), cell(1, below)];
    let mut p = Paragraph::default();
    p.controls.push(Control::Table(Box::new(table)));
    d.document.sections.push(Default::default());
    d.document.sections[0].paragraphs.push(p);
    d
}

fn orphans(d: &DocumentCore) -> Vec<String> {
    let mut findings: Vec<Finding> = Vec::new();
    let mut scan = LintScan::default();
    d.lint_orphan_heading(&mut findings, &mut scan);
    assert_eq!(scan.cell_seams, 1, "이음매를 못 찾았으면 검사가 죽은 것이다");
    findings
        .iter()
        .filter(|f| f.code == "heading-orphaned-at-cell-end")
        .map(|f| f.message.clone())
        .collect()
}

#[test]
fn section_heading_left_alone_is_reported() {
    let d = doc(&["◦ 앞 내용", "□ 문서 호환성 검증 결과"], &["◦ 사내 실무 문서 표본으로 검증함"]);
    let got = orphans(&d);
    assert_eq!(got.len(), 1, "□ 표제가 칸 끝에 혼자 남았는데 안 잡혔다: {got:?}");
    assert!(got[0].contains("문서 호환성"), "{got:?}");
}

#[test]
fn item_heading_whose_children_are_overleaf_is_reported() {
    let d = doc(&["□ 절", "◦ 경쟁 분석"], &["- 코난테크놀로지·솔트룩스", "- 올거나이즈"]);
    assert_eq!(orphans(&d).len(), 1, "◦ 표제의 - 자식이 다음 쪽인데 안 잡혔다");
}

#[test]
fn heading_with_its_content_in_the_same_cell_is_silent() {
    let d = doc(&["□ 절", "◦ 내용이 같은 칸에 있음"], &["□ 다음 절", "◦ 그 내용"]);
    assert!(orphans(&d).is_empty(), "정상인데 잡혔다");
}

#[test]
fn list_continuing_across_the_page_is_silent() {
    let d = doc(&["◦ 항목", "- 첫째"], &["- 둘째", "- 셋째"]);
    assert!(orphans(&d).is_empty(), "쪽을 넘어 이어지는 목록은 표제가 아니다");
}

#[test]
fn leaf_item_followed_by_a_figure_is_silent() {
    let d = doc(&["◦ 항목", "- 타깃은 업종명이 아니라 구조임"], &[" ", "[그림] 업무 화면 구성안"]);
    assert!(orphans(&d).is_empty(), "잎 항목은 표제가 아니다: {:?}", orphans(&d));
}

#[test]
fn a_long_bullet_sentence_followed_by_prose_is_silent() {
    let d = doc(&["□ 절", "◦ 사내 문서 표본으로 형식별 처리 능력을 검증함"], &["앞에서 본 것처럼 결과는 다음과 같습니다."]);
    assert!(orphans(&d).is_empty(), "자식 없는 ◦ 를 표제로 단정했다");
}

const PITCH: i32 = 1860;
const PAGE: u32 = 67_684;

fn line(text: &str, vpos: i32) -> Paragraph {
    Paragraph {
        text: text.to_string(),
        line_segs: vec![LineSeg { vertical_pos: vpos, line_height: 1500, line_spacing: 360 }],
        ..Default::default()
    }
}

fn sized_cell(row: u16, height: u32, texts: &[&str]) -> Cell {
    Cell {
        row,
        col: 0,
        col_span: 3,
        row_span: 1,
        height,
        paragraphs: texts.iter().enumerate().map(|(i, t)| line(t, i as i32 * PITCH)).collect(),
        border_fill_id: 1,
        ..Default::default()
    }
}

fn paged_doc(above: Cell, below: Cell) -> DocumentCore {
    let mut d = DocumentCore::new_empty();
    let mut table = Table::default();
    table.row_count = 2;
    table.col_count = 3;
    table.cells = vec![above, below];
    let mut p = Paragraph::default();
    p.controls.push(Control::Table(Box::new(table)));
    let mut sec = Section::default();
    sec.section_def.page_def.height = 84_186;
    sec.section_def.page_def.margin_top = 4_252;
    sec.section_def.page_def.margin_bottom = 4_252;
    sec.section_def.page_def.margin_header = 2_835;
    sec.section_def.page_def.margin_footer = 2_835;
    sec.paragraphs.push(p);
    d.document.sections.push(sec);
    d
}

fn pushed(d: &DocumentCore) -> Vec<String> {
    let mut findings: Vec<Finding> = Vec::new();
    let mut scan = LintScan::default();
    d.lint_pushed_paragraph(&mut findings, &mut scan);
    findings
        .iter()
        .filter(|f| f.code == "paragraph-pushed-despite-room")
        .map(|f| f.message.clone())
        .collect()
}

#[test]
fn a_leaf_item_that_fits_in_the_room_above_is_reported() {
    let d = paged_doc(
        sized_cell(0, PAGE, &["◦ 시장 진입 전략", "- 협회·파트너 채널로 무료 베타 5곳 확보"]),
        sized_cell(1, PAGE, &["- 이후 정부 조달·바우처로 확산", "□ 추진 일정"]),
    );
    let got = pushed(&d);
    assert_eq!(got.len(), 1, "앞 쪽이 비었는데 밀려간 문단을 못 잡았다: {got:?}");
    assert!(got[0].contains("정부 조달"), "{got:?}");
}

#[test]
fn no_room_above_is_silent() {
    let texts: Vec<String> = (0..36).map(|i| format!("- 줄 {i}")).collect();
    let refs: Vec<&str> = texts.iter().map(|s| s.as_str()).collect();
    let d = paged_doc(sized_cell(0, PAGE, &refs), sized_cell(1, PAGE, &["- 다음 줄", "□ 다음 절"]));
    assert!(pushed(&d).is_empty(), "자리가 없는데 올리라고 했다: {:?}", pushed(&d));
}

#[test]
fn a_block_that_would_empty_the_source_cell_is_silent() {
    let d = paged_doc(
        sized_cell(0, PAGE, &["□ 절", "◦ 앞 항목"]),
        sized_cell(1, PAGE, &["◦ 경쟁 분석", "- 코난테크놀로지", "- 올거나이즈"]),
    );
    assert!(pushed(&d).is_empty(), "출발 칸을 비우는 이동을 권했다");
}

#[test]
fn a_heading_block_that_fits_whole_is_reported() {
    let d = paged_doc(
        sized_cell(0, PAGE, &["□ 절", "◦ 앞 항목"]),
        sized_cell(1, PAGE, &["◦ 경쟁 분석", "- 코난테크놀로지", "- 올거나이즈", "□ 다음 절"]),
    );
    let got = pushed(&d);
    assert_eq!(got.len(), 1, "통째로 들어가는 표제 덩어리를 못 봤다: {got:?}");
    assert!(got[0].contains("3문단"), "{got:?}");
}

#[test]
fn a_heading_block_too_tall_for_the_room_is_silent() {
    let texts: Vec<String> = (0..34).map(|i| format!("- 줄 {i}")).collect();
    let mut above: Vec<&str> = vec!["□ 절"];
    above.extend(texts.iter().map(|s| s.as_str()));
    let d = paged_doc(
        sized_cell(0, PAGE, &above),
        sized_cell(1, PAGE, &["◦ 경쟁 분석", "- 코난테크놀로지", "- 올거나이즈", "□ 다음 절"]),
    );
    assert!(pushed(&d).is_empty(), "자식이 못 들어가는 표제 덩어리를 올리라고 했다");
}

#[test]
fn an_object_with_caption_that_fits_is_reported_as_one_unit() {
    let mut obj = line(" ", 0);
    obj.controls.push(Control::Table(Box::new(Table::default())));
    let below = Cell {
        row: 1,
        col: 0,
        col_span: 3,
        row_span: 1,
        height: PAGE,
        paragraphs: vec![obj, line("[그림] 목표 시장 규모", 1860), line("◦ 확인 방법", 3720)],
        border_fill_id: 1,
        ..Default::default()
    };
    let d = paged_doc(sized_cell(0, PAGE, &["□ 절", "◦ 앞 항목"]), below);
    let got = pushed(&d);
    assert_eq!(got.len(), 1, "개체+캡션 덩어리를 못 봤다: {got:?}");
    assert!(got[0].contains("2문단"), "{got:?}");
}

#[test]
fn a_label_row_that_does_not_break_the_page_is_silent() {
    let d = paged_doc(sized_cell(0, 2_331, &["멘토기관"]), sized_cell(1, 2_331, &["이름"]));
    assert!(pushed(&d).is_empty(), "쪽을 가르지 않는 이음매에 대고 말했다");
}

#[test]
fn a_bare_object_paragraph_is_movable_on_its_own() {
    let mut below = sized_cell(1, PAGE, &["", "□ 다음 절"]);
    below.paragraphs[0].controls.push(Control::Table(Box::new(Table::default())));
    let d = paged_doc(sized_cell(0, PAGE, &["◦ 앞 항목"]), below);
    assert_eq!(pushed(&d).len(), 1, "캡션 없는 개체 문단을 못 봤다");
}
