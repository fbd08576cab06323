//! Help for the office commands: the text, and the part of it that
//! concerns one command.
use vstd::prelude::*;
use crate::text::chars_of;

verus! {

/// The help text of the office commands, line by line: for each command a
/// usage line (two spaces of indent), lines that describe it (six spaces),
/// and a blank line.
pub open spec fn office_help() -> Seq<Seq<char>> {
    seq![
        "  create-hwp --text <텍스트>|--text-file <파일> -o <출력.hwp> [--template <파일.hwp|파일.hwpx>]"@,
        "      새 binary HWP 생성 (빈 HWP 또는 템플릿 기반)"@,
        ""@,
        "  replace-text <파일.hwp> --old <검색어> --new <대체문구> -o <출력.hwp> [--all] [--case-sensitive]"@,
        "      binary HWP 본문/표/글상자 텍스트 치환 후 저장"@,
        ""@,
        "  list-fields <파일.hwp>"@,
        "      HWP 누름틀/셀 필드 목록을 JSON으로 출력"@,
        ""@,
        "  insert-clickhere-field <파일.hwp> --section N --para N [--ctrl N (--cell N|--textbox) [--cell-para N|--textbox-para N] | --cell-path JSON --ctrl N [--textbox-para N]] --offset N --name <필드명> [--guide <안내문>] [--memo <메모>] [--value <초기값>] -o <출력.hwp>"@,
        "      본문/표 셀/글상자 지정 위치에 이름 있는 HWP 누름틀 필드를 생성 후 저장"@,
        ""@,
        "  get-field-info <파일.hwp> --section N --para N [--ctrl N (--cell N|--textbox) [--cell-para N|--textbox-para N]] --offset N"@,
        "      본문/표 셀/글상자 지정 위치의 HWP 누름틀 필드 정보를 JSON으로 출력"@,
        ""@,
        "  remove-field <파일.hwp> --section N --para N [--ctrl N (--cell N|--textbox) [--cell-para N|--textbox-para N]] --offset N -o <출력.hwp>"@,
        "      본문/표 셀/글상자 지정 위치의 HWP 누름틀 필드를 제거하고 텍스트는 유지"@,
        ""@,
        "  set-field <파일.hwp> --name <필드명> --value <값> -o <출력.hwp>"@,
        "      이름이 있는 HWP 필드 값을 설정 후 저장"@,
        ""@,
        "  list-forms <파일.hwp>"@,
        "      HWP 양식 개체 목록을 이름/위치 JSON으로 출력"@,
        ""@,
        "  list-objects <파일.hwp>"@,
        "      본문/표 셀 내부 그림·도형·글상자 객체 목록을 JSON으로 조회"@,
        ""@,
        "  create-form <파일.hwp> --section N --para N [--cell-path <JSON>|--table-ctrl N --row R --col C [--cell-para N]] --offset N --form-type checkbox|radio|edit|button|combo --name <이름> [--caption <캡션>] [--text <텍스트>] [--value N] [--width N] [--height N] -o <출력.hwp>"@,
        "      본문 또는 표 셀/글상자 내부 지정 위치에 HWP 양식 개체를 생성 후 저장"@,
        ""@,
        "  get-form <파일.hwp> --section N --para N [--cell-path <JSON>|--table-ctrl N --row R --col C [--cell-para N]] --ctrl N"@,
        "      HWP 양식 개체 정보를 JSON으로 출력"@,
        ""@,
        "  set-form <파일.hwp> --section N --para N [--cell-path <JSON>|--table-ctrl N --row R --col C [--cell-para N]] --ctrl N --json <값JSON> -o <출력.hwp>"@,
        "      HWP 양식 개체의 value/text/caption 값을 설정 후 저장"@,
        ""@,
        "  delete-form <파일.hwp> --section N --para N [--cell-path <JSON>|--table-ctrl N --row R --col C [--cell-para N]] --ctrl N -o <출력.hwp>"@,
        "      HWP 양식 개체를 삭제 후 저장"@,
        ""@,
        "  extract-structure <파일.hwp>"@,
        "      문단/표/셀 위치를 JSON으로 추출"@,
        ""@,
        "  insert-text <파일.hwp> --section N --para N --offset N --text <텍스트> -o <출력.hwp>"@,
        "      본문 문단의 지정 문자 오프셋에 텍스트를 삽입"@,
        ""@,
        "  delete-text <파일.hwp> --section N --para N --offset N --count N -o <출력.hwp>"@,
        "      본문 문단의 지정 문자 범위를 삭제"@,
        ""@,
        "  set-paragraph <파일.hwp> --section N --para N --text <텍스트> -o <출력.hwp>"@,
        "      지정 문단 텍스트를 직접 교체"@,
        ""@,
        "  insert-paragraph <파일.hwp> --section N --para N [--text <텍스트>] -o <출력.hwp>"@,
        "      지정 위치에 본문 문단을 삽입"@,
        ""@,
        "  copy-paragraph <파일.hwp> --section N --para N [--before|--after] -o <출력.hwp>"@,
        "      지정 본문 문단을 텍스트와 서식까지 복제"@,
        ""@,
        "  copy-paragraph-range <파일.hwp> --section N --start N --end N [--before|--after] [--replace OLD NEW]... -o <출력.hwp>"@,
        "      지정 본문 문단 범위를 같은 순서로 복제"@,
        ""@,
        "  split-paragraph <파일.hwp> --section N --para N --offset N -o <출력.hwp>"@,
        "      본문 문단을 문자 오프셋에서 분할"@,
        ""@,
        "  merge-paragraph <파일.hwp> --section N --para N -o <출력.hwp>"@,
        "      지정 본문 문단을 이전 문단에 병합"@,
        ""@,
        "  delete-paragraph <파일.hwp> --section N --para N -o <출력.hwp>"@,
        "      본문 문단을 삭제"@,
        ""@,
        "  insert-page-break <파일.hwp> --section N --para N --offset N -o <출력.hwp>"@,
        "      지정 위치에 쪽 나누기를 삽입"@,
        ""@,
        "  insert-column-break <파일.hwp> --section N --para N --offset N -o <출력.hwp>"@,
        "      지정 위치에 단 나누기를 삽입"@,
        ""@,
        "  set-column-def <파일.hwp> --section N --count N [--type normal|distribute|parallel] [--spacing HWPUNIT] [--same-width|--variable-width] -o <출력.hwp>"@,
        "      구역 다단 설정을 변경"@,
        ""@,
        "  insert-new-number <파일.hwp> --section N --para N --offset N --start N -o <출력.hwp>"@,
        "      지정 문단 위치부터 쪽 번호를 새 번호로 시작"@,
        ""@,
        "  get-page-hide <파일.hwp> --section N --para N"@,
        "      문단의 쪽 감추기(PageHide) 상태를 JSON으로 조회"@,
        ""@,
        "  set-page-hide <파일.hwp> --section N --para N [--hide-header] [--hide-footer] [--hide-master-page] [--hide-border] [--hide-fill] [--hide-page-num] -o <출력.hwp>"@,
        "      문단의 쪽 감추기(PageHide) 플래그를 설정. 플래그가 없으면 기존 PageHide 제거"@,
        ""@,
        "  list-bookmarks <파일.hwp>"@,
        "      문서 내 책갈피 목록을 JSON으로 조회"@,
        ""@,
        "  add-bookmark <파일.hwp> --section N --para N --offset N --name <이름> -o <출력.hwp>"@,
        "      본문 위치에 책갈피를 추가"@,
        ""@,
        "  rename-bookmark <파일.hwp> --section N --para N --ctrl N --name <새이름> -o <출력.hwp>"@,
        "      책갈피 이름을 변경"@,
        ""@,
        "  delete-bookmark <파일.hwp> --section N --para N --ctrl N -o <출력.hwp>"@,
        "      책갈피 컨트롤을 삭제"@,
        ""@,
        "  create-footnote <파일.hwp> --section N --para N --offset N [--text <텍스트>|--text-file <파일>] -o <출력.hwp>"@,
        "      지정 위치에 각주를 생성하고 선택적으로 내용을 입력"@,
        ""@,
        "  create-endnote <파일.hwp> --section N --para N --offset N [--text <텍스트>|--text-file <파일>] -o <출력.hwp>"@,
        "      지정 위치에 미주를 생성하고 선택적으로 내용을 입력"@,
        ""@,
        "  get-footnote <파일.hwp> --section N --para N --ctrl N"@,
        "      각주/미주 본문 정보를 JSON으로 조회"@,
        ""@,
        "  insert-footnote-text <파일.hwp> --section N --para N --ctrl N --note-para N --offset N --text <텍스트> -o <출력.hwp>"@,
        "      각주/미주 문단에 텍스트를 삽입"@,
        ""@,
        "  delete-footnote-text <파일.hwp> --section N --para N --ctrl N --note-para N --offset N --count N -o <출력.hwp>"@,
        "      각주/미주 문단 텍스트 일부를 삭제"@,
        ""@,
        "  split-footnote-paragraph <파일.hwp> --section N --para N --ctrl N --note-para N --offset N -o <출력.hwp>"@,
        "      각주/미주 문단을 분할"@,
        ""@,
        "  merge-footnote-paragraph <파일.hwp> --section N --para N --ctrl N --note-para N -o <출력.hwp>"@,
        "      각주/미주 문단을 이전 문단과 병합"@,
        ""@,
        "  delete-footnote <파일.hwp> --section N --para N --ctrl N -o <출력.hwp>"@,
        "      본문 각주와 각주 본문을 삭제"@,
        ""@,
        "  create-table <파일.hwp> --section N --para N --offset N --rows N --cols N -o <출력.hwp>"@,
        "      지정 위치에 HWP 표를 생성"@,
        ""@,
        "  copy-table <파일.hwp> --section N --para N --ctrl N [--before|--after] [--replace OLD NEW]... -o <출력.hwp>"@,
        "      표 전체를 내용과 서식까지 복제하여 삽입"@,
        ""@,
        "  delete-table <파일.hwp> --section N --para N --ctrl N -o <출력.hwp>"@,
        "      독립 표 문단과 바로 뒤 빈 문단을 삭제"@,
        ""@,
        "  set-cell-text <파일.hwp> --para N --ctrl N (--cell N|--row N --col N) [--cell-para N] --text <텍스트> -o <출력.hwp>"@,
        "      표 셀 문단 텍스트를 직접 교체"@,
        "      * --cell-path 는 표 안의 표(중첩 표) 셀까지 지정한다: [[표ctrl,셀,셀문단],[안쪽표ctrl,셀,셀문단]]"@,
        ""@,
        "  insert-cell-text <파일.hwp> --para N [--ctrl N (--cell N|--row N --col N) [--cell-para N] | --cell-path <JSON>] --offset N --text <텍스트> -o <출력.hwp>"@,
        "      표 셀 문단의 지정 문자 오프셋에 텍스트를 삽입"@,
        ""@,
        "  delete-cell-text <파일.hwp> --para N [--ctrl N (--cell N|--row N --col N) [--cell-para N] | --cell-path <JSON>] --offset N --count N -o <출력.hwp>"@,
        "      표 셀 문단의 지정 문자 범위를 삭제"@,
        ""@,
        "  insert-cell-paragraph <파일.hwp> --para N --ctrl N (--cell N|--row N --col N) --cell-para N [--text <텍스트>] -o <출력.hwp>"@,
        "      표 셀 내부의 지정 위치에 새 문단을 삽입"@,
        ""@,
        "  delete-cell-paragraph <파일.hwp> --para N --ctrl N (--cell N|--row N --col N) --cell-para N -o <출력.hwp>"@,
        "      표 셀 내부 문단을 삭제"@,
        ""@,
        "  move-cell-paragraphs <파일.hwp> --para N --ctrl N --from-row R --from-col C --start N --end N --to-row R --to-col C [--at N] -o <출력.hwp>"@,
        "  split-cell-paragraph <파일.hwp> --para N [--ctrl N (--cell N|--row N --col N) [--cell-para N] | --cell-path <JSON>] --offset N -o <출력.hwp>"@,
        "      표 셀 내부 문단을 문자 오프셋에서 분할"@,
        ""@,
        "  merge-cell-paragraph <파일.hwp> --para N [--ctrl N (--cell N|--row N --col N) --cell-para N | --cell-path <JSON>] -o <출력.hwp>"@,
        "      표 셀 내부 문단을 이전 셀 문단에 병합"@,
        ""@,
        "  set-cell-field <파일.hwp> --para N --ctrl N (--cell N|--row N --col N) --name <필드명> -o <출력.hwp>"@,
        "      표 셀을 이름 있는 HWP 셀 필드로 지정"@,
        ""@,
        "  clear-cell-field <파일.hwp> --para N --ctrl N (--cell N|--row N --col N) -o <출력.hwp>"@,
        "      표 셀의 HWP 셀 필드 이름을 제거하고 텍스트는 유지"@,
        ""@,
        "  insert-table-row <파일.hwp> --section N --para N --ctrl N --row N [--above|--below] -o <출력.hwp>"@,
        "      표 행을 삽입"@,
        ""@,
        "  copy-table-row <파일.hwp> --section N --para N --ctrl N --row N [--above|--below] [--replace OLD NEW]... -o <출력.hwp>"@,
        "      표 행을 내용과 서식까지 복제하여 삽입"@,
        ""@,
        "  delete-table-row <파일.hwp> --section N --para N --ctrl N --row N -o <출력.hwp>"@,
        "      표 행을 삭제"@,
        ""@,
        "  insert-table-column <파일.hwp> --section N --para N --ctrl N --col N [--left|--right] -o <출력.hwp>"@,
        "      표 열을 삽입"@,
        ""@,
        "  copy-table-column <파일.hwp> --section N --para N --ctrl N --col N [--left|--right] [--replace OLD NEW]... -o <출력.hwp>"@,
        "      표 열을 내용과 서식까지 복제하여 삽입"@,
        ""@,
        "  delete-table-column <파일.hwp> --section N --para N --ctrl N --col N -o <출력.hwp>"@,
        "      표 열을 삭제"@,
        ""@,
        "  merge-table-cells <파일.hwp> --section N --para N --ctrl N --start-row N --start-col N --end-row N --end-col N -o <출력.hwp>"@,
        "      표 셀 범위를 병합"@,
        ""@,
        "  split-table-cell <파일.hwp> --section N --para N --ctrl N --row N --col N -o <출력.hwp>"@,
        "      병합된 표 셀을 분할"@,
        ""@,
        "  get-cell-properties <파일.hwp> --section N --para N --ctrl N --cell N"@,
        "      표 셀 속성을 JSON으로 조회"@,
        ""@,
        "  get-cell-text <파일.hwp> --para N [--ctrl N --cell N | --cell-path <JSON>]"@,
        "      셀 안 문단의 글자 수와 텍스트를 조회 (중첩 표 포함)"@,
        "      * 편집 명령의 --offset/--count 를 눈대중으로 넘기면 옆 문단이 잘린다."@,
        "        먼저 이 명령으로 문단별 실제 길이를 확인할 것"@,
        ""@,
        "  set-cell-properties <파일.hwp> --section N --para N --ctrl N --cell N --json <속성JSON> -o <출력.hwp>"@,
        "      표 셀 폭/높이/패딩/정렬/보호/테두리/채우기 속성을 직접 수정"@,
        ""@,
        "  get-table-properties <파일.hwp> --section N --para N --ctrl N"@,
        "      표 속성을 JSON으로 조회"@,
        ""@,
        "  set-table-properties <파일.hwp> --section N --para N --ctrl N --json <속성JSON> -o <출력.hwp>"@,
        "      표 패딩/반복 머리/배치/테두리/채우기 속성을 직접 수정"@,
        ""@,
        "  resize-table-cells <파일.hwp> --section N --para N [--cell-path <JSON>|--ctrl N] --json <변경배열JSON> -o <출력.hwp>"@,
        "  set-table-column-widths <파일.hwp> --section N --para N --ctrl N --widths w1,w2,... -o <출력.hwp>"@,
        "      여러 표 셀의 폭/높이를 델타 값으로 조절"@,
        ""@,
        "  apply-table-style <파일.hwp> --section N --para N --ctrl N [--head-fill #d9d9d9] [--font-size 1200] [--head-height 2232] [--body-height 2882] -o <출력.hwp>"@,
        "      표에 심사 문서용 「집 서식」을 한 번에 적용 (머리행 음영+이중선, 정렬, 12pt, 행 높이)"@,
        ""@,
        "  get-char-properties <파일.hwp> --section N --para N --offset N"@,
        "      본문 글자 속성을 JSON으로 조회"@,
        ""@,
        "  set-char-format <파일.hwp> --section N --para N --start N --end N --json <서식JSON> -o <출력.hwp>"@,
        "      본문 글자 범위 서식을 직접 수정"@,
        ""@,
        "  get-para-properties <파일.hwp> --section N --para N"@,
        "      본문 문단 속성을 JSON으로 조회"@,
        ""@,
        "  set-para-format <파일.hwp> --section N --para N --json <서식JSON> -o <출력.hwp>"@,
        "      본문 문단 서식을 직접 수정"@,
        ""@,
        "  list-styles <파일.hwp>"@,
        "      문서 스타일 목록을 JSON으로 조회"@,
        ""@,
        "  apply-style <파일.hwp> --section N --para N (--style-id N|--style-name <이름>) -o <출력.hwp>"@,
        "      본문 문단에 문서 스타일을 적용"@,
        ""@,
        "  apply-cell-style <파일.hwp> --section N --para N --ctrl N (--cell N|--row R --col C) [--cell-para N] (--style-id N|--style-name <이름>) -o <출력.hwp>"@,
        "      표 셀 내부 문단에 문서 스타일을 적용"@,
        ""@,
        "  get-cell-char-properties <파일.hwp> --section N --para N --ctrl N (--cell N|--row R --col C) [--cell-para N] --offset N"@,
        "      셀 내부 글자 속성을 JSON으로 조회"@,
        ""@,
        "  set-cell-char-format <파일.hwp> --section N --para N (--ctrl N (--cell N|--row R --col C) [--cell-para N] | --cell-path <JSON>) --start N --end N --json <서식JSON> -o <출력.hwp>"@,
        "      셀 내부 글자 범위 서식을 직접 수정"@,
        ""@,
        "  get-cell-para-properties <파일.hwp> --section N --para N --ctrl N (--cell N|--row R --col C) [--cell-para N]"@,
        "      셀 내부 문단 속성을 JSON으로 조회"@,
        ""@,
        "  set-cell-para-format <파일.hwp> --section N --para N --ctrl N (--cell N|--row R --col C) [--cell-para N] --json <서식JSON> -o <출력.hwp>"@,
        "      셀 내부 문단 서식을 직접 수정"@,
        ""@,
        "  get-page-def <파일.hwp> --section N"@,
        "      용지 크기/여백 설정을 JSON으로 조회"@,
        ""@,
        "  set-page-def <파일.hwp> --section N --json <설정JSON> -o <출력.hwp>"@,
        "      용지 크기/여백 설정을 직접 수정"@,
        ""@,
        "  get-section-def <파일.hwp> --section N"@,
        "      구역 번호/숨김/탭 설정을 JSON으로 조회"@,
        ""@,
        "  set-section-def <파일.hwp> --section N --json <설정JSON> -o <출력.hwp>"@,
        "      구역 번호/숨김/탭 설정을 직접 수정"@,
        ""@,
        "  get-page-border-fill <파일.hwp> --section N"@,
        "      쪽 테두리/배경 설정을 JSON으로 조회"@,
        ""@,
        "  set-page-border-fill <파일.hwp> --section N --json <설정JSON> -o <출력.hwp>"@,
        "      쪽 테두리/배경 설정을 직접 수정"@,
        ""@,
        "  insert-picture <파일.hwp> --section N --para N --offset N --image <이미지> --width N --height N [--cell-path <JSON>|--table-ctrl N --row R --col C [--cell-para N]] -o <출력.hwp>"@,
        "      그림 컨트롤을 삽입"@,
        "      --natural-width/--natural-height 생략 시 이미지 헤더에서 자동 판독"@,
        "      --inline  표 셀 안에 글자처럼(인라인) 삽입 — 셀 높이가 그림에 맞춰 늘어난다."@,
        "                생략하면 한컴 default 인 표 옆 floating 배치 (셀 밖으로 넘칠 수 있음)"@,
        ""@,
        "  get-picture-properties <파일.hwp> --section N --para N [--cell-path <JSON>|--table-ctrl N --row R --col C [--cell-para N]] --ctrl N"@,
        "      본문/표 셀 내부 그림 속성을 JSON으로 조회"@,
        ""@,
        "  set-picture-properties <파일.hwp> --section N --para N [--cell-path <JSON>|--table-ctrl N --row R --col C [--cell-para N]] --ctrl N --json <속성JSON> -o <출력.hwp>"@,
        "      본문/표 셀 내부 그림 크기/위치/효과/자르기/캡션 속성을 직접 수정"@,
        ""@,
        "  delete-picture <파일.hwp> --section N --para N [--cell-path <JSON>|--table-ctrl N --row R --col C [--cell-para N]] --ctrl N -o <출력.hwp>"@,
        "      본문/표 셀 내부 그림 컨트롤 삭제"@,
        ""@,
        "  create-shape <파일.hwp> --section N --para N [--cell-path <JSON>|--table-ctrl N --row R --col C [--cell-para N]] --offset N --width N --height N [--shape-type rectangle|textbox|line|ellipse|polygon|arc] -o <출력.hwp>"@,
        "      본문/표 셀 내부 도형·글상자 컨트롤을 삽입"@,
        ""@,
        "  set-cell-shape-text <파일.hwp> --section N --para N [--cell-path <JSON>|--table-ctrl N --row R --col C [--cell-para N]] --ctrl N [--textbox-para N] --text <텍스트> -o <출력.hwp>"@,
        "      표 셀 내부 글상자 텍스트를 직접 수정"@,
        ""@,
        "  set-cell-shape-char-format <파일.hwp> --section N --para N [--cell-path <JSON>|--table-ctrl N --row R --col C [--cell-para N]] --ctrl N --textbox-para N --start N --end N --json <서식JSON> -o <출력.hwp>"@,
        "      표 셀 내부 글상자 문자 범위 서식을 직접 수정"@,
        ""@,
        "  set-cell-shape-para-format <파일.hwp> --section N --para N [--cell-path <JSON>|--table-ctrl N --row R --col C [--cell-para N]] --ctrl N --textbox-para N --json <서식JSON> -o <출력.hwp>"@,
        "      표 셀 내부 글상자 문단 서식을 직접 수정"@,
        ""@,
        "  get-shape-properties <파일.hwp> --section N --para N --ctrl N"@,
        "      도형 속성을 JSON으로 조회"@,
        ""@,
        "  set-shape-properties <파일.hwp> --section N --para N --ctrl N --json <속성JSON> -o <출력.hwp>"@,
        "      도형 크기/위치/선/채우기/글상자 속성을 직접 수정"@,
        ""@,
        "  delete-shape <파일.hwp> --section N --para N --ctrl N -o <출력.hwp>"@,
        "      도형 컨트롤 삭제"@,
        ""@,
        "  change-shape-z-order <파일.hwp> --section N --para N --ctrl N --operation front|back|forward|backward -o <출력.hwp>"@,
        "      도형의 앞/뒤 배치 순서를 변경"@,
        ""@,
        "  group-shapes <파일.hwp> --section N --targets <대상JSON> -o <출력.hwp>"@,
        "      여러 그림/도형을 하나의 그룹으로 묶기"@,
        ""@,
        "  ungroup-shape <파일.hwp> --section N --para N --ctrl N -o <출력.hwp>"@,
        "      그룹 도형을 한 단계 풀기"@,
        ""@,
        "  get-header-footer <파일.hwp> --section N --kind header|footer --apply-to both|even|odd"@,
        "      머리말/꼬리말 내용과 위치를 JSON으로 조회"@,
        ""@,
        "  list-header-footer <파일.hwp> [--section N --kind header|footer --apply-to both|even|odd]"@,
        "      문서의 머리말/꼬리말 목록을 JSON으로 조회"@,
        ""@,
        "  create-header-footer <파일.hwp> --section N --kind header|footer --apply-to both|even|odd -o <출력.hwp>"@,
        "      빈 머리말/꼬리말을 생성"@,
        ""@,
        "  delete-header-footer <파일.hwp> --section N --kind header|footer --apply-to both|even|odd -o <출력.hwp>"@,
        "      머리말/꼬리말 컨트롤 삭제"@,
        ""@,
        "  insert-header-footer-text <파일.hwp> --section N --kind header|footer --apply-to both|even|odd --hf-para N --offset N --text <텍스트> -o <출력.hwp>"@,
        "      머리말/꼬리말 문단에 텍스트를 삽입"@,
        ""@,
        "  delete-header-footer-text <파일.hwp> --section N --kind header|footer --apply-to both|even|odd --hf-para N --offset N --count N -o <출력.hwp>"@,
        "      머리말/꼬리말 문단에서 텍스트를 삭제"@,
        ""@,
        "  split-header-footer-paragraph <파일.hwp> --section N --kind header|footer --apply-to both|even|odd --hf-para N --offset N -o <출력.hwp>"@,
        "      머리말/꼬리말 문단을 분할"@,
        ""@,
        "  merge-header-footer-paragraph <파일.hwp> --section N --kind header|footer --apply-to both|even|odd --hf-para N -o <출력.hwp>"@,
        "      머리말/꼬리말 문단을 이전 문단과 병합"@,
        ""@,
        "  get-header-footer-para-properties <파일.hwp> --section N --kind header|footer --apply-to both|even|odd --hf-para N"@,
        "      머리말/꼬리말 문단 서식을 JSON으로 조회"@,
        ""@,
        "  set-header-footer-para-format <파일.hwp> --section N --kind header|footer --apply-to both|even|odd --hf-para N --json <서식JSON> -o <출력.hwp>"@,
        "      머리말/꼬리말 문단 서식을 직접 수정"@,
        ""@,
        "  insert-header-footer-field <파일.hwp> --section N --kind header|footer --apply-to both|even|odd --hf-para N --offset N --field page-number|total-pages|filename -o <출력.hwp>"@,
        "      머리말/꼬리말에 쪽번호/총쪽수/파일명 필드를 삽입"@,
        ""@,
        "  apply-header-footer-template <파일.hwp> --section N --kind header|footer --apply-to both|even|odd --template N -o <출력.hwp>"@,
        "      기본 머리말/꼬리말 템플릿(0~10)을 적용"@,
        ""@,
        "  list-master-pages <파일.hwp> --section N"@,
        "      바탕쪽 목록과 텍스트를 JSON으로 조회"@,
        ""@,
        "  create-master-page <파일.hwp> --section N --apply-to both|even|odd [--text <텍스트>] [--extension] [--overlap] -o <출력.hwp>"@,
        "      바탕쪽을 생성"@,
        ""@,
        "  set-master-page-text <파일.hwp> --section N --master N --para N --text <텍스트> -o <출력.hwp>"@,
        "      바탕쪽 문단 텍스트를 수정"@,
        ""@,
        "  delete-master-page <파일.hwp> --section N --master N -o <출력.hwp>"@,
        "      바탕쪽을 삭제"@,
        ""@,
    ]
}

/// The help text of the office commands (`office_help`).
pub fn office_help_lines() -> (v: Vec<&'static str>)
    ensures
        lines_view(v@) == office_help(),
{
    let v: Vec<&'static str> = vec![
        "  create-hwp --text <텍스트>|--text-file <파일> -o <출력.hwp> [--template <파일.hwp|파일.hwpx>]",
        "      새 binary HWP 생성 (빈 HWP 또는 템플릿 기반)",
        "",
        "  replace-text <파일.hwp> --old <검색어> --new <대체문구> -o <출력.hwp> [--all] [--case-sensitive]",
        "      binary HWP 본문/표/글상자 텍스트 치환 후 저장",
        "",
        "  list-fields <파일.hwp>",
        "      HWP 누름틀/셀 필드 목록을 JSON으로 출력",
        "",
        "  insert-clickhere-field <파일.hwp> --section N --para N [--ctrl N (--cell N|--textbox) [--cell-para N|--textbox-para N] | --cell-path JSON --ctrl N [--textbox-para N]] --offset N --name <필드명> [--guide <안내문>] [--memo <메모>] [--value <초기값>] -o <출력.hwp>",
        "      본문/표 셀/글상자 지정 위치에 이름 있는 HWP 누름틀 필드를 생성 후 저장",
        "",
        "  get-field-info <파일.hwp> --section N --para N [--ctrl N (--cell N|--textbox) [--cell-para N|--textbox-para N]] --offset N",
        "      본문/표 셀/글상자 지정 위치의 HWP 누름틀 필드 정보를 JSON으로 출력",
        "",
        "  remove-field <파일.hwp> --section N --para N [--ctrl N (--cell N|--textbox) [--cell-para N|--textbox-para N]] --offset N -o <출력.hwp>",
        "      본문/표 셀/글상자 지정 위치의 HWP 누름틀 필드를 제거하고 텍스트는 유지",
        "",
        "  set-field <파일.hwp> --name <필드명> --value <값> -o <출력.hwp>",
        "      이름이 있는 HWP 필드 값을 설정 후 저장",
        "",
        "  list-forms <파일.hwp>",
        "      HWP 양식 개체 목록을 이름/위치 JSON으로 출력",
        "",
        "  list-objects <파일.hwp>",
        "      본문/표 셀 내부 그림·도형·글상자 객체 목록을 JSON으로 조회",
        "",
        "  create-form <파일.hwp> --section N --para N [--cell-path <JSON>|--table-ctrl N --row R --col C [--cell-para N]] --offset N --form-type checkbox|radio|edit|button|combo --name <이름> [--caption <캡션>] [--text <텍스트>] [--value N] [--width N] [--height N] -o <출력.hwp>",
        "      본문 또는 표 셀/글상자 내부 지정 위치에 HWP 양식 개체를 생성 후 저장",
        "",
        "  get-form <파일.hwp> --section N --para N [--cell-path <JSON>|--table-ctrl N --row R --col C [--cell-para N]] --ctrl N",
        "      HWP 양식 개체 정보를 JSON으로 출력",
        "",
        "  set-form <파일.hwp> --section N --para N [--cell-path <JSON>|--table-ctrl N --row R --col C [--cell-para N]] --ctrl N --json <값JSON> -o <출력.hwp>",
        "      HWP 양식 개체의 value/text/caption 값을 설정 후 저장",
        "",
        "  delete-form <파일.hwp> --section N --para N [--cell-path <JSON>|--table-ctrl N --row R --col C [--cell-para N]] --ctrl N -o <출력.hwp>",
        "      HWP 양식 개체를 삭제 후 저장",
        "",
        "  extract-structure <파일.hwp>",
        "      문단/표/셀 위치를 JSON으로 추출",
        "",
        "  insert-text <파일.hwp> --section N --para N --offset N --text <텍스트> -o <출력.hwp>",
        "      본문 문단의 지정 문자 오프셋에 텍스트를 삽입",
        "",
        "  delete-text <파일.hwp> --section N --para N --offset N --count N -o <출력.hwp>",
        "      본문 문단의 지정 문자 범위를 삭제",
        "",
        "  set-paragraph <파일.hwp> --section N --para N --text <텍스트> -o <출력.hwp>",
        "      지정 문단 텍스트를 직접 교체",
        "",
        "  insert-paragraph <파일.hwp> --section N --para N [--text <텍스트>] -o <출력.hwp>",
        "      지정 위치에 본문 문단을 삽입",
        "",
        "  copy-paragraph <파일.hwp> --section N --para N [--before|--after] -o <출력.hwp>",
        "      지정 본문 문단을 텍스트와 서식까지 복제",
        "",
        "  copy-paragraph-range <파일.hwp> --section N --start N --end N [--before|--after] [--replace OLD NEW]... -o <출력.hwp>",
        "      지정 본문 문단 범위를 같은 순서로 복제",
        "",
        "  split-paragraph <파일.hwp> --section N --para N --offset N -o <출력.hwp>",
        "      본문 문단을 문자 오프셋에서 분할",
        "",
        "  merge-paragraph <파일.hwp> --section N --para N -o <출력.hwp>",
        "      지정 본문 문단을 이전 문단에 병합",
        "",
        "  delete-paragraph <파일.hwp> --section N --para N -o <출력.hwp>",
        "      본문 문단을 삭제",
        "",
        "  insert-page-break <파일.hwp> --section N --para N --offset N -o <출력.hwp>",
        "      지정 위치에 쪽 나누기를 삽입",
        "",
        "  insert-column-break <파일.hwp> --section N --para N --offset N -o <출력.hwp>",
        "      지정 위치에 단 나누기를 삽입",
        "",
        "  set-column-def <파일.hwp> --section N --count N [--type normal|distribute|parallel] [--spacing HWPUNIT] [--same-width|--variable-width] -o <출력.hwp>",
        "      구역 다단 설정을 변경",
        "",
        "  insert-new-number <파일.hwp> --section N --para N --offset N --start N -o <출력.hwp>",
        "      지정 문단 위치부터 쪽 번호를 새 번호로 시작",
        "",
        "  get-page-hide <파일.hwp> --section N --para N",
        "      문단의 쪽 감추기(PageHide) 상태를 JSON으로 조회",
        "",
        "  set-page-hide <파일.hwp> --section N --para N [--hide-header] [--hide-footer] [--hide-master-page] [--hide-border] [--hide-fill] [--hide-page-num] -o <출력.hwp>",
        "      문단의 쪽 감추기(PageHide) 플래그를 설정. 플래그가 없으면 기존 PageHide 제거",
        "",
        "  list-bookmarks <파일.hwp>",
        "      문서 내 책갈피 목록을 JSON으로 조회",
        "",
        "  add-bookmark <파일.hwp> --section N --para N --offset N --name <이름> -o <출력.hwp>",
        "      본문 위치에 책갈피를 추가",
        "",
        "  rename-bookmark <파일.hwp> --section N --para N --ctrl N --name <새이름> -o <출력.hwp>",
        "      책갈피 이름을 변경",
        "",
        "  delete-bookmark <파일.hwp> --section N --para N --ctrl N -o <출력.hwp>",
        "      책갈피 컨트롤을 삭제",
        "",
        "  create-footnote <파일.hwp> --section N --para N --offset N [--text <텍스트>|--text-file <파일>] -o <출력.hwp>",
        "      지정 위치에 각주를 생성하고 선택적으로 내용을 입력",
        "",
        "  create-endnote <파일.hwp> --section N --para N --offset N [--text <텍스트>|--text-file <파일>] -o <출력.hwp>",
        "      지정 위치에 미주를 생성하고 선택적으로 내용을 입력",
        "",
        "  get-footnote <파일.hwp> --section N --para N --ctrl N",
        "      각주/미주 본문 정보를 JSON으로 조회",
        "",
        "  insert-footnote-text <파일.hwp> --section N --para N --ctrl N --note-para N --offset N --text <텍스트> -o <출력.hwp>",
        "      각주/미주 문단에 텍스트를 삽입",
        "",
        "  delete-footnote-text <파일.hwp> --section N --para N --ctrl N --note-para N --offset N --count N -o <출력.hwp>",
        "      각주/미주 문단 텍스트 일부를 삭제",
        "",
        "  split-footnote-paragraph <파일.hwp> --section N --para N --ctrl N --note-para N --offset N -o <출력.hwp>",
        "      각주/미주 문단을 분할",
        "",
        "  merge-footnote-paragraph <파일.hwp> --section N --para N --ctrl N --note-para N -o <출력.hwp>",
        "      각주/미주 문단을 이전 문단과 병합",
        "",
        "  delete-footnote <파일.hwp> --section N --para N --ctrl N -o <출력.hwp>",
        "      본문 각주와 각주 본문을 삭제",
        "",
        "  create-table <파일.hwp> --section N --para N --offset N --rows N --cols N -o <출력.hwp>",
        "      지정 위치에 HWP 표를 생성",
        "",
        "  copy-table <파일.hwp> --section N --para N --ctrl N [--before|--after] [--replace OLD NEW]... -o <출력.hwp>",
        "      표 전체를 내용과 서식까지 복제하여 삽입",
        "",
        "  delete-table <파일.hwp> --section N --para N --ctrl N -o <출력.hwp>",
        "      독립 표 문단과 바로 뒤 빈 문단을 삭제",
        "",
        "  set-cell-text <파일.hwp> --para N --ctrl N (--cell N|--row N --col N) [--cell-para N] --text <텍스트> -o <출력.hwp>",
        "      표 셀 문단 텍스트를 직접 교체",
        "      * --cell-path 는 표 안의 표(중첩 표) 셀까지 지정한다: [[표ctrl,셀,셀문단],[안쪽표ctrl,셀,셀문단]]",
        "",
        "  insert-cell-text <파일.hwp> --para N [--ctrl N (--cell N|--row N --col N) [--cell-para N] | --cell-path <JSON>] --offset N --text <텍스트> -o <출력.hwp>",
        "      표 셀 문단의 지정 문자 오프셋에 텍스트를 삽입",
        "",
        "  delete-cell-text <파일.hwp> --para N [--ctrl N (--cell N|--row N --col N) [--cell-para N] | --cell-path <JSON>] --offset N --count N -o <출력.hwp>",
        "      표 셀 문단의 지정 문자 범위를 삭제",
        "",
        "  insert-cell-paragraph <파일.hwp> --para N --ctrl N (--cell N|--row N --col N) --cell-para N [--text <텍스트>] -o <출력.hwp>",
        "      표 셀 내부의 지정 위치에 새 문단을 삽입",
        "",
        "  delete-cell-paragraph <파일.hwp> --para N --ctrl N (--cell N|--row N --col N) --cell-para N -o <출력.hwp>",
        "      표 셀 내부 문단을 삭제",
        "",
        "  move-cell-paragraphs <파일.hwp> --para N --ctrl N --from-row R --from-col C --start N --end N --to-row R --to-col C [--at N] -o <출력.hwp>",
        "  split-cell-paragraph <파일.hwp> --para N [--ctrl N (--cell N|--row N --col N) [--cell-para N] | --cell-path <JSON>] --offset N -o <출력.hwp>",
        "      표 셀 내부 문단을 문자 오프셋에서 분할",
        "",
        "  merge-cell-paragraph <파일.hwp> --para N [--ctrl N (--cell N|--row N --col N) --cell-para N | --cell-path <JSON>] -o <출력.hwp>",
        "      표 셀 내부 문단을 이전 셀 문단에 병합",
        "",
        "  set-cell-field <파일.hwp> --para N --ctrl N (--cell N|--row N --col N) --name <필드명> -o <출력.hwp>",
        "      표 셀을 이름 있는 HWP 셀 필드로 지정",
        "",
        "  clear-cell-field <파일.hwp> --para N --ctrl N (--cell N|--row N --col N) -o <출력.hwp>",
        "      표 셀의 HWP 셀 필드 이름을 제거하고 텍스트는 유지",
        "",
        "  insert-table-row <파일.hwp> --section N --para N --ctrl N --row N [--above|--below] -o <출력.hwp>",
        "      표 행을 삽입",
        "",
        "  copy-table-row <파일.hwp> --section N --para N --ctrl N --row N [--above|--below] [--replace OLD NEW]... -o <출력.hwp>",
        "      표 행을 내용과 서식까지 복제하여 삽입",
        "",
        "  delete-table-row <파일.hwp> --section N --para N --ctrl N --row N -o <출력.hwp>",
        "      표 행을 삭제",
        "",
        "  insert-table-column <파일.hwp> --section N --para N --ctrl N --col N [--left|--right] -o <출력.hwp>",
        "      표 열을 삽입",
        "",
        "  copy-table-column <파일.hwp> --section N --para N --ctrl N --col N [--left|--right] [--replace OLD NEW]... -o <출력.hwp>",
        "      표 열을 내용과 서식까지 복제하여 삽입",
        "",
        "  delete-table-column <파일.hwp> --section N --para N --ctrl N --col N -o <출력.hwp>",
        "      표 열을 삭제",
        "",
        "  merge-table-cells <파일.hwp> --section N --para N --ctrl N --start-row N --start-col N --end-row N --end-col N -o <출력.hwp>",
        "      표 셀 범위를 병합",
        "",
        "  split-table-cell <파일.hwp> --section N --para N --ctrl N --row N --col N -o <출력.hwp>",
        "      병합된 표 셀을 분할",
        "",
        "  get-cell-properties <파일.hwp> --section N --para N --ctrl N --cell N",
        "      표 셀 속성을 JSON으로 조회",
        "",
        "  get-cell-text <파일.hwp> --para N [--ctrl N --cell N | --cell-path <JSON>]",
        "      셀 안 문단의 글자 수와 텍스트를 조회 (중첩 표 포함)",
        "      * 편집 명령의 --offset/--count 를 눈대중으로 넘기면 옆 문단이 잘린다.",
        "        먼저 이 명령으로 문단별 실제 길이를 확인할 것",
        "",
        "  set-cell-properties <파일.hwp> --section N --para N --ctrl N --cell N --json <속성JSON> -o <출력.hwp>",
        "      표 셀 폭/높이/패딩/정렬/보호/테두리/채우기 속성을 직접 수정",
        "",
        "  get-table-properties <파일.hwp> --section N --para N --ctrl N",
        "      표 속성을 JSON으로 조회",
        "",
        "  set-table-properties <파일.hwp> --section N --para N --ctrl N --json <속성JSON> -o <출력.hwp>",
        "      표 패딩/반복 머리/배치/테두리/채우기 속성을 직접 수정",
        "",
        "  resize-table-cells <파일.hwp> --section N --para N [--cell-path <JSON>|--ctrl N] --json <변경배열JSON> -o <출력.hwp>",
        "  set-table-column-widths <파일.hwp> --section N --para N --ctrl N --widths w1,w2,... -o <출력.hwp>",
        "      여러 표 셀의 폭/높이를 델타 값으로 조절",
        "",
        "  apply-table-style <파일.hwp> --section N --para N --ctrl N [--head-fill #d9d9d9] [--font-size 1200] [--head-height 2232] [--body-height 2882] -o <출력.hwp>",
        "      표에 심사 문서용 「집 서식」을 한 번에 적용 (머리행 음영+이중선, 정렬, 12pt, 행 높이)",
        "",
        "  get-char-properties <파일.hwp> --section N --para N --offset N",
        "      본문 글자 속성을 JSON으로 조회",
        "",
        "  set-char-format <파일.hwp> --section N --para N --start N --end N --json <서식JSON> -o <출력.hwp>",
        "      본문 글자 범위 서식을 직접 수정",
        "",
        "  get-para-properties <파일.hwp> --section N --para N",
        "      본문 문단 속성을 JSON으로 조회",
        "",
        "  set-para-format <파일.hwp> --section N --para N --json <서식JSON> -o <출력.hwp>",
        "      본문 문단 서식을 직접 수정",
        "",
        "  list-styles <파일.hwp>",
        "      문서 스타일 목록을 JSON으로 조회",
        "",
        "  apply-style <파일.hwp> --section N --para N (--style-id N|--style-name <이름>) -o <출력.hwp>",
        "      본문 문단에 문서 스타일을 적용",
        "",
        "  apply-cell-style <파일.hwp> --section N --para N --ctrl N (--cell N|--row R --col C) [--cell-para N] (--style-id N|--style-name <이름>) -o <출력.hwp>",
        "      표 셀 내부 문단에 문서 스타일을 적용",
        "",
        "  get-cell-char-properties <파일.hwp> --section N --para N --ctrl N (--cell N|--row R --col C) [--cell-para N] --offset N",
        "      셀 내부 글자 속성을 JSON으로 조회",
        "",
        "  set-cell-char-format <파일.hwp> --section N --para N (--ctrl N (--cell N|--row R --col C) [--cell-para N] | --cell-path <JSON>) --start N --end N --json <서식JSON> -o <출력.hwp>",
        "      셀 내부 글자 범위 서식을 직접 수정",
        "",
        "  get-cell-para-properties <파일.hwp> --section N --para N --ctrl N (--cell N|--row R --col C) [--cell-para N]",
        "      셀 내부 문단 속성을 JSON으로 조회",
        "",
        "  set-cell-para-format <파일.hwp> --section N --para N --ctrl N (--cell N|--row R --col C) [--cell-para N] --json <서식JSON> -o <출력.hwp>",
        "      셀 내부 문단 서식을 직접 수정",
        "",
        "  get-page-def <파일.hwp> --section N",
        "      용지 크기/여백 설정을 JSON으로 조회",
        "",
        "  set-page-def <파일.hwp> --section N --json <설정JSON> -o <출력.hwp>",
        "      용지 크기/여백 설정을 직접 수정",
        "",
        "  get-section-def <파일.hwp> --section N",
        "      구역 번호/숨김/탭 설정을 JSON으로 조회",
        "",
        "  set-section-def <파일.hwp> --section N --json <설정JSON> -o <출력.hwp>",
        "      구역 번호/숨김/탭 설정을 직접 수정",
        "",
        "  get-page-border-fill <파일.hwp> --section N",
        "      쪽 테두리/배경 설정을 JSON으로 조회",
        "",
        "  set-page-border-fill <파일.hwp> --section N --json <설정JSON> -o <출력.hwp>",
        "      쪽 테두리/배경 설정을 직접 수정",
        "",
        "  insert-picture <파일.hwp> --section N --para N --offset N --image <이미지> --width N --height N [--cell-path <JSON>|--table-ctrl N --row R --col C [--cell-para N]] -o <출력.hwp>",
        "      그림 컨트롤을 삽입",
        "      --natural-width/--natural-height 생략 시 이미지 헤더에서 자동 판독",
        "      --inline  표 셀 안에 글자처럼(인라인) 삽입 — 셀 높이가 그림에 맞춰 늘어난다.",
        "                생략하면 한컴 default 인 표 옆 floating 배치 (셀 밖으로 넘칠 수 있음)",
        "",
        "  get-picture-properties <파일.hwp> --section N --para N [--cell-path <JSON>|--table-ctrl N --row R --col C [--cell-para N]] --ctrl N",
        "      본문/표 셀 내부 그림 속성을 JSON으로 조회",
        "",
        "  set-picture-properties <파일.hwp> --section N --para N [--cell-path <JSON>|--table-ctrl N --row R --col C [--cell-para N]] --ctrl N --json <속성JSON> -o <출력.hwp>",
        "      본문/표 셀 내부 그림 크기/위치/효과/자르기/캡션 속성을 직접 수정",
        "",
        "  delete-picture <파일.hwp> --section N --para N [--cell-path <JSON>|--table-ctrl N --row R --col C [--cell-para N]] --ctrl N -o <출력.hwp>",
        "      본문/표 셀 내부 그림 컨트롤 삭제",
        "",
        "  create-shape <파일.hwp> --section N --para N [--cell-path <JSON>|--table-ctrl N --row R --col C [--cell-para N]] --offset N --width N --height N [--shape-type rectangle|textbox|line|ellipse|polygon|arc] -o <출력.hwp>",
        "      본문/표 셀 내부 도형·글상자 컨트롤을 삽입",
        "",
        "  set-cell-shape-text <파일.hwp> --section N --para N [--cell-path <JSON>|--table-ctrl N --row R --col C [--cell-para N]] --ctrl N [--textbox-para N] --text <텍스트> -o <출력.hwp>",
        "      표 셀 내부 글상자 텍스트를 직접 수정",
        "",
        "  set-cell-shape-char-format <파일.hwp> --section N --para N [--cell-path <JSON>|--table-ctrl N --row R --col C [--cell-para N]] --ctrl N --textbox-para N --start N --end N --json <서식JSON> -o <출력.hwp>",
        "      표 셀 내부 글상자 문자 범위 서식을 직접 수정",
        "",
        "  set-cell-shape-para-format <파일.hwp> --section N --para N [--cell-path <JSON>|--table-ctrl N --row R --col C [--cell-para N]] --ctrl N --textbox-para N --json <서식JSON> -o <출력.hwp>",
        "      표 셀 내부 글상자 문단 서식을 직접 수정",
        "",
        "  get-shape-properties <파일.hwp> --section N --para N --ctrl N",
        "      도형 속성을 JSON으로 조회",
        "",
        "  set-shape-properties <파일.hwp> --section N --para N --ctrl N --json <속성JSON> -o <출력.hwp>",
        "      도형 크기/위치/선/채우기/글상자 속성을 직접 수정",
        "",
        "  delete-shape <파일.hwp> --section N --para N --ctrl N -o <출력.hwp>",
        "      도형 컨트롤 삭제",
        "",
        "  change-shape-z-order <파일.hwp> --section N --para N --ctrl N --operation front|back|forward|backward -o <출력.hwp>",
        "      도형의 앞/뒤 배치 순서를 변경",
        "",
        "  group-shapes <파일.hwp> --section N --targets <대상JSON> -o <출력.hwp>",
        "      여러 그림/도형을 하나의 그룹으로 묶기",
        "",
        "  ungroup-shape <파일.hwp> --section N --para N --ctrl N -o <출력.hwp>",
        "      그룹 도형을 한 단계 풀기",
        "",
        "  get-header-footer <파일.hwp> --section N --kind header|footer --apply-to both|even|odd",
        "      머리말/꼬리말 내용과 위치를 JSON으로 조회",
        "",
        "  list-header-footer <파일.hwp> [--section N --kind header|footer --apply-to both|even|odd]",
        "      문서의 머리말/꼬리말 목록을 JSON으로 조회",
        "",
        "  create-header-footer <파일.hwp> --section N --kind header|footer --apply-to both|even|odd -o <출력.hwp>",
        "      빈 머리말/꼬리말을 생성",
        "",
        "  delete-header-footer <파일.hwp> --section N --kind header|footer --apply-to both|even|odd -o <출력.hwp>",
        "      머리말/꼬리말 컨트롤 삭제",
        "",
        "  insert-header-footer-text <파일.hwp> --section N --kind header|footer --apply-to both|even|odd --hf-para N --offset N --text <텍스트> -o <출력.hwp>",
        "      머리말/꼬리말 문단에 텍스트를 삽입",
        "",
        "  delete-header-footer-text <파일.hwp> --section N --kind header|footer --apply-to both|even|odd --hf-para N --offset N --count N -o <출력.hwp>",
        "      머리말/꼬리말 문단에서 텍스트를 삭제",
        "",
        "  split-header-footer-paragraph <파일.hwp> --section N --kind header|footer --apply-to both|even|odd --hf-para N --offset N -o <출력.hwp>",
        "      머리말/꼬리말 문단을 분할",
        "",
        "  merge-header-footer-paragraph <파일.hwp> --section N --kind header|footer --apply-to both|even|odd --hf-para N -o <출력.hwp>",
        "      머리말/꼬리말 문단을 이전 문단과 병합",
        "",
        "  get-header-footer-para-properties <파일.hwp> --section N --kind header|footer --apply-to both|even|odd --hf-para N",
        "      머리말/꼬리말 문단 서식을 JSON으로 조회",
        "",
        "  set-header-footer-para-format <파일.hwp> --section N --kind header|footer --apply-to both|even|odd --hf-para N --json <서식JSON> -o <출력.hwp>",
        "      머리말/꼬리말 문단 서식을 직접 수정",
        "",
        "  insert-header-footer-field <파일.hwp> --section N --kind header|footer --apply-to both|even|odd --hf-para N --offset N --field page-number|total-pages|filename -o <출력.hwp>",
        "      머리말/꼬리말에 쪽번호/총쪽수/파일명 필드를 삽입",
        "",
        "  apply-header-footer-template <파일.hwp> --section N --kind header|footer --apply-to both|even|odd --template N -o <출력.hwp>",
        "      기본 머리말/꼬리말 템플릿(0~10)을 적용",
        "",
        "  list-master-pages <파일.hwp> --section N",
        "      바탕쪽 목록과 텍스트를 JSON으로 조회",
        "",
        "  create-master-page <파일.hwp> --section N --apply-to both|even|odd [--text <텍스트>] [--extension] [--overlap] -o <출력.hwp>",
        "      바탕쪽을 생성",
        "",
        "  set-master-page-text <파일.hwp> --section N --master N --para N --text <텍스트> -o <출력.hwp>",
        "      바탕쪽 문단 텍스트를 수정",
        "",
        "  delete-master-page <파일.hwp> --section N --master N -o <출력.hwp>",
        "      바탕쪽을 삭제",
        "",
    ];
    assert(lines_view(v@) =~= office_help());
    v
}

/// The line is the usage line of `cmd`: two spaces, the command's name,
/// then a space or the end of the line.
pub open spec fn usage_of(line: Seq<char>, cmd: Seq<char>) -> bool {
    let n = cmd.len();
    &&& n > 0
    &&& line.len() >= 2 + n
    &&& line[0] == ' ' && line[1] == ' '
    &&& line.subrange(2, 2 + n as int) == cmd
    &&& (line.len() == 2 + n || line[2 + n as int] == ' ')
}

/// The first usage line of `cmd` from `j` on.
pub open spec fn usage_line(lines: Seq<Seq<char>>, cmd: Seq<char>, j: nat) -> Option<nat>
    decreases lines.len() - j,
{
    if j >= lines.len() {
        None
    } else if usage_of(lines[j as int], cmd) {
        Some(j)
    } else {
        usage_line(lines, cmd, j + 1)
    }
}

/// Where the block of non-blank lines holding line `i` starts.
pub open spec fn block_begin(lines: Seq<Seq<char>>, i: nat) -> nat
    decreases i,
{
    if i == 0 || lines[i - 1].len() == 0 {
        i
    } else {
        block_begin(lines, (i - 1) as nat)
    }
}

/// Where the block of non-blank lines from `i` on ends.
pub open spec fn block_end(lines: Seq<Seq<char>>, i: nat) -> nat
    decreases lines.len() - i,
{
    if i >= lines.len() || lines[i as int].len() == 0 {
        i
    } else {
        block_end(lines, i + 1)
    }
}

/// The help of one command: the block of lines around its usage line
/// (empty when no usage line names it).
pub open spec fn scoped(lines: Seq<Seq<char>>, cmd: Seq<char>) -> Seq<Seq<char>> {
    match usage_line(lines, cmd, 0) {
        Some(i) => lines.subrange(block_begin(lines, i) as int, block_end(lines, i) as int),
        None => Seq::empty(),
    }
}

pub open spec fn lines_view(v: Seq<&str>) -> Seq<Seq<char>> {
    v.map_values(|l: &str| l@)
}

proof fn lemma_block_bounds(lines: Seq<Seq<char>>, i: nat)
    requires
        i <= lines.len(),
    ensures
        block_begin(lines, i) <= i,
        i <= block_end(lines, i) <= lines.len(),
{
    lemma_begin(lines, i);
    lemma_end(lines, i);
}

proof fn lemma_begin(lines: Seq<Seq<char>>, i: nat)
    ensures
        block_begin(lines, i) <= i,
    decreases i,
{
    if i > 0 && lines[i - 1].len() != 0 {
        lemma_begin(lines, (i - 1) as nat);
    }
}

proof fn lemma_end(lines: Seq<Seq<char>>, i: nat)
    requires
        i <= lines.len(),
    ensures
        i <= block_end(lines, i) <= lines.len(),
    decreases lines.len() - i,
{
    if i < lines.len() && lines[i as int].len() != 0 {
        lemma_end(lines, i + 1);
    }
}

fn is_usage_of(line: &str, cmd: &Vec<char>) -> (b: bool)
    ensures
        b == usage_of(line@, cmd@),
{
    let l = chars_of(line);
    let n = cmd.len();
    if n == 0 || l.len() < 2 || l.len() - 2 < n || l[0] != ' ' || l[1] != ' ' {
        return false;
    }
    let ll = l.len();
    let mut k: usize = 0;
    while k < n
        invariant
            ll == l@.len(),
            n == cmd@.len(),
            l@ == line@,
            l@.len() >= 2 + n,
            k <= n,
            forall|m: int| 0 <= m < k ==> #[trigger] l@[2 + m] == cmd@[m],
        decreases n - k,
    {
        if l[2 + k] != cmd[k] {
            assert(l@.subrange(2, 2 + n as int)[k as int] != cmd@[k as int]);
            return false;
        }
        k = k + 1;
    }
    assert forall|m: int| 0 <= m < n implies #[trigger] l@.subrange(2, 2 + n as int)[m] == cmd@[m] by {
        assert(l@.subrange(2, 2 + n as int)[m] == l@[2 + m]);
    }
    assert(l@.subrange(2, 2 + n as int) =~= cmd@);
    l.len() == 2 + n || l[2 + n] == ' '
}

/// The help of one command among the given lines: the block of lines
/// around its usage line, or nothing when no usage line names it.
pub fn scoped_help(lines: &Vec<&str>, command: &str) -> (r: Vec<String>)
    ensures
        r@.map_values(|s: String| s@) == scoped(lines_view(lines@), command@),
{
    let ghost lv = lines_view(lines@);
    let cmd = chars_of(command);
    let n = lines.len();
    let mut i: usize = 0;
    let mut found = false;
    while i < n && !found
        invariant
            n == lines@.len(),
            lv == lines_view(lines@),
            cmd@ == command@,
            i <= n,
            found ==> i < n && usage_line(lv, command@, 0) == Some(i as nat),
            !found ==> usage_line(lv, command@, 0) == usage_line(lv, command@, i as nat),
        decreases n - i, (if found { 0int } else { 1int }),
    {
        assert(lv[i as int] == lines@[i as int]@);
        if is_usage_of(lines[i], &cmd) {
            found = true;
        } else {
            i = i + 1;
        }
    }
    let mut r: Vec<String> = Vec::new();
    if !found {
        assert(r@.map_values(|s: String| s@) =~= Seq::<Seq<char>>::empty());
        return r;
    }
    let mut b: usize = i;
    while b > 0 && !lines[b - 1].is_empty()
        invariant
            n == lines@.len(),
            lv == lines_view(lines@),
            b <= i < n,
            block_begin(lv, i as nat) == block_begin(lv, b as nat),
        decreases b,
    {
        assert(lv[b - 1] == lines@[b - 1]@);
        b = b - 1;
    }
    proof {
        if b > 0 {
            assert(lv[b - 1] == lines@[b - 1]@);
        }
    }
    let mut e: usize = i;
    while e < n && !lines[e].is_empty()
        invariant
            n == lines@.len(),
            lv == lines_view(lines@),
            i <= e <= n,
            block_end(lv, i as nat) == block_end(lv, e as nat),
        decreases n - e,
    {
        assert(lv[e as int] == lines@[e as int]@);
        e = e + 1;
    }
    proof {
        if e < n {
            assert(lv[e as int] == lines@[e as int]@);
        }
    }
    for k in b..e
        invariant
            b <= e <= n,
            n == lines@.len(),
            lv == lines_view(lines@),
            r@.map_values(|s: String| s@) == lv.subrange(b as int, k as int),
    {
        let ghost r0 = r@;
        assert(lv[k as int] == lines@[k as int]@);
        r.push(String::from_str(lines[k]));
        assert(r@.map_values(|s: String| s@) =~= r0.map_values(|s: String| s@).push(lv[k as int]));
        assert(r@.map_values(|s: String| s@) =~= lv.subrange(b as int, (k + 1) as int));
    }
    r
}

/// The help of one office command: the block of the office help around
/// its usage line (see `scoped_help`).
pub fn collect(command: &str) -> (r: Vec<String>)
    ensures
        r@.map_values(|s: String| s@) == scoped(office_help(), command@),
{
    let lines = office_help_lines();
    scoped_help(&lines, command)
}

/// The help of a command holds its usage line: whenever a usage line
/// names the command, that line is part of what is shown for it.
pub proof fn law_scoped_holds_usage(lines: Seq<Seq<char>>, cmd: Seq<char>)
    ensures
        match usage_line(lines, cmd, 0) {
            Some(i) => scoped(lines, cmd).contains(lines[i as int]),
            None => scoped(lines, cmd).len() == 0,
        },
{
    match usage_line(lines, cmd, 0) {
        Some(i) => {
            lemma_usage_line_bound(lines, cmd, 0);
            lemma_block_bounds(lines, i);
            let b = block_begin(lines, i);
            let e = block_end(lines, i);
            assert(block_end(lines, i) > i) by {
                lemma_usage_nonblank(lines[i as int], cmd);
                lemma_end(lines, i + 1);
                assert(block_end(lines, i) == block_end(lines, i + 1));
            }
            assert(scoped(lines, cmd)[i - b] == lines[i as int]);
        },
        None => {},
    }
}

proof fn lemma_usage_line_bound(lines: Seq<Seq<char>>, cmd: Seq<char>, j: nat)
    ensures
        match usage_line(lines, cmd, j) {
            Some(i) => j <= i < lines.len() && usage_of(lines[i as int], cmd),
            None => true,
        },
    decreases lines.len() - j,
{
    if j < lines.len() && !usage_of(lines[j as int], cmd) {
        lemma_usage_line_bound(lines, cmd, j + 1);
    }
}

proof fn lemma_usage_nonblank(line: Seq<char>, cmd: Seq<char>)
    requires
        usage_of(line, cmd),
    ensures
        line.len() > 0,
{
}

} // verus!
