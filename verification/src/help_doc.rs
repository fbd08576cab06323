//! The office commands as they are documented, block by block, and the
//! proof that the office help is exactly those blocks, each followed by a
//! blank line.
use vstd::prelude::*;
use crate::help::office_help;

verus! {

/// How many blocks the office commands are documented in.
pub open spec fn office_block_count() -> nat {
    115
}

/// Block `j` of the documented office commands (a command, or commands
/// documented together): the usage line, then the lines that describe it.
pub open spec fn office_command_block(j: nat) -> Seq<Seq<char>> {
    if j == 0 {
        seq![
            "  create-hwp --text <텍스트>|--text-file <파일> -o <출력.hwp> [--template <파일.hwp|파일.hwpx>]"@,
            "      새 binary HWP 생성 (빈 HWP 또는 템플릿 기반)"@,
        ]
    } else if j == 1 {
        seq![
            "  replace-text <파일.hwp> --old <검색어> --new <대체문구> -o <출력.hwp> [--all] [--case-sensitive]"@,
            "      binary HWP 본문/표/글상자 텍스트 치환 후 저장"@,
        ]
    } else if j == 2 {
        seq![
            "  list-fields <파일.hwp>"@,
            "      HWP 누름틀/셀 필드 목록을 JSON으로 출력"@,
        ]
    } else if j == 3 {
        seq![
            "  insert-clickhere-field <파일.hwp> --section N --para N [--ctrl N (--cell N|--textbox) [--cell-para N|--textbox-para N] | --cell-path JSON --ctrl N [--textbox-para N]] --offset N --name <필드명> [--guide <안내문>] [--memo <메모>] [--value <초기값>] -o <출력.hwp>"@,
            "      본문/표 셀/글상자 지정 위치에 이름 있는 HWP 누름틀 필드를 생성 후 저장"@,
        ]
    } else if j == 4 {
        seq![
            "  get-field-info <파일.hwp> --section N --para N [--ctrl N (--cell N|--textbox) [--cell-para N|--textbox-para N]] --offset N"@,
            "      본문/표 셀/글상자 지정 위치의 HWP 누름틀 필드 정보를 JSON으로 출력"@,
        ]
    } else if j == 5 {
        seq![
            "  remove-field <파일.hwp> --section N --para N [--ctrl N (--cell N|--textbox) [--cell-para N|--textbox-para N]] --offset N -o <출력.hwp>"@,
            "      본문/표 셀/글상자 지정 위치의 HWP 누름틀 필드를 제거하고 텍스트는 유지"@,
        ]
    } else if j == 6 {
        seq![
            "  set-field <파일.hwp> --name <필드명> --value <값> -o <출력.hwp>"@,
            "      이름이 있는 HWP 필드 값을 설정 후 저장"@,
        ]
    } else if j == 7 {
        seq![
            "  list-forms <파일.hwp>"@,
            "      HWP 양식 개체 목록을 이름/위치 JSON으로 출력"@,
        ]
    } else if j == 8 {
        seq![
            "  list-objects <파일.hwp>"@,
            "      본문/표 셀 내부 그림·도형·글상자 객체 목록을 JSON으로 조회"@,
        ]
    } else if j == 9 {
        seq![
            "  create-form <파일.hwp> --section N --para N [--cell-path <JSON>|--table-ctrl N --row R --col C [--cell-para N]] --offset N --form-type checkbox|radio|edit|button|combo --name <이름> [--caption <캡션>] [--text <텍스트>] [--value N] [--width N] [--height N] -o <출력.hwp>"@,
            "      본문 또는 표 셀/글상자 내부 지정 위치에 HWP 양식 개체를 생성 후 저장"@,
        ]
    } else if j == 10 {
        seq![
            "  get-form <파일.hwp> --section N --para N [--cell-path <JSON>|--table-ctrl N --row R --col C [--cell-para N]] --ctrl N"@,
            "      HWP 양식 개체 정보를 JSON으로 출력"@,
        ]
    } else if j == 11 {
        seq![
            "  set-form <파일.hwp> --section N --para N [--cell-path <JSON>|--table-ctrl N --row R --col C [--cell-para N]] --ctrl N --json <값JSON> -o <출력.hwp>"@,
            "      HWP 양식 개체의 value/text/caption 값을 설정 후 저장"@,
        ]
    } else if j == 12 {
        seq![
            "  delete-form <파일.hwp> --section N --para N [--cell-path <JSON>|--table-ctrl N --row R --col C [--cell-para N]] --ctrl N -o <출력.hwp>"@,
            "      HWP 양식 개체를 삭제 후 저장"@,
        ]
    } else if j == 13 {
        seq![
            "  extract-structure <파일.hwp>"@,
            "      문단/표/셀 위치를 JSON으로 추출"@,
        ]
    } else if j == 14 {
        seq![
            "  insert-text <파일.hwp> --section N --para N --offset N --text <텍스트> -o <출력.hwp>"@,
            "      본문 문단의 지정 문자 오프셋에 텍스트를 삽입"@,
        ]
    } else if j == 15 {
        seq![
            "  delete-text <파일.hwp> --section N --para N --offset N --count N -o <출력.hwp>"@,
            "      본문 문단의 지정 문자 범위를 삭제"@,
        ]
    } else if j == 16 {
        seq![
            "  set-paragraph <파일.hwp> --section N --para N --text <텍스트> -o <출력.hwp>"@,
            "      지정 문단 텍스트를 직접 교체"@,
        ]
    } else if j == 17 {
        seq![
            "  insert-paragraph <파일.hwp> --section N --para N [--text <텍스트>] -o <출력.hwp>"@,
            "      지정 위치에 본문 문단을 삽입"@,
        ]
    } else if j == 18 {
        seq![
            "  copy-paragraph <파일.hwp> --section N --para N [--before|--after] -o <출력.hwp>"@,
            "      지정 본문 문단을 텍스트와 서식까지 복제"@,
        ]
    } else if j == 19 {
        seq![
            "  copy-paragraph-range <파일.hwp> --section N --start N --end N [--before|--after] [--replace OLD NEW]... -o <출력.hwp>"@,
            "      지정 본문 문단 범위를 같은 순서로 복제"@,
        ]
    } else if j == 20 {
        seq![
            "  split-paragraph <파일.hwp> --section N --para N --offset N -o <출력.hwp>"@,
            "      본문 문단을 문자 오프셋에서 분할"@,
        ]
    } else if j == 21 {
        seq![
            "  merge-paragraph <파일.hwp> --section N --para N -o <출력.hwp>"@,
            "      지정 본문 문단을 이전 문단에 병합"@,
        ]
    } else if j == 22 {
        seq![
            "  delete-paragraph <파일.hwp> --section N --para N -o <출력.hwp>"@,
            "      본문 문단을 삭제"@,
        ]
    } else if j == 23 {
        seq![
            "  insert-page-break <파일.hwp> --section N --para N --offset N -o <출력.hwp>"@,
            "      지정 위치에 쪽 나누기를 삽입"@,
        ]
    } else if j == 24 {
        seq![
            "  insert-column-break <파일.hwp> --section N --para N --offset N -o <출력.hwp>"@,
            "      지정 위치에 단 나누기를 삽입"@,
        ]
    } else if j == 25 {
        seq![
            "  set-column-def <파일.hwp> --section N --count N [--type normal|distribute|parallel] [--spacing HWPUNIT] [--same-width|--variable-width] -o <출력.hwp>"@,
            "      구역 다단 설정을 변경"@,
        ]
    } else if j == 26 {
        seq![
            "  insert-new-number <파일.hwp> --section N --para N --offset N --start N -o <출력.hwp>"@,
            "      지정 문단 위치부터 쪽 번호를 새 번호로 시작"@,
        ]
    } else if j == 27 {
        seq![
            "  get-page-hide <파일.hwp> --section N --para N"@,
            "      문단의 쪽 감추기(PageHide) 상태를 JSON으로 조회"@,
        ]
    } else if j == 28 {
        seq![
            "  set-page-hide <파일.hwp> --section N --para N [--hide-header] [--hide-footer] [--hide-master-page] [--hide-border] [--hide-fill] [--hide-page-num] -o <출력.hwp>"@,
            "      문단의 쪽 감추기(PageHide) 플래그를 설정. 플래그가 없으면 기존 PageHide 제거"@,
        ]
    } else if j == 29 {
        seq![
            "  list-bookmarks <파일.hwp>"@,
            "      문서 내 책갈피 목록을 JSON으로 조회"@,
        ]
    } else if j == 30 {
        seq![
            "  add-bookmark <파일.hwp> --section N --para N --offset N --name <이름> -o <출력.hwp>"@,
            "      본문 위치에 책갈피를 추가"@,
        ]
    } else if j == 31 {
        seq![
            "  rename-bookmark <파일.hwp> --section N --para N --ctrl N --name <새이름> -o <출력.hwp>"@,
            "      책갈피 이름을 변경"@,
        ]
    } else if j == 32 {
        seq![
            "  delete-bookmark <파일.hwp> --section N --para N --ctrl N -o <출력.hwp>"@,
            "      책갈피 컨트롤을 삭제"@,
        ]
    } else if j == 33 {
        seq![
            "  create-footnote <파일.hwp> --section N --para N --offset N [--text <텍스트>|--text-file <파일>] -o <출력.hwp>"@,
            "      지정 위치에 각주를 생성하고 선택적으로 내용을 입력"@,
        ]
    } else if j == 34 {
        seq![
            "  create-endnote <파일.hwp> --section N --para N --offset N [--text <텍스트>|--text-file <파일>] -o <출력.hwp>"@,
            "      지정 위치에 미주를 생성하고 선택적으로 내용을 입력"@,
        ]
    } else if j == 35 {
        seq![
            "  get-footnote <파일.hwp> --section N --para N --ctrl N"@,
            "      각주/미주 본문 정보를 JSON으로 조회"@,
        ]
    } else if j == 36 {
        seq![
            "  insert-footnote-text <파일.hwp> --section N --para N --ctrl N --note-para N --offset N --text <텍스트> -o <출력.hwp>"@,
            "      각주/미주 문단에 텍스트를 삽입"@,
        ]
    } else if j == 37 {
        seq![
            "  delete-footnote-text <파일.hwp> --section N --para N --ctrl N --note-para N --offset N --count N -o <출력.hwp>"@,
            "      각주/미주 문단 텍스트 일부를 삭제"@,
        ]
    } else if j == 38 {
        seq![
            "  split-footnote-paragraph <파일.hwp> --section N --para N --ctrl N --note-para N --offset N -o <출력.hwp>"@,
            "      각주/미주 문단을 분할"@,
        ]
    } else if j == 39 {
        seq![
            "  merge-footnote-paragraph <파일.hwp> --section N --para N --ctrl N --note-para N -o <출력.hwp>"@,
            "      각주/미주 문단을 이전 문단과 병합"@,
        ]
    } else if j == 40 {
        seq![
            "  delete-footnote <파일.hwp> --section N --para N --ctrl N -o <출력.hwp>"@,
            "      본문 각주와 각주 본문을 삭제"@,
        ]
    } else if j == 41 {
        seq![
            "  create-table <파일.hwp> --section N --para N --offset N --rows N --cols N -o <출력.hwp>"@,
            "      지정 위치에 HWP 표를 생성"@,
        ]
    } else if j == 42 {
        seq![
            "  copy-table <파일.hwp> --section N --para N --ctrl N [--before|--after] [--replace OLD NEW]... -o <출력.hwp>"@,
            "      표 전체를 내용과 서식까지 복제하여 삽입"@,
        ]
    } else if j == 43 {
        seq![
            "  delete-table <파일.hwp> --section N --para N --ctrl N -o <출력.hwp>"@,
            "      독립 표 문단과 바로 뒤 빈 문단을 삭제"@,
        ]
    } else if j == 44 {
        seq![
            "  set-cell-text <파일.hwp> --para N --ctrl N (--cell N|--row N --col N) [--cell-para N] --text <텍스트> -o <출력.hwp>"@,
            "      표 셀 문단 텍스트를 직접 교체"@,
            "      * --cell-path 는 표 안의 표(중첩 표) 셀까지 지정한다: [[표ctrl,셀,셀문단],[안쪽표ctrl,셀,셀문단]]"@,
        ]
    } else if j == 45 {
        seq![
            "  insert-cell-text <파일.hwp> --para N [--ctrl N (--cell N|--row N --col N) [--cell-para N] | --cell-path <JSON>] --offset N --text <텍스트> -o <출력.hwp>"@,
            "      표 셀 문단의 지정 문자 오프셋에 텍스트를 삽입"@,
        ]
    } else if j == 46 {
        seq![
            "  delete-cell-text <파일.hwp> --para N [--ctrl N (--cell N|--row N --col N) [--cell-para N] | --cell-path <JSON>] --offset N --count N -o <출력.hwp>"@,
            "      표 셀 문단의 지정 문자 범위를 삭제"@,
        ]
    } else if j == 47 {
        seq![
            "  insert-cell-paragraph <파일.hwp> --para N --ctrl N (--cell N|--row N --col N) --cell-para N [--text <텍스트>] -o <출력.hwp>"@,
            "      표 셀 내부의 지정 위치에 새 문단을 삽입"@,
        ]
    } else if j == 48 {
        seq![
            "  delete-cell-paragraph <파일.hwp> --para N --ctrl N (--cell N|--row N --col N) --cell-para N -o <출력.hwp>"@,
            "      표 셀 내부 문단을 삭제"@,
        ]
    } else if j == 49 {
        seq![
            "  move-cell-paragraphs <파일.hwp> --para N --ctrl N --from-row R --from-col C --start N --end N --to-row R --to-col C [--at N] -o <출력.hwp>"@,
            "  split-cell-paragraph <파일.hwp> --para N [--ctrl N (--cell N|--row N --col N) [--cell-para N] | --cell-path <JSON>] --offset N -o <출력.hwp>"@,
            "      표 셀 내부 문단을 문자 오프셋에서 분할"@,
        ]
    } else if j == 50 {
        seq![
            "  merge-cell-paragraph <파일.hwp> --para N [--ctrl N (--cell N|--row N --col N) --cell-para N | --cell-path <JSON>] -o <출력.hwp>"@,
            "      표 셀 내부 문단을 이전 셀 문단에 병합"@,
        ]
    } else if j == 51 {
        seq![
            "  set-cell-field <파일.hwp> --para N --ctrl N (--cell N|--row N --col N) --name <필드명> -o <출력.hwp>"@,
            "      표 셀을 이름 있는 HWP 셀 필드로 지정"@,
        ]
    } else if j == 52 {
        seq![
            "  clear-cell-field <파일.hwp> --para N --ctrl N (--cell N|--row N --col N) -o <출력.hwp>"@,
            "      표 셀의 HWP 셀 필드 이름을 제거하고 텍스트는 유지"@,
        ]
    } else if j == 53 {
        seq![
            "  insert-table-row <파일.hwp> --section N --para N --ctrl N --row N [--above|--below] -o <출력.hwp>"@,
            "      표 행을 삽입"@,
        ]
    } else if j == 54 {
        seq![
            "  copy-table-row <파일.hwp> --section N --para N --ctrl N --row N [--above|--below] [--replace OLD NEW]... -o <출력.hwp>"@,
            "      표 행을 내용과 서식까지 복제하여 삽입"@,
        ]
    } else if j == 55 {
        seq![
            "  delete-table-row <파일.hwp> --section N --para N --ctrl N --row N -o <출력.hwp>"@,
            "      표 행을 삭제"@,
        ]
    } else if j == 56 {
        seq![
            "  insert-table-column <파일.hwp> --section N --para N --ctrl N --col N [--left|--right] -o <출력.hwp>"@,
            "      표 열을 삽입"@,
        ]
    } else if j == 57 {
        seq![
            "  copy-table-column <파일.hwp> --section N --para N --ctrl N --col N [--left|--right] [--replace OLD NEW]... -o <출력.hwp>"@,
            "      표 열을 내용과 서식까지 복제하여 삽입"@,
        ]
    } else if j == 58 {
        seq![
            "  delete-table-column <파일.hwp> --section N --para N --ctrl N --col N -o <출력.hwp>"@,
            "      표 열을 삭제"@,
        ]
    } else if j == 59 {
        seq![
            "  merge-table-cells <파일.hwp> --section N --para N --ctrl N --start-row N --start-col N --end-row N --end-col N -o <출력.hwp>"@,
            "      표 셀 범위를 병합"@,
        ]
    } else if j == 60 {
        seq![
            "  split-table-cell <파일.hwp> --section N --para N --ctrl N --row N --col N -o <출력.hwp>"@,
            "      병합된 표 셀을 분할"@,
        ]
    } else if j == 61 {
        seq![
            "  get-cell-properties <파일.hwp> --section N --para N --ctrl N --cell N"@,
            "      표 셀 속성을 JSON으로 조회"@,
        ]
    } else if j == 62 {
        seq![
            "  get-cell-text <파일.hwp> --para N [--ctrl N --cell N | --cell-path <JSON>]"@,
            "      셀 안 문단의 글자 수와 텍스트를 조회 (중첩 표 포함)"@,
            "      * 편집 명령의 --offset/--count 를 눈대중으로 넘기면 옆 문단이 잘린다."@,
            "        먼저 이 명령으로 문단별 실제 길이를 확인할 것"@,
        ]
    } else if j == 63 {
        seq![
            "  set-cell-properties <파일.hwp> --section N --para N --ctrl N --cell N --json <속성JSON> -o <출력.hwp>"@,
            "      표 셀 폭/높이/패딩/정렬/보호/테두리/채우기 속성을 직접 수정"@,
        ]
    } else if j == 64 {
        seq![
            "  get-table-properties <파일.hwp> --section N --para N --ctrl N"@,
            "      표 속성을 JSON으로 조회"@,
        ]
    } else if j == 65 {
        seq![
            "  set-table-properties <파일.hwp> --section N --para N --ctrl N --json <속성JSON> -o <출력.hwp>"@,
            "      표 패딩/반복 머리/배치/테두리/채우기 속성을 직접 수정"@,
        ]
    } else if j == 66 {
        seq![
            "  resize-table-cells <파일.hwp> --section N --para N [--cell-path <JSON>|--ctrl N] --json <변경배열JSON> -o <출력.hwp>"@,
            "  set-table-column-widths <파일.hwp> --section N --para N --ctrl N --widths w1,w2,... -o <출력.hwp>"@,
            "      여러 표 셀의 폭/높이를 델타 값으로 조절"@,
        ]
    } else if j == 67 {
        seq![
            "  apply-table-style <파일.hwp> --section N --para N --ctrl N [--head-fill #d9d9d9] [--font-size 1200] [--head-height 2232] [--body-height 2882] -o <출력.hwp>"@,
            "      표에 심사 문서용 「집 서식」을 한 번에 적용 (머리행 음영+이중선, 정렬, 12pt, 행 높이)"@,
        ]
    } else if j == 68 {
        seq![
            "  get-char-properties <파일.hwp> --section N --para N --offset N"@,
            "      본문 글자 속성을 JSON으로 조회"@,
        ]
    } else if j == 69 {
        seq![
            "  set-char-format <파일.hwp> --section N --para N --start N --end N --json <서식JSON> -o <출력.hwp>"@,
            "      본문 글자 범위 서식을 직접 수정"@,
        ]
    } else if j == 70 {
        seq![
            "  get-para-properties <파일.hwp> --section N --para N"@,
            "      본문 문단 속성을 JSON으로 조회"@,
        ]
    } else if j == 71 {
        seq![
            "  set-para-format <파일.hwp> --section N --para N --json <서식JSON> -o <출력.hwp>"@,
            "      본문 문단 서식을 직접 수정"@,
        ]
    } else if j == 72 {
        seq![
            "  list-styles <파일.hwp>"@,
            "      문서 스타일 목록을 JSON으로 조회"@,
        ]
    } else if j == 73 {
        seq![
            "  apply-style <파일.hwp> --section N --para N (--style-id N|--style-name <이름>) -o <출력.hwp>"@,
            "      본문 문단에 문서 스타일을 적용"@,
        ]
    } else if j == 74 {
        seq![
            "  apply-cell-style <파일.hwp> --section N --para N --ctrl N (--cell N|--row R --col C) [--cell-para N] (--style-id N|--style-name <이름>) -o <출력.hwp>"@,
            "      표 셀 내부 문단에 문서 스타일을 적용"@,
        ]
    } else if j == 75 {
        seq![
            "  get-cell-char-properties <파일.hwp> --section N --para N --ctrl N (--cell N|--row R --col C) [--cell-para N] --offset N"@,
            "      셀 내부 글자 속성을 JSON으로 조회"@,
        ]
    } else if j == 76 {
        seq![
            "  set-cell-char-format <파일.hwp> --section N --para N (--ctrl N (--cell N|--row R --col C) [--cell-para N] | --cell-path <JSON>) --start N --end N --json <서식JSON> -o <출력.hwp>"@,
            "      셀 내부 글자 범위 서식을 직접 수정"@,
        ]
    } else if j == 77 {
        seq![
            "  get-cell-para-properties <파일.hwp> --section N --para N --ctrl N (--cell N|--row R --col C) [--cell-para N]"@,
            "      셀 내부 문단 속성을 JSON으로 조회"@,
        ]
    } else if j == 78 {
        seq![
            "  set-cell-para-format <파일.hwp> --section N --para N --ctrl N (--cell N|--row R --col C) [--cell-para N] --json <서식JSON> -o <출력.hwp>"@,
            "      셀 내부 문단 서식을 직접 수정"@,
        ]
    } else if j == 79 {
        seq![
            "  get-page-def <파일.hwp> --section N"@,
            "      용지 크기/여백 설정을 JSON으로 조회"@,
        ]
    } else if j == 80 {
        seq![
            "  set-page-def <파일.hwp> --section N --json <설정JSON> -o <출력.hwp>"@,
            "      용지 크기/여백 설정을 직접 수정"@,
        ]
    } else if j == 81 {
        seq![
            "  get-section-def <파일.hwp> --section N"@,
            "      구역 번호/숨김/탭 설정을 JSON으로 조회"@,
        ]
    } else if j == 82 {
        seq![
            "  set-section-def <파일.hwp> --section N --json <설정JSON> -o <출력.hwp>"@,
            "      구역 번호/숨김/탭 설정을 직접 수정"@,
        ]
    } else if j == 83 {
        seq![
            "  get-page-border-fill <파일.hwp> --section N"@,
            "      쪽 테두리/배경 설정을 JSON으로 조회"@,
        ]
    } else if j == 84 {
        seq![
            "  set-page-border-fill <파일.hwp> --section N --json <설정JSON> -o <출력.hwp>"@,
            "      쪽 테두리/배경 설정을 직접 수정"@,
        ]
    } else if j == 85 {
        seq![
            "  insert-picture <파일.hwp> --section N --para N --offset N --image <이미지> --width N --height N [--cell-path <JSON>|--table-ctrl N --row R --col C [--cell-para N]] -o <출력.hwp>"@,
            "      그림 컨트롤을 삽입"@,
            "      --natural-width/--natural-height 생략 시 이미지 헤더에서 자동 판독"@,
            "      --inline  표 셀 안에 글자처럼(인라인) 삽입 — 셀 높이가 그림에 맞춰 늘어난다."@,
            "                생략하면 한컴 default 인 표 옆 floating 배치 (셀 밖으로 넘칠 수 있음)"@,
        ]
    } else if j == 86 {
        seq![
            "  get-picture-properties <파일.hwp> --section N --para N [--cell-path <JSON>|--table-ctrl N --row R --col C [--cell-para N]] --ctrl N"@,
            "      본문/표 셀 내부 그림 속성을 JSON으로 조회"@,
        ]
    } else if j == 87 {
        seq![
            "  set-picture-properties <파일.hwp> --section N --para N [--cell-path <JSON>|--table-ctrl N --row R --col C [--cell-para N]] --ctrl N --json <속성JSON> -o <출력.hwp>"@,
            "      본문/표 셀 내부 그림 크기/위치/효과/자르기/캡션 속성을 직접 수정"@,
        ]
    } else if j == 88 {
        seq![
            "  delete-picture <파일.hwp> --section N --para N [--cell-path <JSON>|--table-ctrl N --row R --col C [--cell-para N]] --ctrl N -o <출력.hwp>"@,
            "      본문/표 셀 내부 그림 컨트롤 삭제"@,
        ]
    } else if j == 89 {
        seq![
            "  create-shape <파일.hwp> --section N --para N [--cell-path <JSON>|--table-ctrl N --row R --col C [--cell-para N]] --offset N --width N --height N [--shape-type rectangle|textbox|line|ellipse|polygon|arc] -o <출력.hwp>"@,
            "      본문/표 셀 내부 도형·글상자 컨트롤을 삽입"@,
        ]
    } else if j == 90 {
        seq![
            "  set-cell-shape-text <파일.hwp> --section N --para N [--cell-path <JSON>|--table-ctrl N --row R --col C [--cell-para N]] --ctrl N [--textbox-para N] --text <텍스트> -o <출력.hwp>"@,
            "      표 셀 내부 글상자 텍스트를 직접 수정"@,
        ]
    } else if j == 91 {
        seq![
            "  set-cell-shape-char-format <파일.hwp> --section N --para N [--cell-path <JSON>|--table-ctrl N --row R --col C [--cell-para N]] --ctrl N --textbox-para N --start N --end N --json <서식JSON> -o <출력.hwp>"@,
            "      표 셀 내부 글상자 문자 범위 서식을 직접 수정"@,
        ]
    } else if j == 92 {
        seq![
            "  set-cell-shape-para-format <파일.hwp> --section N --para N [--cell-path <JSON>|--table-ctrl N --row R --col C [--cell-para N]] --ctrl N --textbox-para N --json <서식JSON> -o <출력.hwp>"@,
            "      표 셀 내부 글상자 문단 서식을 직접 수정"@,
        ]
    } else if j == 93 {
        seq![
            "  get-shape-properties <파일.hwp> --section N --para N --ctrl N"@,
            "      도형 속성을 JSON으로 조회"@,
        ]
    } else if j == 94 {
        seq![
            "  set-shape-properties <파일.hwp> --section N --para N --ctrl N --json <속성JSON> -o <출력.hwp>"@,
            "      도형 크기/위치/선/채우기/글상자 속성을 직접 수정"@,
        ]
    } else if j == 95 {
        seq![
            "  delete-shape <파일.hwp> --section N --para N --ctrl N -o <출력.hwp>"@,
            "      도형 컨트롤 삭제"@,
        ]
    } else if j == 96 {
        seq![
            "  change-shape-z-order <파일.hwp> --section N --para N --ctrl N --operation front|back|forward|backward -o <출력.hwp>"@,
            "      도형의 앞/뒤 배치 순서를 변경"@,
        ]
    } else if j == 97 {
        seq![
            "  group-shapes <파일.hwp> --section N --targets <대상JSON> -o <출력.hwp>"@,
            "      여러 그림/도형을 하나의 그룹으로 묶기"@,
        ]
    } else if j == 98 {
        seq![
            "  ungroup-shape <파일.hwp> --section N --para N --ctrl N -o <출력.hwp>"@,
            "      그룹 도형을 한 단계 풀기"@,
        ]
    } else if j == 99 {
        seq![
            "  get-header-footer <파일.hwp> --section N --kind header|footer --apply-to both|even|odd"@,
            "      머리말/꼬리말 내용과 위치를 JSON으로 조회"@,
        ]
    } else if j == 100 {
        seq![
            "  list-header-footer <파일.hwp> [--section N --kind header|footer --apply-to both|even|odd]"@,
            "      문서의 머리말/꼬리말 목록을 JSON으로 조회"@,
        ]
    } else if j == 101 {
        seq![
            "  create-header-footer <파일.hwp> --section N --kind header|footer --apply-to both|even|odd -o <출력.hwp>"@,
            "      빈 머리말/꼬리말을 생성"@,
        ]
    } else if j == 102 {
        seq![
            "  delete-header-footer <파일.hwp> --section N --kind header|footer --apply-to both|even|odd -o <출력.hwp>"@,
            "      머리말/꼬리말 컨트롤 삭제"@,
        ]
    } else if j == 103 {
        seq![
            "  insert-header-footer-text <파일.hwp> --section N --kind header|footer --apply-to both|even|odd --hf-para N --offset N --text <텍스트> -o <출력.hwp>"@,
            "      머리말/꼬리말 문단에 텍스트를 삽입"@,
        ]
    } else if j == 104 {
        seq![
            "  delete-header-footer-text <파일.hwp> --section N --kind header|footer --apply-to both|even|odd --hf-para N --offset N --count N -o <출력.hwp>"@,
            "      머리말/꼬리말 문단에서 텍스트를 삭제"@,
        ]
    } else if j == 105 {
        seq![
            "  split-header-footer-paragraph <파일.hwp> --section N --kind header|footer --apply-to both|even|odd --hf-para N --offset N -o <출력.hwp>"@,
            "      머리말/꼬리말 문단을 분할"@,
        ]
    } else if j == 106 {
        seq![
            "  merge-header-footer-paragraph <파일.hwp> --section N --kind header|footer --apply-to both|even|odd --hf-para N -o <출력.hwp>"@,
            "      머리말/꼬리말 문단을 이전 문단과 병합"@,
        ]
    } else if j == 107 {
        seq![
            "  get-header-footer-para-properties <파일.hwp> --section N --kind header|footer --apply-to both|even|odd --hf-para N"@,
            "      머리말/꼬리말 문단 서식을 JSON으로 조회"@,
        ]
    } else if j == 108 {
        seq![
            "  set-header-footer-para-format <파일.hwp> --section N --kind header|footer --apply-to both|even|odd --hf-para N --json <서식JSON> -o <출력.hwp>"@,
            "      머리말/꼬리말 문단 서식을 직접 수정"@,
        ]
    } else if j == 109 {
        seq![
            "  insert-header-footer-field <파일.hwp> --section N --kind header|footer --apply-to both|even|odd --hf-para N --offset N --field page-number|total-pages|filename -o <출력.hwp>"@,
            "      머리말/꼬리말에 쪽번호/총쪽수/파일명 필드를 삽입"@,
        ]
    } else if j == 110 {
        seq![
            "  apply-header-footer-template <파일.hwp> --section N --kind header|footer --apply-to both|even|odd --template N -o <출력.hwp>"@,
            "      기본 머리말/꼬리말 템플릿(0~10)을 적용"@,
        ]
    } else if j == 111 {
        seq![
            "  list-master-pages <파일.hwp> --section N"@,
            "      바탕쪽 목록과 텍스트를 JSON으로 조회"@,
        ]
    } else if j == 112 {
        seq![
            "  create-master-page <파일.hwp> --section N --apply-to both|even|odd [--text <텍스트>] [--extension] [--overlap] -o <출력.hwp>"@,
            "      바탕쪽을 생성"@,
        ]
    } else if j == 113 {
        seq![
            "  set-master-page-text <파일.hwp> --section N --master N --para N --text <텍스트> -o <출력.hwp>"@,
            "      바탕쪽 문단 텍스트를 수정"@,
        ]
    } else if j == 114 {
        seq![
            "  delete-master-page <파일.hwp> --section N --master N -o <출력.hwp>"@,
            "      바탕쪽을 삭제"@,
        ]
    } else {
        Seq::empty()
    }
}

/// `acc` followed by the first `m` lines of `block`.
pub open spec fn append_lines(acc: Seq<Seq<char>>, block: Seq<Seq<char>>, m: nat) -> Seq<Seq<char>>
    decreases m,
{
    if m == 0 {
        acc
    } else {
        append_lines(acc, block, (m - 1) as nat).push(block[m - 1])
    }
}

/// The first `n` documented blocks written one after another, each
/// followed by a blank line.
pub open spec fn documented_blocks(n: nat) -> Seq<Seq<char>>
    decreases n,
{
    if n == 0 {
        Seq::empty()
    } else {
        append_lines(
            documented_blocks((n - 1) as nat),
            office_command_block((n - 1) as nat),
            office_command_block((n - 1) as nat).len(),
        ).push(""@)
    }
}

/// Where block `j` starts in the help.
spec fn block_start(j: nat) -> nat {
    if j == 0 {
        0
    } else if j == 1 {
        3
    } else if j == 2 {
        6
    } else if j == 3 {
        9
    } else if j == 4 {
        12
    } else if j == 5 {
        15
    } else if j == 6 {
        18
    } else if j == 7 {
        21
    } else if j == 8 {
        24
    } else if j == 9 {
        27
    } else if j == 10 {
        30
    } else if j == 11 {
        33
    } else if j == 12 {
        36
    } else if j == 13 {
        39
    } else if j == 14 {
        42
    } else if j == 15 {
        45
    } else if j == 16 {
        48
    } else if j == 17 {
        51
    } else if j == 18 {
        54
    } else if j == 19 {
        57
    } else if j == 20 {
        60
    } else if j == 21 {
        63
    } else if j == 22 {
        66
    } else if j == 23 {
        69
    } else if j == 24 {
        72
    } else if j == 25 {
        75
    } else if j == 26 {
        78
    } else if j == 27 {
        81
    } else if j == 28 {
        84
    } else if j == 29 {
        87
    } else if j == 30 {
        90
    } else if j == 31 {
        93
    } else if j == 32 {
        96
    } else if j == 33 {
        99
    } else if j == 34 {
        102
    } else if j == 35 {
        105
    } else if j == 36 {
        108
    } else if j == 37 {
        111
    } else if j == 38 {
        114
    } else if j == 39 {
        117
    } else if j == 40 {
        120
    } else if j == 41 {
        123
    } else if j == 42 {
        126
    } else if j == 43 {
        129
    } else if j == 44 {
        132
    } else if j == 45 {
        136
    } else if j == 46 {
        139
    } else if j == 47 {
        142
    } else if j == 48 {
        145
    } else if j == 49 {
        148
    } else if j == 50 {
        152
    } else if j == 51 {
        155
    } else if j == 52 {
        158
    } else if j == 53 {
        161
    } else if j == 54 {
        164
    } else if j == 55 {
        167
    } else if j == 56 {
        170
    } else if j == 57 {
        173
    } else if j == 58 {
        176
    } else if j == 59 {
        179
    } else if j == 60 {
        182
    } else if j == 61 {
        185
    } else if j == 62 {
        188
    } else if j == 63 {
        193
    } else if j == 64 {
        196
    } else if j == 65 {
        199
    } else if j == 66 {
        202
    } else if j == 67 {
        206
    } else if j == 68 {
        209
    } else if j == 69 {
        212
    } else if j == 70 {
        215
    } else if j == 71 {
        218
    } else if j == 72 {
        221
    } else if j == 73 {
        224
    } else if j == 74 {
        227
    } else if j == 75 {
        230
    } else if j == 76 {
        233
    } else if j == 77 {
        236
    } else if j == 78 {
        239
    } else if j == 79 {
        242
    } else if j == 80 {
        245
    } else if j == 81 {
        248
    } else if j == 82 {
        251
    } else if j == 83 {
        254
    } else if j == 84 {
        257
    } else if j == 85 {
        260
    } else if j == 86 {
        266
    } else if j == 87 {
        269
    } else if j == 88 {
        272
    } else if j == 89 {
        275
    } else if j == 90 {
        278
    } else if j == 91 {
        281
    } else if j == 92 {
        284
    } else if j == 93 {
        287
    } else if j == 94 {
        290
    } else if j == 95 {
        293
    } else if j == 96 {
        296
    } else if j == 97 {
        299
    } else if j == 98 {
        302
    } else if j == 99 {
        305
    } else if j == 100 {
        308
    } else if j == 101 {
        311
    } else if j == 102 {
        314
    } else if j == 103 {
        317
    } else if j == 104 {
        320
    } else if j == 105 {
        323
    } else if j == 106 {
        326
    } else if j == 107 {
        329
    } else if j == 108 {
        332
    } else if j == 109 {
        335
    } else if j == 110 {
        338
    } else if j == 111 {
        341
    } else if j == 112 {
        344
    } else if j == 113 {
        347
    } else if j == 114 {
        350
    } else if j == 115 {
        353
    } else {
        0
    }
}

/// Block `j` stands in the help at its start, and a blank line follows it.
spec fn block_in_help(j: nat) -> bool {
    &&& block_start(j + 1) == block_start(j) + office_command_block(j).len() + 1
    &&& forall|m: int|
        0 <= m < office_command_block(j).len() ==> office_help()[block_start(j) + m]
            == #[trigger] office_command_block(j)[m]
    &&& office_help()[(block_start(j) + office_command_block(j).len()) as int] == ""@
}

proof fn lemma_blocks_0_9(j: nat)
    requires
        0 <= j < 10,
    ensures
        block_in_help(j),
{
    if j == 0 {
        assert(office_help()[0] == office_command_block(0)[0]);
        assert(office_help()[1] == office_command_block(0)[1]);
        assert(office_help()[2] == ""@);
        assert forall|m: int| 0 <= m < 2 implies office_help()[0 + m] == #[trigger] office_command_block(0)[m] by {
            if m == 0 {}
            if m == 1 {}
        }
    } else if j == 1 {
        assert(office_help()[3] == office_command_block(1)[0]);
        assert(office_help()[4] == office_command_block(1)[1]);
        assert(office_help()[5] == ""@);
        assert forall|m: int| 0 <= m < 2 implies office_help()[3 + m] == #[trigger] office_command_block(1)[m] by {
            if m == 0 {}
            if m == 1 {}
        }
    } else if j == 2 {
        assert(office_help()[6] == office_command_block(2)[0]);
        assert(office_help()[7] == office_command_block(2)[1]);
        assert(office_help()[8] == ""@);
        assert forall|m: int| 0 <= m < 2 implies office_help()[6 + m] == #[trigger] office_command_block(2)[m] by {
            if m == 0 {}
            if m == 1 {}
        }
    } else if j == 3 {
        assert(office_help()[9] == office_command_block(3)[0]);
        assert(office_help()[10] == office_command_block(3)[1]);
        assert(office_help()[11] == ""@);
        assert forall|m: int| 0 <= m < 2 implies office_help()[9 + m] == #[trigger] office_command_block(3)[m] by {
            if m == 0 {}
            if m == 1 {}
        }
    } else if j == 4 {
        assert(office_help()[12] == office_command_block(4)[0]);
        assert(office_help()[13] == office_command_block(4)[1]);
        assert(office_help()[14] == ""@);
        assert forall|m: int| 0 <= m < 2 implies office_help()[12 + m] == #[trigger] office_command_block(4)[m] by {
            if m == 0 {}
            if m == 1 {}
        }
    } else if j == 5 {
        assert(office_help()[15] == office_command_block(5)[0]);
        assert(office_help()[16] == office_command_block(5)[1]);
        assert(office_help()[17] == ""@);
        assert forall|m: int| 0 <= m < 2 implies office_help()[15 + m] == #[trigger] office_command_block(5)[m] by {
            if m == 0 {}
            if m == 1 {}
        }
    } else if j == 6 {
        assert(office_help()[18] == office_command_block(6)[0]);
        assert(office_help()[19] == office_command_block(6)[1]);
        assert(office_help()[20] == ""@);
        assert forall|m: int| 0 <= m < 2 implies office_help()[18 + m] == #[trigger] office_command_block(6)[m] by {
            if m == 0 {}
            if m == 1 {}
        }
    } else if j == 7 {
        assert(office_help()[21] == office_command_block(7)[0]);
        assert(office_help()[22] == office_command_block(7)[1]);
        assert(office_help()[23] == ""@);
        assert forall|m: int| 0 <= m < 2 implies office_help()[21 + m] == #[trigger] office_command_block(7)[m] by {
            if m == 0 {}
            if m == 1 {}
        }
    } else if j == 8 {
        assert(office_help()[24] == office_command_block(8)[0]);
        assert(office_help()[25] == office_command_block(8)[1]);
        assert(office_help()[26] == ""@);
        assert forall|m: int| 0 <= m < 2 implies office_help()[24 + m] == #[trigger] office_command_block(8)[m] by {
            if m == 0 {}
            if m == 1 {}
        }
    } else if j == 9 {
        assert(office_help()[27] == office_command_block(9)[0]);
        assert(office_help()[28] == office_command_block(9)[1]);
        assert(office_help()[29] == ""@);
        assert forall|m: int| 0 <= m < 2 implies office_help()[27 + m] == #[trigger] office_command_block(9)[m] by {
            if m == 0 {}
            if m == 1 {}
        }
    }
}

proof fn lemma_blocks_10_19(j: nat)
    requires
        10 <= j < 20,
    ensures
        block_in_help(j),
{
    if j == 10 {
        assert(office_help()[30] == office_command_block(10)[0]);
        assert(office_help()[31] == office_command_block(10)[1]);
        assert(office_help()[32] == ""@);
        assert forall|m: int| 0 <= m < 2 implies office_help()[30 + m] == #[trigger] office_command_block(10)[m] by {
            if m == 0 {}
            if m == 1 {}
        }
    } else if j == 11 {
        assert(office_help()[33] == office_command_block(11)[0]);
        assert(office_help()[34] == office_command_block(11)[1]);
        assert(office_help()[35] == ""@);
        assert forall|m: int| 0 <= m < 2 implies office_help()[33 + m] == #[trigger] office_command_block(11)[m] by {
            if m == 0 {}
            if m == 1 {}
        }
    } else if j == 12 {
        assert(office_help()[36] == office_command_block(12)[0]);
        assert(office_help()[37] == office_command_block(12)[1]);
        assert(office_help()[38] == ""@);
        assert forall|m: int| 0 <= m < 2 implies office_help()[36 + m] == #[trigger] office_command_block(12)[m] by {
            if m == 0 {}
            if m == 1 {}
        }
    } else if j == 13 {
        assert(office_help()[39] == office_command_block(13)[0]);
        assert(office_help()[40] == office_command_block(13)[1]);
        assert(office_help()[41] == ""@);
        assert forall|m: int| 0 <= m < 2 implies office_help()[39 + m] == #[trigger] office_command_block(13)[m] by {
            if m == 0 {}
            if m == 1 {}
        }
    } else if j == 14 {
        assert(office_help()[42] == office_command_block(14)[0]);
        assert(office_help()[43] == office_command_block(14)[1]);
        assert(office_help()[44] == ""@);
        assert forall|m: int| 0 <= m < 2 implies office_help()[42 + m] == #[trigger] office_command_block(14)[m] by {
            if m == 0 {}
            if m == 1 {}
        }
    } else if j == 15 {
        assert(office_help()[45] == office_command_block(15)[0]);
        assert(office_help()[46] == office_command_block(15)[1]);
        assert(office_help()[47] == ""@);
        assert forall|m: int| 0 <= m < 2 implies office_help()[45 + m] == #[trigger] office_command_block(15)[m] by {
            if m == 0 {}
            if m == 1 {}
        }
    } else if j == 16 {
        assert(office_help()[48] == office_command_block(16)[0]);
        assert(office_help()[49] == office_command_block(16)[1]);
        assert(office_help()[50] == ""@);
        assert forall|m: int| 0 <= m < 2 implies office_help()[48 + m] == #[trigger] office_command_block(16)[m] by {
            if m == 0 {}
            if m == 1 {}
        }
    } else if j == 17 {
        assert(office_help()[51] == office_command_block(17)[0]);
        assert(office_help()[52] == office_command_block(17)[1]);
        assert(office_help()[53] == ""@);
        assert forall|m: int| 0 <= m < 2 implies office_help()[51 + m] == #[trigger] office_command_block(17)[m] by {
            if m == 0 {}
            if m == 1 {}
        }
    } else if j == 18 {
        assert(office_help()[54] == office_command_block(18)[0]);
        assert(office_help()[55] == office_command_block(18)[1]);
        assert(office_help()[56] == ""@);
        assert forall|m: int| 0 <= m < 2 implies office_help()[54 + m] == #[trigger] office_command_block(18)[m] by {
            if m == 0 {}
            if m == 1 {}
        }
    } else if j == 19 {
        assert(office_help()[57] == office_command_block(19)[0]);
        assert(office_help()[58] == office_command_block(19)[1]);
        assert(office_help()[59] == ""@);
        assert forall|m: int| 0 <= m < 2 implies office_help()[57 + m] == #[trigger] office_command_block(19)[m] by {
            if m == 0 {}
            if m == 1 {}
        }
    }
}

proof fn lemma_blocks_20_29(j: nat)
    requires
        20 <= j < 30,
    ensures
        block_in_help(j),
{
    if j == 20 {
        assert(office_help()[60] == office_command_block(20)[0]);
        assert(office_help()[61] == office_command_block(20)[1]);
        assert(office_help()[62] == ""@);
        assert forall|m: int| 0 <= m < 2 implies office_help()[60 + m] == #[trigger] office_command_block(20)[m] by {
            if m == 0 {}
            if m == 1 {}
        }
    } else if j == 21 {
        assert(office_help()[63] == office_command_block(21)[0]);
        assert(office_help()[64] == office_command_block(21)[1]);
        assert(office_help()[65] == ""@);
        assert forall|m: int| 0 <= m < 2 implies office_help()[63 + m] == #[trigger] office_command_block(21)[m] by {
            if m == 0 {}
            if m == 1 {}
        }
    } else if j == 22 {
        assert(office_help()[66] == office_command_block(22)[0]);
        assert(office_help()[67] == office_command_block(22)[1]);
        assert(office_help()[68] == ""@);
        assert forall|m: int| 0 <= m < 2 implies office_help()[66 + m] == #[trigger] office_command_block(22)[m] by {
            if m == 0 {}
            if m == 1 {}
        }
    } else if j == 23 {
        assert(office_help()[69] == office_command_block(23)[0]);
        assert(office_help()[70] == office_command_block(23)[1]);
        assert(office_help()[71] == ""@);
        assert forall|m: int| 0 <= m < 2 implies office_help()[69 + m] == #[trigger] office_command_block(23)[m] by {
            if m == 0 {}
            if m == 1 {}
        }
    } else if j == 24 {
        assert(office_help()[72] == office_command_block(24)[0]);
        assert(office_help()[73] == office_command_block(24)[1]);
        assert(office_help()[74] == ""@);
        assert forall|m: int| 0 <= m < 2 implies office_help()[72 + m] == #[trigger] office_command_block(24)[m] by {
            if m == 0 {}
            if m == 1 {}
        }
    } else if j == 25 {
        assert(office_help()[75] == office_command_block(25)[0]);
        assert(office_help()[76] == office_command_block(25)[1]);
        assert(office_help()[77] == ""@);
        assert forall|m: int| 0 <= m < 2 implies office_help()[75 + m] == #[trigger] office_command_block(25)[m] by {
            if m == 0 {}
            if m == 1 {}
        }
    } else if j == 26 {
        assert(office_help()[78] == office_command_block(26)[0]);
        assert(office_help()[79] == office_command_block(26)[1]);
        assert(office_help()[80] == ""@);
        assert forall|m: int| 0 <= m < 2 implies office_help()[78 + m] == #[trigger] office_command_block(26)[m] by {
            if m == 0 {}
            if m == 1 {}
        }
    } else if j == 27 {
        assert(office_help()[81] == office_command_block(27)[0]);
        assert(office_help()[82] == office_command_block(27)[1]);
        assert(office_help()[83] == ""@);
        assert forall|m: int| 0 <= m < 2 implies office_help()[81 + m] == #[trigger] office_command_block(27)[m] by {
            if m == 0 {}
            if m == 1 {}
        }
    } else if j == 28 {
        assert(office_help()[84] == office_command_block(28)[0]);
        assert(office_help()[85] == office_command_block(28)[1]);
        assert(office_help()[86] == ""@);
        assert forall|m: int| 0 <= m < 2 implies office_help()[84 + m] == #[trigger] office_command_block(28)[m] by {
            if m == 0 {}
            if m == 1 {}
        }
    } else if j == 29 {
        assert(office_help()[87] == office_command_block(29)[0]);
        assert(office_help()[88] == office_command_block(29)[1]);
        assert(office_help()[89] == ""@);
        assert forall|m: int| 0 <= m < 2 implies office_help()[87 + m] == #[trigger] office_command_block(29)[m] by {
            if m == 0 {}
            if m == 1 {}
        }
    }
}

proof fn lemma_blocks_30_39(j: nat)
    requires
        30 <= j < 40,
    ensures
        block_in_help(j),
{
    if j == 30 {
        assert(office_help()[90] == office_command_block(30)[0]);
        assert(office_help()[91] == office_command_block(30)[1]);
        assert(office_help()[92] == ""@);
        assert forall|m: int| 0 <= m < 2 implies office_help()[90 + m] == #[trigger] office_command_block(30)[m] by {
            if m == 0 {}
            if m == 1 {}
        }
    } else if j == 31 {
        assert(office_help()[93] == office_command_block(31)[0]);
        assert(office_help()[94] == office_command_block(31)[1]);
        assert(office_help()[95] == ""@);
        assert forall|m: int| 0 <= m < 2 implies office_help()[93 + m] == #[trigger] office_command_block(31)[m] by {
            if m == 0 {}
            if m == 1 {}
        }
    } else if j == 32 {
        assert(office_help()[96] == office_command_block(32)[0]);
        assert(office_help()[97] == office_command_block(32)[1]);
        assert(office_help()[98] == ""@);
        assert forall|m: int| 0 <= m < 2 implies office_help()[96 + m] == #[trigger] office_command_block(32)[m] by {
            if m == 0 {}
            if m == 1 {}
        }
    } else if j == 33 {
        assert(office_help()[99] == office_command_block(33)[0]);
        assert(office_help()[100] == office_command_block(33)[1]);
        assert(office_help()[101] == ""@);
        assert forall|m: int| 0 <= m < 2 implies office_help()[99 + m] == #[trigger] office_command_block(33)[m] by {
            if m == 0 {}
            if m == 1 {}
        }
    } else if j == 34 {
        assert(office_help()[102] == office_command_block(34)[0]);
        assert(office_help()[103] == office_command_block(34)[1]);
        assert(office_help()[104] == ""@);
        assert forall|m: int| 0 <= m < 2 implies office_help()[102 + m] == #[trigger] office_command_block(34)[m] by {
            if m == 0 {}
            if m == 1 {}
        }
    } else if j == 35 {
        assert(office_help()[105] == office_command_block(35)[0]);
        assert(office_help()[106] == office_command_block(35)[1]);
        assert(office_help()[107] == ""@);
        assert forall|m: int| 0 <= m < 2 implies office_help()[105 + m] == #[trigger] office_command_block(35)[m] by {
            if m == 0 {}
            if m == 1 {}
        }
    } else if j == 36 {
        assert(office_help()[108] == office_command_block(36)[0]);
        assert(office_help()[109] == office_command_block(36)[1]);
        assert(office_help()[110] == ""@);
        assert forall|m: int| 0 <= m < 2 implies office_help()[108 + m] == #[trigger] office_command_block(36)[m] by {
            if m == 0 {}
            if m == 1 {}
        }
    } else if j == 37 {
        assert(office_help()[111] == office_command_block(37)[0]);
        assert(office_help()[112] == office_command_block(37)[1]);
        assert(office_help()[113] == ""@);
        assert forall|m: int| 0 <= m < 2 implies office_help()[111 + m] == #[trigger] office_command_block(37)[m] by {
            if m == 0 {}
            if m == 1 {}
        }
    } else if j == 38 {
        assert(office_help()[114] == office_command_block(38)[0]);
        assert(office_help()[115] == office_command_block(38)[1]);
        assert(office_help()[116] == ""@);
        assert forall|m: int| 0 <= m < 2 implies office_help()[114 + m] == #[trigger] office_command_block(38)[m] by {
            if m == 0 {}
            if m == 1 {}
        }
    } else if j == 39 {
        assert(office_help()[117] == office_command_block(39)[0]);
        assert(office_help()[118] == office_command_block(39)[1]);
        assert(office_help()[119] == ""@);
        assert forall|m: int| 0 <= m < 2 implies office_help()[117 + m] == #[trigger] office_command_block(39)[m] by {
            if m == 0 {}
            if m == 1 {}
        }
    }
}

proof fn lemma_blocks_40_49(j: nat)
    requires
        40 <= j < 50,
    ensures
        block_in_help(j),
{
    if j == 40 {
        assert(office_help()[120] == office_command_block(40)[0]);
        assert(office_help()[121] == office_command_block(40)[1]);
        assert(office_help()[122] == ""@);
        assert forall|m: int| 0 <= m < 2 implies office_help()[120 + m] == #[trigger] office_command_block(40)[m] by {
            if m == 0 {}
            if m == 1 {}
        }
    } else if j == 41 {
        assert(office_help()[123] == office_command_block(41)[0]);
        assert(office_help()[124] == office_command_block(41)[1]);
        assert(office_help()[125] == ""@);
        assert forall|m: int| 0 <= m < 2 implies office_help()[123 + m] == #[trigger] office_command_block(41)[m] by {
            if m == 0 {}
            if m == 1 {}
        }
    } else if j == 42 {
        assert(office_help()[126] == office_command_block(42)[0]);
        assert(office_help()[127] == office_command_block(42)[1]);
        assert(office_help()[128] == ""@);
        assert forall|m: int| 0 <= m < 2 implies office_help()[126 + m] == #[trigger] office_command_block(42)[m] by {
            if m == 0 {}
            if m == 1 {}
        }
    } else if j == 43 {
        assert(office_help()[129] == office_command_block(43)[0]);
        assert(office_help()[130] == office_command_block(43)[1]);
        assert(office_help()[131] == ""@);
        assert forall|m: int| 0 <= m < 2 implies office_help()[129 + m] == #[trigger] office_command_block(43)[m] by {
            if m == 0 {}
            if m == 1 {}
        }
    } else if j == 44 {
        assert(office_help()[132] == office_command_block(44)[0]);
        assert(office_help()[133] == office_command_block(44)[1]);
        assert(office_help()[134] == office_command_block(44)[2]);
        assert(office_help()[135] == ""@);
        assert forall|m: int| 0 <= m < 3 implies office_help()[132 + m] == #[trigger] office_command_block(44)[m] by {
            if m == 0 {}
            if m == 1 {}
            if m == 2 {}
        }
    } else if j == 45 {
        assert(office_help()[136] == office_command_block(45)[0]);
        assert(office_help()[137] == office_command_block(45)[1]);
        assert(office_help()[138] == ""@);
        assert forall|m: int| 0 <= m < 2 implies office_help()[136 + m] == #[trigger] office_command_block(45)[m] by {
            if m == 0 {}
            if m == 1 {}
        }
    } else if j == 46 {
        assert(office_help()[139] == office_command_block(46)[0]);
        assert(office_help()[140] == office_command_block(46)[1]);
        assert(office_help()[141] == ""@);
        assert forall|m: int| 0 <= m < 2 implies office_help()[139 + m] == #[trigger] office_command_block(46)[m] by {
            if m == 0 {}
            if m == 1 {}
        }
    } else if j == 47 {
        assert(office_help()[142] == office_command_block(47)[0]);
        assert(office_help()[143] == office_command_block(47)[1]);
        assert(office_help()[144] == ""@);
        assert forall|m: int| 0 <= m < 2 implies office_help()[142 + m] == #[trigger] office_command_block(47)[m] by {
            if m == 0 {}
            if m == 1 {}
        }
    } else if j == 48 {
        assert(office_help()[145] == office_command_block(48)[0]);
        assert(office_help()[146] == office_command_block(48)[1]);
        assert(office_help()[147] == ""@);
        assert forall|m: int| 0 <= m < 2 implies office_help()[145 + m] == #[trigger] office_command_block(48)[m] by {
            if m == 0 {}
            if m == 1 {}
        }
    } else if j == 49 {
        assert(office_help()[148] == office_command_block(49)[0]);
        assert(office_help()[149] == office_command_block(49)[1]);
        assert(office_help()[150] == office_command_block(49)[2]);
        assert(office_help()[151] == ""@);
        assert forall|m: int| 0 <= m < 3 implies office_help()[148 + m] == #[trigger] office_command_block(49)[m] by {
            if m == 0 {}
            if m == 1 {}
            if m == 2 {}
        }
    }
}

proof fn lemma_blocks_50_59(j: nat)
    requires
        50 <= j < 60,
    ensures
        block_in_help(j),
{
    if j == 50 {
        assert(office_help()[152] == office_command_block(50)[0]);
        assert(office_help()[153] == office_command_block(50)[1]);
        assert(office_help()[154] == ""@);
        assert forall|m: int| 0 <= m < 2 implies office_help()[152 + m] == #[trigger] office_command_block(50)[m] by {
            if m == 0 {}
            if m == 1 {}
        }
    } else if j == 51 {
        assert(office_help()[155] == office_command_block(51)[0]);
        assert(office_help()[156] == office_command_block(51)[1]);
        assert(office_help()[157] == ""@);
        assert forall|m: int| 0 <= m < 2 implies office_help()[155 + m] == #[trigger] office_command_block(51)[m] by {
            if m == 0 {}
            if m == 1 {}
        }
    } else if j == 52 {
        assert(office_help()[158] == office_command_block(52)[0]);
        assert(office_help()[159] == office_command_block(52)[1]);
        assert(office_help()[160] == ""@);
        assert forall|m: int| 0 <= m < 2 implies office_help()[158 + m] == #[trigger] office_command_block(52)[m] by {
            if m == 0 {}
            if m == 1 {}
        }
    } else if j == 53 {
        assert(office_help()[161] == office_command_block(53)[0]);
        assert(office_help()[162] == office_command_block(53)[1]);
        assert(office_help()[163] == ""@);
        assert forall|m: int| 0 <= m < 2 implies office_help()[161 + m] == #[trigger] office_command_block(53)[m] by {
            if m == 0 {}
            if m == 1 {}
        }
    } else if j == 54 {
        assert(office_help()[164] == office_command_block(54)[0]);
        assert(office_help()[165] == office_command_block(54)[1]);
        assert(office_help()[166] == ""@);
        assert forall|m: int| 0 <= m < 2 implies office_help()[164 + m] == #[trigger] office_command_block(54)[m] by {
            if m == 0 {}
            if m == 1 {}
        }
    } else if j == 55 {
        assert(office_help()[167] == office_command_block(55)[0]);
        assert(office_help()[168] == office_command_block(55)[1]);
        assert(office_help()[169] == ""@);
        assert forall|m: int| 0 <= m < 2 implies office_help()[167 + m] == #[trigger] office_command_block(55)[m] by {
            if m == 0 {}
            if m == 1 {}
        }
    } else if j == 56 {
        assert(office_help()[170] == office_command_block(56)[0]);
        assert(office_help()[171] == office_command_block(56)[1]);
        assert(office_help()[172] == ""@);
        assert forall|m: int| 0 <= m < 2 implies office_help()[170 + m] == #[trigger] office_command_block(56)[m] by {
            if m == 0 {}
            if m == 1 {}
        }
    } else if j == 57 {
        assert(office_help()[173] == office_command_block(57)[0]);
        assert(office_help()[174] == office_command_block(57)[1]);
        assert(office_help()[175] == ""@);
        assert forall|m: int| 0 <= m < 2 implies office_help()[173 + m] == #[trigger] office_command_block(57)[m] by {
            if m == 0 {}
            if m == 1 {}
        }
    } else if j == 58 {
        assert(office_help()[176] == office_command_block(58)[0]);
        assert(office_help()[177] == office_command_block(58)[1]);
        assert(office_help()[178] == ""@);
        assert forall|m: int| 0 <= m < 2 implies office_help()[176 + m] == #[trigger] office_command_block(58)[m] by {
            if m == 0 {}
            if m == 1 {}
        }
    } else if j == 59 {
        assert(office_help()[179] == office_command_block(59)[0]);
        assert(office_help()[180] == office_command_block(59)[1]);
        assert(office_help()[181] == ""@);
        assert forall|m: int| 0 <= m < 2 implies office_help()[179 + m] == #[trigger] office_command_block(59)[m] by {
            if m == 0 {}
            if m == 1 {}
        }
    }
}

proof fn lemma_blocks_60_69(j: nat)
    requires
        60 <= j < 70,
    ensures
        block_in_help(j),
{
    if j == 60 {
        assert(office_help()[182] == office_command_block(60)[0]);
        assert(office_help()[183] == office_command_block(60)[1]);
        assert(office_help()[184] == ""@);
        assert forall|m: int| 0 <= m < 2 implies office_help()[182 + m] == #[trigger] office_command_block(60)[m] by {
            if m == 0 {}
            if m == 1 {}
        }
    } else if j == 61 {
        assert(office_help()[185] == office_command_block(61)[0]);
        assert(office_help()[186] == office_command_block(61)[1]);
        assert(office_help()[187] == ""@);
        assert forall|m: int| 0 <= m < 2 implies office_help()[185 + m] == #[trigger] office_command_block(61)[m] by {
            if m == 0 {}
            if m == 1 {}
        }
    } else if j == 62 {
        assert(office_help()[188] == office_command_block(62)[0]);
        assert(office_help()[189] == office_command_block(62)[1]);
        assert(office_help()[190] == office_command_block(62)[2]);
        assert(office_help()[191] == office_command_block(62)[3]);
        assert(office_help()[192] == ""@);
        assert forall|m: int| 0 <= m < 4 implies office_help()[188 + m] == #[trigger] office_command_block(62)[m] by {
            if m == 0 {}
            if m == 1 {}
            if m == 2 {}
            if m == 3 {}
        }
    } else if j == 63 {
        assert(office_help()[193] == office_command_block(63)[0]);
        assert(office_help()[194] == office_command_block(63)[1]);
        assert(office_help()[195] == ""@);
        assert forall|m: int| 0 <= m < 2 implies office_help()[193 + m] == #[trigger] office_command_block(63)[m] by {
            if m == 0 {}
            if m == 1 {}
        }
    } else if j == 64 {
        assert(office_help()[196] == office_command_block(64)[0]);
        assert(office_help()[197] == office_command_block(64)[1]);
        assert(office_help()[198] == ""@);
        assert forall|m: int| 0 <= m < 2 implies office_help()[196 + m] == #[trigger] office_command_block(64)[m] by {
            if m == 0 {}
            if m == 1 {}
        }
    } else if j == 65 {
        assert(office_help()[199] == office_command_block(65)[0]);
        assert(office_help()[200] == office_command_block(65)[1]);
        assert(office_help()[201] == ""@);
        assert forall|m: int| 0 <= m < 2 implies office_help()[199 + m] == #[trigger] office_command_block(65)[m] by {
            if m == 0 {}
            if m == 1 {}
        }
    } else if j == 66 {
        assert(office_help()[202] == office_command_block(66)[0]);
        assert(office_help()[203] == office_command_block(66)[1]);
        assert(office_help()[204] == office_command_block(66)[2]);
        assert(office_help()[205] == ""@);
        assert forall|m: int| 0 <= m < 3 implies office_help()[202 + m] == #[trigger] office_command_block(66)[m] by {
            if m == 0 {}
            if m == 1 {}
            if m == 2 {}
        }
    } else if j == 67 {
        assert(office_help()[206] == office_command_block(67)[0]);
        assert(office_help()[207] == office_command_block(67)[1]);
        assert(office_help()[208] == ""@);
        assert forall|m: int| 0 <= m < 2 implies office_help()[206 + m] == #[trigger] office_command_block(67)[m] by {
            if m == 0 {}
            if m == 1 {}
        }
    } else if j == 68 {
        assert(office_help()[209] == office_command_block(68)[0]);
        assert(office_help()[210] == office_command_block(68)[1]);
        assert(office_help()[211] == ""@);
        assert forall|m: int| 0 <= m < 2 implies office_help()[209 + m] == #[trigger] office_command_block(68)[m] by {
            if m == 0 {}
            if m == 1 {}
        }
    } else if j == 69 {
        assert(office_help()[212] == office_command_block(69)[0]);
        assert(office_help()[213] == office_command_block(69)[1]);
        assert(office_help()[214] == ""@);
        assert forall|m: int| 0 <= m < 2 implies office_help()[212 + m] == #[trigger] office_command_block(69)[m] by {
            if m == 0 {}
            if m == 1 {}
        }
    }
}

proof fn lemma_blocks_70_79(j: nat)
    requires
        70 <= j < 80,
    ensures
        block_in_help(j),
{
    if j == 70 {
        assert(office_help()[215] == office_command_block(70)[0]);
        assert(office_help()[216] == office_command_block(70)[1]);
        assert(office_help()[217] == ""@);
        assert forall|m: int| 0 <= m < 2 implies office_help()[215 + m] == #[trigger] office_command_block(70)[m] by {
            if m == 0 {}
            if m == 1 {}
        }
    } else if j == 71 {
        assert(office_help()[218] == office_command_block(71)[0]);
        assert(office_help()[219] == office_command_block(71)[1]);
        assert(office_help()[220] == ""@);
        assert forall|m: int| 0 <= m < 2 implies office_help()[218 + m] == #[trigger] office_command_block(71)[m] by {
            if m == 0 {}
            if m == 1 {}
        }
    } else if j == 72 {
        assert(office_help()[221] == office_command_block(72)[0]);
        assert(office_help()[222] == office_command_block(72)[1]);
        assert(office_help()[223] == ""@);
        assert forall|m: int| 0 <= m < 2 implies office_help()[221 + m] == #[trigger] office_command_block(72)[m] by {
            if m == 0 {}
            if m == 1 {}
        }
    } else if j == 73 {
        assert(office_help()[224] == office_command_block(73)[0]);
        assert(office_help()[225] == office_command_block(73)[1]);
        assert(office_help()[226] == ""@);
        assert forall|m: int| 0 <= m < 2 implies office_help()[224 + m] == #[trigger] office_command_block(73)[m] by {
            if m == 0 {}
            if m == 1 {}
        }
    } else if j == 74 {
        assert(office_help()[227] == office_command_block(74)[0]);
        assert(office_help()[228] == office_command_block(74)[1]);
        assert(office_help()[229] == ""@);
        assert forall|m: int| 0 <= m < 2 implies office_help()[227 + m] == #[trigger] office_command_block(74)[m] by {
            if m == 0 {}
            if m == 1 {}
        }
    } else if j == 75 {
        assert(office_help()[230] == office_command_block(75)[0]);
        assert(office_help()[231] == office_command_block(75)[1]);
        assert(office_help()[232] == ""@);
        assert forall|m: int| 0 <= m < 2 implies office_help()[230 + m] == #[trigger] office_command_block(75)[m] by {
            if m == 0 {}
            if m == 1 {}
        }
    } else if j == 76 {
        assert(office_help()[233] == office_command_block(76)[0]);
        assert(office_help()[234] == office_command_block(76)[1]);
        assert(office_help()[235] == ""@);
        assert forall|m: int| 0 <= m < 2 implies office_help()[233 + m] == #[trigger] office_command_block(76)[m] by {
            if m == 0 {}
            if m == 1 {}
        }
    } else if j == 77 {
        assert(office_help()[236] == office_command_block(77)[0]);
        assert(office_help()[237] == office_command_block(77)[1]);
        assert(office_help()[238] == ""@);
        assert forall|m: int| 0 <= m < 2 implies office_help()[236 + m] == #[trigger] office_command_block(77)[m] by {
            if m == 0 {}
            if m == 1 {}
        }
    } else if j == 78 {
        assert(office_help()[239] == office_command_block(78)[0]);
        assert(office_help()[240] == office_command_block(78)[1]);
        assert(office_help()[241] == ""@);
        assert forall|m: int| 0 <= m < 2 implies office_help()[239 + m] == #[trigger] office_command_block(78)[m] by {
            if m == 0 {}
            if m == 1 {}
        }
    } else if j == 79 {
        assert(office_help()[242] == office_command_block(79)[0]);
        assert(office_help()[243] == office_command_block(79)[1]);
        assert(office_help()[244] == ""@);
        assert forall|m: int| 0 <= m < 2 implies office_help()[242 + m] == #[trigger] office_command_block(79)[m] by {
            if m == 0 {}
            if m == 1 {}
        }
    }
}

proof fn lemma_blocks_80_89(j: nat)
    requires
        80 <= j < 90,
    ensures
        block_in_help(j),
{
    if j == 80 {
        assert(office_help()[245] == office_command_block(80)[0]);
        assert(office_help()[246] == office_command_block(80)[1]);
        assert(office_help()[247] == ""@);
        assert forall|m: int| 0 <= m < 2 implies office_help()[245 + m] == #[trigger] office_command_block(80)[m] by {
            if m == 0 {}
            if m == 1 {}
        }
    } else if j == 81 {
        assert(office_help()[248] == office_command_block(81)[0]);
        assert(office_help()[249] == office_command_block(81)[1]);
        assert(office_help()[250] == ""@);
        assert forall|m: int| 0 <= m < 2 implies office_help()[248 + m] == #[trigger] office_command_block(81)[m] by {
            if m == 0 {}
            if m == 1 {}
        }
    } else if j == 82 {
        assert(office_help()[251] == office_command_block(82)[0]);
        assert(office_help()[252] == office_command_block(82)[1]);
        assert(office_help()[253] == ""@);
        assert forall|m: int| 0 <= m < 2 implies office_help()[251 + m] == #[trigger] office_command_block(82)[m] by {
            if m == 0 {}
            if m == 1 {}
        }
    } else if j == 83 {
        assert(office_help()[254] == office_command_block(83)[0]);
        assert(office_help()[255] == office_command_block(83)[1]);
        assert(office_help()[256] == ""@);
        assert forall|m: int| 0 <= m < 2 implies office_help()[254 + m] == #[trigger] office_command_block(83)[m] by {
            if m == 0 {}
            if m == 1 {}
        }
    } else if j == 84 {
        assert(office_help()[257] == office_command_block(84)[0]);
        assert(office_help()[258] == office_command_block(84)[1]);
        assert(office_help()[259] == ""@);
        assert forall|m: int| 0 <= m < 2 implies office_help()[257 + m] == #[trigger] office_command_block(84)[m] by {
            if m == 0 {}
            if m == 1 {}
        }
    } else if j == 85 {
        assert(office_help()[260] == office_command_block(85)[0]);
        assert(office_help()[261] == office_command_block(85)[1]);
        assert(office_help()[262] == office_command_block(85)[2]);
        assert(office_help()[263] == office_command_block(85)[3]);
        assert(office_help()[264] == office_command_block(85)[4]);
        assert(office_help()[265] == ""@);
        assert forall|m: int| 0 <= m < 5 implies office_help()[260 + m] == #[trigger] office_command_block(85)[m] by {
            if m == 0 {}
            if m == 1 {}
            if m == 2 {}
            if m == 3 {}
            if m == 4 {}
        }
    } else if j == 86 {
        assert(office_help()[266] == office_command_block(86)[0]);
        assert(office_help()[267] == office_command_block(86)[1]);
        assert(office_help()[268] == ""@);
        assert forall|m: int| 0 <= m < 2 implies office_help()[266 + m] == #[trigger] office_command_block(86)[m] by {
            if m == 0 {}
            if m == 1 {}
        }
    } else if j == 87 {
        assert(office_help()[269] == office_command_block(87)[0]);
        assert(office_help()[270] == office_command_block(87)[1]);
        assert(office_help()[271] == ""@);
        assert forall|m: int| 0 <= m < 2 implies office_help()[269 + m] == #[trigger] office_command_block(87)[m] by {
            if m == 0 {}
            if m == 1 {}
        }
    } else if j == 88 {
        assert(office_help()[272] == office_command_block(88)[0]);
        assert(office_help()[273] == office_command_block(88)[1]);
        assert(office_help()[274] == ""@);
        assert forall|m: int| 0 <= m < 2 implies office_help()[272 + m] == #[trigger] office_command_block(88)[m] by {
            if m == 0 {}
            if m == 1 {}
        }
    } else if j == 89 {
        assert(office_help()[275] == office_command_block(89)[0]);
        assert(office_help()[276] == office_command_block(89)[1]);
        assert(office_help()[277] == ""@);
        assert forall|m: int| 0 <= m < 2 implies office_help()[275 + m] == #[trigger] office_command_block(89)[m] by {
            if m == 0 {}
            if m == 1 {}
        }
    }
}

proof fn lemma_blocks_90_99(j: nat)
    requires
        90 <= j < 100,
    ensures
        block_in_help(j),
{
    if j == 90 {
        assert(office_help()[278] == office_command_block(90)[0]);
        assert(office_help()[279] == office_command_block(90)[1]);
        assert(office_help()[280] == ""@);
        assert forall|m: int| 0 <= m < 2 implies office_help()[278 + m] == #[trigger] office_command_block(90)[m] by {
            if m == 0 {}
            if m == 1 {}
        }
    } else if j == 91 {
        assert(office_help()[281] == office_command_block(91)[0]);
        assert(office_help()[282] == office_command_block(91)[1]);
        assert(office_help()[283] == ""@);
        assert forall|m: int| 0 <= m < 2 implies office_help()[281 + m] == #[trigger] office_command_block(91)[m] by {
            if m == 0 {}
            if m == 1 {}
        }
    } else if j == 92 {
        assert(office_help()[284] == office_command_block(92)[0]);
        assert(office_help()[285] == office_command_block(92)[1]);
        assert(office_help()[286] == ""@);
        assert forall|m: int| 0 <= m < 2 implies office_help()[284 + m] == #[trigger] office_command_block(92)[m] by {
            if m == 0 {}
            if m == 1 {}
        }
    } else if j == 93 {
        assert(office_help()[287] == office_command_block(93)[0]);
        assert(office_help()[288] == office_command_block(93)[1]);
        assert(office_help()[289] == ""@);
        assert forall|m: int| 0 <= m < 2 implies office_help()[287 + m] == #[trigger] office_command_block(93)[m] by {
            if m == 0 {}
            if m == 1 {}
        }
    } else if j == 94 {
        assert(office_help()[290] == office_command_block(94)[0]);
        assert(office_help()[291] == office_command_block(94)[1]);
        assert(office_help()[292] == ""@);
        assert forall|m: int| 0 <= m < 2 implies office_help()[290 + m] == #[trigger] office_command_block(94)[m] by {
            if m == 0 {}
            if m == 1 {}
        }
    } else if j == 95 {
        assert(office_help()[293] == office_command_block(95)[0]);
        assert(office_help()[294] == office_command_block(95)[1]);
        assert(office_help()[295] == ""@);
        assert forall|m: int| 0 <= m < 2 implies office_help()[293 + m] == #[trigger] office_command_block(95)[m] by {
            if m == 0 {}
            if m == 1 {}
        }
    } else if j == 96 {
        assert(office_help()[296] == office_command_block(96)[0]);
        assert(office_help()[297] == office_command_block(96)[1]);
        assert(office_help()[298] == ""@);
        assert forall|m: int| 0 <= m < 2 implies office_help()[296 + m] == #[trigger] office_command_block(96)[m] by {
            if m == 0 {}
            if m == 1 {}
        }
    } else if j == 97 {
        assert(office_help()[299] == office_command_block(97)[0]);
        assert(office_help()[300] == office_command_block(97)[1]);
        assert(office_help()[301] == ""@);
        assert forall|m: int| 0 <= m < 2 implies office_help()[299 + m] == #[trigger] office_command_block(97)[m] by {
            if m == 0 {}
            if m == 1 {}
        }
    } else if j == 98 {
        assert(office_help()[302] == office_command_block(98)[0]);
        assert(office_help()[303] == office_command_block(98)[1]);
        assert(office_help()[304] == ""@);
        assert forall|m: int| 0 <= m < 2 implies office_help()[302 + m] == #[trigger] office_command_block(98)[m] by {
            if m == 0 {}
            if m == 1 {}
        }
    } else if j == 99 {
        assert(office_help()[305] == office_command_block(99)[0]);
        assert(office_help()[306] == office_command_block(99)[1]);
        assert(office_help()[307] == ""@);
        assert forall|m: int| 0 <= m < 2 implies office_help()[305 + m] == #[trigger] office_command_block(99)[m] by {
            if m == 0 {}
            if m == 1 {}
        }
    }
}

proof fn lemma_blocks_100_109(j: nat)
    requires
        100 <= j < 110,
    ensures
        block_in_help(j),
{
    if j == 100 {
        assert(office_help()[308] == office_command_block(100)[0]);
        assert(office_help()[309] == office_command_block(100)[1]);
        assert(office_help()[310] == ""@);
        assert forall|m: int| 0 <= m < 2 implies office_help()[308 + m] == #[trigger] office_command_block(100)[m] by {
            if m == 0 {}
            if m == 1 {}
        }
    } else if j == 101 {
        assert(office_help()[311] == office_command_block(101)[0]);
        assert(office_help()[312] == office_command_block(101)[1]);
        assert(office_help()[313] == ""@);
        assert forall|m: int| 0 <= m < 2 implies office_help()[311 + m] == #[trigger] office_command_block(101)[m] by {
            if m == 0 {}
            if m == 1 {}
        }
    } else if j == 102 {
        assert(office_help()[314] == office_command_block(102)[0]);
        assert(office_help()[315] == office_command_block(102)[1]);
        assert(office_help()[316] == ""@);
        assert forall|m: int| 0 <= m < 2 implies office_help()[314 + m] == #[trigger] office_command_block(102)[m] by {
            if m == 0 {}
            if m == 1 {}
        }
    } else if j == 103 {
        assert(office_help()[317] == office_command_block(103)[0]);
        assert(office_help()[318] == office_command_block(103)[1]);
        assert(office_help()[319] == ""@);
        assert forall|m: int| 0 <= m < 2 implies office_help()[317 + m] == #[trigger] office_command_block(103)[m] by {
            if m == 0 {}
            if m == 1 {}
        }
    } else if j == 104 {
        assert(office_help()[320] == office_command_block(104)[0]);
        assert(office_help()[321] == office_command_block(104)[1]);
        assert(office_help()[322] == ""@);
        assert forall|m: int| 0 <= m < 2 implies office_help()[320 + m] == #[trigger] office_command_block(104)[m] by {
            if m == 0 {}
            if m == 1 {}
        }
    } else if j == 105 {
        assert(office_help()[323] == office_command_block(105)[0]);
        assert(office_help()[324] == office_command_block(105)[1]);
        assert(office_help()[325] == ""@);
        assert forall|m: int| 0 <= m < 2 implies office_help()[323 + m] == #[trigger] office_command_block(105)[m] by {
            if m == 0 {}
            if m == 1 {}
        }
    } else if j == 106 {
        assert(office_help()[326] == office_command_block(106)[0]);
        assert(office_help()[327] == office_command_block(106)[1]);
        assert(office_help()[328] == ""@);
        assert forall|m: int| 0 <= m < 2 implies office_help()[326 + m] == #[trigger] office_command_block(106)[m] by {
            if m == 0 {}
            if m == 1 {}
        }
    } else if j == 107 {
        assert(office_help()[329] == office_command_block(107)[0]);
        assert(office_help()[330] == office_command_block(107)[1]);
        assert(office_help()[331] == ""@);
        assert forall|m: int| 0 <= m < 2 implies office_help()[329 + m] == #[trigger] office_command_block(107)[m] by {
            if m == 0 {}
            if m == 1 {}
        }
    } else if j == 108 {
        assert(office_help()[332] == office_command_block(108)[0]);
        assert(office_help()[333] == office_command_block(108)[1]);
        assert(office_help()[334] == ""@);
        assert forall|m: int| 0 <= m < 2 implies office_help()[332 + m] == #[trigger] office_command_block(108)[m] by {
            if m == 0 {}
            if m == 1 {}
        }
    } else if j == 109 {
        assert(office_help()[335] == office_command_block(109)[0]);
        assert(office_help()[336] == office_command_block(109)[1]);
        assert(office_help()[337] == ""@);
        assert forall|m: int| 0 <= m < 2 implies office_help()[335 + m] == #[trigger] office_command_block(109)[m] by {
            if m == 0 {}
            if m == 1 {}
        }
    }
}

proof fn lemma_blocks_110_114(j: nat)
    requires
        110 <= j < 115,
    ensures
        block_in_help(j),
{
    if j == 110 {
        assert(office_help()[338] == office_command_block(110)[0]);
        assert(office_help()[339] == office_command_block(110)[1]);
        assert(office_help()[340] == ""@);
        assert forall|m: int| 0 <= m < 2 implies office_help()[338 + m] == #[trigger] office_command_block(110)[m] by {
            if m == 0 {}
            if m == 1 {}
        }
    } else if j == 111 {
        assert(office_help()[341] == office_command_block(111)[0]);
        assert(office_help()[342] == office_command_block(111)[1]);
        assert(office_help()[343] == ""@);
        assert forall|m: int| 0 <= m < 2 implies office_help()[341 + m] == #[trigger] office_command_block(111)[m] by {
            if m == 0 {}
            if m == 1 {}
        }
    } else if j == 112 {
        assert(office_help()[344] == office_command_block(112)[0]);
        assert(office_help()[345] == office_command_block(112)[1]);
        assert(office_help()[346] == ""@);
        assert forall|m: int| 0 <= m < 2 implies office_help()[344 + m] == #[trigger] office_command_block(112)[m] by {
            if m == 0 {}
            if m == 1 {}
        }
    } else if j == 113 {
        assert(office_help()[347] == office_command_block(113)[0]);
        assert(office_help()[348] == office_command_block(113)[1]);
        assert(office_help()[349] == ""@);
        assert forall|m: int| 0 <= m < 2 implies office_help()[347 + m] == #[trigger] office_command_block(113)[m] by {
            if m == 0 {}
            if m == 1 {}
        }
    } else if j == 114 {
        assert(office_help()[350] == office_command_block(114)[0]);
        assert(office_help()[351] == office_command_block(114)[1]);
        assert(office_help()[352] == ""@);
        assert forall|m: int| 0 <= m < 2 implies office_help()[350 + m] == #[trigger] office_command_block(114)[m] by {
            if m == 0 {}
            if m == 1 {}
        }
    }
}

proof fn lemma_block_in_help(j: nat)
    requires
        j < office_block_count(),
    ensures
        block_in_help(j),
{
    if j < 10 {
        lemma_blocks_0_9(j);
    } else if j < 20 {
        lemma_blocks_10_19(j);
    } else if j < 30 {
        lemma_blocks_20_29(j);
    } else if j < 40 {
        lemma_blocks_30_39(j);
    } else if j < 50 {
        lemma_blocks_40_49(j);
    } else if j < 60 {
        lemma_blocks_50_59(j);
    } else if j < 70 {
        lemma_blocks_60_69(j);
    } else if j < 80 {
        lemma_blocks_70_79(j);
    } else if j < 90 {
        lemma_blocks_80_89(j);
    } else if j < 100 {
        lemma_blocks_90_99(j);
    } else if j < 110 {
        lemma_blocks_100_109(j);
    } else if j < 115 {
        lemma_blocks_110_114(j);
    }
}

proof fn lemma_append_lines(acc: Seq<Seq<char>>, block: Seq<Seq<char>>, m: nat)
    requires
        m <= block.len(),
    ensures
        append_lines(acc, block, m) == acc + block.take(m as int),
    decreases m,
{
    if m > 0 {
        lemma_append_lines(acc, block, (m - 1) as nat);
        assert(acc + block.take(m as int) =~= (acc + block.take(m - 1)).push(block[m - 1]));
    } else {
        assert(acc + block.take(0) =~= acc);
    }
}

proof fn lemma_help_prefix(n: nat)
    requires
        n <= office_block_count(),
    ensures
        block_start(n) <= office_help().len(),
        documented_blocks(n) == office_help().take(block_start(n) as int),
    decreases n,
{
    if n == 0 {
        assert(office_help().take(0) =~= Seq::<Seq<char>>::empty());
    } else {
        let j = (n - 1) as nat;
        lemma_help_prefix(j);
        lemma_block_in_help(j);
        lemma_block_start_bound(j);
        let b = office_command_block(j);
        lemma_append_lines(documented_blocks(j), b, b.len());
        assert(b.take(b.len() as int) =~= b);
        let d = documented_blocks(n);
        let h = office_help().take(block_start(n) as int);
        assert(d =~= h) by {
            assert forall|i: int| 0 <= i < d.len() implies d[i] == h[i] by {
                if i < block_start(j) {
                } else if i < block_start(j) + b.len() {
                    assert(d[i] == b[i - block_start(j)]);
                } else {
                }
            }
        }
    }
}

proof fn lemma_block_start_bound(j: nat)
    requires
        j < office_block_count(),
    ensures
        block_start(j + 1) <= office_help().len(),
{
    lemma_block_in_help(j);
    assert(office_help().len() == 353);
}

/// The office help is the documented command blocks, in order, each
/// followed by a blank line: every usage line and description is the one
/// the office commands document (for instance `set-form` takes its value
/// with `--json <값JSON>`).
pub proof fn law_office_help_is_command_blocks()
    ensures
        office_help() == documented_blocks(office_block_count()),
{
    lemma_help_prefix(office_block_count());
    assert(office_help().len() == 353);
    assert(office_help().take(353) =~= office_help());
}

} // verus!
