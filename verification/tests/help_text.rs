use hwpcore::help::{collect, office_help_lines, scoped_help};

#[test]
fn office_nested_cell_commands_keep_scoped_help() {
    for command in [
        "create-hwp",
        "set-cell-text",
        "set-cell-char-format",
        "get-cell-properties",
    ] {
        let lines = collect(command);
        assert!(!lines.is_empty(), "missing help: {command}");
    }
}

#[test]
fn scoped_help_is_the_block_of_the_command() {
    let lines = collect("create-hwp");
    assert_eq!(
        lines,
        vec![
            "  create-hwp --text <텍스트>|--text-file <파일> -o <출력.hwp> [--template <파일.hwp|파일.hwpx>]".to_string(),
            "      새 binary HWP 생성 (빈 HWP 또는 템플릿 기반)".to_string(),
        ]
    );
}

#[test]
fn unknown_command_has_no_help() {
    assert!(collect("no-such-command").is_empty());
    // a prefix of a command name is not that command
    assert!(collect("create").is_empty());
}

#[test]
fn help_text_has_every_line() {
    let lines = office_help_lines();
    assert_eq!(lines.len(), 353);
    assert_eq!(lines[0], "  create-hwp --text <텍스트>|--text-file <파일> -o <출력.hwp> [--template <파일.hwp|파일.hwpx>]");
    assert_eq!(lines[2], "");
}

#[test]
fn scoped_help_takes_the_whole_block_around_the_usage_line() {
    let lines = vec!["  a x", "      about a", "", "  b", "  c y", "      about b and c", ""];
    assert_eq!(scoped_help(&lines, "c"), vec!["  b", "  c y", "      about b and c"]);
    assert_eq!(scoped_help(&lines, "a"), vec!["  a x", "      about a"]);
    assert!(scoped_help(&lines, "about").is_empty());
}
