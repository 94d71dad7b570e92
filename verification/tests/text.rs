use coclash::text::{cycle, display_width, on_off, pad_to, to_snake_case, wrap, wrap_lines, wrap_text};
use coclash::settings_page::MODES;

#[test]
fn test_wrap_around() {
    assert_eq!(wrap(0, 2, 1), 1);
    assert_eq!(wrap(1, 2, 1), 0);
    assert_eq!(wrap(0, 2, -1), 1);
    assert_eq!(wrap(1, 2, -1), 0);
    assert_eq!(wrap(0, 1, 5), 0);
}

#[test]
fn wrap_negative_steps_beyond_length() {
    assert_eq!(wrap(0, 3, -4), 2);
    assert_eq!(wrap(2, 3, -3), 2);
    assert_eq!(wrap(1, 4, 7), 0);
}

#[test]
fn test_display_width() {
    assert_eq!(display_width("SOCKS 端口"), 10);
    assert_eq!(display_width("混合端口"), 8);
    assert_eq!(display_width("abc"), 3);
}

#[test]
fn display_width_empty() {
    assert_eq!(display_width(""), 0);
}

#[test]
fn test_wrap_lines_ascii() {
    let lines = vec!["abcdef".to_string()];
    assert_eq!(wrap_lines(&lines, 3), vec!["abc", "def"]);
}

#[test]
fn test_wrap_lines_cjk() {
    let lines = vec!["中文测试".to_string()];
    assert_eq!(wrap_lines(&lines, 4), vec!["中文", "测试"]);
}

#[test]
fn test_wrap_lines_mixed() {
    let lines = vec!["ab中c".to_string()];
    assert_eq!(wrap_lines(&lines, 4), vec!["ab中", "c"]);
}

#[test]
fn test_wrap_lines_narrow() {
    let lines = vec!["ab".to_string()];
    assert_eq!(wrap_lines(&lines, 1), vec!["a", "b"]);
}

#[test]
fn test_wrap_lines_empty_line_preserved() {
    let lines = vec!["a".to_string(), "".to_string(), "b".to_string()];
    assert_eq!(wrap_lines(&lines, 10), vec!["a", "", "b"]);
}

#[test]
fn test_wrap_lines_zero_width() {
    let lines = vec!["abc".to_string()];
    assert_eq!(wrap_lines(&lines, 0), vec!["abc"]);
}

#[test]
fn test_wrap_lines_exact_fit() {
    let lines = vec!["abcd".to_string()];
    assert_eq!(wrap_lines(&lines, 4), vec!["abcd"]);
}

#[test]
fn wrap_lines_wide_char_alone_when_too_narrow() {
    let lines = vec!["中a".to_string()];
    assert_eq!(wrap_lines(&lines, 1), vec!["中", "a"]);
}

#[test]
fn wrap_lines_rows_concatenate_to_line() {
    let line = "hello 世界, wrapped".to_string();
    let rows = wrap_lines(&vec![line.clone()], 5);
    assert_eq!(rows.concat(), line);
    for r in &rows {
        assert!(display_width(r) <= 5 || r.chars().count() == 1);
    }
}

#[test]
fn test_cycle_wraps() {
    assert_eq!(cycle(&MODES, "Rule"), "Global");
    assert_eq!(cycle(&MODES, "Global"), "Direct");
    assert_eq!(cycle(&MODES, "Direct"), "Rule");
}

#[test]
fn test_cycle_unknown_falls_back_to_first() {
    assert_eq!(cycle(&MODES, "unknown"), "Rule");
}

#[test]
fn test_on_off() {
    assert_eq!(on_off(true), "是");
    assert_eq!(on_off(false), "否");
}

#[test]
fn pad_to_fills_with_spaces() {
    assert_eq!(pad_to("ab", 5), "ab   ");
    assert_eq!(pad_to("端口", 6), "端口  ");
    assert_eq!(pad_to("toolong", 3), "toolong");
}

#[test]
fn wrap_text_chunks_by_chars() {
    assert_eq!(wrap_text("abcdefg", 3), "abc\ndef\ng");
    assert_eq!(wrap_text("abc", 3), "abc");
    assert_eq!(wrap_text("", 3), "");
    assert_eq!(wrap_text("中文字", 2), "中文\n字");
}

#[test]
fn snake_case_of_type_names() {
    assert_eq!(to_snake_case("MihomoLog"), "mihomo_log");
    assert_eq!(to_snake_case("Content"), "content");
    assert_eq!(to_snake_case("OperationLog"), "operation_log");
    assert_eq!(to_snake_case("URL"), "u_r_l");
    assert_eq!(to_snake_case("Url_Input"), "url_input");
    assert_eq!(to_snake_case("already_snake"), "already_snake");
}

#[test]
fn wrap_then_back_returns_to_start() {
    for len in 1usize..6 {
        for start in 0..len {
            for step in [-7i32, -1, 1, 3, 11] {
                let moved = wrap(start, len, step);
                assert!(moved < len);
                assert_eq!(wrap(moved, len, -step), start);
            }
        }
    }
}

#[test]
fn cycle_walks_every_mode_in_turn() {
    let mut cur = MODES[0];
    for i in 1..=MODES.len() {
        cur = cycle(&MODES, cur);
        assert_eq!(cur, MODES[i % MODES.len()]);
    }
}

#[test]
fn wrapped_rows_are_full_but_the_last() {
    for width in 1usize..8 {
        let line = "ab中文cdé漢字xyz".to_string();
        let rows = wrap_lines(&vec![line.clone()], width);
        assert_eq!(rows.concat(), line);
        for k in 0..rows.len() - 1 {
            let next = rows[k + 1].chars().next().unwrap().to_string();
            assert!(display_width(&rows[k]) + display_width(&next) > width, "width {width} row {k}");
        }
    }
}

#[test]
fn snake_case_of_ascii_names() {
    assert_eq!(to_snake_case("ProviderSelect"), "provider_select");
    assert_eq!(to_snake_case("URLInput"), "u_r_l_input");
    assert_eq!(to_snake_case("Already_Snake"), "already_snake");
}
