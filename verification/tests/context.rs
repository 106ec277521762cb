use lscript::diagnostics::{find_place, get_error_context};

#[test]
fn context_of_a_position() {
    let code = "let x = 1\n  print(#)\nend";
    assert_eq!(get_error_context(code, 0), Some("line 1:1 - 'let x = 1'".to_string()));
    assert_eq!(get_error_context(code, 4), Some("line 1:5 - 'let x = 1'".to_string()));
    assert_eq!(get_error_context(code, 18), Some("line 2:9 - 'print(#)'".to_string()));
    assert_eq!(get_error_context(code, 21), Some("line 3:1 - 'end'".to_string()));
}

#[test]
fn context_of_a_line_end() {
    assert_eq!(get_error_context("ab\ncd", 2), Some("line 1:3 - 'ab'".to_string()));
}

#[test]
fn context_past_the_end_is_none() {
    assert_eq!(get_error_context("abc", 3), None);
    assert_eq!(get_error_context("abc", 30), None);
    assert_eq!(get_error_context("", 0), None);
}

#[test]
fn context_counts_bytes() {
    let code = "\u{e9}\u{e9}#";
    assert_eq!(get_error_context(code, 4), Some("line 1:3 - '\u{e9}\u{e9}#'".to_string()));
    assert_eq!(get_error_context(code, 1), None);
    assert_eq!(find_place(code, 2), Some(1));
    assert_eq!(find_place(code, 3), None);
}

#[test]
fn context_trims_the_line() {
    assert_eq!(get_error_context(" \t x \u{a0}\n", 3), Some("line 1:4 - 'x'".to_string()));
    assert_eq!(get_error_context("   \nx", 1), Some("line 1:2 - ''".to_string()));
}
