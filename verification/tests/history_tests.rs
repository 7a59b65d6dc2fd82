use proctor_core::history::get_last_line;
use proctor_core::history::HistoryCursor;

#[test]
fn last_line_of_empty_text() {
    assert_eq!(get_last_line(""), None);
}

#[test]
fn last_line_with_trailing_newline() {
    assert_eq!(get_last_line("ls\n"), Some(String::from("ls")));
    assert_eq!(get_last_line("cd /tmp\nls\n"), Some(String::from("ls")));
}

#[test]
fn last_line_without_trailing_newline() {
    assert_eq!(get_last_line("partial"), Some(String::from("partial")));
    assert_eq!(get_last_line("a\npartial"), Some(String::from("partial")));
}

#[test]
fn last_line_strips_carriage_return_before_final_newline() {
    assert_eq!(get_last_line("a\r\nls\r\n"), Some(String::from("ls")));
}

#[test]
fn last_line_of_lone_newline_is_empty() {
    assert_eq!(get_last_line("\n"), Some(String::new()));
}

#[test]
fn growth_produces_one_report() {
    let mut cursor = HistoryCursor::new(10);
    let r = cursor.observe(15, Some(String::from("make test")));
    assert_eq!(r, Some(String::from("make test")));
    assert_eq!(cursor.last_size, 15);
}

#[test]
fn no_growth_produces_no_report() {
    let mut cursor = HistoryCursor::new(10);
    assert_eq!(cursor.observe(10, Some(String::from("x"))), None);
    assert_eq!(cursor.observe(4, Some(String::from("x"))), None);
    assert_eq!(cursor.last_size, 10);
}

#[test]
fn preexisting_history_is_ignored() {
    // the cursor starts at the file's size at session start
    let mut cursor = HistoryCursor::new(100);
    assert_eq!(cursor.observe(100, Some(String::from("old"))), None);
    assert_eq!(cursor.observe(104, Some(String::from("new"))), Some(String::from("new")));
}

#[test]
fn observe_text_reports_the_files_last_line_once() {
    let mut cursor = HistoryCursor::new(0);
    assert_eq!(cursor.observe_text(3, "ls\n"), Some(String::from("ls")));
    assert_eq!(cursor.observe_text(3, "ls\n"), None);
    assert_eq!(cursor.observe_text(9, "ls\npwd\n"), Some(String::from("pwd")));
}
