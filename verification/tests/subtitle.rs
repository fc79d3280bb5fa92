use prelearning::subtitle::{clean_text, clipboard_text};

#[test]
fn placeholders_removed() {
    assert_eq!(clean_text("%s猫%sが%"), "猫が%");
    assert_eq!(clean_text("%%ss"), "%s");
}

#[test]
fn blank_marks_removed() {
    assert_eq!(clean_text("猫\u{3000}が\u{a0}好き\u{feff}"), "猫が好き");
    assert_eq!(clean_text("a b"), "a b");
}

#[test]
fn placeholders_before_blanks() {
    assert_eq!(clean_text("%\u{3000}s"), "%s");
}

#[test]
fn clipboard_on_one_line() {
    assert_eq!(clipboard_text("猫が\n好き\r\n"), "猫が好き");
}
