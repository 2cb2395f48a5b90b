use termvm::editor::LineEditor;

#[test]
fn append_accumulates_printable_text() {
    let mut ed = LineEditor::new();
    assert!(ed.append("h"));
    assert!(ed.append("i"));
    assert_eq!(ed.line, "hi");
}

#[test]
fn append_control_character_never_changes_the_line() {
    let mut ed = LineEditor::new();
    ed.append("ab");
    assert!(!ed.append("\x03"));
    assert_eq!(ed.line, "ab");
    assert!(!ed.append("\x1b[A"));
    assert_eq!(ed.line, "ab");
    assert!(!ed.append("\x7f"));
    assert_eq!(ed.line.chars().count(), 2);
}

#[test]
fn append_empty_string_is_a_no_op() {
    let mut ed = LineEditor::new();
    assert!(!ed.append(""));
    assert_eq!(ed.line, "");
}

#[test]
fn backspace_removes_the_last_character() {
    let mut ed = LineEditor::new();
    ed.append("xyz");
    assert!(ed.backspace());
    assert_eq!(ed.line, "xy");
}

#[test]
fn backspace_on_empty_line_is_a_no_op() {
    let mut ed = LineEditor::new();
    assert!(!ed.backspace());
    assert_eq!(ed.line, "");
}

#[test]
fn backspace_handles_multibyte_characters() {
    let mut ed = LineEditor::new();
    ed.append("a\u{231B}");
    assert!(ed.backspace());
    assert_eq!(ed.line, "a");
}

#[test]
fn take_and_clear_hands_out_the_line_and_empties_the_editor() {
    let mut ed = LineEditor::new();
    ed.append("hello");
    assert_eq!(ed.take_and_clear(), "hello");
    assert_eq!(ed.line, "");
}

#[test]
fn take_and_clear_twice_yields_empty_the_second_time() {
    let mut ed = LineEditor::new();
    ed.append("once");
    let first = ed.take_and_clear();
    let second = ed.take_and_clear();
    assert_eq!(first, "once");
    assert_eq!(second, "");
}

#[test]
fn clear_forgets_the_line() {
    let mut ed = LineEditor::new();
    ed.append("gone");
    ed.clear();
    assert_eq!(ed.line, "");
}
