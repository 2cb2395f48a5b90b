use termvm::strutil::split_lines;
use termvm::writer::{play_line, should_abort, Effect, PAUSE_DELAY};

fn print(s: &str) -> Effect {
    Effect::Print(s.to_owned())
}

#[test]
fn pause_glyph_rests_without_printing() {
    let (effects, pace) = play_line("a\u{231B}b", 7);
    assert_eq!(
        effects,
        vec![
            print("a"),
            Effect::Sleep(7),
            Effect::Sleep(PAUSE_DELAY),
            print("b"),
            Effect::Sleep(7),
            print("\r\n"),
        ]
    );
    assert_eq!(pace, 7);
}

#[test]
fn erase_glyph_prints_a_backspace() {
    let (effects, _) = play_line("\u{2190}", 3);
    assert_eq!(effects, vec![print("\u{8}"), print("\r\n")]);
}

#[test]
fn space_is_printed_without_a_rest() {
    let (effects, _) = play_line("a b", 2);
    assert_eq!(
        effects,
        vec![
            print("a"),
            Effect::Sleep(2),
            print(" "),
            print("b"),
            Effect::Sleep(2),
            print("\r\n"),
        ]
    );
}

#[test]
fn speed_up_glyph_lowers_the_pacing() {
    let (effects, pace) = play_line("\u{1F53C}x", 5);
    assert_eq!(effects, vec![print("x"), Effect::Sleep(2), print("\r\n")]);
    assert_eq!(pace, 2);
}

#[test]
fn speed_up_glyph_stops_at_zero() {
    let (_, pace) = play_line("\u{1F53C}\u{1F53C}", 4);
    assert_eq!(pace, 0);
}

#[test]
fn slow_down_glyph_raises_the_pacing() {
    let (effects, pace) = play_line("\u{1F53D}x", 1);
    assert_eq!(effects, vec![print("x"), Effect::Sleep(4), print("\r\n")]);
    assert_eq!(pace, 4);
}

#[test]
fn slow_down_glyph_stops_at_the_largest_pacing() {
    let (_, pace) = play_line("\u{1F53D}", u32::MAX - 1);
    assert_eq!(pace, u32::MAX);
    let (_, pace2) = play_line("\u{1F53D}", u32::MAX);
    assert_eq!(pace2, u32::MAX);
}

#[test]
fn empty_line_is_just_a_line_break() {
    let (effects, pace) = play_line("", 9);
    assert_eq!(effects, vec![print("\r\n")]);
    assert_eq!(pace, 9);
}

#[test]
fn split_lines_handles_both_line_endings() {
    let lines = split_lines("a\nbc\r\nd");
    assert_eq!(lines, vec!["a", "bc", "d"]);
}

#[test]
fn split_lines_drops_an_optional_final_break() {
    assert_eq!(split_lines("one\n"), vec!["one"]);
    assert_eq!(split_lines("one\ntwo\n"), vec!["one", "two"]);
}

#[test]
fn split_lines_keeps_interior_empty_lines() {
    assert_eq!(split_lines("a\n\nb"), vec!["a", "", "b"]);
}

#[test]
fn split_lines_of_empty_text_is_empty() {
    assert_eq!(split_lines(""), Vec::<String>::new());
}

#[test]
fn only_a_pending_empty_event_aborts_playback() {
    assert!(should_abort(&Some(String::new())));
    assert!(!should_abort(&Some("x".to_owned())));
    assert!(!should_abort(&None));
}
