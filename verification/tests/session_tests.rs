use termvm::session::{tokenize, Task, VM, DEFAULT_PACING};
use termvm::writer::Effect;

fn print(s: &str) -> Effect {
    Effect::Print(s.to_owned())
}

fn prompt() -> Vec<Effect> {
    vec![print("\r\n"), print("[ADMIN] > ")]
}

fn fresh_vm() -> VM {
    VM::new("BANNER".to_owned(), "HELP TEXT".to_owned())
}

#[test]
fn tokenize_splits_on_spaces_and_drops_blanks() {
    assert_eq!(tokenize("a  b c"), vec!["a", "b", "c"]);
    assert_eq!(tokenize("  lead and trail  "), vec!["lead", "and", "trail"]);
    assert_eq!(tokenize(""), Vec::<String>::new());
    assert_eq!(tokenize("   "), Vec::<String>::new());
}

#[test]
fn startup_plays_the_banner_and_reprompts() {
    let mut vm = fresh_vm();
    let r = vm.handle_event("startup");
    assert!(r.before.is_empty());
    assert_eq!(r.task, Task::Play("BANNER".to_owned()));
    assert_eq!(r.after, prompt());
    assert_eq!(vm.editor.line, "");
}

#[test]
fn unrecognized_command_names_the_token_and_reprompts() {
    let mut vm = fresh_vm();
    vm.handle_event("startup");
    let e1 = vm.handle_event("h");
    assert_eq!(e1.before, vec![print("h")]);
    let e2 = vm.handle_event("i");
    assert_eq!(e2.before, vec![print("i")]);
    assert_eq!(vm.editor.line, "hi");
    let r = vm.handle_event("\r");
    assert_eq!(r.before, vec![print("\r\n")]);
    assert_eq!(
        r.task,
        Task::Play("'hi' is not a recognized command. See 'help'.".to_owned())
    );
    assert_eq!(r.after, prompt());
    assert_eq!(vm.editor.line, "");
}

#[test]
fn backspace_removes_the_last_typed_character_before_submit() {
    let mut vm = fresh_vm();
    for e in ["x", "y", "z"] {
        vm.handle_event(e);
    }
    let bs = vm.handle_event("\x7f");
    assert_eq!(bs.before, vec![print("\u{8} \u{8}")]);
    assert_eq!(vm.editor.line, "xy");
    let r = vm.handle_event("\r");
    assert_eq!(
        r.task,
        Task::Play("'xy' is not a recognized command. See 'help'.".to_owned())
    );
}

#[test]
fn backspace_on_an_empty_line_echoes_nothing() {
    let mut vm = fresh_vm();
    let r = vm.handle_event("\x7f");
    assert!(r.before.is_empty());
    assert_eq!(r.task, Task::Nothing);
    assert!(r.after.is_empty());
}

#[test]
fn interrupt_prints_control_c_drops_the_line_and_reprompts() {
    let mut vm = fresh_vm();
    vm.handle_event("abc");
    let r = vm.handle_event("\x03");
    assert_eq!(r.before, vec![print("^C")]);
    assert_eq!(r.task, Task::Nothing);
    assert_eq!(r.after, prompt());
    assert_eq!(vm.editor.line, "");
}

#[test]
fn control_prefixed_text_is_ignored() {
    let mut vm = fresh_vm();
    let r = vm.handle_event("\x1b[A");
    assert!(r.before.is_empty());
    assert_eq!(r.task, Task::Nothing);
    assert!(r.after.is_empty());
    assert_eq!(vm.editor.line, "");
    let r2 = vm.handle_event("");
    assert!(r2.before.is_empty());
    assert_eq!(r2.task, Task::Nothing);
}

#[test]
fn help_plays_the_help_text() {
    let mut vm = fresh_vm();
    vm.handle_event("help");
    let r = vm.handle_event("\r");
    assert_eq!(r.before, vec![print("\r\n")]);
    assert_eq!(r.task, Task::Play("HELP TEXT".to_owned()));
}

#[test]
fn conway_command_starts_the_automaton() {
    let mut vm = fresh_vm();
    vm.handle_event("conway");
    let r = vm.handle_event("\r");
    assert_eq!(r.task, Task::Conway);
}

#[test]
fn filesystem_commands_play_the_stub_answer() {
    for cmd in ["ls", "cd", "mkdir", "rm"] {
        let mut vm = fresh_vm();
        vm.handle_event(cmd);
        let r = vm.handle_event("\r");
        assert_eq!(
            r.task,
            Task::Play("Install 'HARD DRIVE' to activate 'FILE' module".to_owned())
        );
    }
}

#[test]
fn boomslang_plays_the_productivity_stub() {
    let mut vm = fresh_vm();
    vm.handle_event("boomslang");
    let r = vm.handle_event("\r");
    assert_eq!(
        r.task,
        Task::Play("'PRODUCTIVITY' module still in development".to_owned())
    );
}

#[test]
fn a_blank_line_does_nothing_but_reprompt() {
    let mut vm = fresh_vm();
    vm.handle_event("   ");
    let r = vm.handle_event("\r");
    assert!(r.before.is_empty());
    assert_eq!(r.task, Task::Nothing);
    assert_eq!(r.after, prompt());
}

#[test]
fn command_arguments_are_ignored_in_dispatch() {
    let mut vm = fresh_vm();
    vm.handle_event("help me please");
    let r = vm.handle_event("\r");
    assert_eq!(r.task, Task::Play("HELP TEXT".to_owned()));
}

#[test]
fn commands_are_case_sensitive() {
    let mut vm = fresh_vm();
    vm.handle_event("Help");
    let r = vm.handle_event("\r");
    assert_eq!(
        r.task,
        Task::Play("'Help' is not a recognized command. See 'help'.".to_owned())
    );
}

#[test]
fn session_pacing_starts_at_the_default_and_follows_glyphs() {
    let mut vm = fresh_vm();
    assert_eq!(vm.char_time, DEFAULT_PACING);
    let effects = vm.play_line("a\u{1F53D}b");
    assert_eq!(vm.char_time, DEFAULT_PACING + 3);
    assert_eq!(
        effects,
        vec![
            print("a"),
            Effect::Sleep(DEFAULT_PACING),
            print("b"),
            Effect::Sleep(DEFAULT_PACING + 3),
            print("\r\n"),
        ]
    );
}

#[test]
fn pacing_persists_across_played_lines() {
    let mut vm = fresh_vm();
    vm.play_line("\u{1F53C}");
    assert_eq!(vm.char_time, 0);
    let effects = vm.play_line("z");
    assert_eq!(effects, vec![print("z"), Effect::Sleep(0), print("\r\n")]);
}
