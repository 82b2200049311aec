use tedit::editor::{Action, Editor, Key, KeyPress, Mode};

fn line(s: &str) -> Vec<char> {
    s.chars().collect()
}

fn editor_with(lines: &[&str]) -> Editor {
    let mut e = Editor::new();
    e.buffer = lines.iter().map(|s| line(s)).collect();
    e
}

fn press(e: &mut Editor, code: Key) -> Action {
    e.process_key(KeyPress { code, ctrl: false })
}

#[test]
fn insert_sequence_builds_line_in_order() {
    let mut e = editor_with(&[""]);
    for c in "hello".chars() {
        press(&mut e, Key::Char(c));
    }
    assert_eq!(e.buffer, vec![line("hello")]);
    assert_eq!(e.col, 5);
    assert_eq!(e.row, 0);
}

#[test]
fn insert_in_middle_of_line() {
    let mut e = editor_with(&["ac"]);
    e.col = 1;
    press(&mut e, Key::Char('b'));
    assert_eq!(e.buffer, vec![line("abc")]);
    assert_eq!(e.col, 2);
}

#[test]
fn enter_splits_line_at_column() {
    let mut e = editor_with(&["hello"]);
    e.col = 2;
    press(&mut e, Key::Enter);
    assert_eq!(e.buffer, vec![line("he"), line("llo")]);
    assert_eq!(e.row, 1);
    assert_eq!(e.col, 0);
}

#[test]
fn enter_grows_buffer_by_exactly_one() {
    let mut e = editor_with(&["ab", "cd", "ef"]);
    e.row = 1;
    e.col = 1;
    press(&mut e, Key::Enter);
    assert_eq!(e.buffer.len(), 4);
    assert_eq!(e.buffer, vec![line("ab"), line("c"), line("d"), line("ef")]);
}

#[test]
fn backspace_removes_character_before_column() {
    let mut e = editor_with(&["abc"]);
    e.col = 2;
    press(&mut e, Key::Backspace);
    assert_eq!(e.buffer, vec![line("ac")]);
    assert_eq!(e.col, 1);
}

#[test]
fn backspace_at_column_zero_is_noop_on_content() {
    let mut e = editor_with(&["abc", "def"]);
    e.row = 1;
    e.col = 0;
    press(&mut e, Key::Backspace);
    assert_eq!(e.buffer, vec![line("abc"), line("def")]);
    assert_eq!(e.row, 1);
    assert_eq!(e.col, 0);
    assert_eq!(e.buffer.len(), 2);
}

#[test]
fn move_left_stops_at_zero() {
    let mut e = editor_with(&["ab"]);
    e.col = 1;
    press(&mut e, Key::Left);
    assert_eq!(e.col, 0);
    press(&mut e, Key::Left);
    assert_eq!(e.col, 0);
}

#[test]
fn move_right_stops_at_line_end() {
    let mut e = editor_with(&["ab"]);
    press(&mut e, Key::Right);
    assert_eq!(e.col, 1);
    press(&mut e, Key::Right);
    assert_eq!(e.col, 2);
    press(&mut e, Key::Right);
    assert_eq!(e.col, 2);
}

#[test]
fn vertical_moves_clamp_to_buffer() {
    let mut e = editor_with(&["a", "b"]);
    press(&mut e, Key::Up);
    assert_eq!(e.row, 0);
    press(&mut e, Key::Down);
    assert_eq!(e.row, 1);
    press(&mut e, Key::Down);
    assert_eq!(e.row, 1);
}

#[test]
fn vertical_move_keeps_column_and_edit_clamps() {
    let mut e = editor_with(&["abcd", "x"]);
    e.col = 4;
    press(&mut e, Key::Down);
    assert_eq!(e.row, 1);
    assert_eq!(e.col, 4);
    press(&mut e, Key::Char('Z'));
    assert_eq!(e.buffer, vec![line("abcd"), line("xZ")]);
    assert_eq!(e.col, 2);
}

#[test]
fn backspace_past_short_line_end_clamps() {
    let mut e = editor_with(&["abcd", "x"]);
    e.col = 4;
    press(&mut e, Key::Down);
    press(&mut e, Key::Backspace);
    assert_eq!(e.buffer, vec![line("abcd"), line("")]);
    assert_eq!(e.col, 0);
}

#[test]
fn colon_enters_command_mode() {
    let mut e = editor_with(&["a"]);
    let act = press(&mut e, Key::Char(':'));
    assert_eq!(act, Action::Nothing);
    assert_eq!(e.mode, Mode::Command);
    assert_eq!(e.buffer, vec![line("a")]);
}

#[test]
fn command_w_without_file_reports() {
    let mut e = editor_with(&["a"]);
    press(&mut e, Key::Char(':'));
    let act = press(&mut e, Key::Char('w'));
    assert_eq!(act, Action::ReportNoFileName);
    assert_eq!(e.mode, Mode::Normal);
}

#[test]
fn command_w_with_file_requests_save() {
    let mut e = editor_with(&["a"]);
    e.file_name = Some(String::from("doc.txt"));
    press(&mut e, Key::Char(':'));
    let act = press(&mut e, Key::Char('w'));
    assert_eq!(act, Action::Save);
    assert_eq!(e.mode, Mode::Normal);
}

#[test]
fn command_q_returns_to_normal() {
    let mut e = editor_with(&["a"]);
    press(&mut e, Key::Char(':'));
    let act = press(&mut e, Key::Char('q'));
    assert_eq!(act, Action::Nothing);
    assert_eq!(e.mode, Mode::Normal);
}

#[test]
fn command_escape_returns_to_normal() {
    let mut e = editor_with(&["a"]);
    press(&mut e, Key::Char(':'));
    let act = press(&mut e, Key::Esc);
    assert_eq!(act, Action::Nothing);
    assert_eq!(e.mode, Mode::Normal);
}

#[test]
fn command_other_char_stays_in_command_mode() {
    let mut e = editor_with(&["a"]);
    press(&mut e, Key::Char(':'));
    let act = press(&mut e, Key::Char('x'));
    assert_eq!(act, Action::Nothing);
    assert_eq!(e.mode, Mode::Command);
    assert_eq!(e.buffer, vec![line("a")]);
}

#[test]
fn ctrl_c_quits_and_leaves_state_untouched() {
    let mut e = editor_with(&["unsaved"]);
    e.file_name = Some(String::from("doc.txt"));
    e.col = 3;
    let act = e.process_key(KeyPress { code: Key::Char('c'), ctrl: true });
    assert_eq!(act, Action::Quit);
    assert_eq!(e.buffer, vec![line("unsaved")]);
    assert_eq!(e.col, 3);
    assert_eq!(e.mode, Mode::Normal);
}

#[test]
fn ctrl_s_requests_save_with_state_unchanged() {
    let mut e = editor_with(&["a"]);
    e.file_name = Some(String::from("doc.txt"));
    let act = e.process_key(KeyPress { code: Key::Char('s'), ctrl: true });
    assert_eq!(act, Action::Save);
    assert_eq!(e.mode, Mode::Normal);
    assert_eq!(e.buffer, vec![line("a")]);
}

#[test]
fn ctrl_s_without_file_reports() {
    let mut e = editor_with(&["a"]);
    let act = e.process_key(KeyPress { code: Key::Char('s'), ctrl: true });
    assert_eq!(act, Action::ReportNoFileName);
}

#[test]
fn ignored_keys_change_nothing() {
    let mut e = editor_with(&["a"]);
    e.col = 1;
    let act = press(&mut e, Key::Other);
    assert_eq!(act, Action::Nothing);
    assert_eq!(e.buffer, vec![line("a")]);
    assert_eq!(e.col, 1);
    assert_eq!(e.mode, Mode::Normal);
}

#[test]
fn scenario_load_move_insert_enter() {
    let mut e = Editor::new();
    e.load_text(&line("a\nb\nc"), String::from("three.txt"));
    assert_eq!(e.buffer, vec![line("a"), line("b"), line("c")]);
    press(&mut e, Key::Down);
    assert_eq!((e.row, e.col), (1, 0));
    press(&mut e, Key::Char('X'));
    assert_eq!(e.buffer, vec![line("a"), line("Xb"), line("c")]);
    assert_eq!((e.row, e.col), (1, 1));
    press(&mut e, Key::Enter);
    assert_eq!(e.buffer, vec![line("a"), line("X"), line("b"), line("c")]);
    assert_eq!((e.row, e.col), (2, 0));
}
