use ni::editor::Editor;
use ni::model::{AfterWrite, Effect, Event, Key, KeyCode, Mode, Pending};

fn chars(s: &str) -> Vec<char> {
    s.chars().collect()
}

fn open(path: Option<&str>, text: Option<&str>) -> Editor {
    Editor::new(path.map(chars), text.map(chars), false)
}

fn buffer(e: &Editor) -> Vec<String> {
    e.lines().iter().map(|l| l.iter().collect()).collect()
}

fn key(code: KeyCode) -> Key {
    Key { code, ctrl: false }
}

fn ctrl(c: char) -> Key {
    Key { code: KeyCode::Char(c), ctrl: true }
}

fn press(e: &mut Editor, c: char) -> Effect {
    e.handle_key(key(KeyCode::Char(c)))
}

fn keys(e: &mut Editor, s: &str) {
    for c in s.chars() {
        press(e, c);
    }
}

#[test]
fn starts_in_insert_mode_without_a_file() {
    let e = open(None, None);
    assert_eq!(e.mode(), Mode::Insert);
    assert_eq!(buffer(&e), vec![String::new()]);
    assert_eq!((e.row(), e.col()), (0, 0));
}

#[test]
fn starts_in_normal_mode_with_a_file() {
    let e = open(Some("f.txt"), Some("one\ntwo\n"));
    assert_eq!(e.mode(), Mode::Normal);
    assert_eq!(buffer(&e), vec!["one", "two"]);
}

#[test]
fn missing_file_gives_one_empty_line_in_normal_mode() {
    let e = open(Some("new.txt"), None);
    assert_eq!(e.mode(), Mode::Normal);
    assert_eq!(buffer(&e), vec![String::new()]);
}

#[test]
fn empty_file_gives_one_empty_line() {
    let e = open(Some("f"), Some(""));
    assert_eq!(buffer(&e), vec![String::new()]);
}

#[test]
fn typing_inserts_at_the_cursor() {
    let mut e = open(None, None);
    keys(&mut e, "abc");
    assert_eq!(buffer(&e), vec!["abc"]);
    assert_eq!(e.col(), 3);
    e.handle_key(key(KeyCode::Left));
    e.handle_key(key(KeyCode::Left));
    press(&mut e, 'X');
    assert_eq!(buffer(&e), vec!["aXbc"]);
    assert_eq!(e.col(), 2);
}

#[test]
fn tab_inserts_four_spaces() {
    let mut e = open(None, None);
    press(&mut e, 'a');
    e.handle_key(key(KeyCode::Tab));
    press(&mut e, 'b');
    assert_eq!(buffer(&e), vec!["a    b"]);
    assert_eq!(e.col(), 6);
}

#[test]
fn enter_splits_and_backspace_joins() {
    let mut e = open(None, None);
    keys(&mut e, "hello");
    e.handle_key(key(KeyCode::Left));
    e.handle_key(key(KeyCode::Left));
    e.handle_key(key(KeyCode::Enter));
    assert_eq!(buffer(&e), vec!["hel", "lo"]);
    assert_eq!((e.row(), e.col()), (1, 0));
    e.handle_key(key(KeyCode::Backspace));
    assert_eq!(buffer(&e), vec!["hello"]);
    assert_eq!((e.row(), e.col()), (0, 3));
}

#[test]
fn backspace_at_buffer_start_does_nothing() {
    let mut e = open(None, None);
    e.handle_key(key(KeyCode::Backspace));
    assert_eq!(buffer(&e), vec![String::new()]);
    assert!(!e.dirty());
}

#[test]
fn insert_then_backspace_restores_line() {
    let mut e = open(None, None);
    keys(&mut e, "ab");
    e.handle_key(key(KeyCode::Left));
    press(&mut e, 'z');
    e.handle_key(key(KeyCode::Backspace));
    assert_eq!(buffer(&e), vec!["ab"]);
    assert_eq!(e.col(), 1);
}

#[test]
fn esc_leaves_insert_mode_on_the_last_char() {
    let mut e = open(None, None);
    keys(&mut e, "abc");
    e.handle_key(key(KeyCode::Esc));
    assert_eq!(e.mode(), Mode::Normal);
    assert_eq!(e.col(), 2);
}

#[test]
fn x_deletes_and_u_undoes() {
    let mut e = open(Some("f"), Some("abc\n"));
    press(&mut e, 'l');
    press(&mut e, 'x');
    assert_eq!(buffer(&e), vec!["ac"]);
    assert_eq!(e.undo_len(), 1);
    press(&mut e, 'u');
    assert_eq!(buffer(&e), vec!["abc"]);
    assert_eq!((e.row(), e.col()), (0, 1));
    assert_eq!(e.undo_len(), 0);
}

#[test]
fn x_on_empty_line_takes_no_snapshot() {
    let mut e = open(Some("f"), Some("\n"));
    press(&mut e, 'x');
    assert_eq!(e.undo_len(), 0);
    assert!(!e.dirty());
}

#[test]
fn u_with_empty_undo_does_nothing() {
    let mut e = open(Some("f"), Some("abc\n"));
    press(&mut e, 'u');
    assert_eq!(buffer(&e), vec!["abc"]);
    assert!(!e.dirty());
}

#[test]
fn dd_deletes_the_line() {
    let mut e = open(Some("f"), Some("a\nb\nc\n"));
    press(&mut e, 'G');
    keys(&mut e, "dd");
    assert_eq!(buffer(&e), vec!["a", "b"]);
    assert_eq!(e.row(), 1);
    press(&mut e, 'u');
    assert_eq!(buffer(&e), vec!["a", "b", "c"]);
    assert_eq!(e.row(), 2);
}

#[test]
fn dd_on_a_lone_line_empties_it() {
    let mut e = open(Some("f"), Some("abc\n"));
    keys(&mut e, "dd");
    assert_eq!(buffer(&e), vec![String::new()]);
    assert_eq!(e.col(), 0);
}

#[test]
fn dw_deletes_to_the_next_word() {
    let mut e = open(Some("f"), Some("foo bar baz\n"));
    keys(&mut e, "dw");
    assert_eq!(buffer(&e), vec!["bar baz"]);
    assert_eq!(e.col(), 0);
    assert_eq!(e.pending(), Pending::Idle);
    press(&mut e, 'u');
    assert_eq!(buffer(&e), vec!["foo bar baz"]);
}

#[test]
fn dw_on_the_last_word_truncates_the_line() {
    let mut e = open(Some("f"), Some("foo bar\nnext\n"));
    press(&mut e, 'w');
    assert_eq!(e.col(), 4);
    keys(&mut e, "dw");
    assert_eq!(buffer(&e), vec!["foo ", "next"]);
    assert_eq!((e.row(), e.col()), (0, 3));
}

#[test]
fn dw_on_the_last_word_of_the_last_line_deletes_it() {
    let mut e = open(Some("f"), Some("foo bar\n"));
    press(&mut e, 'w');
    keys(&mut e, "dw");
    assert_eq!(buffer(&e), vec!["foo "]);
    assert_eq!(e.col(), 3);
    press(&mut e, 'u');
    assert_eq!(buffer(&e), vec!["foo bar"]);
}

#[test]
fn dw_on_the_last_char_of_the_last_line_deletes_it() {
    let mut e = open(Some("f"), Some("foo bar\n"));
    press(&mut e, '$');
    keys(&mut e, "dw");
    assert_eq!(buffer(&e), vec!["foo ba"]);
    assert_eq!(e.col(), 5);
}

#[test]
fn dw_from_a_blank_deletes_up_to_the_next_word() {
    let mut e = open(Some("f"), Some("a   b\n"));
    press(&mut e, 'l');
    keys(&mut e, "dw");
    assert_eq!(buffer(&e), vec!["ab"]);
    assert_eq!(e.col(), 1);
}

#[test]
fn d_then_other_key_cancels() {
    let mut e = open(Some("f"), Some("abc\n"));
    keys(&mut e, "dx");
    assert_eq!(buffer(&e), vec!["abc"]);
    assert_eq!(e.pending(), Pending::Idle);
}

#[test]
fn capital_d_truncates_to_end_of_line() {
    let mut e = open(Some("f"), Some("abcdef\n"));
    keys(&mut e, "ll");
    press(&mut e, 'D');
    assert_eq!(buffer(&e), vec!["ab"]);
    assert_eq!(e.col(), 1);
    press(&mut e, 'u');
    assert_eq!(buffer(&e), vec!["abcdef"]);
}

#[test]
fn word_motions() {
    let mut e = open(Some("f"), Some("foo  bar baz\n"));
    press(&mut e, 'w');
    assert_eq!(e.col(), 5);
    press(&mut e, 'w');
    assert_eq!(e.col(), 9);
    press(&mut e, 'w');
    assert_eq!(e.col(), 11);
    press(&mut e, 'b');
    assert_eq!(e.col(), 9);
    press(&mut e, 'b');
    assert_eq!(e.col(), 5);
    press(&mut e, 'b');
    assert_eq!(e.col(), 0);
}

#[test]
fn w_continues_on_the_next_line() {
    let mut e = open(Some("f"), Some("foo\n   bar\n"));
    press(&mut e, 'w');
    assert_eq!((e.row(), e.col()), (1, 3));
}

#[test]
fn b_at_line_start_goes_to_end_of_previous_line() {
    let mut e = open(Some("f"), Some("foo\nbar\n"));
    press(&mut e, 'j');
    press(&mut e, 'b');
    assert_eq!((e.row(), e.col()), (0, 2));
}

#[test]
fn line_start_motions() {
    let mut e = open(Some("f"), Some("   abc\n"));
    press(&mut e, '$');
    assert_eq!(e.col(), 5);
    press(&mut e, '^');
    assert_eq!(e.col(), 3);
    press(&mut e, '0');
    assert_eq!(e.col(), 0);
}

#[test]
fn first_nonblank_of_a_blank_line_is_column_zero() {
    let mut e = open(Some("f"), Some("    \n"));
    press(&mut e, '$');
    press(&mut e, '^');
    assert_eq!(e.col(), 0);
}

#[test]
fn gg_and_capital_g() {
    let mut e = open(Some("f"), Some("a\nb\nc\nd\n"));
    press(&mut e, 'G');
    assert_eq!(e.row(), 3);
    keys(&mut e, "gg");
    assert_eq!(e.row(), 0);
}

#[test]
fn vertical_motion_stays_in_the_buffer() {
    let mut e = open(Some("f"), Some("a\nb\n"));
    press(&mut e, 'k');
    assert_eq!(e.row(), 0);
    press(&mut e, 'j');
    press(&mut e, 'j');
    assert_eq!(e.row(), 1);
    e.handle_key(key(KeyCode::Up));
    assert_eq!(e.row(), 0);
}

#[test]
fn horizontal_motion_stays_on_the_line() {
    let mut e = open(Some("f"), Some("abc\n"));
    press(&mut e, 'h');
    assert_eq!(e.col(), 0);
    keys(&mut e, "llll");
    assert_eq!(e.col(), 2);
}

#[test]
fn column_is_kept_across_shorter_lines() {
    let mut e = open(Some("f"), Some("abcdef\nab\nabcdef\n"));
    press(&mut e, '$');
    press(&mut e, 'j');
    assert_eq!(e.col(), 5);
    press(&mut e, 'x');
    assert_eq!(buffer(&e)[1], "a");
}

#[test]
fn entering_insert_mode() {
    let mut e = open(Some("f"), Some("abc\n"));
    press(&mut e, 'l');
    press(&mut e, 'a');
    assert_eq!(e.mode(), Mode::Insert);
    assert_eq!(e.col(), 2);
    e.handle_key(key(KeyCode::Esc));
    press(&mut e, 'A');
    assert_eq!(e.col(), 3);
    e.handle_key(key(KeyCode::Esc));
    press(&mut e, 'i');
    assert_eq!(e.col(), 2);
    e.handle_key(key(KeyCode::Esc));
    assert_eq!(e.undo_len(), 3);
}

#[test]
fn capital_i_inserts_at_first_nonblank() {
    let mut e = open(Some("f"), Some("  abc\n"));
    press(&mut e, '$');
    press(&mut e, 'I');
    press(&mut e, 'x');
    assert_eq!(buffer(&e), vec!["  xabc"]);
}

#[test]
fn o_and_capital_o_open_lines() {
    let mut e = open(Some("f"), Some("a\nb\n"));
    press(&mut e, 'o');
    press(&mut e, 'x');
    assert_eq!(buffer(&e), vec!["a", "x", "b"]);
    e.handle_key(key(KeyCode::Esc));
    press(&mut e, 'O');
    press(&mut e, 'y');
    assert_eq!(buffer(&e), vec!["a", "y", "x", "b"]);
    e.handle_key(key(KeyCode::Esc));
    press(&mut e, 'u');
    assert_eq!(buffer(&e), vec!["a", "x", "b"]);
    press(&mut e, 'u');
    assert_eq!(buffer(&e), vec!["a", "b"]);
}

#[test]
fn undo_after_an_insert_session() {
    let mut e = open(Some("f"), Some("abc\n"));
    press(&mut e, 'i');
    keys(&mut e, "xyz");
    e.handle_key(key(KeyCode::Enter));
    keys(&mut e, "w");
    e.handle_key(key(KeyCode::Esc));
    press(&mut e, 'u');
    assert_eq!(buffer(&e), vec!["abc"]);
    assert_eq!((e.row(), e.col()), (0, 0));
}

#[test]
fn capital_b_toggles_block_centring() {
    let mut e = Editor::new(Some(chars("f")), None, false);
    press(&mut e, 'B');
    assert!(e.block());
    press(&mut e, 'B');
    assert!(!e.block());
}

#[test]
fn ctrl_c_quits_in_both_modes() {
    let mut e = open(None, None);
    assert_eq!(e.handle_key(ctrl('c')), Effect::Nothing);
    assert!(e.quit());
    let mut e = open(Some("f"), Some("a\n"));
    e.handle_key(ctrl('c'));
    assert!(e.quit());
}

#[test]
fn ctrl_s_opens_the_prompt_with_the_path() {
    let mut e = open(Some("dir/f.txt"), Some("a\n"));
    e.handle_key(ctrl('s'));
    assert_eq!(e.prompt().clone(), Some(chars("dir/f.txt")));
    let mut e = open(None, None);
    e.handle_key(ctrl('s'));
    assert_eq!(e.prompt().clone(), Some(Vec::new()));
}

#[test]
fn prompt_editing_and_confirming() {
    let mut e = open(None, None);
    keys(&mut e, "hi");
    e.handle_key(ctrl('s'));
    keys(&mut e, " out.txtx");
    e.handle_key(key(KeyCode::Backspace));
    assert_eq!(e.prompt().clone(), Some(chars(" out.txt")));
    assert_eq!(buffer(&e), vec!["hi"]);
    let eff = e.handle_key(key(KeyCode::Enter));
    assert_eq!(eff, Effect::Write(AfterWrite::ClosePrompt));
    assert_eq!(e.path().clone(), Some(chars("out.txt")));
    // Until the write is known to have succeeded, the box stays open and
    // the buffer unsaved.
    assert_eq!(e.prompt().clone(), Some(chars(" out.txt")));
    assert!(e.dirty());
    let (p, t) = e.save().unwrap();
    assert_eq!(p, chars("out.txt"));
    assert_eq!(t, chars("hi\n"));
    e.write_done(AfterWrite::ClosePrompt);
    assert!(e.prompt().is_none());
    assert!(!e.dirty());
}

#[test]
fn prompt_with_blank_name_only_closes() {
    let mut e = open(None, None);
    e.handle_key(ctrl('s'));
    keys(&mut e, "   ");
    assert_eq!(e.handle_key(key(KeyCode::Enter)), Effect::Nothing);
    assert!(e.prompt().is_none());
    assert!(e.path().is_none());
}

#[test]
fn prompt_escape_cancels() {
    let mut e = open(None, None);
    e.handle_key(ctrl('s'));
    e.handle_key(key(KeyCode::Esc));
    assert!(e.prompt().is_none());
    assert!(!e.quit());
}

#[test]
fn ctrl_c_quits_from_the_prompt_too() {
    let mut e = open(None, None);
    e.handle_key(ctrl('s'));
    assert_eq!(e.handle_key(ctrl('c')), Effect::Nothing);
    assert!(e.quit());
}

#[test]
fn prompt_ignores_other_control_keys() {
    let mut e = open(None, None);
    e.handle_key(ctrl('s'));
    press(&mut e, 'a');
    e.handle_key(ctrl('x'));
    assert_eq!(e.prompt().clone(), Some(chars("a")));
}

#[test]
fn zz_saves_and_quits_and_zq_only_quits() {
    let mut e = open(Some("f"), Some("a\n"));
    assert_eq!(press(&mut e, 'Z'), Effect::Nothing);
    assert_eq!(e.pending(), Pending::Z);
    assert_eq!(press(&mut e, 'Z'), Effect::Write(AfterWrite::Quit));
    // Quitting waits for the write to succeed.
    assert!(!e.quit());
    e.write_done(AfterWrite::Quit);
    assert!(e.quit());
    let mut e = open(Some("f"), Some("a\n"));
    press(&mut e, 'Z');
    assert_eq!(press(&mut e, 'Q'), Effect::Nothing);
    assert!(e.quit());
}

#[test]
fn autosave_writes_after_edits_when_a_path_is_known() {
    let write = Effect::Write(AfterWrite::MarkSaved);
    let mut e = open(Some("f"), Some("abc\n"));
    assert_eq!(e.autosave(), Effect::Nothing);
    press(&mut e, 'x');
    assert_eq!(e.autosave(), write);
    // A failed write is not reported: the buffer stays unsaved.
    assert!(e.dirty());
    e.write_done(AfterWrite::MarkSaved);
    assert!(!e.dirty());
    assert_eq!(e.autosave(), Effect::Nothing);
    press(&mut e, 'i');
    assert_eq!(e.autosave(), write);
    e.write_done(AfterWrite::MarkSaved);
    press(&mut e, 'q');
    assert_eq!(e.autosave(), write);
    let mut e = open(None, None);
    press(&mut e, 'q');
    assert!(e.dirty());
    assert_eq!(e.autosave(), Effect::Nothing);
}

#[test]
fn save_writes_each_line_with_a_newline() {
    let e = open(Some("f"), Some("a\r\nb"));
    let (_, t) = e.save().unwrap();
    assert_eq!(t, chars("a\nb\n"));
    assert!(open(None, None).save().is_none());
}

#[test]
fn undo_stack_keeps_the_last_thousand() {
    let mut e = open(Some("f"), Some("a\n"));
    for _ in 0..1005 {
        press(&mut e, 'D');
    }
    assert_eq!(e.undo_len(), 1000);
}

#[test]
fn refocus_hides_the_cursor() {
    let mut e = open(Some("f"), Some("a\n"));
    press(&mut e, 'l');
    assert!(e.show_cursor());
    assert_eq!(e.handle_event(Event::Refocus), Effect::Nothing);
    assert!(!e.show_cursor());
    e.handle_event(Event::Key(key(KeyCode::Char('j'))));
    assert!(e.show_cursor());
    e.hide_cursor();
    assert!(!e.show_cursor());
    assert!(e.parks_while_idle());
    assert!(!e.hides_when_idle());
    press(&mut e, 'k');
    assert!(e.hides_when_idle());
    e.handle_key(ctrl('s'));
    assert!(!e.hides_when_idle());
    assert!(!e.parks_while_idle());
}

#[test]
fn byte_index_of_columns() {
    let e = open(Some("f"), Some("aé€😀\n"));
    let got: Vec<usize> = (0..6).map(|c| e.byte_idx(0, c)).collect();
    assert_eq!(got, vec![0, 1, 3, 6, 10, 10]);
    assert_eq!(e.line_len(0), 4);
}

#[test]
fn max_and_clamped_column_by_mode() {
    let mut e = open(Some("f"), Some("abc\n"));
    assert_eq!(e.max_col(), 2);
    press(&mut e, 'A');
    assert_eq!(e.max_col(), 3);
    assert_eq!(e.clamped_col(), 3);
    assert!(e.fits());
}

#[test]
fn pending_command_is_cleared_by_any_second_key() {
    let mut e = open(Some("f"), Some("abc\n"));
    assert_eq!(e.handle_normal(KeyCode::Char('g')), Effect::Nothing);
    assert_eq!(e.pending(), Pending::G);
    e.handle_normal(KeyCode::Char('d'));
    assert_eq!(e.pending(), Pending::Idle);
    e.handle_normal(KeyCode::Char('d'));
    assert_eq!(e.pending(), Pending::D);
    e.handle_normal(KeyCode::Left);
    assert_eq!(e.pending(), Pending::Idle);
    assert_eq!(buffer(&e), vec!["abc"]);
}

#[test]
fn block_toggle_twice_in_normal_mode() {
    let mut e = open(Some("f"), Some("abc\n"));
    e.handle_normal(KeyCode::Char('B'));
    assert!(e.block());
    e.handle_normal(KeyCode::Char('B'));
    assert!(!e.block());
    assert_eq!(buffer(&e), vec!["abc"]);
    assert_eq!(e.undo_len(), 0);
}

#[test]
fn insert_and_prompt_handlers() {
    let mut e = open(None, None);
    e.handle_insert(KeyCode::Char('a'));
    e.handle_insert(KeyCode::Tab);
    assert_eq!(buffer(&e), vec!["a    "]);
    e.handle_key(ctrl('s'));
    e.handle_prompt(key(KeyCode::Char('n')));
    assert_eq!(e.prompt().clone(), Some(chars("n")));
    assert_eq!(e.handle_prompt(key(KeyCode::Enter)), Effect::Write(AfterWrite::ClosePrompt));
}

#[test]
fn word_motion_across_unicode_whitespace() {
    let mut e = open(Some("f"), Some("ab\u{3000}cd\u{a0}ef\n"));
    press(&mut e, 'w');
    assert_eq!(e.col(), 3);
    press(&mut e, 'w');
    assert_eq!(e.col(), 6);
    press(&mut e, 'b');
    assert_eq!(e.col(), 3);
}

#[test]
fn quitting_ends_the_batch_without_a_write() {
    let mut e = open(Some("f"), Some("abc\n"));
    press(&mut e, 'x');
    assert_eq!(e.batch_end(), Effect::Write(AfterWrite::MarkSaved));
    keys(&mut e, "ZQ");
    assert!(e.quit());
    assert!(e.dirty());
    assert_eq!(e.batch_end(), Effect::Nothing);
    let mut e = open(Some("f"), Some("abc\n"));
    press(&mut e, 'x');
    e.handle_key(ctrl('c'));
    assert_eq!(e.batch_end(), Effect::Nothing);
}

#[test]
fn undo_reverts_direct_edits_since_the_snapshot() {
    let mut e = open(Some("f"), Some("abc\ndef\n"));
    press(&mut e, 'l');
    e.snapshot();
    e.insert_char('x');
    e.insert_newline();
    e.backspace();
    e.move_v(1);
    e.word_back();
    e.first_nonblank();
    e.move_h(1);
    e.word_forward();
    e.restore();
    assert_eq!(buffer(&e), vec!["abc", "def"]);
    assert_eq!((e.row(), e.col()), (0, 1));
    assert_eq!(e.undo_len(), 0);
}
