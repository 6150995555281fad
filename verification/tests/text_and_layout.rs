use ni::editor::Editor;
use ni::model::{Key, KeyCode};
use ni::render::{draw_prompt, max_line_len, CursorPlacement};
use ni::text::{char_is_whitespace, first_nonblank_index, join_lines, split_lines, trim_blanks, utf8_offset, utf8_width};

fn chars(s: &str) -> Vec<char> {
    s.chars().collect()
}

fn strings(v: &[Vec<char>]) -> Vec<String> {
    v.iter().map(|l| l.iter().collect()).collect()
}

fn s(v: &[char]) -> String {
    v.iter().collect()
}

#[test]
fn split_lines_like_str_lines() {
    for text in ["", "a", "a\n", "a\nb", "a\r\nb\r\n", "\n\n", "x\r", "a\n\nb\n", "a\rb\n"] {
        let got = strings(&split_lines(&chars(text)));
        let want: Vec<String> = text.lines().map(|l| l.to_string()).collect();
        assert_eq!(got, want, "text {:?}", text);
    }
}

#[test]
fn join_lines_ends_every_line() {
    let ls = vec![chars("a"), chars(""), chars("bc")];
    assert_eq!(s(&join_lines(&ls)), "a\n\nbc\n");
}

#[test]
fn reopening_saved_lines_gives_them_back() {
    let ls = vec![chars("one"), chars(""), chars(" two ")];
    assert_eq!(split_lines(&join_lines(&ls)), ls);
    let ls = vec![chars("ends in cr\r")];
    assert_ne!(split_lines(&join_lines(&ls)), ls);
}

#[test]
fn trim_removes_outer_whitespace() {
    assert_eq!(s(&trim_blanks(&chars("  a b \t"))), "a b");
    assert_eq!(s(&trim_blanks(&chars(" \u{a0} "))), "");
    assert_eq!(s(&trim_blanks(&chars("x"))), "x");
}

#[test]
fn first_nonblank_positions() {
    assert_eq!(first_nonblank_index(&chars("   x")), 3);
    assert_eq!(first_nonblank_index(&chars("\t\u{3000}y")), 2);
    assert_eq!(first_nonblank_index(&chars("   ")), 0);
    assert_eq!(first_nonblank_index(&chars("z")), 0);
}

#[test]
fn utf8_widths() {
    assert_eq!(utf8_width('a'), 1);
    assert_eq!(utf8_width('é'), 2);
    assert_eq!(utf8_width('€'), 3);
    assert_eq!(utf8_width('😀'), 4);
    assert_eq!(utf8_offset(&chars("a€b"), 2), 4);
    assert_eq!(utf8_offset(&chars("a€b"), 9), 5);
}

#[test]
fn longest_line() {
    assert_eq!(max_line_len(&vec![chars("ab"), chars("abcd"), chars("")]), 4);
    assert_eq!(max_line_len(&Vec::new()), 0);
}

fn editor(text: &str, block: bool) -> Editor {
    Editor::new(Some(chars("f")), Some(chars(text)), block)
}

fn press(e: &mut Editor, c: char) {
    e.handle_key(Key { code: KeyCode::Char(c), ctrl: false });
}

#[test]
fn each_line_is_centred_on_its_own() {
    let mut e = editor("abc\nabcdef\n", false);
    let f = e.draw(10, 6);
    assert_eq!(f.rows.len(), 2);
    assert_eq!((f.rows[0].x, f.rows[0].y, s(&f.rows[0].text)), (3, 2, "abc".to_string()));
    assert_eq!((f.rows[1].x, f.rows[1].y, s(&f.rows[1].text)), (2, 3, "abcdef".to_string()));
    match f.cursor {
        CursorPlacement::Parked { x } => assert_eq!(x, 9),
        _ => panic!("cursor should be parked"),
    }
}

#[test]
fn block_mode_aligns_lines_on_the_widest() {
    let mut e = editor("abc\nabcdef\n", true);
    let f = e.draw(10, 6);
    assert_eq!(f.rows[0].x, 2);
    assert_eq!(f.rows[1].x, 2);
}

#[test]
fn long_lines_are_clipped() {
    let mut e = editor("abcdefghijkl\n", false);
    let f = e.draw(5, 3);
    assert_eq!((f.rows[0].x, s(&f.rows[0].text)), (0, "abcde".to_string()));
}

#[test]
fn cursor_is_shown_after_a_key() {
    let mut e = editor("abc\n", false);
    press(&mut e, 'l');
    let f = e.draw(11, 5);
    match f.cursor {
        CursorPlacement::Shown { x, y, bar } => {
            assert_eq!((x, y, bar), (5, 2, false));
        }
        _ => panic!("cursor should be shown"),
    }
    press(&mut e, 'a');
    match e.draw(11, 5).cursor {
        CursorPlacement::Shown { x, bar, .. } => assert_eq!((x, bar), (6, true)),
        _ => panic!("cursor should be shown"),
    }
}

#[test]
fn tall_buffers_scroll_to_the_cursor() {
    let text: String = (0..30).map(|i| format!("{}\n", i)).collect();
    let mut e = editor(&text, false);
    for _ in 0..25 {
        press(&mut e, 'j');
    }
    let f = e.draw(20, 10);
    assert_eq!(e.top(), 16);
    assert_eq!(f.rows.len(), 10);
    assert_eq!(s(&f.rows[0].text), "16");
    assert_eq!(s(&f.rows[9].text), "25");
    press(&mut e, 'g');
    press(&mut e, 'g');
    e.draw(20, 10);
    assert_eq!(e.top(), 0);
}

#[test]
fn zero_height_counts_as_one_row() {
    let mut e = editor("a\nb\n", false);
    let f = e.draw(10, 0);
    assert_eq!(f.rows.len(), 1);
}

#[test]
fn save_as_box_layout() {
    let b = draw_prompt(&chars("out.txt"), 40, 11);
    assert_eq!((b.x, b.y), (4, 4));
    assert_eq!(s(&b.top), format!("┌ Save as {}┐", "─".repeat(21)));
    assert_eq!(s(&b.mid), format!("│ out.txt{}│", " ".repeat(22)));
    assert_eq!(s(&b.bot), format!("└{}┘", "─".repeat(30)));
    assert_eq!((b.cursor_x, b.cursor_y), (13, 5));
}

#[test]
fn save_as_box_shows_the_tail_of_long_input() {
    let input: String = (0..40).map(|i| char::from(b'a' + (i % 26) as u8)).collect();
    let b = draw_prompt(&chars(&input), 20, 5);
    assert_eq!(b.x, 0);
    let tail: String = input.chars().skip(40 - 17).collect();
    assert_eq!(s(&b.mid), format!("│ {}│", tail));
    assert_eq!(b.cursor_x, 19);
}

#[test]
fn open_prompt_puts_the_cursor_in_the_box() {
    let mut e = editor("abc\n", false);
    e.handle_key(Key { code: KeyCode::Char('s'), ctrl: true });
    match e.draw(40, 11).cursor {
        CursorPlacement::Prompt(b) => assert_eq!(s(&b.mid), format!("│ f{}│", " ".repeat(28))),
        _ => panic!("prompt expected"),
    }
}

#[test]
fn whitespace_matches_std() {
    for v in 0u32..0x3100 {
        if let Some(c) = char::from_u32(v) {
            assert_eq!(char_is_whitespace(c), c.is_whitespace(), "U+{:04X}", v);
        }
    }
    for c in ['\u{feff}', '\u{180e}', '\u{10ffff}', '越'] {
        assert_eq!(char_is_whitespace(c), c.is_whitespace());
    }
}
