//! The editor state and its editing commands, each proved to do to the
//! state what the model in `model` says.

use vstd::prelude::*;
use vstd::utf8::encode_utf8;
use crate::model::{AfterWrite, Effect, Event, Key, KeyCode, Model, Mode, Pending, Snapshot, UNDO_LIMIT, back_skip_blank, back_skip_word, min, skip_blank, skip_word};
use crate::render::{CursorPlacement, Frame, TextRow, centred, draw_prompt, frame_is, line_x0, max_len, max_line_len, prompt_box_is, sat_sub, scroll_top};
use crate::text::{char_is_whitespace, first_nonblank_index, lines_view, trim_blanks, split_lines, text_of, utf8_offset};

verus! {

/// One entry of the undo stack.
pub struct UndoEntry {
    lines: Vec<Vec<char>>,
    row: usize,
    col: usize,
}

impl View for UndoEntry {
    type V = Snapshot;

    closed spec fn view(&self) -> Snapshot {
        Snapshot { lines: lines_view(self.lines@), row: self.row as int, col: self.col as int }
    }
}

pub open spec fn opt_view(o: Option<Vec<char>>) -> Option<Seq<char>> {
    match o {
        Some(v) => Some(v@),
        None => None,
    }
}

pub open spec fn undo_view(v: Seq<UndoEntry>) -> Seq<Snapshot> {
    v.map_values(|e: UndoEntry| e@)
}

/// The editor: a buffer of lines, a cursor, a mode, an undo stack, the
/// file path and the save-as prompt.
pub struct Editor {
    lines: Vec<Vec<char>>,
    row: usize,
    col: usize,
    mode: Mode,
    pending: Pending,
    path: Option<Vec<char>>,
    block: bool,
    dirty: bool,
    undo: Vec<UndoEntry>,
    top: usize,
    quit: bool,
    prompt: Option<Vec<char>>,
    show_cursor: bool,
}

impl View for Editor {
    type V = Model;

    closed spec fn view(&self) -> Model {
        Model {
            lines: lines_view(self.lines@),
            row: self.row as int,
            col: self.col as int,
            mode: self.mode,
            pending: self.pending,
            path: opt_view(self.path),
            block: self.block,
            dirty: self.dirty,
            undo: undo_view(self.undo@),
            top: self.top as int,
            quit: self.quit,
            prompt: opt_view(self.prompt),
            show_cursor: self.show_cursor,
        }
    }
}

/// A copy of a line.
fn copy_line(l: &Vec<char>) -> (r: Vec<char>)
    ensures
        r@ == l@,
{
    let mut r: Vec<char> = Vec::new();
    let mut i: usize = 0;
    while i < l.len()
        invariant
            i <= l@.len(),
            r@ =~= l@.take(i as int),
        decreases l@.len() - i,
    {
        r.push(l[i]);
        i = i + 1;
    }
    proof {
        assert(l@.take(i as int) =~= l@);
    }
    r
}

/// A copy of a buffer.
fn copy_lines(ls: &Vec<Vec<char>>) -> (r: Vec<Vec<char>>)
    ensures
        lines_view(r@) == lines_view(ls@),
{
    let mut r: Vec<Vec<char>> = Vec::new();
    let mut i: usize = 0;
    while i < ls.len()
        invariant
            i <= ls@.len(),
            lines_view(r@) =~= lines_view(ls@).take(i as int),
        decreases ls@.len() - i,
    {
        let l = copy_line(&ls[i]);
        let ghost before = r@;
        r.push(l);
        proof {
            assert(lines_view(r@) =~= lines_view(before).push(ls@[i as int]@));
            assert(lines_view(ls@).take(i + 1) =~= lines_view(ls@).take(i as int).push(
                ls@[i as int]@,
            ));
        }
        i = i + 1;
    }
    proof {
        assert(lines_view(ls@).take(i as int) =~= lines_view(ls@));
    }
    r
}

impl Editor {
    /// A fresh editor. `contents` is the text of the file at `path` when that
    /// file exists.
    pub fn new(path: Option<Vec<char>>, contents: Option<Vec<char>>, block: bool) -> (e: Editor)
        ensures
            e@ == Model::initial(opt_view(path), opt_view(contents), block),
            e@.wf(),
    {
        let lines = match contents {
            Some(t) => {
                let mut ls = split_lines(&t);
                if ls.len() == 0 {
                    ls.push(Vec::new());
                    proof {
                        assert(lines_view(ls@) =~= seq![Seq::<char>::empty()]);
                    }
                }
                ls
            },
            None => {
                let mut ls: Vec<Vec<char>> = Vec::new();
                ls.push(Vec::new());
                proof {
                    assert(lines_view(ls@) =~= seq![Seq::<char>::empty()]);
                }
                ls
            },
        };
        let mode = if path.is_none() {
            Mode::Insert
        } else {
            Mode::Normal
        };
        let e = Editor {
            lines,
            row: 0,
            col: 0,
            mode,
            pending: Pending::Idle,
            path,
            block,
            dirty: false,
            undo: Vec::new(),
            top: 0,
            quit: false,
            prompt: None,
            show_cursor: false,
        };
        proof {
            assert(undo_view(e.undo@) =~= Seq::<Snapshot>::empty());
            assert(e@ =~= Model::initial(opt_view(path), opt_view(contents), block));
        }
        e
    }

    /// Number of characters of line `row`.
    pub fn line_len(&self, row: usize) -> (n: usize)
        requires
            row < self@.lines.len(),
        ensures
            n as int == self@.line_len(row as int),
    {
        self.lines[row].len()
    }

    /// Max cursor column on the current line for the current mode (normal
    /// mode stops on the last char, insert mode goes one past).
    pub fn max_col(&self) -> (n: usize)
        requires
            self@.wf(),
        ensures
            n as int == self@.max_col(),
    {
        let len = self.line_len(self.row);
        match self.mode {
            Mode::Insert => len,
            Mode::Normal => if len > 0 {
                len - 1
            } else {
                0
            },
        }
    }

    /// The desired column clamped to the current line.
    pub fn clamped_col(&self) -> (n: usize)
        requires
            self@.wf(),
        ensures
            n as int == self@.clamped_col(),
    {
        let m = self.max_col();
        if self.col <= m {
            self.col
        } else {
            m
        }
    }

    /// Byte offset, in the UTF-8 text of line `row`, of the character at
    /// column `col`; the line's byte length when `col` is past its end.
    pub fn byte_idx(&self, row: usize, col: usize) -> (n: usize)
        requires
            row < self@.lines.len(),
            encode_utf8(self@.lines[row as int]).len() <= usize::MAX,
        ensures
            n as int == encode_utf8(
                self@.lines[row as int].take(min(col as int, self@.line_len(row as int))),
            ).len(),
    {
        utf8_offset(&self.lines[row], col)
    }

    /// Push the current lines, row and clamped column on the undo stack
    /// (dropping the oldest entry beyond the limit) and mark the buffer dirty.
    pub fn snapshot(&mut self)
        requires
            old(self)@.wf(),
        ensures
            final(self)@ == old(self)@.snapshot(),
            final(self)@.wf(),
    {
        let col = self.clamped_col();
        let entry = UndoEntry { lines: copy_lines(&self.lines), row: self.row, col };
        let ghost before = self.undo@;
        self.undo.push(entry);
        proof {
            assert(undo_view(self.undo@) =~= undo_view(before).push(entry@));
        }
        if self.undo.len() > UNDO_LIMIT {
            let ghost pushed = self.undo@;
            self.undo.remove(0);
            proof {
                assert(undo_view(self.undo@) =~= undo_view(pushed).drop_first());
            }
        }
        self.dirty = true;
        proof {
            assert(self@ =~= old(self)@.snapshot());
        }
    }

    /// Pop the last undo entry, if any, back into the buffer and cursor.
    pub fn restore(&mut self)
        requires
            old(self)@.wf(),
        ensures
            final(self)@ == old(self)@.restore(),
            final(self)@.wf(),
    {
        let ghost before = self.undo@;
        if let Some(entry) = self.undo.pop() {
            proof {
                assert(undo_view(self.undo@) =~= undo_view(before).drop_last());
                assert(entry@ == undo_view(before).last());
            }
            self.lines = entry.lines;
            self.row = entry.row;
            self.col = entry.col;
            self.dirty = true;
            proof {
                assert(self@ =~= old(self)@.restore());
            }
        }
    }

    /// Whether the buffer has to be written back now: when it has unsaved
    /// edits and a file path, a write whose success marks it saved.
    pub fn autosave(&self) -> (eff: Effect)
        ensures
            eff == self@.autosave(),
    {
        if self.dirty && self.path.is_some() {
            Effect::Write(AfterWrite::MarkSaved)
        } else {
            Effect::Nothing
        }
    }

    /// What to do at the end of a batch of events: nothing once quitting,
    /// otherwise an autosave.
    pub fn batch_end(&self) -> (eff: Effect)
        ensures
            eff == self@.batch_end(),
    {
        if self.quit {
            Effect::Nothing
        } else {
            self.autosave()
        }
    }

    /// Complete the step that waited for a successful write: quit after
    /// `ZZ`, close the save-as prompt, or mark the buffer saved. When the
    /// write fails the host does not call this, and the state stays as the
    /// request left it (unsaved, not quitting, prompt open).
    pub fn write_done(&mut self, after: AfterWrite)
        ensures
            final(self)@ == old(self)@.write_done(after),
    {
        match after {
            AfterWrite::Quit => {
                self.quit = true;
            },
            AfterWrite::ClosePrompt => {
                self.dirty = false;
                self.prompt = None;
            },
            AfterWrite::MarkSaved => {
                self.dirty = false;
            },
        }
        proof {
            assert(self@ =~= old(self)@.write_done(after));
        }
    }

    /// The file path and the text to write there, when a path is known.
    pub fn save(&self) -> (r: Option<(Vec<char>, Vec<char>)>)
        ensures
            match r {
                Some((p, t)) => self@.path == Some(p@) && t@ == text_of(self@.lines),
                None => self@.path is None,
            },
    {
        match &self.path {
            Some(p) => {
                let text = crate::text::join_lines(&self.lines);
                Some((copy_line(p), text))
            },
            None => None,
        }
    }

    // --- editing primitives -------------------------------------------------

    /// Insert `c` at the cursor and move past it.
    pub fn insert_char(&mut self, c: char)
        requires
            old(self)@.wf(),
        ensures
            final(self)@ == old(self)@.insert_char(c),
            final(self)@.wf(),
    {
        let col = self.clamped_col();
        let r = self.row;
        self.lines[r].insert(col, c);
        let new_len = self.lines[r].len();
        assert(col < new_len);
        self.col = col + 1;
        self.dirty = true;
        proof {
            assert(lines_view(self.lines@) =~= old(self)@.lines.update(
                r as int,
                old(self)@.line().insert(col as int, c),
            ));
            assert(self@ =~= old(self)@.insert_char(c));
        }
    }

    /// Split the current line at the cursor; the cursor moves to the start
    /// of the new line below.
    pub fn insert_newline(&mut self)
        requires
            old(self)@.wf(),
        ensures
            final(self)@ == old(self)@.insert_newline(),
            final(self)@.wf(),
    {
        let col = self.clamped_col();
        let r = self.row;
        let rest = self.lines[r].split_off(col);
        let count = self.lines.len();
        assert(r < count);
        self.lines.insert(r + 1, rest);
        self.row = r + 1;
        self.col = 0;
        self.dirty = true;
        proof {
            let l = old(self)@.line();
            assert(lines_view(self.lines@) =~= old(self)@.lines.update(r as int, l.take(col as int)).insert(
                r + 1,
                l.skip(col as int),
            ));
            assert(self@ =~= old(self)@.insert_newline());
        }
    }

    /// Delete the character before the cursor; at the start of a line, join
    /// the line onto the one above.
    pub fn backspace(&mut self)
        requires
            old(self)@.wf(),
        ensures
            final(self)@ == old(self)@.backspace(),
            final(self)@.wf(),
    {
        let col = self.clamped_col();
        let r = self.row;
        if col > 0 {
            self.lines[r].remove(col - 1);
            self.col = col - 1;
            self.dirty = true;
            proof {
                assert(lines_view(self.lines@) =~= old(self)@.lines.update(
                    r as int,
                    old(self)@.line().remove(col - 1),
                ));
                assert(self@ =~= old(self)@.backspace());
            }
        } else if r > 0 {
            let mut cur = self.lines.remove(r);
            let ghost removed = lines_view(self.lines@);
            self.row = r - 1;
            let n = self.lines[r - 1].len();
            self.col = n;
            self.lines[r - 1].append(&mut cur);
            self.dirty = true;
            proof {
                assert(removed =~= old(self)@.lines.remove(r as int));
                assert(lines_view(self.lines@) =~= removed.update(
                    r - 1,
                    removed[r - 1] + old(self)@.line(),
                ));
                assert(self@ =~= old(self)@.backspace());
            }
        }
    }

    /// `x`: delete the character under the cursor, taking an undo snapshot
    /// first; nothing happens past the end of the line.
    pub fn delete_char(&mut self)
        requires
            old(self)@.wf(),
        ensures
            final(self)@ == old(self)@.delete_char(),
            final(self)@.wf(),
    {
        let col = self.clamped_col();
        if col < self.line_len(self.row) {
            self.snapshot();
            let ghost s = self@;
            let r = self.row;
            self.lines[r].remove(col);
            self.col = col;
            proof {
                assert(lines_view(self.lines@) =~= s.lines.update(r as int, s.line().remove(col as int)));
                assert(self@ =~= old(self)@.delete_char());
            }
        }
    }

    /// `dd`: delete the current line (a lone line is emptied instead).
    pub fn delete_line(&mut self)
        requires
            old(self)@.wf(),
        ensures
            final(self)@ == old(self)@.delete_line(),
            final(self)@.wf(),
    {
        self.snapshot();
        let ghost s = self@;
        if self.lines.len() == 1 {
            self.lines[0].clear();
            proof {
                assert(lines_view(self.lines@) =~= seq![Seq::<char>::empty()]);
            }
        } else {
            self.lines.remove(self.row);
            proof {
                assert(lines_view(self.lines@) =~= s.lines.remove(s.row));
            }
            if self.row >= self.lines.len() {
                self.row = self.lines.len() - 1;
            }
        }
        let c = self.clamped_col();
        self.col = c;
        proof {
            assert(self@ =~= old(self)@.delete_line());
        }
    }

    // --- motions ------------------------------------------------------------

    /// Move the cursor `dx` columns, staying within the current line.
    pub fn move_h(&mut self, dx: isize)
        requires
            old(self)@.wf(),
            old(self)@.max_col() <= isize::MAX,
            old(self)@.clamped_col() + dx <= isize::MAX,
        ensures
            final(self)@ == old(self)@.move_h(dx as int),
            final(self)@.wf(),
    {
        let c = self.clamped_col() as isize + dx;
        let m = self.max_col() as isize;
        self.col = if c < 0 {
            0
        } else if c > m {
            m as usize
        } else {
            c as usize
        };
        proof {
            assert(self@ =~= old(self)@.move_h(dx as int));
        }
    }

    /// Move the cursor `dy` rows, staying within the buffer.
    pub fn move_v(&mut self, dy: isize)
        requires
            old(self)@.wf(),
            old(self)@.lines.len() <= isize::MAX,
            old(self)@.row + dy <= isize::MAX,
        ensures
            final(self)@ == old(self)@.move_v(dy as int),
            final(self)@.wf(),
    {
        let r = self.row as isize + dy;
        let last = self.lines.len() as isize - 1;
        self.row = if r < 0 {
            0
        } else if r > last {
            last as usize
        } else {
            r as usize
        };
        proof {
            assert(self@ =~= old(self)@.move_v(dy as int));
        }
    }

    /// Column where the next word on the current line starts (the line's
    /// length when none follows): past the rest of the current word, then
    /// past whitespace.
    pub fn next_word_start(&self) -> (c: usize)
        requires
            self@.wf(),
        ensures
            c as int == self@.next_word_start(),
            self@.clamped_col() <= c <= self@.line().len(),
    {
        let ghost m = self@;
        let start = self.clamped_col();
        let mut col = start;
        let line = &self.lines[self.row];
        let len = line.len();
        // Skip the current word, then whitespace.
        while col < len && !char_is_whitespace(line[col])
            invariant
                line@ == m.line(),
                len == line@.len(),
                start <= col <= len,
                skip_word(line@, start as int) == skip_word(line@, col as int),
            decreases len - col,
        {
            col = col + 1;
        }
        let ghost w = col;
        while col < len && char_is_whitespace(line[col])
            invariant
                line@ == m.line(),
                len == line@.len(),
                start <= w <= col <= len,
                skip_blank(line@, w as int) == skip_blank(line@, col as int),
            decreases len - col,
        {
            col = col + 1;
        }
        col
    }

    /// `w`: move to the start of the next word, continuing on the next line
    /// when the current one has no further word.
    pub fn word_forward(&mut self)
        requires
            old(self)@.wf(),
        ensures
            final(self)@ == old(self)@.word_forward(),
            final(self)@.wf(),
    {
        let r = self.row;
        let col = self.next_word_start();
        let len = self.lines[r].len();
        let count = self.lines.len();
        assert(r < count);
        if col >= len && r + 1 < count {
            self.row = r + 1;
            self.col = first_nonblank_index(&self.lines[r + 1]);
        } else {
            let mc = self.max_col();
            self.col = if col <= mc {
                col
            } else {
                mc
            };
        }
        proof {
            assert(self@ =~= old(self)@.word_forward());
        }
    }

    /// `b`: move to the start of the previous word; at the start of a line,
    /// to the end of the line above.
    pub fn word_back(&mut self)
        requires
            old(self)@.wf(),
        ensures
            final(self)@ == old(self)@.word_back(),
            final(self)@.wf(),
    {
        let ghost m = self@;
        let c = self.clamped_col();
        if c == 0 {
            if self.row > 0 {
                self.row = self.row - 1;
                let mc = self.max_col();
                self.col = mc;
                proof {
                    assert(self@ =~= old(self)@.word_back());
                }
            }
            return ;
        }
        let line = &self.lines[self.row];
        let mut col = c - 1;
        while col > 0 && char_is_whitespace(line[col])
            invariant
                line@ == m.line(),
                col < line@.len(),
                back_skip_blank(line@, c - 1) == back_skip_blank(line@, col as int),
            decreases col,
        {
            col = col - 1;
        }
        let ghost b = col;
        while col > 0 && !char_is_whitespace(line[col - 1])
            invariant
                line@ == m.line(),
                col <= b < line@.len(),
                back_skip_word(line@, b as int) == back_skip_word(line@, col as int),
            decreases col,
        {
            col = col - 1;
        }
        self.col = col;
        proof {
            assert(self@ =~= old(self)@.word_back());
        }
    }

    /// `^`: move to the first non-blank character of the line (column 0 when
    /// the line is blank).
    pub fn first_nonblank(&mut self)
        requires
            old(self)@.wf(),
        ensures
            final(self)@ == old(self)@.first_nonblank(),
            final(self)@.wf(),
    {
        let c = first_nonblank_index(&self.lines[self.row]);
        self.col = c;
        proof {
            assert(self@ =~= old(self)@.first_nonblank());
        }
    }

    /// Take an undo snapshot and enter insert mode `offset` columns right of
    /// the cursor (at most at the end of the line).
    pub fn enter_insert(&mut self, offset: usize)
        requires
            old(self)@.wf(),
            old(self)@.clamped_col() + offset <= usize::MAX,
        ensures
            final(self)@ == old(self)@.enter_insert(offset as int),
            final(self)@.wf(),
    {
        self.snapshot();
        let col = self.clamped_col();
        self.mode = Mode::Insert;
        let n = self.line_len(self.row);
        self.col = if col + offset <= n {
            col + offset
        } else {
            n
        };
        proof {
            assert(self@ =~= old(self)@.enter_insert(offset as int));
        }
    }

    // --- normal-mode commands ----------------------------------------------

    /// `dw`: delete from the cursor up to the start of the next word, or to
    /// the end of the line when no word follows on this line.
    fn delete_word(&mut self)
        requires
            old(self)@.wf(),
        ensures
            final(self)@ == old(self)@.delete_word(),
            final(self)@.wf(),
    {
        self.snapshot();
        let ghost s = self@;
        let start = self.clamped_col();
        let end = self.next_word_start();
        let r = self.row;
        let len = self.lines[r].len();
        if end >= len {
            self.lines[r].truncate(start);
            proof {
                assert(lines_view(self.lines@) =~= s.lines.update(r as int, s.line().take(start as int)));
            }
        } else {
            let mut tail = self.lines[r].split_off(end);
            self.lines[r].truncate(start);
            self.lines[r].append(&mut tail);
            proof {
                let l = s.line();
                assert(self.lines@[r as int]@ =~= l.take(start as int) + l.skip(end as int));
                assert(lines_view(self.lines@) =~= s.lines.update(
                    r as int,
                    l.take(start as int) + l.skip(end as int),
                ));
            }
        }
        let mc = self.max_col();
        self.col = if start <= mc {
            start
        } else {
            mc
        };
        proof {
            assert(self@ =~= old(self)@.delete_word());
        }
    }

    /// `D`: delete from the cursor to the end of the line.
    fn truncate_line(&mut self)
        requires
            old(self)@.wf(),
        ensures
            final(self)@ == old(self)@.truncate_line(),
            final(self)@.wf(),
    {
        self.snapshot();
        let ghost s = self@;
        let idx = self.clamped_col();
        let r = self.row;
        self.lines[r].truncate(idx);
        proof {
            assert(lines_view(self.lines@) =~= s.lines.update(r as int, s.line().take(idx as int)));
        }
        let c = self.clamped_col();
        self.col = c;
        proof {
            assert(self@ =~= old(self)@.truncate_line());
        }
    }

    /// `o`: open an empty line below the cursor and insert there.
    fn open_below(&mut self)
        requires
            old(self)@.wf(),
        ensures
            final(self)@ == old(self)@.open_below(),
            final(self)@.wf(),
    {
        self.snapshot();
        let ghost s = self@;
        self.mode = Mode::Insert;
        let r = self.row;
        let count = self.lines.len();
        assert(r < count);
        self.lines.insert(r + 1, Vec::new());
        self.row = r + 1;
        self.col = 0;
        proof {
            assert(lines_view(self.lines@) =~= s.lines.insert(r + 1, Seq::<char>::empty()));
            assert(self@ =~= old(self)@.open_below());
        }
    }

    /// `O`: open an empty line above the cursor and insert there.
    fn open_above(&mut self)
        requires
            old(self)@.wf(),
        ensures
            final(self)@ == old(self)@.open_above(),
            final(self)@.wf(),
    {
        self.snapshot();
        let ghost s = self@;
        self.mode = Mode::Insert;
        let r = self.row;
        self.lines.insert(r, Vec::new());
        self.col = 0;
        proof {
            assert(lines_view(self.lines@) =~= s.lines.insert(r as int, Seq::<char>::empty()));
            assert(self@ =~= old(self)@.open_above());
        }
    }

    /// `A`: insert at the end of the line.
    fn append_at_end(&mut self)
        requires
            old(self)@.wf(),
        ensures
            final(self)@ == old(self)@.append_at_end(),
            final(self)@.wf(),
    {
        self.snapshot();
        self.mode = Mode::Insert;
        let c = self.max_col();
        self.col = c;
        proof {
            assert(self@ =~= old(self)@.append_at_end());
        }
    }

    /// `gg` / `G`: go to row `r`, keeping the clamped column.
    fn goto_row(&mut self, r: usize)
        requires
            old(self)@.wf(),
            r < old(self)@.lines.len(),
        ensures
            final(self)@ == old(self)@.goto_row(r as int),
            final(self)@.wf(),
    {
        self.row = r;
        let c = self.clamped_col();
        self.col = c;
        proof {
            assert(self@ =~= old(self)@.goto_row(r as int));
        }
    }

    // --- key handling -------------------------------------------------------

    /// A key in insert mode.
    pub fn handle_insert(&mut self, code: KeyCode)
        requires
            old(self)@.wf(),
            old(self)@.fits(),
            old(self)@.mode == Mode::Insert,
        ensures
            final(self)@ == old(self)@.handle_insert(code),
            final(self)@.wf(),
    {
        match code {
            KeyCode::Esc => {
                self.mode = Mode::Normal;
                let c = self.clamped_col();
                self.col = c;
                proof {
                    assert(self@ =~= old(self)@.handle_insert(code));
                }
            },
            KeyCode::Char(c) => self.insert_char(c),
            KeyCode::Enter => self.insert_newline(),
            KeyCode::Backspace => self.backspace(),
            KeyCode::Tab => {
                self.insert_char(' ');
                self.insert_char(' ');
                self.insert_char(' ');
                self.insert_char(' ');
            },
            KeyCode::Left => self.move_h(-1),
            KeyCode::Right => self.move_h(1),
            KeyCode::Up => self.move_v(-1),
            KeyCode::Down => self.move_v(1),
            KeyCode::Other => {},
        }
    }

    /// A normal-mode key with no command pending.
    fn normal_command(&mut self, code: KeyCode)
        requires
            old(self)@.wf(),
            old(self)@.fits(),
            old(self)@.mode == Mode::Normal,
        ensures
            final(self)@ == old(self)@.normal_command(code),
            final(self)@.wf(),
    {
        match code {
            KeyCode::Left => self.move_h(-1),
            KeyCode::Right => self.move_h(1),
            KeyCode::Down => self.move_v(1),
            KeyCode::Up => self.move_v(-1),
            KeyCode::Char(c) => {
                if c == 'h' {
                    self.move_h(-1)
                } else if c == 'l' {
                    self.move_h(1)
                } else if c == 'j' {
                    self.move_v(1)
                } else if c == 'k' {
                    self.move_v(-1)
                } else if c == '0' {
                    self.col = 0;
                } else if c == '$' {
                    let m = self.max_col();
                    self.col = m;
                } else if c == '^' {
                    self.first_nonblank()
                } else if c == 'w' {
                    self.word_forward()
                } else if c == 'b' {
                    self.word_back()
                } else if c == 'B' {
                    self.block = !self.block;
                } else if c == 'G' {
                    let last = self.lines.len() - 1;
                    self.goto_row(last)
                } else if c == 'g' {
                    self.pending = Pending::G;
                } else if c == 'd' {
                    self.pending = Pending::D;
                } else if c == 'Z' {
                    self.pending = Pending::Z;
                } else if c == 'i' {
                    self.enter_insert(0)
                } else if c == 'a' {
                    self.enter_insert(1)
                } else if c == 'I' {
                    self.first_nonblank();
                    self.enter_insert(0);
                } else if c == 'A' {
                    self.append_at_end()
                } else if c == 'o' {
                    self.open_below()
                } else if c == 'O' {
                    self.open_above()
                } else if c == 'x' {
                    self.delete_char()
                } else if c == 'D' {
                    self.truncate_line()
                } else if c == 'u' {
                    self.restore()
                }
                proof {
                    assert(self@ =~= old(self)@.normal_command(code));
                }
            },
            _ => {},
        }
    }

    /// A key in normal mode, completing a pending command if there is one.
    pub fn handle_normal(&mut self, code: KeyCode) -> (eff: Effect)
        requires
            old(self)@.wf(),
            old(self)@.fits(),
            old(self)@.mode == Mode::Normal,
        ensures
            final(self)@ == old(self)@.handle_normal(code).0,
            eff == old(self)@.handle_normal(code).1,
            final(self)@.wf(),
    {
        let pending = self.pending;
        self.pending = Pending::Idle;
        match pending {
            Pending::D => {
                match code {
                    KeyCode::Char('d') => self.delete_line(),
                    KeyCode::Char('w') => self.delete_word(),
                    _ => {},
                }
                Effect::Nothing
            },
            Pending::G => {
                if code == KeyCode::Char('g') {
                    self.goto_row(0);
                }
                Effect::Nothing
            },
            Pending::Z => {
                match code {
                    KeyCode::Char('Z') => Effect::Write(AfterWrite::Quit),
                    KeyCode::Char('Q') => {
                        self.quit = true;
                        Effect::Nothing
                    },
                    _ => Effect::Nothing,
                }
            },
            Pending::Idle => {
                self.normal_command(code);
                Effect::Nothing
            },
        }
    }

    /// A key while the save-as prompt is open: Esc closes it, Enter on a
    /// non-blank name asks for the buffer to be written there, Backspace and
    /// plain characters edit the input, Control-C quits.
    pub fn handle_prompt(&mut self, key: Key) -> (eff: Effect)
        requires
            old(self)@.prompt is Some,
        ensures
            final(self)@ == old(self)@.handle_prompt(key).0,
            eff == old(self)@.handle_prompt(key).1,
    {
        let input = self.prompt.take().unwrap();
        match key.code {
            KeyCode::Esc => Effect::Nothing,
            KeyCode::Enter => {
                let name = trim_blanks(&input);
                if name.len() > 0 {
                    self.path = Some(name);
                    self.prompt = Some(input);
                    proof {
                        assert(self@ =~= old(self)@.handle_prompt(key).0);
                    }
                    Effect::Write(AfterWrite::ClosePrompt)
                } else {
                    Effect::Nothing
                }
            },
            KeyCode::Backspace => {
                let mut input = input;
                input.pop();
                self.prompt = Some(input);
                proof {
                    assert(self@ =~= old(self)@.handle_prompt(key).0);
                }
                Effect::Nothing
            },
            KeyCode::Char(c) => {
                if key.ctrl {
                    if c == 'c' {
                        self.quit = true;
                    } else {
                        self.prompt = Some(input);
                    }
                } else {
                    let mut input = input;
                    input.push(c);
                    self.prompt = Some(input);
                }
                proof {
                    assert(self@ =~= old(self)@.handle_prompt(key).0);
                }
                Effect::Nothing
            },
            _ => {
                self.prompt = Some(input);
                Effect::Nothing
            },
        }
    }

    /// Handle one key press. Control-C quits from anywhere; Control-S opens
    /// the save-as prompt (pre-filled with the current path) from insert and
    /// normal mode; while the prompt is open every key goes to it. The
    /// result says whether the buffer must now be written to its file.
    pub fn handle_key(&mut self, key: Key) -> (eff: Effect)
        requires
            old(self)@.wf(),
            old(self)@.fits(),
        ensures
            final(self)@ == old(self)@.handle_key(key).0,
            eff == old(self)@.handle_key(key).1,
            final(self)@.wf(),
    {
        proof {
            reveal(Model::handle_key);
        }
        self.show_cursor = true;
        if self.prompt.is_some() {
            return self.handle_prompt(key);
        }
        if key.ctrl && key.code == KeyCode::Char('c') {
            self.quit = true;
            return Effect::Nothing;
        }
        if key.ctrl && key.code == KeyCode::Char('s') {
            let p = match &self.path {
                Some(p) => copy_line(p),
                None => Vec::new(),
            };
            self.prompt = Some(p);
            proof {
                assert(self@ =~= old(self)@.handle_key(key).0);
            }
            return Effect::Nothing;
        }
        match self.mode {
            Mode::Insert => {
                self.handle_insert(key.code);
                Effect::Nothing
            },
            Mode::Normal => self.handle_normal(key.code),
        }
    }

    // --- rendering ----------------------------------------------------------

    /// Scroll so that the cursor row is on a screen `h` rows high.
    fn scroll(&mut self, h: usize)
        requires
            old(self)@.wf(),
            old(self)@.fits(),
            1 <= h <= u16::MAX,
        ensures
            final(self)@ == (Model {
                top: scroll_top(old(self)@.lines.len() as int, old(self)@.row, old(self)@.top, h as int),
                ..old(self)@
            }),
            final(self)@.top <= final(self)@.row,
    {
        if self.lines.len() <= h {
            self.top = 0;
        } else {
            if self.row < self.top {
                self.top = self.row;
            }
            if self.row >= self.top + h {
                self.top = self.row - h + 1;
            }
        }
        proof {
            assert(self@ =~= (Model {
                top: scroll_top(old(self)@.lines.len() as int, old(self)@.row, old(self)@.top, h as int),
                ..old(self)@
            }));
        }
    }

    /// Screen column where line `r` starts.
    fn line_start(&self, r: usize, w: usize, block_x0: usize) -> (x0: usize)
        requires
            self@.wf(),
            r < self@.lines.len(),
            w <= u16::MAX,
            self@.block ==> block_x0 == centred(w as int, max_len(self@.lines)),
        ensures
            x0 == line_x0(self@, w as int, self@.lines[r as int]),
            x0 <= w / 2,
    {
        if self.block {
            block_x0
        } else {
            let n = self.lines[r].len();
            (w - if n < w {
                n
            } else {
                w
            }) / 2
        }
    }

    /// Line `r`, clipped to what fits right of `x0` on a `w`-wide screen.
    fn clipped(&self, r: usize, w: usize, x0: usize) -> (t: Vec<char>)
        requires
            r < self@.lines.len(),
            x0 <= w,
        ensures
            t@ == self@.lines[r as int].take(min(w - x0, self@.lines[r as int].len() as int)),
    {
        let line = &self.lines[r];
        let n = line.len();
        let room = w - x0;
        let take = if room < n {
            room
        } else {
            n
        };
        let mut text: Vec<char> = Vec::new();
        let mut k: usize = 0;
        while k < take
            invariant
                take <= line@.len(),
                k <= take,
                text@ =~= line@.take(k as int),
            decreases take - k,
        {
            text.push(line[k]);
            k = k + 1;
        }
        text
    }

    /// Where the cursor goes, once `top` is scrolled.
    fn cursor_placement(&self, w: usize, h: usize, block_x0: usize) -> (c: CursorPlacement)
        requires
            self@.wf(),
            self@.fits(),
            self@.top <= self@.row,
            11 <= w || self@.prompt is None,
            w <= u16::MAX,
            1 <= h <= u16::MAX,
            self@.row - self@.top < h,
            self@.prompt matches Some(p) ==> p.len() + 2 <= usize::MAX,
            self@.block ==> block_x0 == centred(w as int, max_len(self@.lines)),
        ensures
            ({
                let m = self@;
                let visible = min(m.lines.len() as int, h as int);
                let y0 = (h - visible) / 2;
                match m.prompt {
                    Some(p) => c matches CursorPlacement::Prompt(b) && prompt_box_is(b, p, w as int, h as int),
                    None => {
                        let cx = min(line_x0(m, w as int, m.line()) + m.clamped_col(), sat_sub(w as int, 1));
                        let cy = y0 + m.row - m.top;
                        if m.mode == Mode::Insert || m.show_cursor {
                            c matches CursorPlacement::Shown { x, y, bar } && x == cx && y == cy && bar
                                == (m.mode == Mode::Insert)
                        } else {
                            c matches CursorPlacement::Parked { x } && x == sat_sub(w as int, 1)
                        }
                    },
                }
            }),
    {
        match &self.prompt {
            Some(input) => CursorPlacement::Prompt(draw_prompt(input, w, h)),
            None => {
                let len = self.lines.len();
                let visible = if len < h {
                    len
                } else {
                    h
                };
                let y0 = (h - visible) / 2;
                let x0 = self.line_start(self.row, w, block_x0);
                let right = if w >= 1 {
                    w - 1
                } else {
                    0
                };
                let cx0 = x0 + self.clamped_col();
                let cx = if cx0 < right {
                    cx0
                } else {
                    right
                };
                let cy = y0 + (self.row - self.top);
                if self.mode == Mode::Insert || self.show_cursor {
                    CursorPlacement::Shown {
                        x: cx as u16,
                        y: cy as u16,
                        bar: self.mode == Mode::Insert,
                    }
                } else {
                    CursorPlacement::Parked { x: right as u16 }
                }
            },
        }
    }

    /// Lay out one repaint on a `width` by `height` screen. Vertically the
    /// buffer is centred when it fits, otherwise it scrolls (moving `top`)
    /// so that the cursor row stays visible; horizontally each line is
    /// centred on its own, or, in block mode, the whole block is centred on
    /// its widest line.
    pub fn draw(&mut self, width: u16, height: u16) -> (f: Frame)
        requires
            old(self)@.wf(),
            old(self)@.fits(),
            old(self)@.prompt matches Some(p) ==> p.len() + 2 <= usize::MAX && width >= 11,
        ensures
            final(self)@ == (Model {
                top: scroll_top(
                    old(self)@.lines.len() as int,
                    old(self)@.row,
                    old(self)@.top,
                    if height < 1 { 1 } else { height as int },
                ),
                ..old(self)@
            }),
            frame_is(f, final(self)@, width as int, if height < 1 { 1 } else { height as int }),
            final(self)@.wf(),
    {
        let w = width as usize;
        let h: usize = if height < 1 {
            1
        } else {
            height as usize
        };
        self.scroll(h);
        let ghost m = self@;
        let len = self.lines.len();
        let visible = if len < h {
            len
        } else {
            h
        };
        let y0 = (h - visible) / 2;
        let block_x0 = if self.block {
            let ml = max_line_len(&self.lines);
            (w - if ml < w {
                ml
            } else {
                w
            }) / 2
        } else {
            0
        };
        let top = self.top;
        let mut rows: Vec<TextRow> = Vec::new();
        let mut i: usize = 0;
        while i < visible && i < len - top
            invariant
                m == self@,
                m.wf(),
                top == m.top,
                top <= m.row,
                len == m.lines.len(),
                visible <= h <= u16::MAX,
                visible == min(len as int, h as int),
                y0 == (h - visible) / 2,
                w == width,
                m.block ==> block_x0 == centred(w as int, max_len(m.lines)),
                i <= visible,
                i <= len - top,
                rows@.len() == i,
                forall|j: int|
                    0 <= j < i ==> {
                        let line = m.lines[top + j];
                        let x0 = line_x0(m, w as int, line);
                        &&& (#[trigger] rows@[j]).x == x0
                        &&& rows@[j].y == y0 + j
                        &&& rows@[j].text@ == line.take(min(w - x0, line.len() as int))
                    },
            decreases visible - i,
        {
            let x0 = self.line_start(top + i, w, block_x0);
            let text = self.clipped(top + i, w, x0);
            rows.push(TextRow { x: x0 as u16, y: (y0 + i) as u16, text });
            i = i + 1;
        }
        let cursor = self.cursor_placement(w, h, block_x0);
        Frame { rows, cursor }
    }

    // --- events and idle cursor ---------------------------------------------

    /// Handle one input event.
    pub fn handle_event(&mut self, ev: Event) -> (eff: Effect)
        requires
            old(self)@.wf(),
            old(self)@.fits(),
        ensures
            final(self)@ == old(self)@.handle_event(ev).0,
            eff == old(self)@.handle_event(ev).1,
            final(self)@.wf(),
    {
        match ev {
            Event::Key(k) => self.handle_key(k),
            Event::Refocus => {
                self.hide_cursor();
                Effect::Nothing
            },
            Event::Other => Effect::Nothing,
        }
    }

    /// Hide the normal-mode cursor until the next key press.
    pub fn hide_cursor(&mut self)
        ensures
            final(self)@ == old(self)@.hide_cursor(),
    {
        self.show_cursor = false;
        proof {
            assert(self@ =~= old(self)@.hide_cursor());
        }
    }

    /// Whether a visible cursor is to be hidden once the host has waited
    /// for input in vain (normal mode, no prompt, cursor shown).
    pub fn hides_when_idle(&self) -> (r: bool)
        ensures
            r == self@.hides_when_idle(),
    {
        self.mode == Mode::Normal && self.prompt.is_none() && self.show_cursor
    }

    /// Whether the hidden cursor is to be parked again while the host waits
    /// for input (normal mode, no prompt, cursor hidden).
    pub fn parks_while_idle(&self) -> (r: bool)
        ensures
            r == self@.parks_while_idle(),
    {
        self.mode == Mode::Normal && self.prompt.is_none() && !self.show_cursor
    }

    // --- reading the state --------------------------------------------------

    pub fn lines(&self) -> (r: &Vec<Vec<char>>)
        ensures
            lines_view(r@) == self@.lines,
    {
        &self.lines
    }

    pub fn row(&self) -> (r: usize)
        ensures
            r as int == self@.row,
    {
        self.row
    }

    pub fn col(&self) -> (r: usize)
        ensures
            r as int == self@.col,
    {
        self.col
    }

    pub fn mode(&self) -> (r: Mode)
        ensures
            r == self@.mode,
    {
        self.mode
    }

    pub fn pending(&self) -> (r: Pending)
        ensures
            r == self@.pending,
    {
        self.pending
    }

    pub fn path(&self) -> (r: &Option<Vec<char>>)
        ensures
            opt_view(*r) == self@.path,
    {
        &self.path
    }

    pub fn prompt(&self) -> (r: &Option<Vec<char>>)
        ensures
            opt_view(*r) == self@.prompt,
    {
        &self.prompt
    }

    pub fn block(&self) -> (r: bool)
        ensures
            r == self@.block,
    {
        self.block
    }

    pub fn dirty(&self) -> (r: bool)
        ensures
            r == self@.dirty,
    {
        self.dirty
    }

    pub fn quit(&self) -> (r: bool)
        ensures
            r == self@.quit,
    {
        self.quit
    }

    pub fn show_cursor(&self) -> (r: bool)
        ensures
            r == self@.show_cursor,
    {
        self.show_cursor
    }

    pub fn top(&self) -> (r: usize)
        ensures
            r as int == self@.top,
    {
        self.top
    }

    pub fn undo_len(&self) -> (r: usize)
        ensures
            r as int == self@.undo.len(),
    {
        self.undo.len()
    }

    /// Whether the state is within the sizes the editor's commands need
    /// (see `Model::fits`): a host checks this before passing a key on.
    pub fn fits(&self) -> (r: bool)
        requires
            self@.wf(),
        ensures
            r == self@.fits(),
    {
        self.lines.len() <= isize::MAX as usize && self.lines[self.row].len() < isize::MAX as usize
    }
}

} // verus!
