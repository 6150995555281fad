//! The mathematical model of the editor: its state as sequences and
//! integers, and what every command does to that state.

use vstd::prelude::*;
use crate::text::{first_nonblank_pos, is_white_space, lines_of, trim};

verus! {

/// How many undo snapshots are kept; the oldest is dropped beyond this.
pub const UNDO_LIMIT: usize = 1000;

/// Modal editing state.
#[derive(Clone, Copy, Debug, PartialEq, Eq, Structural)]
pub enum Mode {
    Normal,
    Insert,
}

/// Pending multi-key command in normal mode (`d` of `dd`, `g` of `gg`,
/// `Z` of `ZZ`).
#[derive(Clone, Copy, Debug, PartialEq, Eq, Structural)]
pub enum Pending {
    Idle,
    D,
    G,
    Z,
}

/// A key as the editor sees it: what was pressed, and whether Control was held.
#[derive(Clone, Copy, Debug, PartialEq, Eq, Structural)]
pub enum KeyCode {
    Char(char),
    Esc,
    Enter,
    Backspace,
    Tab,
    Left,
    Right,
    Up,
    Down,
    Other,
}

#[derive(Clone, Copy, Debug, PartialEq, Eq, Structural)]
pub struct Key {
    pub code: KeyCode,
    pub ctrl: bool,
}

/// What the editor asks its host to do: nothing, or write the buffer to its
/// file (see `Editor::save`) and, once the write has succeeded, report back
/// with `Editor::write_done` so that the step that depended on it completes.
#[derive(Clone, Copy, Debug, PartialEq, Eq, Structural)]
pub enum Effect {
    Nothing,
    Write(AfterWrite),
}

/// The step that completes once a requested write has succeeded.
#[derive(Clone, Copy, Debug, PartialEq, Eq, Structural)]
pub enum AfterWrite {
    /// `ZZ`: quit.
    Quit,
    /// Enter in the save-as prompt: close it; the buffer is saved.
    ClosePrompt,
    /// An autosave: the buffer is saved.
    MarkSaved,
}

/// An input event: a key press, the terminal regaining focus or being
/// resized (after which the screen is repainted with the cursor hidden), or
/// anything else.
#[derive(Clone, Copy, Debug, PartialEq, Eq, Structural)]
pub enum Event {
    Key(Key),
    Refocus,
    Other,
}

/// One undo entry: the lines, the row and the column to go back to.
pub struct Snapshot {
    pub lines: Seq<Seq<char>>,
    pub row: int,
    pub col: int,
}

/// The whole editor state.
#[verifier::ext_equal]
pub struct Model {
    pub lines: Seq<Seq<char>>,
    pub row: int,
    /// Desired column in chars; clamped per line when rendering or moving.
    pub col: int,
    pub mode: Mode,
    pub pending: Pending,
    pub path: Option<Seq<char>>,
    pub block: bool,
    pub dirty: bool,
    pub undo: Seq<Snapshot>,
    pub top: int,
    pub quit: bool,
    pub prompt: Option<Seq<char>>,
    pub show_cursor: bool,
}

pub open spec fn min(a: int, b: int) -> int {
    if a <= b {
        a
    } else {
        b
    }
}

pub open spec fn clamp(v: int, lo: int, hi: int) -> int {
    if v < lo {
        lo
    } else if v > hi {
        hi
    } else {
        v
    }
}

/// First index at or after `i` that is past the end or holds whitespace.
pub open spec fn skip_word(s: Seq<char>, i: int) -> int
    decreases s.len() - i,
{
    if 0 <= i < s.len() && !is_white_space(s[i]) {
        skip_word(s, i + 1)
    } else {
        i
    }
}

/// First index at or after `i` that is past the end or holds a non-blank.
pub open spec fn skip_blank(s: Seq<char>, i: int) -> int
    decreases s.len() - i,
{
    if 0 <= i < s.len() && is_white_space(s[i]) {
        skip_blank(s, i + 1)
    } else {
        i
    }
}

/// Walk back from `i` over whitespace, stopping at index 0.
pub open spec fn back_skip_blank(s: Seq<char>, i: int) -> int
    decreases i,
{
    if 0 < i < s.len() && is_white_space(s[i]) {
        back_skip_blank(s, i - 1)
    } else {
        i
    }
}

/// Walk back from `i` while the character before it is not whitespace.
pub open spec fn back_skip_word(s: Seq<char>, i: int) -> int
    decreases i,
{
    if 0 < i <= s.len() && !is_white_space(s[i - 1]) {
        back_skip_word(s, i - 1)
    } else {
        i
    }
}

impl Model {
    /// The state of a fresh editor. `text` is the content of the file at
    /// `path` when that file exists; without a path the editor starts in
    /// insert mode, since there is nothing to navigate yet.
    pub open spec fn initial(path: Option<Seq<char>>, text: Option<Seq<char>>, block: bool) -> Model {
        let lines = match text {
            Some(t) => if lines_of(t).len() == 0 {
                seq![Seq::<char>::empty()]
            } else {
                lines_of(t)
            },
            None => seq![Seq::<char>::empty()],
        };
        Model {
            lines: lines,
            row: 0,
            col: 0,
            mode: if path is None {
                Mode::Insert
            } else {
                Mode::Normal
            },
            pending: Pending::Idle,
            path: path,
            block: block,
            dirty: false,
            undo: Seq::empty(),
            top: 0,
            quit: false,
            prompt: None,
            show_cursor: false,
        }
    }

    /// The state is well formed: at least one line, the cursor row inside
    /// the buffer, a bounded undo stack of well-formed snapshots.
    pub open spec fn wf(self) -> bool {
        &&& self.lines.len() >= 1
        &&& 0 <= self.row < self.lines.len()
        &&& 0 <= self.col
        &&& 0 <= self.top
        &&& self.undo.len() <= UNDO_LIMIT
        &&& forall|i: int|
            0 <= i < self.undo.len() ==> {
                &&& (#[trigger] self.undo[i]).lines.len() >= 1
                &&& 0 <= self.undo[i].row < self.undo[i].lines.len()
                &&& 0 <= self.undo[i].col
            }
    }

    /// Sizes the editor's signed cursor arithmetic can hold.
    pub open spec fn fits(self) -> bool {
        &&& self.lines.len() <= isize::MAX
        &&& self.lines[self.row].len() < isize::MAX
    }

    pub open spec fn line(self) -> Seq<char> {
        self.lines[self.row]
    }

    pub open spec fn line_len(self, row: int) -> int {
        self.lines[row].len() as int
    }

    /// Max cursor column on the current line for the current mode: normal
    /// mode stops on the last char, insert mode goes one past.
    pub open spec fn max_col(self) -> int {
        let len = self.line_len(self.row);
        match self.mode {
            Mode::Insert => len,
            Mode::Normal => if len > 0 {
                len - 1
            } else {
                0
            },
        }
    }

    pub open spec fn clamped_col(self) -> int {
        min(self.col, self.max_col())
    }

    pub open spec fn snapshot(self) -> Model {
        let entry = Snapshot { lines: self.lines, row: self.row, col: self.clamped_col() };
        let pushed = self.undo.push(entry);
        Model {
            undo: if pushed.len() > UNDO_LIMIT {
                pushed.drop_first()
            } else {
                pushed
            },
            dirty: true,
            ..self
        }
    }

    pub open spec fn restore(self) -> Model {
        if self.undo.len() > 0 {
            let e = self.undo.last();
            Model {
                lines: e.lines,
                row: e.row,
                col: e.col,
                dirty: true,
                undo: self.undo.drop_last(),
                ..self
            }
        } else {
            self
        }
    }

    /// Whether an autosave writes the file: there are unsaved edits and a path.
    pub open spec fn autosave_writes(self) -> bool {
        self.dirty && self.path is Some
    }

    /// What an autosave asks of the host.
    pub open spec fn autosave(self) -> Effect {
        if self.autosave_writes() {
            Effect::Write(AfterWrite::MarkSaved)
        } else {
            Effect::Nothing
        }
    }

    /// What the host does at the end of a batch of events: once the editor
    /// quits nothing more is written (`ZQ` and Control-C quit without
    /// saving); otherwise it autosaves.
    pub open spec fn batch_end(self) -> Effect {
        if self.quit {
            Effect::Nothing
        } else {
            self.autosave()
        }
    }

    /// The state once a requested write has succeeded.
    pub open spec fn write_done(self, after: AfterWrite) -> Model {
        match after {
            AfterWrite::Quit => Model { quit: true, ..self },
            AfterWrite::ClosePrompt => Model { dirty: false, prompt: None, ..self },
            AfterWrite::MarkSaved => Model { dirty: false, ..self },
        }
    }

    pub open spec fn insert_char(self, c: char) -> Model {
        let col = self.clamped_col();
        Model {
            lines: self.lines.update(self.row, self.line().insert(col, c)),
            col: col + 1,
            dirty: true,
            ..self
        }
    }

    pub open spec fn insert_newline(self) -> Model {
        let col = self.clamped_col();
        let l = self.line();
        Model {
            lines: self.lines.update(self.row, l.take(col)).insert(self.row + 1, l.skip(col)),
            row: self.row + 1,
            col: 0,
            dirty: true,
            ..self
        }
    }

    pub open spec fn backspace(self) -> Model {
        let col = self.clamped_col();
        if col > 0 {
            Model {
                lines: self.lines.update(self.row, self.line().remove(col - 1)),
                col: col - 1,
                dirty: true,
                ..self
            }
        } else if self.row > 0 {
            let rest = self.lines.remove(self.row);
            let r = self.row - 1;
            Model {
                lines: rest.update(r, rest[r] + self.line()),
                row: r,
                col: rest[r].len() as int,
                dirty: true,
                ..self
            }
        } else {
            self
        }
    }

    pub open spec fn delete_char(self) -> Model {
        let col = self.clamped_col();
        if col < self.line_len(self.row) {
            let s = self.snapshot();
            Model { lines: s.lines.update(s.row, s.line().remove(col)), col: col, ..s }
        } else {
            self
        }
    }

    pub open spec fn delete_line(self) -> Model {
        let s = self.snapshot();
        let t = if s.lines.len() == 1 {
            Model { lines: seq![Seq::<char>::empty()], ..s }
        } else {
            let l = s.lines.remove(s.row);
            Model {
                lines: l,
                row: if s.row >= l.len() {
                    l.len() - 1
                } else {
                    s.row
                },
                ..s
            }
        };
        Model { col: t.clamped_col(), ..t }
    }

    pub open spec fn move_h(self, dx: int) -> Model {
        Model { col: clamp(self.clamped_col() + dx, 0, self.max_col()), ..self }
    }

    pub open spec fn move_v(self, dy: int) -> Model {
        Model { row: clamp(self.row + dy, 0, self.lines.len() - 1), ..self }
    }

    pub open spec fn word_forward(self) -> Model {
        let l = self.line();
        let c = self.next_word_start();
        if c >= l.len() && self.row + 1 < self.lines.len() {
            Model {
                row: self.row + 1,
                col: first_nonblank_pos(self.lines[self.row + 1]),
                ..self
            }
        } else {
            Model { col: min(c, self.max_col()), ..self }
        }
    }

    pub open spec fn word_back(self) -> Model {
        let c = self.clamped_col();
        if c == 0 {
            if self.row > 0 {
                let m = Model { row: self.row - 1, ..self };
                Model { col: m.max_col(), ..m }
            } else {
                self
            }
        } else {
            Model { col: back_skip_word(self.line(), back_skip_blank(self.line(), c - 1)), ..self }
        }
    }

    pub open spec fn first_nonblank(self) -> Model {
        Model { col: first_nonblank_pos(self.line()), ..self }
    }

    pub open spec fn enter_insert(self, offset: int) -> Model {
        let s = self.snapshot();
        Model {
            mode: Mode::Insert,
            col: min(s.clamped_col() + offset, s.line_len(s.row)),
            ..s
        }
    }

    /// Where the next word on the current line starts, scanning from the
    /// cursor: past the rest of the current word, then past whitespace; the
    /// line's length when no word follows on this line.
    pub open spec fn next_word_start(self) -> int {
        let l = self.line();
        skip_blank(l, skip_word(l, self.clamped_col()))
    }

    /// `dw`: delete from the cursor up to the start of the next word, or to
    /// the end of the line when no word follows on this line.
    pub open spec fn delete_word(self) -> Model {
        let s = self.snapshot();
        let start = s.clamped_col();
        let l = s.line();
        let c = s.next_word_start();
        let t = Model {
            lines: s.lines.update(
                s.row,
                if c >= l.len() {
                    l.take(start)
                } else {
                    l.take(start) + l.skip(c)
                },
            ),
            ..s
        };
        Model { col: min(start, t.max_col()), ..t }
    }

    /// `D`: delete from the cursor to the end of the line.
    pub open spec fn truncate_line(self) -> Model {
        let s = self.snapshot();
        let t = Model { lines: s.lines.update(s.row, s.line().take(s.clamped_col())), ..s };
        Model { col: t.clamped_col(), ..t }
    }

    /// `o`: open a line below and start inserting there.
    pub open spec fn open_below(self) -> Model {
        let s = self.snapshot();
        Model {
            mode: Mode::Insert,
            lines: s.lines.insert(s.row + 1, Seq::<char>::empty()),
            row: s.row + 1,
            col: 0,
            ..s
        }
    }

    /// `O`: open a line above and start inserting there.
    pub open spec fn open_above(self) -> Model {
        let s = self.snapshot();
        Model {
            mode: Mode::Insert,
            lines: s.lines.insert(s.row, Seq::<char>::empty()),
            col: 0,
            ..s
        }
    }

    /// `A`: append at the end of the line.
    pub open spec fn append_at_end(self) -> Model {
        let s = self.snapshot();
        let t = Model { mode: Mode::Insert, ..s };
        Model { col: t.max_col(), ..t }
    }

    /// `gg` and `G`: jump to a row, keeping the clamped column.
    pub open spec fn goto_row(self, r: int) -> Model {
        let t = Model { row: r, ..self };
        Model { col: t.clamped_col(), ..t }
    }

    pub open spec fn handle_insert(self, code: KeyCode) -> Model {
        match code {
            KeyCode::Esc => {
                let t = Model { mode: Mode::Normal, ..self };
                Model { col: t.clamped_col(), ..t }
            },
            KeyCode::Char(c) => self.insert_char(c),
            KeyCode::Enter => self.insert_newline(),
            KeyCode::Backspace => self.backspace(),
            KeyCode::Tab => self.insert_char(' ').insert_char(' ').insert_char(' ').insert_char(
                ' ',
            ),
            KeyCode::Left => self.move_h(-1),
            KeyCode::Right => self.move_h(1),
            KeyCode::Up => self.move_v(-1),
            KeyCode::Down => self.move_v(1),
            KeyCode::Other => self,
        }
    }

    /// A normal-mode key with no command pending.
    pub open spec fn normal_command(self, code: KeyCode) -> Model {
        match code {
            KeyCode::Left => self.move_h(-1),
            KeyCode::Right => self.move_h(1),
            KeyCode::Down => self.move_v(1),
            KeyCode::Up => self.move_v(-1),
            KeyCode::Char(c) => {
                if c == 'h' {
                    self.move_h(-1)
                } else if c == 'l' {
                    self.move_h(1)
                } else if c == 'j' {
                    self.move_v(1)
                } else if c == 'k' {
                    self.move_v(-1)
                } else if c == '0' {
                    Model { col: 0, ..self }
                } else if c == '$' {
                    Model { col: self.max_col(), ..self }
                } else if c == '^' {
                    self.first_nonblank()
                } else if c == 'w' {
                    self.word_forward()
                } else if c == 'b' {
                    self.word_back()
                } else if c == 'B' {
                    Model { block: !self.block, ..self }
                } else if c == 'G' {
                    self.goto_row(self.lines.len() - 1)
                } else if c == 'g' {
                    Model { pending: Pending::G, ..self }
                } else if c == 'd' {
                    Model { pending: Pending::D, ..self }
                } else if c == 'Z' {
                    Model { pending: Pending::Z, ..self }
                } else if c == 'i' {
                    self.enter_insert(0)
                } else if c == 'a' {
                    self.enter_insert(1)
                } else if c == 'I' {
                    self.first_nonblank().enter_insert(0)
                } else if c == 'A' {
                    self.append_at_end()
                } else if c == 'o' {
                    self.open_below()
                } else if c == 'O' {
                    self.open_above()
                } else if c == 'x' {
                    self.delete_char()
                } else if c == 'D' {
                    self.truncate_line()
                } else if c == 'u' {
                    self.restore()
                } else {
                    self
                }
            },
            _ => self,
        }
    }

    pub open spec fn handle_normal(self, code: KeyCode) -> (Model, Effect) {
        let m = Model { pending: Pending::Idle, ..self };
        match self.pending {
            Pending::D => (
                if code == KeyCode::Char('d') {
                    m.delete_line()
                } else if code == KeyCode::Char('w') {
                    m.delete_word()
                } else {
                    m
                },
                Effect::Nothing,
            ),
            Pending::G => (
                if code == KeyCode::Char('g') {
                    m.goto_row(0)
                } else {
                    m
                },
                Effect::Nothing,
            ),
            Pending::Z => if code == KeyCode::Char('Z') {
                (m, Effect::Write(AfterWrite::Quit))
            } else if code == KeyCode::Char('Q') {
                (Model { quit: true, ..m }, Effect::Nothing)
            } else {
                (m, Effect::Nothing)
            },
            Pending::Idle => (m.normal_command(code), Effect::Nothing),
        }
    }

    /// A key while the save-as prompt is open.
    pub open spec fn handle_prompt(self, key: Key) -> (Model, Effect) {
        let input = self.prompt.unwrap();
        match key.code {
            KeyCode::Esc => (Model { prompt: None, ..self }, Effect::Nothing),
            KeyCode::Enter => {
                let name = trim(input);
                if name.len() > 0 {
                    (Model { path: Some(name), ..self }, Effect::Write(AfterWrite::ClosePrompt))
                } else {
                    (Model { prompt: None, ..self }, Effect::Nothing)
                }
            },
            KeyCode::Backspace => (
                Model {
                    prompt: Some(
                        if input.len() > 0 {
                            input.drop_last()
                        } else {
                            input
                        },
                    ),
                    ..self
                },
                Effect::Nothing,
            ),
            KeyCode::Char(c) => if key.ctrl {
                if c == 'c' {
                    (Model { prompt: None, quit: true, ..self }, Effect::Nothing)
                } else {
                    (self, Effect::Nothing)
                }
            } else {
                (Model { prompt: Some(input.push(c)), ..self }, Effect::Nothing)
            },
            _ => (self, Effect::Nothing),
        }
    }

    /// What a key press does to the editor, and what it asks of the host.
    #[verifier::opaque]
    pub open spec fn handle_key(self, key: Key) -> (Model, Effect) {
        let m = Model { show_cursor: true, ..self };
        if m.prompt is Some {
            m.handle_prompt(key)
        } else if key.ctrl && key.code == KeyCode::Char('c') {
            (Model { quit: true, ..m }, Effect::Nothing)
        } else if key.ctrl && key.code == KeyCode::Char('s') {
            (
                Model {
                    prompt: Some(
                        match m.path {
                            Some(p) => p,
                            None => Seq::<char>::empty(),
                        },
                    ),
                    ..m
                },
                Effect::Nothing,
            )
        } else {
            match m.mode {
                Mode::Insert => (m.handle_insert(key.code), Effect::Nothing),
                Mode::Normal => m.handle_normal(key.code),
            }
        }
    }

    /// Hide the normal-mode cursor until the next key press.
    pub open spec fn hide_cursor(self) -> Model {
        Model { show_cursor: false, ..self }
    }

    /// Whether a visible cursor is to be hidden once the host has waited
    /// for input in vain: normal mode, no prompt open, cursor shown.
    pub open spec fn hides_when_idle(self) -> bool {
        self.mode == Mode::Normal && self.prompt is None && self.show_cursor
    }

    /// Whether the hidden cursor is to be parked again while the host waits
    /// for input: normal mode, no prompt open, cursor hidden.
    pub open spec fn parks_while_idle(self) -> bool {
        self.mode == Mode::Normal && self.prompt is None && !self.show_cursor
    }

    pub open spec fn handle_event(self, ev: Event) -> (Model, Effect) {
        match ev {
            Event::Key(k) => self.handle_key(k),
            Event::Refocus => (self.hide_cursor(), Effect::Nothing),
            Event::Other => (self, Effect::Nothing),
        }
    }
}

} // verus!
