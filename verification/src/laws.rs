//! Properties of the editor as a whole, proved over the model.

use vstd::prelude::*;
use crate::model::{AfterWrite, Effect, Key, KeyCode, Mode, Model, Pending, Snapshot, UNDO_LIMIT, back_skip_blank, back_skip_word, skip_blank, skip_word};
use crate::text::is_white_space;
use crate::render::{centred, frame_is, scroll_top, Frame};
use crate::text::{text_of, trim};

verus! {

pub open spec fn plain(c: char) -> Key {
    Key { code: KeyCode::Char(c), ctrl: false }
}

pub open spec fn key(code: KeyCode) -> Key {
    Key { code: code, ctrl: false }
}

/// Normal mode, nothing pending, no prompt open: where a normal-mode
/// command starts.
pub open spec fn at_rest(m: Model) -> bool {
    &&& m.wf()
    &&& m.mode == Mode::Normal
    &&& m.pending == Pending::Idle
    &&& m.prompt is None
}

/// Insert mode with no prompt open.
pub open spec fn inserting(m: Model) -> bool {
    &&& m.wf()
    &&& m.mode == Mode::Insert
    &&& m.prompt is None
}

/// Undo after a snapshot gives back the lines and row it was taken of, with
/// the cursor on the column it was clamped to; the undo stack is as before
/// unless the snapshot pushed the oldest entry out.
pub proof fn law_restore_undoes_snapshot(m: Model)
    requires
        m.wf(),
    ensures
        m.snapshot().restore().lines == m.lines,
        m.snapshot().restore().row == m.row,
        m.snapshot().restore().col == m.clamped_col(),
        m.undo.len() < UNDO_LIMIT ==> m.snapshot().restore().undo == m.undo,
        m.undo.len() == UNDO_LIMIT ==> m.snapshot().restore().undo == m.undo.drop_first(),
{
    let e = Snapshot { lines: m.lines, row: m.row, col: m.clamped_col() };
    let pushed = m.undo.push(e);
    if pushed.len() > UNDO_LIMIT {
        assert(pushed.drop_first().drop_last() =~= m.undo.drop_first());
    } else {
        assert(pushed.drop_last() =~= m.undo);
    }
}

pub proof fn lemma_snapshot_wf(m: Model)
    requires
        m.wf(),
    ensures
        m.snapshot().wf(),
        m.snapshot().undo.last() == (Snapshot { lines: m.lines, row: m.row, col: m.clamped_col() }),
{
    let e = Snapshot { lines: m.lines, row: m.row, col: m.clamped_col() };
    let pushed = m.undo.push(e);
    let s = m.snapshot();
    assert forall|i: int| 0 <= i < s.undo.len() implies {
        &&& (#[trigger] s.undo[i]).lines.len() >= 1
        &&& 0 <= s.undo[i].row < s.undo[i].lines.len()
        &&& 0 <= s.undo[i].col
    } by {
        if pushed.len() > UNDO_LIMIT {
            assert(s.undo[i] == pushed[i + 1]);
        } else {
            assert(s.undo[i] == pushed[i]);
        }
    }
}


/// A plain key at rest runs the normal-mode command for it.
pub proof fn lemma_key_at_rest(m: Model, c: char)
    requires
        m.mode == Mode::Normal,
        m.pending == Pending::Idle,
        m.prompt is None,
    ensures
        m.handle_key(plain(c)).0 == (Model { show_cursor: true, ..m }).normal_command(KeyCode::Char(c)),
        m.handle_key(plain(c)).1 == Effect::Nothing,
{
    reveal(Model::handle_key);
    let s = Model { show_cursor: true, ..m };
    assert(Model { pending: Pending::Idle, ..s } == s);
}

/// A key without Control in insert mode goes to the insert-mode handler.
pub proof fn lemma_key_inserting(m: Model, k: Key)
    requires
        inserting(m),
        !k.ctrl,
    ensures
        m.handle_key(k).0 == (Model { show_cursor: true, ..m }).handle_insert(k.code),
        m.handle_key(k).1 == Effect::Nothing,
{
    reveal(Model::handle_key);
}

/// A plain key while `d` is pending.
pub proof fn lemma_key_after_d(m: Model, c: char)
    requires
        m.wf(),
        m.mode == Mode::Normal,
        m.pending == Pending::D,
        m.prompt is None,
    ensures
        c == 'd' ==> m.handle_key(plain(c)).0 == (Model {
            show_cursor: true,
            pending: Pending::Idle,
            ..m
        }).delete_line(),
        c == 'w' ==> m.handle_key(plain(c)).0 == (Model {
            show_cursor: true,
            pending: Pending::Idle,
            ..m
        }).delete_word(),
{
    reveal(Model::handle_key);
}

/// Undo right after an edit that took a snapshot of `s`.
proof fn lemma_undo_snapshot_of(s: Model, m1: Model)
    requires
        s.wf(),
        m1.wf(),
        m1.undo == s.snapshot().undo,
        m1.mode == Mode::Normal,
        m1.pending == Pending::Idle,
        m1.prompt is None,
    ensures
        ({
            let m2 = m1.handle_key(plain('u')).0;
            m2.lines == s.lines && m2.row == s.row && m2.col == s.clamped_col()
        }),
{
    lemma_key_at_rest(m1, 'u');
    lemma_snapshot_wf(s);
}

/// `x` followed by `u` gives back the buffer and the row (when `x` had a
/// character to delete).
pub proof fn law_undo_after_delete_char(m: Model)
    requires
        at_rest(m),
        m.line().len() > 0,
    ensures
        ({
            let m2 = m.handle_key(plain('x')).0.handle_key(plain('u')).0;
            m2.lines == m.lines && m2.row == m.row && m2.col == m.clamped_col()
        }),
{
    let s = Model { show_cursor: true, ..m };
    lemma_key_at_rest(m, 'x');
    let m1 = s.delete_char();
    assert(m1 == m.handle_key(plain('x')).0);
    lemma_snapshot_wf(s);
    assert(m1.wf());
    lemma_undo_snapshot_of(s, m1);
}

/// `D` followed by `u` gives back the buffer and the row.
pub proof fn law_undo_after_truncate_line(m: Model)
    requires
        at_rest(m),
    ensures
        ({
            let m2 = m.handle_key(plain('D')).0.handle_key(plain('u')).0;
            m2.lines == m.lines && m2.row == m.row && m2.col == m.clamped_col()
        }),
{
    let s = Model { show_cursor: true, ..m };
    lemma_key_at_rest(m, 'D');
    let m1 = s.truncate_line();
    assert(m1 == m.handle_key(plain('D')).0);
    lemma_snapshot_wf(s);
    assert(m1.wf());
    lemma_undo_snapshot_of(s, m1);
}

/// `dd` followed by `u` gives back the buffer and the row.
pub proof fn law_undo_after_delete_line(m: Model)
    requires
        at_rest(m),
    ensures
        ({
            let m3 = m.handle_key(plain('d')).0.handle_key(plain('d')).0.handle_key(
                plain('u'),
            ).0;
            m3.lines == m.lines && m3.row == m.row && m3.col == m.clamped_col()
        }),
{
    lemma_key_at_rest(m, 'd');
    let m1 = m.handle_key(plain('d')).0;
    assert(m1 == Model { show_cursor: true, pending: Pending::D, ..m });
    lemma_key_after_d(m1, 'd');
    let s = Model { show_cursor: true, ..m };
    assert(Model { show_cursor: true, pending: Pending::Idle, ..m1 } == s);
    let m2 = s.delete_line();
    assert(m2 == m1.handle_key(plain('d')).0);
    lemma_snapshot_wf(s);
    assert(m2.wf());
    lemma_undo_snapshot_of(s, m2);
}

/// `dw` followed by `u` gives back the buffer and the row.
pub proof fn law_undo_after_delete_word(m: Model)
    requires
        at_rest(m),
    ensures
        ({
            let m3 = m.handle_key(plain('d')).0.handle_key(plain('w')).0.handle_key(
                plain('u'),
            ).0;
            m3.lines == m.lines && m3.row == m.row && m3.col == m.clamped_col()
        }),
{
    lemma_key_at_rest(m, 'd');
    let m1 = m.handle_key(plain('d')).0;
    assert(m1 == Model { show_cursor: true, pending: Pending::D, ..m });
    lemma_key_after_d(m1, 'w');
    let s = Model { show_cursor: true, ..m };
    assert(Model { show_cursor: true, pending: Pending::Idle, ..m1 } == s);
    let m2 = s.delete_word();
    assert(m2 == m1.handle_key(plain('w')).0);
    lemma_snapshot_wf(s);
    assert(m2.wf());
    lemma_undo_snapshot_of(s, m2);
}

/// Each way into insert mode (`i a I A o O`) first records the buffer and
/// row on the undo stack.
pub proof fn law_entering_insert_records_undo(m: Model, c: char)
    requires
        at_rest(m),
        c == 'i' || c == 'a' || c == 'I' || c == 'A' || c == 'o' || c == 'O',
    ensures
        ({
            let m1 = m.handle_key(plain(c)).0;
            &&& m1.mode == Mode::Insert
            &&& m1.undo.len() > 0
            &&& m1.undo.last().lines == m.lines
            &&& m1.undo.last().row == m.row
        }),
{
    lemma_key_at_rest(m, c);
    let s = Model { show_cursor: true, pending: Pending::Idle, ..m };
    lemma_snapshot_wf(s);
    lemma_snapshot_wf(s.first_nonblank());
}

/// Keys typed in insert mode leave the undo stack alone, so the next `u`
/// returns to the state from before insert mode was entered.
pub proof fn law_insert_keys_keep_undo(m: Model, k: Key)
    requires
        inserting(m),
        !k.ctrl,
    ensures
        m.handle_key(k).0.undo == m.undo,
{
    lemma_key_inserting(m, k);
}

/// Typing a character and then Backspace gives back the buffer, the row and
/// the (clamped) column.
pub proof fn law_insert_then_backspace(m: Model, c: char)
    requires
        inserting(m),
    ensures
        ({
            let m2 = m.handle_key(plain(c)).0.handle_key(key(KeyCode::Backspace)).0;
            m2.lines == m.lines && m2.row == m.row && m2.col == m.clamped_col()
        }),
{
    lemma_key_inserting(m, plain(c));
    let m1 = m.handle_key(plain(c)).0;
    lemma_key_inserting(m1, key(KeyCode::Backspace));
    let col = m.clamped_col();
    assert(m.line().insert(col, c).remove(col) =~= m.line());
    let m2 = m.handle_key(plain(c)).0.handle_key(key(KeyCode::Backspace)).0;
    assert(m2.lines =~= m.lines);
}

/// Enter and then Backspace joins the split line back together.
pub proof fn law_newline_then_backspace(m: Model)
    requires
        inserting(m),
    ensures
        ({
            let m2 = m.handle_key(key(KeyCode::Enter)).0.handle_key(key(KeyCode::Backspace)).0;
            m2.lines == m.lines && m2.row == m.row && m2.col == m.clamped_col()
        }),
{
    lemma_key_inserting(m, key(KeyCode::Enter));
    let m1 = m.handle_key(key(KeyCode::Enter)).0;
    lemma_key_inserting(m1, key(KeyCode::Backspace));
    let col = m.clamped_col();
    let l = m.line();
    let r = m.row;
    let split = m.lines.update(r, l.take(col)).insert(r + 1, l.skip(col));
    assert(split.remove(r + 1) =~= m.lines.update(r, l.take(col)));
    assert(l.take(col) + l.skip(col) =~= l);
    let m2 = m.handle_key(key(KeyCode::Enter)).0.handle_key(key(KeyCode::Backspace)).0;
    assert(m2.lines =~= m.lines);
}

/// Control-C quits from anywhere: either mode, and the save-as prompt.
pub proof fn law_ctrl_c_quits(m: Model)
    ensures
        m.handle_key(Key { code: KeyCode::Char('c'), ctrl: true }).0.quit,
        m.handle_key(Key { code: KeyCode::Char('c'), ctrl: true }).1 == Effect::Nothing,
{
    reveal(Model::handle_key);
}

/// Outside the save-as prompt, Control-S opens it, pre-filled with the
/// current path (empty when there is none).
pub proof fn law_ctrl_s_opens_prompt(m: Model)
    requires
        m.prompt is None,
    ensures
        m.handle_key(Key { code: KeyCode::Char('s'), ctrl: true }).0.prompt == Some(
            match m.path {
                Some(p) => p,
                None => Seq::<char>::empty(),
            },
        ),
{
    reveal(Model::handle_key);
}

/// Enter in the save-as prompt on a non-blank name (trimmed) makes it the
/// path and asks for the buffer to be written there; only once that write
/// has succeeded is the prompt closed and the buffer marked saved. A blank
/// name just closes the prompt.
pub proof fn law_prompt_enter(m: Model)
    requires
        m.prompt is Some,
    ensures
        ({
            let (m1, e) = m.handle_key(key(KeyCode::Enter));
            let name = trim(m.prompt.unwrap());
            &&& name.len() > 0 ==> {
                &&& e == Effect::Write(AfterWrite::ClosePrompt)
                &&& m1.path == Some(name)
                &&& m1.prompt == m.prompt
                &&& m1.dirty == m.dirty
                &&& m1.write_done(AfterWrite::ClosePrompt).prompt is None
                &&& !m1.write_done(AfterWrite::ClosePrompt).dirty
            }
            &&& name.len() == 0 ==> e == Effect::Nothing && m1.path == m.path && m1.prompt is None
        }),
{
    reveal(Model::handle_key);
}

/// `ZZ` asks for a write and quits only once it has succeeded; `ZQ` quits
/// with no write.
pub proof fn law_zz_and_zq(m: Model)
    requires
        at_rest(m),
    ensures
        ({
            let m1 = m.handle_key(plain('Z')).0;
            let (m2, e) = m1.handle_key(plain('Z'));
            &&& e == Effect::Write(AfterWrite::Quit)
            &&& m2.quit == m.quit
            &&& m2.write_done(AfterWrite::Quit).quit
            &&& m1.handle_key(plain('Q')).0.quit
            &&& m1.handle_key(plain('Q')).1 == Effect::Nothing
        }),
{
    reveal(Model::handle_key);
    let m1 = m.handle_key(plain('Z')).0;
    assert(m1.pending == Pending::Z);
}

/// A key asks for a write only as `ZZ` or as Enter on a non-blank name in
/// the save-as prompt.
pub proof fn law_saves_come_from_zz_or_prompt(m: Model, k: Key)
    ensures
        m.handle_key(k).1 is Write ==> {
            ||| (m.prompt is None && m.mode == Mode::Normal && m.pending == Pending::Z
                && k.code == KeyCode::Char('Z'))
            ||| (m.prompt is Some && k.code == KeyCode::Enter)
        },
{
    reveal(Model::handle_key);
}

/// Every key that changes the buffer leaves it marked dirty, so that the
/// next autosave writes it when a path is known: the buffer is saved as
/// you type.
pub proof fn law_edits_are_autosaved(m: Model, k: Key)
    requires
        m.wf(),
    ensures
        m.handle_key(k).0.lines != m.lines ==> m.handle_key(k).0.dirty,
        m.handle_key(k).0.lines != m.lines && m.path is Some ==> m.handle_key(
            k,
        ).0.autosave_writes(),
{
    reveal(Model::handle_key);
    let s = Model { show_cursor: true, ..m };
    if s.prompt is Some {
    } else if k.ctrl && (k.code == KeyCode::Char('c') || k.code == KeyCode::Char('s')) {
    } else if s.mode == Mode::Insert {
        lemma_insert_edits_dirty(s, k.code);
    } else {
        let t = Model { pending: Pending::Idle, ..s };
        if s.pending == Pending::Idle {
            lemma_normal_edits_dirty(t, k.code);
        }
    }
}

proof fn lemma_insert_edits_dirty(s: Model, code: KeyCode)
    requires
        s.wf(),
    ensures
        s.handle_insert(code).lines != s.lines ==> s.handle_insert(code).dirty,
        s.handle_insert(code).path == s.path,
{
}

#[verifier::rlimit(60)]
proof fn lemma_normal_edits_dirty(t: Model, code: KeyCode)
    requires
        t.wf(),
    ensures
        t.normal_command(code).lines != t.lines ==> t.normal_command(code).dirty,
        t.normal_command(code).path == t.path,
{
}

/// `B` twice gives back the centring style, and nothing else changes.
pub proof fn law_block_toggle_twice(m: Model)
    requires
        at_rest(m),
    ensures
        m.handle_key(plain('B')).0.handle_key(plain('B')).0 == (Model { show_cursor: true, ..m }),
{
    lemma_key_at_rest(m, 'B');
    lemma_key_at_rest(m.handle_key(plain('B')).0, 'B');
    assert(m.handle_key(plain('B')).0.handle_key(plain('B')).0 =~= (Model {
        show_cursor: true,
        ..m
    }));
}

/// `gg` goes to the first line and `G` to the last.
pub proof fn law_first_and_last_line(m: Model)
    requires
        at_rest(m),
    ensures
        m.handle_key(plain('g')).0.handle_key(plain('g')).0.row == 0,
        m.handle_key(plain('G')).0.row == m.lines.len() - 1,
{
    reveal(Model::handle_key);
    let m1 = m.handle_key(plain('g')).0;
    assert(m1.pending == Pending::G);
}

/// Esc leaves insert mode with the cursor on a character of the line (or
/// at column 0 of an empty line).
pub proof fn law_esc_leaves_insert(m: Model)
    requires
        inserting(m),
    ensures
        m.handle_key(key(KeyCode::Esc)).0.mode == Mode::Normal,
        0 <= m.handle_key(key(KeyCode::Esc)).0.col <= m.handle_key(key(KeyCode::Esc)).0.max_col(),
{
    lemma_key_inserting(m, key(KeyCode::Esc));
}

/// Horizontal motion never leaves the current line.
pub proof fn law_move_h_stays_on_line(m: Model, dx: int)
    requires
        m.wf(),
    ensures
        0 <= m.move_h(dx).col <= m.max_col(),
        m.move_h(dx).row == m.row,
{
}

/// Without a file the editor starts in insert mode, with one in normal
/// mode; the buffer always has a line, an empty file giving one empty line.
pub proof fn law_initial_state(path: Option<Seq<char>>, text: Option<Seq<char>>, block: bool)
    ensures
        Model::initial(path, text, block).wf(),
        Model::initial(path, text, block).mode == Mode::Insert <==> path is None,
        text == Some(Seq::<char>::empty()) ==> Model::initial(path, text, block).lines == seq![
            Seq::<char>::empty(),
        ],
{
}

/// Opening a file written from some lines gives those lines back, provided
/// no line holds a newline or ends with a carriage return.
pub proof fn law_reopen_saved_lines(p: Seq<char>, ls: Seq<Seq<char>>, block: bool)
    requires
        ls.len() >= 1,
        forall|i: int, j: int|
            0 <= i < ls.len() && 0 <= j < ls[i].len() ==> #[trigger] ls[i][j] != '\n',
        forall|i: int| 0 <= i < ls.len() && ls[i].len() > 0 ==> #[trigger] ls[i].last() != '\r',
    ensures
        Model::initial(Some(p), Some(text_of(ls)), block).lines == ls,
{
    crate::text::law_lines_of_text_of(ls);
}

/// The buffer is centred vertically when it fits; otherwise the first row
/// shown is chosen so that the cursor row is on screen.
pub proof fn law_cursor_row_on_screen(len: int, row: int, top: int, h: int)
    requires
        1 <= h,
        0 <= row < len,
        0 <= top,
    ensures
        len <= h ==> scroll_top(len, row, top, h) == 0,
        0 <= scroll_top(len, row, top, h) <= row < scroll_top(len, row, top, h) + h,
{
}

/// A line centred alone has left and right margins that differ by at most
/// one column.
pub proof fn law_line_centred(w: int, n: int)
    requires
        0 <= w,
        0 <= n,
    ensures
        ({
            let x = centred(w, n);
            let k = if n <= w {
                n
            } else {
                w
            };
            &&& 0 <= x
            &&& x + k + x <= w <= x + k + x + 1
        }),
{
}

/// In block mode every line of a frame starts on the same column, so the
/// text keeps its shape.
pub proof fn law_block_rows_share_start(f: Frame, m: Model, w: int, h: int)
    requires
        frame_is(f, m, w, h),
        m.block,
    ensures
        forall|i: int, j: int|
            0 <= i < f.rows@.len() && 0 <= j < f.rows@.len() ==> #[trigger] f.rows@[i].x
                == #[trigger] f.rows@[j].x,
{
}

/// `d`, `g` and `Z` start a two-key command only when none is pending; any
/// other key, and the second key of a command, leaves none pending.
pub proof fn law_pending_commands(m: Model, code: KeyCode)
    ensures
        m.handle_normal(code).0.pending == (if m.pending == Pending::Idle && code == KeyCode::Char(
            'd',
        ) {
            Pending::D
        } else if m.pending == Pending::Idle && code == KeyCode::Char('g') {
            Pending::G
        } else if m.pending == Pending::Idle && code == KeyCode::Char('Z') {
            Pending::Z
        } else {
            Pending::Idle
        }),
{
}

/// In normal mode with nothing pending, `B` twice gives back the very same
/// state: only the centring style flips, and flips back.
pub proof fn law_block_toggle_twice_in_normal_mode(m: Model)
    requires
        m.pending == Pending::Idle,
    ensures
        m.handle_normal(KeyCode::Char('B')).0.handle_normal(KeyCode::Char('B')).0 == m,
        m.handle_normal(KeyCode::Char('B')).0.block == !m.block,
{
    assert(m.handle_normal(KeyCode::Char('B')).0.handle_normal(KeyCode::Char('B')).0 =~= m);
}

/// The state after a run of keys.
pub open spec fn type_keys(m: Model, ks: Seq<Key>) -> Model
    decreases ks.len(),
{
    if ks.len() == 0 {
        m
    } else {
        type_keys(m.handle_key(ks[0]).0, ks.drop_first())
    }
}

/// Keys of an insert session: no Control, no Esc.
pub open spec fn insert_session(ks: Seq<Key>) -> bool {
    forall|i: int| 0 <= i < ks.len() ==> !(#[trigger] ks[i]).ctrl && ks[i].code != KeyCode::Esc
}

proof fn lemma_insert_session(m: Model, ks: Seq<Key>)
    requires
        m.mode == Mode::Insert,
        m.prompt is None,
        insert_session(ks),
    ensures
        type_keys(m, ks).mode == Mode::Insert,
        type_keys(m, ks).prompt is None,
        type_keys(m, ks).pending == m.pending,
        type_keys(m, ks).undo == m.undo,
    decreases ks.len(),
{
    if ks.len() > 0 {
        reveal(Model::handle_key);
        let k = ks[0];
        assert(!k.ctrl && k.code != KeyCode::Esc);
        let m1 = m.handle_key(k).0;
        assert(m1 == (Model { show_cursor: true, ..m }).handle_insert(k.code));
        assert(m1.mode == Mode::Insert && m1.prompt is None && m1.pending == m.pending && m1.undo
            == m.undo);
        let rest = ks.drop_first();
        assert forall|i: int| 0 <= i < rest.len() implies !(#[trigger] rest[i]).ctrl && rest[i].code
            != KeyCode::Esc by {
            assert(rest[i] == ks[i + 1]);
        }
        lemma_insert_session(m1, rest);
    }
}

/// Undo after a whole insert session (`i a I A o O`, any typing and motion
/// in insert mode, then Esc) gives back the buffer and the row from before
/// the session.
pub proof fn law_undo_after_insert_session(m: Model, c: char, ks: Seq<Key>)
    requires
        at_rest(m),
        c == 'i' || c == 'a' || c == 'I' || c == 'A' || c == 'o' || c == 'O',
        insert_session(ks),
    ensures
        ({
            let m1 = m.handle_key(plain(c)).0;
            let m2 = type_keys(m1, ks);
            let m3 = m2.handle_key(key(KeyCode::Esc)).0;
            let m4 = m3.handle_key(plain('u')).0;
            m4.lines == m.lines && m4.row == m.row
        }),
{
    law_entering_insert_records_undo(m, c);
    let m1 = m.handle_key(plain(c)).0;
    lemma_key_at_rest(m, c);
    assert(m1.pending == Pending::Idle && m1.prompt is None);
    let m2 = type_keys(m1, ks);
    lemma_insert_session(m1, ks);
    reveal(Model::handle_key);
    let m3 = m2.handle_key(key(KeyCode::Esc)).0;
    assert(m3.mode == Mode::Normal && m3.pending == Pending::Idle && m3.prompt is None && m3.undo
        == m1.undo);
    lemma_key_at_rest(m3, 'u');
}

/// A word starts at `i`: a non-blank character at the line start or after
/// whitespace.
pub open spec fn starts_word(l: Seq<char>, i: int) -> bool {
    &&& 0 <= i < l.len()
    &&& !is_white_space(l[i])
    &&& (i == 0 || is_white_space(l[i - 1]))
}

proof fn lemma_skip_word(l: Seq<char>, i: int)
    requires
        0 <= i <= l.len(),
    ensures
        i <= skip_word(l, i) <= l.len(),
        forall|k: int| i <= k < skip_word(l, i) ==> !is_white_space(#[trigger] l[k]),
        skip_word(l, i) < l.len() ==> is_white_space(l[skip_word(l, i)]),
    decreases l.len() - i,
{
    if i < l.len() && !is_white_space(l[i]) {
        lemma_skip_word(l, i + 1);
    }
}

proof fn lemma_skip_blank(l: Seq<char>, i: int)
    requires
        0 <= i <= l.len(),
    ensures
        i <= skip_blank(l, i) <= l.len(),
        forall|k: int| i <= k < skip_blank(l, i) ==> is_white_space(#[trigger] l[k]),
        skip_blank(l, i) < l.len() ==> !is_white_space(l[skip_blank(l, i)]),
    decreases l.len() - i,
{
    if i < l.len() && is_white_space(l[i]) {
        lemma_skip_blank(l, i + 1);
    }
}

proof fn lemma_back_skip_blank(l: Seq<char>, p: int)
    requires
        0 <= p < l.len(),
    ensures
        0 <= back_skip_blank(l, p) <= p,
        forall|k: int| back_skip_blank(l, p) < k <= p ==> is_white_space(#[trigger] l[k]),
        back_skip_blank(l, p) > 0 ==> !is_white_space(l[back_skip_blank(l, p)]),
    decreases p,
{
    if 0 < p && is_white_space(l[p]) {
        lemma_back_skip_blank(l, p - 1);
    }
}

proof fn lemma_back_skip_word(l: Seq<char>, q: int)
    requires
        0 <= q <= l.len(),
    ensures
        0 <= back_skip_word(l, q) <= q,
        forall|k: int| back_skip_word(l, q) <= k < q ==> !is_white_space(#[trigger] l[k]),
        back_skip_word(l, q) > 0 ==> is_white_space(l[back_skip_word(l, q) - 1]),
    decreases q,
{
    if 0 < q && !is_white_space(l[q - 1]) {
        lemma_back_skip_word(l, q - 1);
    }
}

/// The scan behind `w` and `dw` finds the first word start after the
/// cursor on its line, or reaches the line's end when there is none.
pub proof fn law_next_word_start(m: Model)
    requires
        m.wf(),
        m.mode == Mode::Normal,
    ensures
        ({
            let l = m.line();
            let i = m.clamped_col();
            let c = m.next_word_start();
            &&& c < l.len() ==> starts_word(l, c) && i < c
            &&& c >= l.len() ==> c == l.len()
            &&& forall|k: int| i < k < c ==> !#[trigger] starts_word(l, k)
        }),
{
    let l = m.line();
    let i = m.clamped_col();
    lemma_skip_word(l, i);
    let j = skip_word(l, i);
    lemma_skip_blank(l, j);
    let c = skip_blank(l, j);
    assert forall|k: int| i < k < c implies !#[trigger] starts_word(l, k) by {
        if k <= j {
            if k < j {
                assert(!is_white_space(l[k - 1]));
            } else {
                assert(k - 1 >= i);
                assert(!is_white_space(l[k - 1]));
            }
        } else {
            assert(is_white_space(l[k]));
        }
    }
    if c < l.len() {
        if j < l.len() {
            assert(is_white_space(l[j]));
            assert(c > j);
            assert(is_white_space(l[c - 1]));
        }
    }
}

/// `w` moves to the first word start after the cursor on the line; when
/// none follows, to the first non-blank of the next line, or, on the last
/// line, to its last character.
pub proof fn law_word_forward(m: Model)
    requires
        at_rest(m),
    ensures
        ({
            let l = m.line();
            let c = m.next_word_start();
            let m1 = m.handle_key(plain('w')).0;
            &&& c < l.len() ==> m1.row == m.row && m1.col == c
            &&& c >= l.len() && m.row + 1 < m.lines.len() ==> m1.row == m.row + 1 && m1.col
                == crate::text::first_nonblank_pos(m.lines[m.row + 1])
            &&& c >= l.len() && m.row + 1 >= m.lines.len() ==> m1.row == m.row && m1.col
                == m.max_col()
        }),
{
    lemma_key_at_rest(m, 'w');
}

/// `b` moves back to the closest word start before the cursor (column 0
/// when there is none); at the start of a line, to the end of the line
/// above.
pub proof fn law_word_back(m: Model)
    requires
        at_rest(m),
    ensures
        ({
            let l = m.line();
            let i = m.clamped_col();
            let m1 = m.handle_key(plain('b')).0;
            &&& i > 0 ==> {
                &&& m1.row == m.row
                &&& m1.col < i
                &&& m1.col == 0 || starts_word(l, m1.col)
                &&& forall|k: int| m1.col < k < i ==> !#[trigger] starts_word(l, k)
            }
            &&& i == 0 && m.row > 0 ==> m1.row == m.row - 1 && m1.col == (Model {
                row: m.row - 1,
                ..m
            }).max_col()
        }),
{
    lemma_key_at_rest(m, 'b');
    let l = m.line();
    let i = m.clamped_col();
    if i > 0 {
        let p = i - 1;
        lemma_back_skip_blank(l, p);
        let q = back_skip_blank(l, p);
        lemma_back_skip_word(l, q);
        let r = back_skip_word(l, q);
        assert forall|k: int| r < k < i implies !#[trigger] starts_word(l, k) by {
            if k <= q {
                assert(!is_white_space(l[k - 1]));
            } else {
                assert(is_white_space(l[k]));
            }
        }
        if r > 0 || !is_white_space(l[q]) {
            if q > 0 {
                assert(!is_white_space(l[q]));
            }
            if r < q {
                assert(!is_white_space(l[r]));
            }
        }
    }
}

/// A direct editing or motion command, none of which touches the undo stack.
pub enum Edit {
    InsertChar(char),
    Newline,
    Backspace,
    MoveH(int),
    MoveV(int),
    WordForward,
    WordBack,
    FirstNonblank,
}

pub open spec fn apply_edit(m: Model, e: Edit) -> Model {
    match e {
        Edit::InsertChar(c) => m.insert_char(c),
        Edit::Newline => m.insert_newline(),
        Edit::Backspace => m.backspace(),
        Edit::MoveH(dx) => m.move_h(dx),
        Edit::MoveV(dy) => m.move_v(dy),
        Edit::WordForward => m.word_forward(),
        Edit::WordBack => m.word_back(),
        Edit::FirstNonblank => m.first_nonblank(),
    }
}

/// The state after a run of direct commands.
pub open spec fn apply_edits(m: Model, es: Seq<Edit>) -> Model
    decreases es.len(),
{
    if es.len() == 0 {
        m
    } else {
        apply_edits(apply_edit(m, es[0]), es.drop_first())
    }
}

proof fn lemma_edits_keep_undo(m: Model, es: Seq<Edit>)
    ensures
        apply_edits(m, es).undo == m.undo,
    decreases es.len(),
{
    if es.len() > 0 {
        lemma_edits_keep_undo(apply_edit(m, es[0]), es.drop_first());
    }
}

/// Undo after a snapshot and any run of direct edits and motions gives back
/// the lines and row of the snapshot, the column it was clamped to, and the
/// undo stack from before it (when that stack was not full).
pub proof fn law_undo_reverts_edits_since_snapshot(m: Model, es: Seq<Edit>)
    requires
        m.wf(),
        m.undo.len() < UNDO_LIMIT,
    ensures
        ({
            let u = apply_edits(m.snapshot(), es).restore();
            &&& u.lines == m.lines
            &&& u.row == m.row
            &&& u.col == m.clamped_col()
            &&& u.undo == m.undo
        }),
{
    lemma_edits_keep_undo(m.snapshot(), es);
    lemma_snapshot_wf(m);
    let pushed = m.undo.push(Snapshot { lines: m.lines, row: m.row, col: m.clamped_col() });
    assert(pushed.drop_last() =~= m.undo);
}

/// At the end of a batch nothing is written once the editor quits, so `ZQ`
/// and Control-C quit without saving; otherwise the batch ends in an
/// autosave.
pub proof fn law_batch_end(m: Model)
    ensures
        m.quit ==> m.batch_end() == Effect::Nothing,
        !m.quit ==> m.batch_end() == m.autosave(),
{
}

/// `ZQ` quits, and the batch it ends writes nothing, however dirty the
/// buffer.
pub proof fn law_zq_quits_without_saving(m: Model)
    requires
        at_rest(m),
    ensures
        ({
            let m2 = m.handle_key(plain('Z')).0.handle_key(plain('Q')).0;
            m2.quit && m2.batch_end() == Effect::Nothing
        }),
{
    reveal(Model::handle_key);
    let m1 = m.handle_key(plain('Z')).0;
    assert(m1.pending == Pending::Z);
}
} // verus!
