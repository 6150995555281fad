//! What each key does, stated directly over the lines and the cursor before
//! and after it, and proved over the model.

use vstd::prelude::*;
use crate::laws::{
    at_rest, inserting, key, law_next_word_start, lemma_key_after_d, lemma_key_at_rest,
    lemma_key_inserting, lemma_snapshot_wf, plain, starts_word,
};
use crate::model::{KeyCode, Mode, Model, Pending};
use crate::render::max_len;
use crate::text::{first_nonblank_pos, is_white_space, leading_blanks};

verus! {

/// `b` is `a` with line `r` replaced by `line` and every other line kept.
pub open spec fn only_line_changed(
    a: Seq<Seq<char>>,
    b: Seq<Seq<char>>,
    r: int,
    line: Seq<char>,
) -> bool {
    &&& b.len() == a.len()
    &&& b[r] == line
    &&& forall|k: int| 0 <= k < a.len() && k != r ==> #[trigger] b[k] == a[k]
}

/// The first non-blank of a line, or column 0 when the line is blank.
pub proof fn law_first_nonblank_pos(l: Seq<char>)
    ensures
        ({
            let p = first_nonblank_pos(l);
            ||| (0 <= p < l.len() && !is_white_space(l[p]) && forall|k: int|
                0 <= k < p ==> is_white_space(#[trigger] l[k]))
            ||| (p == 0 && forall|k: int| 0 <= k < l.len() ==> is_white_space(#[trigger] l[k]))
        }),
{
    crate::text::lemma_leading(l);
}

/// The longest-line length is at least every line's length and is the
/// length of some line (0 for no lines).
pub proof fn law_max_len(lines: Seq<Seq<char>>)
    ensures
        forall|i: int| 0 <= i < lines.len() ==> #[trigger] lines[i].len() <= max_len(lines),
        lines.len() > 0 ==> exists|i: int| 0 <= i < lines.len() && #[trigger] lines[i].len() == max_len(lines),
        lines.len() == 0 ==> max_len(lines) == 0,
    decreases lines.len(),
{
    if lines.len() > 0 {
        let d = lines.drop_last();
        law_max_len(d);
        assert forall|i: int| 0 <= i < lines.len() implies #[trigger] lines[i].len() <= max_len(lines) by {
            if i < d.len() {
                assert(lines[i] == d[i]);
            }
        }
        if max_len(lines) == lines.last().len() {
            assert(lines[lines.len() - 1].len() == max_len(lines));
        } else {
            let i = choose|i: int| 0 <= i < d.len() && #[trigger] d[i].len() == max_len(d);
            assert(lines[i] == d[i]);
        }
    }
}

/// `x` deletes the character under the cursor and leaves the cursor on the
/// same column.
pub proof fn law_x_deletes_char_under_cursor(m: Model)
    requires
        at_rest(m),
        m.clamped_col() < m.line().len(),
    ensures
        ({
            let i = m.clamped_col();
            let l = m.line();
            let m1 = m.handle_key(plain('x')).0;
            &&& only_line_changed(m.lines, m1.lines, m.row, l.take(i) + l.skip(i + 1))
            &&& m1.row == m.row
            &&& m1.col == i
            &&& at_rest(m1)
        }),
{
    lemma_key_at_rest(m, 'x');
    let s = crate::model::Model { show_cursor: true, ..m };
    lemma_snapshot_wf(s);
    let i = m.clamped_col();
    let l = m.line();
    assert(l.remove(i) =~= l.take(i) + l.skip(i + 1));
}

/// `x` twice from column `i` deletes the characters at `i` and `i + 1`.
pub proof fn law_x_twice(m: Model)
    requires
        at_rest(m),
        m.clamped_col() + 1 < m.line().len(),
    ensures
        ({
            let i = m.clamped_col();
            let l = m.line();
            let m2 = m.handle_key(plain('x')).0.handle_key(plain('x')).0;
            &&& only_line_changed(m.lines, m2.lines, m.row, l.take(i) + l.skip(i + 2))
            &&& m2.row == m.row
            &&& m2.col == i
        }),
{
    law_x_deletes_char_under_cursor(m);
    let i = m.clamped_col();
    let l = m.line();
    let m1 = m.handle_key(plain('x')).0;
    let l1 = l.take(i) + l.skip(i + 1);
    assert(m1.line() == l1);
    assert(m1.clamped_col() == i);
    law_x_deletes_char_under_cursor(m1);
    assert(l1.take(i) + l1.skip(i + 1) =~= l.take(i) + l.skip(i + 2));
}

/// `D` deletes from the cursor to the end of the line; the cursor goes to
/// the new last character.
pub proof fn law_capital_d_truncates(m: Model)
    requires
        at_rest(m),
    ensures
        ({
            let i = m.clamped_col();
            let m1 = m.handle_key(plain('D')).0;
            &&& only_line_changed(m.lines, m1.lines, m.row, m.line().take(i))
            &&& m1.row == m.row
            &&& m1.col == if i > 0 { i - 1 } else { 0 }
        }),
{
    lemma_key_at_rest(m, 'D');
}

/// `dd` removes the current line from a buffer of several lines (the
/// cursor stays on the same row, or the new last one); a lone line is
/// emptied instead.
pub proof fn law_dd_removes_line(m: Model)
    requires
        at_rest(m),
    ensures
        ({
            let m2 = m.handle_key(plain('d')).0.handle_key(plain('d')).0;
            &&& m.lines.len() > 1 ==> {
                &&& m2.lines == m.lines.take(m.row) + m.lines.skip(m.row + 1)
                &&& m2.lines.len() == m.lines.len() - 1
                &&& m2.row == if m.row < m.lines.len() - 1 { m.row } else { m.row - 1 }
            }
            &&& m.lines.len() == 1 ==> m2.lines == seq![Seq::<char>::empty()] && m2.row == 0
        }),
{
    lemma_key_at_rest(m, 'd');
    let m1 = m.handle_key(plain('d')).0;
    assert(m1 == Model { show_cursor: true, pending: Pending::D, ..m });
    lemma_key_after_d(m1, 'd');
    assert(m.lines.remove(m.row) =~= m.lines.take(m.row) + m.lines.skip(m.row + 1));
}

/// `dw` keeps everything before the cursor and deletes up to the first word
/// start after it on the line (the cursor stays put), or to the end of the
/// line when no word starts after the cursor.
pub proof fn law_dw_deletes_to_next_word(m: Model)
    requires
        at_rest(m),
    ensures
        ({
            let i = m.clamped_col();
            let l = m.line();
            let m2 = m.handle_key(plain('d')).0.handle_key(plain('w')).0;
            &&& m2.row == m.row
            &&& m2.lines.len() == m.lines.len()
            &&& forall|k: int| 0 <= k < m.lines.len() && k != m.row ==> #[trigger] m2.lines[k] == m.lines[k]
            &&& (forall|k: int| i < k < l.len() ==> !#[trigger] starts_word(l, k)) ==> m2.lines[m.row]
                == l.take(i)
            &&& forall|c: int|
                i < c < l.len() && #[trigger] starts_word(l, c) && (forall|k: int|
                    i < k < c ==> !#[trigger] starts_word(l, k)) ==> m2.lines[m.row] == l.take(i)
                    + l.skip(c) && m2.col == i
        }),
{
    lemma_key_at_rest(m, 'd');
    let m1 = m.handle_key(plain('d')).0;
    assert(m1 == Model { show_cursor: true, pending: Pending::D, ..m });
    lemma_key_after_d(m1, 'w');
    let s = Model { show_cursor: true, ..m };
    assert(Model { show_cursor: true, pending: Pending::Idle, ..m1 } == s);
    law_next_word_start(m);
    let i = m.clamped_col();
    let l = m.line();
    let c0 = m.next_word_start();
    assert(s.snapshot().next_word_start() == c0);
    assert forall|c: int|
        i < c < l.len() && #[trigger] starts_word(l, c) && (forall|k: int|
            i < k < c ==> !#[trigger] starts_word(l, k)) implies {
        let m2 = m.handle_key(plain('d')).0.handle_key(plain('w')).0;
        m2.lines[m.row] == l.take(i) + l.skip(c) && m2.col == i
    } by {
        if c0 < c {
            assert(!starts_word(l, c0));
        } else if c < c0 {
            assert(!starts_word(l, c));
        }
    }
    if c0 < l.len() {
        assert(starts_word(l, c0));
    }
}

/// `h` and `l` move one column left and right, stopping at the line's ends.
pub proof fn law_h_and_l(m: Model)
    requires
        at_rest(m),
    ensures
        ({
            let i = m.clamped_col();
            let len = m.line().len() as int;
            let mh = m.handle_key(plain('h')).0;
            let ml = m.handle_key(plain('l')).0;
            &&& mh.lines == m.lines && mh.row == m.row
            &&& mh.col == if i > 0 { i - 1 } else { 0 }
            &&& ml.lines == m.lines && ml.row == m.row
            &&& ml.col == if i + 1 < len { i + 1 } else { i }
        }),
{
    lemma_key_at_rest(m, 'h');
    lemma_key_at_rest(m, 'l');
}

/// `j` and `k` move one row down and up, stopping at the buffer's ends; the
/// lines and the desired column are unchanged.
pub proof fn law_j_and_k(m: Model)
    requires
        at_rest(m),
    ensures
        ({
            let mj = m.handle_key(plain('j')).0;
            let mk = m.handle_key(plain('k')).0;
            &&& mj.lines == m.lines && mj.col == m.col
            &&& mj.row == if m.row + 1 < m.lines.len() { m.row + 1 } else { m.row }
            &&& mk.lines == m.lines && mk.col == m.col
            &&& mk.row == if m.row > 0 { m.row - 1 } else { 0 }
        }),
{
    lemma_key_at_rest(m, 'j');
    lemma_key_at_rest(m, 'k');
}

/// Vertical motion by `dy` lands on row `row + dy` when that is in the
/// buffer, else on its first or last row; nothing else changes.
pub proof fn law_move_v(m: Model, dy: int)
    requires
        m.wf(),
    ensures
        ({
            let m1 = m.move_v(dy);
            let t = m.row + dy;
            &&& 0 <= m1.row < m.lines.len()
            &&& 0 <= t < m.lines.len() ==> m1.row == t
            &&& t < 0 ==> m1.row == 0
            &&& t >= m.lines.len() ==> m1.row == m.lines.len() - 1
            &&& m1 == (Model { row: m1.row, ..m })
        }),
{
}

/// `0` goes to column 0, `$` to the last character, `^` to the first
/// non-blank.
pub proof fn law_line_motions(m: Model)
    requires
        at_rest(m),
    ensures
        m.handle_key(plain('0')).0.col == 0,
        m.handle_key(plain('$')).0.col == if m.line().len() > 0 { m.line().len() - 1 } else { 0 },
        m.handle_key(plain('^')).0.col == first_nonblank_pos(m.line()),
        m.handle_key(plain('0')).0.lines == m.lines,
        m.handle_key(plain('$')).0.lines == m.lines,
        m.handle_key(plain('^')).0.lines == m.lines,
{
    lemma_key_at_rest(m, '0');
    lemma_key_at_rest(m, '$');
    lemma_key_at_rest(m, '^');
}

/// `i` inserts at the cursor, `a` after it, `A` at the end of the line.
pub proof fn law_insert_entries(m: Model)
    requires
        at_rest(m),
    ensures
        ({
            let i = m.clamped_col();
            let len = m.line().len() as int;
            let mi = m.handle_key(plain('i')).0;
            let ma = m.handle_key(plain('a')).0;
            let mA = m.handle_key(plain('A')).0;
            &&& mi.mode == Mode::Insert && mi.col == i && mi.lines == m.lines && mi.row == m.row
            &&& ma.mode == Mode::Insert && ma.col == (if i + 1 <= len { i + 1 } else { len })
                && ma.lines == m.lines
            &&& mA.mode == Mode::Insert && mA.col == len && mA.lines == m.lines
        }),
{
    lemma_key_at_rest(m, 'i');
    lemma_key_at_rest(m, 'a');
    lemma_key_at_rest(m, 'A');
}

/// `o` opens an empty line below the cursor and `O` one above, and the
/// cursor goes to it in insert mode.
pub proof fn law_open_lines(m: Model)
    requires
        at_rest(m),
    ensures
        ({
            let r = m.row;
            let mo = m.handle_key(plain('o')).0;
            let mO = m.handle_key(plain('O')).0;
            &&& mo.lines == m.lines.take(r + 1) + seq![Seq::<char>::empty()] + m.lines.skip(r + 1)
            &&& mo.row == r + 1 && mo.col == 0 && mo.mode == Mode::Insert
            &&& mO.lines == m.lines.take(r) + seq![Seq::<char>::empty()] + m.lines.skip(r)
            &&& mO.row == r && mO.col == 0 && mO.mode == Mode::Insert
        }),
{
    lemma_key_at_rest(m, 'o');
    lemma_key_at_rest(m, 'O');
    let r = m.row;
    assert(m.lines.insert(r + 1, Seq::<char>::empty()) =~= m.lines.take(r + 1) + seq![
        Seq::<char>::empty(),
    ] + m.lines.skip(r + 1));
    assert(m.lines.insert(r, Seq::<char>::empty()) =~= m.lines.take(r) + seq![
        Seq::<char>::empty(),
    ] + m.lines.skip(r));
}

/// In insert mode a typed character goes in at the cursor, which moves past
/// it; Tab puts in four spaces.
pub proof fn law_typing(m: Model, c: char)
    requires
        inserting(m),
    ensures
        ({
            let i = m.clamped_col();
            let l = m.line();
            let m1 = m.handle_key(plain(c)).0;
            let mt = m.handle_key(key(KeyCode::Tab)).0;
            &&& only_line_changed(m.lines, m1.lines, m.row, l.take(i) + seq![c] + l.skip(i))
            &&& m1.row == m.row && m1.col == i + 1
            &&& only_line_changed(m.lines, mt.lines, m.row, l.take(i) + seq![' ', ' ', ' ', ' ']
                + l.skip(i))
            &&& mt.row == m.row && mt.col == i + 4
        }),
{
    lemma_key_inserting(m, plain(c));
    lemma_key_inserting(m, key(KeyCode::Tab));
    let i = m.clamped_col();
    let l = m.line();
    assert(l.insert(i, c) =~= l.take(i) + seq![c] + l.skip(i));
    let l1 = l.insert(i, ' ');
    let l2 = l1.insert(i + 1, ' ');
    let l3 = l2.insert(i + 2, ' ');
    let l4 = l3.insert(i + 3, ' ');
    assert(l4 =~= l.take(i) + seq![' ', ' ', ' ', ' '] + l.skip(i));
}

/// Replacing element `r` by `a` and inserting `b` after it is the same as
/// cutting the sequence at `r` and putting `a` and `b` in its place.
proof fn lemma_replace_by_two(s: Seq<Seq<char>>, r: int, a: Seq<char>, b: Seq<char>)
    requires
        0 <= r < s.len(),
    ensures
        s.update(r, a).insert(r + 1, b) == s.take(r) + seq![a, b] + s.skip(r + 1),
{
    assert(s.update(r, a).insert(r + 1, b) =~= s.take(r) + seq![a, b] + s.skip(r + 1));
}

/// In insert mode Enter splits the line at the cursor; the cursor goes to
/// the start of the second part.
#[verifier::spinoff_prover]
pub proof fn law_enter_splits(m: Model)
    requires
        inserting(m),
    ensures
        ({
            let i = m.clamped_col();
            let l = m.line();
            let r = m.row;
            let m1 = m.handle_key(key(KeyCode::Enter)).0;
            &&& m1.lines == m.lines.take(r) + seq![l.take(i), l.skip(i)] + m.lines.skip(r + 1)
            &&& m1.row == r + 1 && m1.col == 0
        }),
{
    lemma_key_inserting(m, key(KeyCode::Enter));
    let i = m.clamped_col();
    let l = m.line();
    let r = m.row;
    lemma_replace_by_two(m.lines, r, l.take(i), l.skip(i));
}

/// In insert mode Backspace deletes the character before the cursor; at the
/// start of a line it joins the line onto the one above, with the cursor
/// where they meet; at the start of the buffer it does nothing.
pub proof fn law_backspace(m: Model)
    requires
        inserting(m),
    ensures
        ({
            let i = m.clamped_col();
            let l = m.line();
            let r = m.row;
            let m1 = m.handle_key(key(KeyCode::Backspace)).0;
            &&& i > 0 ==> only_line_changed(m.lines, m1.lines, r, l.take(i - 1) + l.skip(i))
                && m1.row == r && m1.col == i - 1
            &&& i == 0 && r > 0 ==> m1.lines == m.lines.take(r - 1) + seq![m.lines[r - 1] + l]
                + m.lines.skip(r + 1) && m1.row == r - 1 && m1.col == m.lines[r - 1].len()
            &&& i == 0 && r == 0 ==> m1.lines == m.lines && m1.row == 0 && m1.col == m.col
        }),
{
    lemma_key_inserting(m, key(KeyCode::Backspace));
    let i = m.clamped_col();
    let l = m.line();
    let r = m.row;
    if i > 0 {
        assert(l.remove(i - 1) =~= l.take(i - 1) + l.skip(i));
    } else if r > 0 {
        let rest = m.lines.remove(r);
        assert(rest.update(r - 1, rest[r - 1] + l) =~= m.lines.take(r - 1) + seq![
            m.lines[r - 1] + l,
        ] + m.lines.skip(r + 1));
    }
}

/// In block mode every row starts where the widest line of the buffer,
/// centred, would start.
pub proof fn law_block_centred_on_widest(
    f: crate::render::Frame,
    m: Model,
    w: int,
    h: int,
    r: int,
)
    requires
        crate::render::frame_is(f, m, w, h),
        m.block,
        0 <= r < f.rows@.len(),
    ensures
        exists|j: int|
            0 <= j < m.lines.len() && (forall|k: int|
                0 <= k < m.lines.len() ==> #[trigger] m.lines[k].len() <= m.lines[j].len())
                && f.rows@[r].x == crate::render::centred(w, m.lines[j].len() as int),
{
    law_max_len(m.lines);
    let j = choose|j: int| 0 <= j < m.lines.len() && #[trigger] m.lines[j].len() == max_len(m.lines);
    assert(f.rows@[r].x == crate::render::centred(w, max_len(m.lines)));
}


/// Esc leaves insert mode; the desired column is clamped to the last
/// character of the line (column 0 on an empty line).
pub proof fn law_esc_clamps_column(m: Model)
    requires
        inserting(m),
    ensures
        ({
            let len = m.line().len() as int;
            let last = if len > 0 { len - 1 } else { 0 };
            let m1 = m.handle_key(key(KeyCode::Esc)).0;
            &&& m1.mode == Mode::Normal
            &&& m1.col == if m.col <= last { m.col } else { last }
            &&& m1.lines == m.lines && m1.row == m.row
        }),
{
    lemma_key_inserting(m, key(KeyCode::Esc));
}

/// In insert mode the arrows move by one column or row, the column running
/// from 0 to one past the last character.
pub proof fn law_arrows_in_insert_mode(m: Model)
    requires
        inserting(m),
    ensures
        ({
            let len = m.line().len() as int;
            let i = m.clamped_col();
            let ml = m.handle_key(key(KeyCode::Left)).0;
            let mr = m.handle_key(key(KeyCode::Right)).0;
            let mu = m.handle_key(key(KeyCode::Up)).0;
            let md = m.handle_key(key(KeyCode::Down)).0;
            &&& i == if m.col <= len { m.col } else { len }
            &&& ml.col == (if i > 0 { i - 1 } else { 0 }) && ml.lines == m.lines && ml.row == m.row
            &&& mr.col == (if i < len { i + 1 } else { i }) && mr.lines == m.lines && mr.row == m.row
            &&& mu.row == (if m.row > 0 { m.row - 1 } else { 0 }) && mu.lines == m.lines
            &&& md.row == (if m.row + 1 < m.lines.len() { m.row + 1 } else { m.row })
                && md.lines == m.lines
        }),
{
    lemma_key_inserting(m, key(KeyCode::Left));
    lemma_key_inserting(m, key(KeyCode::Right));
    lemma_key_inserting(m, key(KeyCode::Up));
    lemma_key_inserting(m, key(KeyCode::Down));
}

/// `gg` and `G` go to the first and the last line, with the desired column
/// clamped to that line; the lines are unchanged.
pub proof fn law_gg_and_capital_g(m: Model)
    requires
        at_rest(m),
    ensures
        ({
            let mg = m.handle_key(plain('g')).0.handle_key(plain('g')).0;
            let mG = m.handle_key(plain('G')).0;
            let n = m.lines.len() - 1;
            let first = m.lines[0].len() as int;
            let last = m.lines[n].len() as int;
            &&& mg.row == 0 && mg.lines == m.lines
            &&& mg.col == if first == 0 { 0 } else if m.col < first { m.col } else { first - 1 }
            &&& mG.row == n && mG.lines == m.lines
            &&& mG.col == if last == 0 { 0 } else if m.col < last { m.col } else { last - 1 }
        }),
{
    reveal(Model::handle_key);
    let m1 = m.handle_key(plain('g')).0;
    assert(m1.pending == Pending::G);
}

pub open spec fn dist(a: int, b: int) -> int {
    if a >= b {
        a - b
    } else {
        b - a
    }
}

/// When the buffer does not fit, the window scrolls only as far as needed:
/// it stays put while the cursor row is visible, and otherwise moves to the
/// nearest position that shows it.
pub proof fn law_scroll_is_minimal(len: int, row: int, top: int, h: int)
    requires
        1 <= h < len,
        0 <= row < len,
        0 <= top,
    ensures
        ({
            let t = crate::render::scroll_top(len, row, top, h);
            &&& top <= row < top + h ==> t == top
            &&& t <= row < t + h
            &&& forall|u: int| u <= row < u + h ==> dist(t, top) <= #[trigger] dist(u, top)
        }),
{
}

/// The save-as box: three lines of one width `n + 2`, with `n` at least 30
/// (and at least the input plus 2) unless the screen is narrower; the middle
/// line shows the longest tail of the input that fits in `n - 1` columns,
/// with the cursor right after it; the box is centred.
pub proof fn law_prompt_box_shape(b: crate::render::PromptBox, input: Seq<char>, w: int, h: int)
    requires
        crate::render::prompt_box_is(b, input, w, h),
        11 <= w,
    ensures
        ({
            let n = b.bot@.len() - 2;
            let k = if input.len() <= n - 1 { input.len() as int } else { n - 1 };
            &&& b.top@.len() == n + 2 && b.mid@.len() == n + 2
            &&& 9 <= n <= w - 2
            &&& n >= 30 || n == w - 2
            &&& n >= input.len() + 2 || n == w - 2
            &&& b.mid@.subrange(2, 2 + k) == input.skip(input.len() - k)
            &&& forall|j: int| 2 + k <= j < n + 1 ==> #[trigger] b.mid@[j] == ' '
            &&& b.cursor_x == b.x + 2 + k
            &&& b.cursor_y == b.y + 1
            &&& w - 1 <= 2 * b.x + n + 2 <= w
        }),
{
    let n = b.bot@.len() - 2;
    let k = if input.len() <= n - 1 { input.len() as int } else { n - 1 };
    let shown = crate::render::prompt_shown(input, n);
    assert(shown =~= input.skip(input.len() - k));
    assert(b.mid@.subrange(2, 2 + k) =~= shown);
}

/// In the save-as prompt Backspace drops the last input character, a plain
/// character is appended, Esc closes the prompt; the buffer is untouched.
pub proof fn law_prompt_editing(m: Model, c: char)
    requires
        m.prompt is Some,
    ensures
        ({
            let p = m.prompt.unwrap();
            let mb = m.handle_key(key(KeyCode::Backspace)).0;
            let mc = m.handle_key(plain(c)).0;
            let me = m.handle_key(key(KeyCode::Esc)).0;
            &&& mb.prompt == Some(if p.len() > 0 { p.take(p.len() - 1) } else { p })
            &&& mc.prompt == Some(p + seq![c])
            &&& me.prompt is None && me.quit == m.quit
            &&& mb.lines == m.lines && mc.lines == m.lines && me.lines == m.lines
        }),
{
    reveal(Model::handle_key);
    let p = m.prompt.unwrap();
    assert(p.push(c) =~= p + seq![c]);
    assert(p.len() > 0 ==> p.drop_last() =~= p.take(p.len() - 1));
}

/// An autosave writes exactly when there are unsaved edits and a path, and
/// marks the buffer saved once the write succeeds.
pub proof fn law_autosave(m: Model)
    ensures
        m.dirty && m.path is Some ==> m.autosave() == crate::model::Effect::Write(
            crate::model::AfterWrite::MarkSaved,
        ),
        !(m.dirty && m.path is Some) ==> m.autosave() == crate::model::Effect::Nothing,
        !m.write_done(crate::model::AfterWrite::MarkSaved).dirty,
        m.write_done(crate::model::AfterWrite::MarkSaved).lines == m.lines,
{
}

/// The rows of a frame: consecutive screen rows from the first buffer row
/// shown, each a prefix of its line cut to what fits right of its start;
/// when not in block mode each is centred alone, and when the buffer fits
/// it is centred vertically.
pub proof fn law_frame_rows(f: crate::render::Frame, m: Model, w: int, h: int)
    requires
        crate::render::frame_is(f, m, w, h),
        m.wf(),
        m.top <= m.row,
        0 <= w,
        1 <= h,
    ensures
        forall|i: int|
            0 <= i < f.rows@.len() ==> {
                let line = m.lines[m.top + i];
                let t = (#[trigger] f.rows@[i]).text@;
                &&& t == line.take(t.len() as int)
                &&& t.len() == if line.len() <= w - f.rows@[i].x { line.len() as int } else { w
                    - f.rows@[i].x }
                &&& 0 <= f.rows@[i].x <= w / 2
                &&& f.rows@[i].y == f.rows@[0].y + i
                &&& !m.block ==> w - 1 <= 2 * f.rows@[i].x + (if line.len() <= w { line.len() as int } else { w }) <= w
            },
        m.lines.len() <= h && m.top == 0 ==> f.rows@.len() == m.lines.len() && h - 1 <= 2
            * f.rows@[0].y + m.lines.len() <= h,
{
    law_max_len(m.lines);
}
} // verus!
