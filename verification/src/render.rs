//! Screen layout: which part of the buffer is on screen, where each line
//! starts so that the text sits centred, where the cursor goes, and the
//! centred "Save as" box.

use vstd::prelude::*;
use crate::model::{Mode, Model, min};

verus! {

/// A run of text to print at a screen position.
pub struct TextRow {
    pub x: u16,
    pub y: u16,
    pub text: Vec<char>,
}

/// The "Save as" box: three lines of text starting at `(x, y)`, `(x, y + 1)`
/// and `(x, y + 2)`, and the cursor at the end of the input.
pub struct PromptBox {
    pub x: u16,
    pub y: u16,
    pub top: Vec<char>,
    pub mid: Vec<char>,
    pub bot: Vec<char>,
    pub cursor_x: u16,
    pub cursor_y: u16,
}

/// Where the cursor ends up in a frame.
pub enum CursorPlacement {
    /// The save-as box is open; the cursor sits in it.
    Prompt(PromptBox),
    /// A visible cursor, as a bar (insert mode) or a block (normal mode).
    Shown { x: u16, y: u16, bar: bool },
    /// Hidden, parked in the top-right corner at column `x` of row 0.
    Parked { x: u16 },
}

/// Everything one repaint puts on screen.
pub struct Frame {
    pub rows: Vec<TextRow>,
    pub cursor: CursorPlacement,
}

pub open spec fn sat_sub(a: int, b: int) -> int {
    if a >= b {
        a - b
    } else {
        0
    }
}

pub open spec fn max(a: int, b: int) -> int {
    if a >= b {
        a
    } else {
        b
    }
}

/// Length of the longest line.
pub open spec fn max_len(lines: Seq<Seq<char>>) -> int
    decreases lines.len(),
{
    if lines.len() == 0 {
        0
    } else {
        max(max_len(lines.drop_last()), lines.last().len() as int)
    }
}

/// The first buffer row shown: 0 when the buffer fits in `h` rows,
/// otherwise `top` moved just enough for `row` to be on screen.
pub open spec fn scroll_top(len: int, row: int, top: int, h: int) -> int {
    if len <= h {
        0
    } else if row < top {
        row
    } else if row >= top + h {
        row - h + 1
    } else {
        top
    }
}

/// Screen column where a line of `n` characters starts when centred on its
/// own in a screen `w` columns wide.
pub open spec fn centred(w: int, n: int) -> int {
    (w - min(n, w)) / 2
}

/// Screen column where `line` starts: in block mode every line starts where
/// the widest one, centred, starts; otherwise each line is centred alone.
pub open spec fn line_x0(m: Model, w: int, line: Seq<char>) -> int {
    if m.block {
        centred(w, max_len(m.lines))
    } else {
        centred(w, line.len() as int)
    }
}

pub open spec fn repeat(c: char, n: int) -> Seq<char> {
    Seq::new(n as nat, |i: int| c)
}

pub open spec fn title() -> Seq<char> {
    seq![' ', 'S', 'a', 'v', 'e', ' ', 'a', 's', ' ']
}

/// Inner width of the save-as box for an input of `n` characters.
pub open spec fn prompt_inner(n: int, w: int) -> int {
    min(max(max(n + 2, 9), 30), sat_sub(w, 2))
}

/// The tail of the input that fits in the box.
pub open spec fn prompt_shown(input: Seq<char>, inner: int) -> Seq<char> {
    input.skip(sat_sub(input.len() as int, inner - 1))
}

pub open spec fn prompt_top(inner: int) -> Seq<char> {
    seq!['┌'] + title() + repeat('─', inner - 9) + seq!['┐']
}

pub open spec fn prompt_mid(shown: Seq<char>, inner: int) -> Seq<char> {
    seq!['│', ' '] + shown + repeat(' ', inner - 1 - shown.len()) + seq!['│']
}

pub open spec fn prompt_bot(inner: int) -> Seq<char> {
    seq!['└'] + repeat('─', inner) + seq!['┘']
}

/// The save-as box for `input` on a `w` by `h` screen.
pub open spec fn prompt_box_is(b: PromptBox, input: Seq<char>, w: int, h: int) -> bool {
    let inner = prompt_inner(input.len() as int, w);
    let shown = prompt_shown(input, inner);
    &&& b.x == sat_sub(w, inner + 2) / 2
    &&& b.y == sat_sub(h, 3) / 2
    &&& b.top@ == prompt_top(inner)
    &&& b.mid@ == prompt_mid(shown, inner)
    &&& b.bot@ == prompt_bot(inner)
    &&& b.cursor_x == b.x + 2 + shown.len()
    &&& b.cursor_y == b.y + 1
}

/// The rows and cursor of the frame for state `m` (whose `top` is already
/// scrolled) on a `w` by `h` screen.
pub open spec fn frame_is(f: Frame, m: Model, w: int, h: int) -> bool {
    let len = m.lines.len() as int;
    let visible = min(len, h);
    let y0 = (h - visible) / 2;
    &&& f.rows@.len() == min(visible, len - m.top)
    &&& forall|i: int|
        0 <= i < f.rows@.len() ==> {
            let line = m.lines[m.top + i];
            let x0 = line_x0(m, w, line);
            &&& (#[trigger] f.rows@[i]).x == x0
            &&& f.rows@[i].y == y0 + i
            &&& f.rows@[i].text@ == line.take(min(w - x0, line.len() as int))
        }
    &&& match m.prompt {
        Some(p) => f.cursor matches CursorPlacement::Prompt(b) && prompt_box_is(b, p, w, h),
        None => {
            let cx = min(line_x0(m, w, m.line()) + m.clamped_col(), sat_sub(w, 1));
            let cy = y0 + m.row - m.top;
            if m.mode == Mode::Insert || m.show_cursor {
                f.cursor matches CursorPlacement::Shown { x, y, bar } && x == cx && y == cy && bar
                    == (m.mode == Mode::Insert)
            } else {
                f.cursor matches CursorPlacement::Parked { x } && x == sat_sub(w, 1)
            }
        },
    }
}

fn push_repeat(v: &mut Vec<char>, c: char, n: usize)
    ensures
        final(v)@ == old(v)@ + repeat(c, n as int),
{
    let ghost v0 = v@;
    let mut i: usize = 0;
    while i < n
        invariant
            i <= n,
            v@ =~= v0 + repeat(c, i as int),
        decreases n - i,
    {
        v.push(c);
        i = i + 1;
    }
}

/// Inner width of the save-as box for an input of `n` characters.
fn prompt_inner_width(n: usize, w: usize) -> (inner: usize)
    requires
        n + 2 <= usize::MAX,
        11 <= w,
    ensures
        inner as int == prompt_inner(n as int, w as int),
        9 <= inner <= w - 2,
{
    let mut inner = n + 2;
    if inner < 9 {
        inner = 9;
    }
    if inner < 30 {
        inner = 30;
    }
    if inner > w - 2 {
        inner = w - 2;
    }
    inner
}

/// The last `inner - 1` characters of the input (all of it when shorter).
fn prompt_tail(input: &Vec<char>, inner: usize) -> (shown: Vec<char>)
    requires
        1 <= inner,
    ensures
        shown@ == prompt_shown(input@, inner as int),
        shown@.len() <= inner - 1,
{
    let n = input.len();
    let skip = if n >= inner - 1 {
        n - (inner - 1)
    } else {
        0
    };
    let mut shown: Vec<char> = Vec::new();
    let mut i: usize = skip;
    while i < n
        invariant
            skip <= i <= n,
            n == input@.len(),
            shown@ =~= input@.subrange(skip as int, i as int),
        decreases n - i,
    {
        shown.push(input[i]);
        i = i + 1;
    }
    proof {
        assert(input@.skip(skip as int) =~= shown@);
    }
    shown
}

fn prompt_top_line(inner: usize) -> (t: Vec<char>)
    requires
        9 <= inner,
    ensures
        t@ == prompt_top(inner as int),
{
    let mut top: Vec<char> = Vec::new();
    top.push('┌');
    top.push(' ');
    top.push('S');
    top.push('a');
    top.push('v');
    top.push('e');
    top.push(' ');
    top.push('a');
    top.push('s');
    top.push(' ');
    push_repeat(&mut top, '─', inner - 9);
    top.push('┐');
    proof {
        assert(top@ =~= prompt_top(inner as int));
    }
    top
}

fn prompt_mid_line(shown: &Vec<char>, inner: usize) -> (t: Vec<char>)
    requires
        shown@.len() <= inner - 1,
    ensures
        t@ == prompt_mid(shown@, inner as int),
{
    let mut mid: Vec<char> = Vec::new();
    mid.push('│');
    mid.push(' ');
    let mut k: usize = 0;
    while k < shown.len()
        invariant
            k <= shown@.len(),
            mid@ =~= seq!['│', ' '] + shown@.take(k as int),
        decreases shown@.len() - k,
    {
        mid.push(shown[k]);
        k = k + 1;
    }
    push_repeat(&mut mid, ' ', inner - 1 - shown.len());
    mid.push('│');
    proof {
        assert(shown@.take(k as int) =~= shown@);
        assert(mid@ =~= prompt_mid(shown@, inner as int));
    }
    mid
}

fn prompt_bot_line(inner: usize) -> (t: Vec<char>)
    ensures
        t@ == prompt_bot(inner as int),
{
    let mut bot: Vec<char> = Vec::new();
    bot.push('└');
    push_repeat(&mut bot, '─', inner);
    bot.push('┘');
    proof {
        assert(bot@ =~= prompt_bot(inner as int));
    }
    bot
}

/// Centred "Save as" popup; the cursor sits at the end of the input, and
/// the tail of the input is shown when it is wider than the box.
pub fn draw_prompt(input: &Vec<char>, w: usize, h: usize) -> (b: PromptBox)
    requires
        input@.len() + 2 <= usize::MAX,
        11 <= w <= u16::MAX,
        h <= u16::MAX,
    ensures
        prompt_box_is(b, input@, w as int, h as int),
{
    let inner = prompt_inner_width(input.len(), w);
    let shown = prompt_tail(input, inner);
    let top = prompt_top_line(inner);
    let mid = prompt_mid_line(&shown, inner);
    let bot = prompt_bot_line(inner);
    let bx = if w >= inner + 2 {
        (w - (inner + 2)) / 2
    } else {
        0
    };
    let by = if h >= 3 {
        (h - 3) / 2
    } else {
        0
    };
    let cx = bx + 2 + shown.len();
    PromptBox {
        x: bx as u16,
        y: by as u16,
        top,
        mid,
        bot,
        cursor_x: cx as u16,
        cursor_y: (by + 1) as u16,
    }
}

/// Length of the longest line.
pub fn max_line_len(lines: &Vec<Vec<char>>) -> (n: usize)
    ensures
        n as int == max_len(crate::text::lines_view(lines@)),
{
    let ghost ls = crate::text::lines_view(lines@);
    let mut best: usize = 0;
    let mut i: usize = 0;
    while i < lines.len()
        invariant
            ls == crate::text::lines_view(lines@),
            i <= lines@.len(),
            best as int == max_len(ls.take(i as int)),
        decreases lines@.len() - i,
    {
        proof {
            assert(ls.take(i + 1).drop_last() =~= ls.take(i as int));
        }
        let l = lines[i].len();
        if l > best {
            best = l;
        }
        i = i + 1;
    }
    proof {
        assert(ls.take(i as int) =~= ls);
    }
    best
}

} // verus!
