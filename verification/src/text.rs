//! Character-level helpers: whitespace classification, UTF-8 widths,
//! splitting a file's text into lines and joining lines back into text.

use vstd::prelude::*;
use vstd::utf8::*;

verus! {

broadcast use vstd::utf8::char_is_scalar;

/// Whether a character carries Unicode's White_Space property (PropList.txt):
/// U+0009..U+000D, U+0020, U+0085, U+00A0, U+1680, U+2000..U+200A, U+2028,
/// U+2029, U+202F, U+205F and U+3000.
pub open spec fn is_white_space(c: char) -> bool {
    let v = c as u32;
    ||| 0x09 <= v <= 0x0D
    ||| v == 0x20
    ||| v == 0x85
    ||| v == 0xA0
    ||| v == 0x1680
    ||| 0x2000 <= v <= 0x200A
    ||| v == 0x2028
    ||| v == 0x2029
    ||| v == 0x202F
    ||| v == 0x205F
    ||| v == 0x3000
}

/// Whether `c` has the White_Space property (the same answer as
/// `char::is_whitespace`).
pub fn char_is_whitespace(c: char) -> (r: bool)
    ensures
        r == is_white_space(c),
{
    let v = c as u32;
    (0x09 <= v && v <= 0x0D) || v == 0x20 || v == 0x85 || v == 0xA0 || v == 0x1680 || (0x2000 <= v
        && v <= 0x200A) || v == 0x2028 || v == 0x2029 || v == 0x202F || v == 0x205F || v == 0x3000
}

// ----------------------------------------------------------------------------
// UTF-8 widths

/// Number of bytes of the UTF-8 encoding of `c`.
pub fn utf8_width(c: char) -> (n: usize)
    ensures
        n as int == encode_scalar(c as u32).len(),
        1 <= n <= 4,
{
    let v = c as u32;
    if v <= 0x7F {
        1
    } else if v <= 0x7FF {
        2
    } else if v <= 0xFFFF {
        3
    } else {
        4
    }
}

/// The UTF-8 encoding of a concatenation is the concatenation of the encodings.
pub proof fn lemma_encode_utf8_concat(a: Seq<char>, b: Seq<char>)
    ensures
        encode_utf8(a + b) == encode_utf8(a) + encode_utf8(b),
    decreases a.len(),
{
    if a.len() == 0 {
        assert(a + b =~= b);
        assert(encode_utf8(a) + encode_utf8(b) =~= encode_utf8(b));
    } else {
        assert((a + b).drop_first() =~= a.drop_first() + b);
        lemma_encode_utf8_concat(a.drop_first(), b);
        assert((a + b)[0] == a[0]);
        assert(encode_utf8(a + b) =~= encode_scalar(a[0] as u32) + (encode_utf8(a.drop_first())
            + encode_utf8(b)));
    }
}

/// Byte offset, in the UTF-8 encoding of `line`, of the character at index
/// `col`; the whole encoding's length when `col` is past the last character.
pub fn utf8_offset(line: &Vec<char>, col: usize) -> (n: usize)
    requires
        encode_utf8(line@).len() <= usize::MAX,
    ensures
        n as int == encode_utf8(line@.take(if col < line@.len() { col as int } else {
            line@.len() as int
        })).len(),
{
    let end = if col < line.len() { col } else { line.len() };
    let mut i: usize = 0;
    let mut n: usize = 0;
    while i < end
        invariant
            end <= line@.len(),
            i <= end,
            n as int == encode_utf8(line@.take(i as int)).len(),
            encode_utf8(line@).len() <= usize::MAX,
        decreases end - i,
    {
        proof {
            assert(line@.take(i + 1) =~= line@.take(i as int) + seq![line@[i as int]]);
            lemma_encode_utf8_concat(line@.take(i as int), seq![line@[i as int]]);
            let one = seq![line@[i as int]];
            assert(one.drop_first() =~= Seq::<char>::empty());
            assert(encode_utf8(Seq::<char>::empty()) =~= Seq::<u8>::empty());
            assert(encode_utf8(one) == encode_scalar(one[0] as u32) + encode_utf8(one.drop_first()));
            assert(encode_utf8(one) =~= encode_scalar(line@[i as int] as u32));
            assert(line@ =~= line@.take(i + 1) + line@.skip(i + 1));
            lemma_encode_utf8_concat(line@.take(i + 1), line@.skip(i + 1));
        }
        let w = utf8_width(line[i]);
        n = n + w;
        i = i + 1;
    }
    n
}

// ----------------------------------------------------------------------------
// Scanning

/// Number of whitespace characters at the front of `s`.
pub open spec fn leading_blanks(s: Seq<char>) -> nat
    decreases s.len(),
{
    if s.len() > 0 && is_white_space(s[0]) {
        1 + leading_blanks(s.drop_first())
    } else {
        0
    }
}

/// Number of whitespace characters at the end of `s`.
pub open spec fn trailing_blanks(s: Seq<char>) -> nat
    decreases s.len(),
{
    if s.len() > 0 && is_white_space(s.last()) {
        1 + trailing_blanks(s.drop_last())
    } else {
        0
    }
}

/// Index of the first character of `s` that is not whitespace, or 0 when
/// there is none.
pub open spec fn first_nonblank_pos(s: Seq<char>) -> int {
    if leading_blanks(s) < s.len() {
        leading_blanks(s) as int
    } else {
        0
    }
}

/// `s` without its leading and trailing whitespace.
pub open spec fn trim(s: Seq<char>) -> Seq<char> {
    let t = s.skip(leading_blanks(s) as int);
    t.take(t.len() - trailing_blanks(t))
}

/// Index of the first non-whitespace character of `line`, or 0 if there is none.
pub fn first_nonblank_index(line: &Vec<char>) -> (r: usize)
    ensures
        r as int == first_nonblank_pos(line@),
{
    let mut i: usize = 0;
    proof {
        assert(line@.skip(0) =~= line@);
    }
    while i < line.len() && char_is_whitespace(line[i])
        invariant
            i <= line@.len(),
            leading_blanks(line@) == i + leading_blanks(line@.skip(i as int)),
        decreases line@.len() - i,
    {
        proof {
            assert(line@.skip(i as int).drop_first() =~= line@.skip(i + 1));
        }
        i = i + 1;
    }
    proof {
        assert(leading_blanks(line@.skip(i as int)) == 0);
    }
    if i < line.len() {
        i
    } else {
        0
    }
}

/// `s` with leading and trailing whitespace removed.
pub fn trim_blanks(s: &Vec<char>) -> (t: Vec<char>)
    ensures
        t@ == trim(s@),
{
    let mut i: usize = 0;
    proof {
        assert(s@.skip(0) =~= s@);
    }
    while i < s.len() && char_is_whitespace(s[i])
        invariant
            i <= s@.len(),
            leading_blanks(s@) == i + leading_blanks(s@.skip(i as int)),
        decreases s@.len() - i,
    {
        proof {
            assert(s@.skip(i as int).drop_first() =~= s@.skip(i + 1));
        }
        i = i + 1;
    }
    proof {
        assert(leading_blanks(s@.skip(i as int)) == 0);
    }
    let mut j: usize = s.len();
    while j > i && char_is_whitespace(s[j - 1])
        invariant
            i <= j <= s@.len(),
            trailing_blanks(s@.subrange(i as int, s@.len() as int)) == (s@.len() - j)
                + trailing_blanks(s@.subrange(i as int, j as int)),
        decreases j - i,
    {
        proof {
            assert(s@.subrange(i as int, j as int).drop_last() =~= s@.subrange(
                i as int,
                j - 1,
            ));
        }
        j = j - 1;
    }
    proof {
        assert(trailing_blanks(s@.subrange(i as int, j as int)) == 0);
        assert(s@.skip(i as int) =~= s@.subrange(i as int, s@.len() as int));
    }
    let mut t: Vec<char> = Vec::new();
    let mut k: usize = i;
    while k < j
        invariant
            i <= k <= j <= s@.len(),
            t@ =~= s@.subrange(i as int, k as int),
        decreases j - k,
    {
        t.push(s[k]);
        k = k + 1;
    }
    proof {
        assert(trim(s@) =~= s@.subrange(i as int, j as int));
    }
    t
}

// ----------------------------------------------------------------------------
// Lines of a file

/// Index of the first `'\n'` in `s`, or `s.len()` when there is none.
pub open spec fn newline_index(s: Seq<char>) -> nat
    decreases s.len(),
{
    if s.len() == 0 {
        0
    } else if s[0] == '\n' {
        0
    } else {
        1 + newline_index(s.drop_first())
    }
}

/// `s` without one trailing carriage return.
pub open spec fn strip_cr(s: Seq<char>) -> Seq<char> {
    if s.len() > 0 && s.last() == '\r' {
        s.drop_last()
    } else {
        s
    }
}

/// The lines of a text, split as `str::lines` splits them: at each `'\n'`,
/// with one `'\r'` before the `'\n'` removed, and with no empty line after a
/// final `'\n'`.
pub open spec fn lines_of(s: Seq<char>) -> Seq<Seq<char>>
    decreases s.len(),
{
    if s.len() == 0 {
        seq![]
    } else {
        let k = newline_index(s);
        if k >= s.len() {
            seq![s]
        } else {
            seq![strip_cr(s.take(k as int))] + lines_of(s.skip(k + 1 as int))
        }
    }
}

/// The text of a file holding `lines`: every line followed by a `'\n'`.
pub open spec fn text_of(lines: Seq<Seq<char>>) -> Seq<char>
    decreases lines.len(),
{
    if lines.len() == 0 {
        seq![]
    } else {
        lines[0] + seq!['\n'] + text_of(lines.drop_first())
    }
}

/// The contents of a vector of lines, as sequences.
pub open spec fn lines_view(v: Seq<Vec<char>>) -> Seq<Seq<char>> {
    v.map_values(|l: Vec<char>| l@)
}

/// Split a file's text into lines, as `str::lines` does.
pub fn split_lines(text: &Vec<char>) -> (lines: Vec<Vec<char>>)
    ensures
        lines_view(lines@) == lines_of(text@),
{
    let mut out: Vec<Vec<char>> = Vec::new();
    let mut cur: Vec<char> = Vec::new();
    let mut start: usize = 0;
    let mut i: usize = 0;
    let ghost s = text@;
    proof {
        assert(s.skip(0) =~= s);
    }
    while i < text.len()
        invariant
            s == text@,
            start <= i <= s.len(),
            cur@ =~= s.subrange(start as int, i as int),
            lines_view(out@) + lines_of(s.skip(start as int)) =~= lines_of(s),
            newline_index(s.skip(start as int)) == (i - start) + newline_index(
                s.skip(i as int),
            ),
        decreases s.len() - i,
    {
        let c = text[i];
        if c == '\n' {
            proof {
                let suf = s.skip(start as int);
                assert(s.skip(i as int)[0] == '\n');
                assert(newline_index(suf) == i - start);
                assert(suf.take(i - start) =~= cur@);
                assert(suf.skip(i - start + 1) =~= s.skip(i + 1));
                assert(lines_of(suf) == seq![strip_cr(cur@)] + lines_of(s.skip(i + 1)));
            }
            if cur.len() > 0 && cur[cur.len() - 1] == '\r' {
                cur.pop();
            }
            let ghost before = out@;
            out.push(cur);
            proof {
                assert(lines_view(out@) =~= lines_view(before) + seq![strip_cr(
                    s.subrange(start as int, i as int),
                )]);
            }
            cur = Vec::new();
            start = i + 1;
        } else {
            proof {
                assert(s.skip(i as int).drop_first() =~= s.skip(i + 1));
            }
            cur.push(c);
        }
        i = i + 1;
    }
    if start < text.len() {
        proof {
            let suf = s.skip(start as int);
            assert(s.skip(i as int).len() == 0);
            assert(newline_index(suf) >= suf.len());
            assert(suf =~= cur@);
        }
        let ghost before = out@;
        out.push(cur);
        proof {
            assert(lines_view(out@) =~= lines_view(before) + seq![cur@]);
        }
    } else {
        proof {
            assert(s.skip(start as int).len() == 0);
            assert(lines_of(s.skip(start as int)) =~= Seq::<Seq<char>>::empty());
        }
    }
    out
}

/// The text of a file holding `lines`: each line followed by a newline.
pub fn join_lines(lines: &Vec<Vec<char>>) -> (text: Vec<char>)
    ensures
        text@ == text_of(lines_view(lines@)),
{
    let ghost ls = lines_view(lines@);
    let mut text: Vec<char> = Vec::new();
    let mut i: usize = 0;
    proof {
        assert(ls.skip(0) =~= ls);
    }
    while i < lines.len()
        invariant
            ls == lines_view(lines@),
            i <= lines@.len(),
            text@ + text_of(ls.skip(i as int)) =~= text_of(ls),
        decreases lines@.len() - i,
    {
        proof {
            assert(ls.skip(i as int).drop_first() =~= ls.skip(i + 1));
            assert(ls.skip(i as int)[0] == lines@[i as int]@);
        }
        let line = &lines[i];
        let ghost t0 = text@;
        let mut k: usize = 0;
        while k < line.len()
            invariant
                k <= line@.len(),
                text@ =~= t0 + line@.take(k as int),
            decreases line@.len() - k,
        {
            text.push(line[k]);
            k = k + 1;
        }
        text.push('\n');
        proof {
            assert(line@.take(k as int) =~= line@);
            assert(text@ =~= t0 + line@ + seq!['\n']);
        }
        i = i + 1;
    }
    proof {
        assert(ls.skip(i as int) =~= Seq::<Seq<char>>::empty());
    }
    text
}

// ----------------------------------------------------------------------------
// Reading back what was written

proof fn lemma_newline_index_prefix(p: Seq<char>, q: Seq<char>)
    requires
        forall|j: int| 0 <= j < p.len() ==> p[j] != '\n',
    ensures
        newline_index(p + q) == p.len() + newline_index(q),
    decreases p.len(),
{
    if p.len() > 0 {
        assert((p + q)[0] == p[0]);
        assert((p + q).drop_first() =~= p.drop_first() + q);
        lemma_newline_index_prefix(p.drop_first(), q);
    } else {
        assert(p + q =~= q);
    }
}

/// Reading back the text written for some lines gives those lines again,
/// provided no line holds a `'\n'` or ends with a `'\r'`.
pub proof fn law_lines_of_text_of(ls: Seq<Seq<char>>)
    requires
        forall|i: int, j: int|
            0 <= i < ls.len() && 0 <= j < ls[i].len() ==> #[trigger] ls[i][j] != '\n',
        forall|i: int| 0 <= i < ls.len() && ls[i].len() > 0 ==> #[trigger] ls[i].last() != '\r',
    ensures
        lines_of(text_of(ls)) == ls,
    decreases ls.len(),
{
    if ls.len() == 0 {
    } else {
        let l0 = ls[0];
        let rest = text_of(ls.drop_first());
        let s = text_of(ls);
        assert(s == l0 + seq!['\n'] + rest);
        assert(s =~= l0 + (seq!['\n'] + rest));
        assert forall|j: int| 0 <= j < l0.len() implies l0[j] != '\n' by {
            assert(ls[0][j] != '\n');
        }
        lemma_newline_index_prefix(l0, seq!['\n'] + rest);
        assert((seq!['\n'] + rest)[0] == '\n');
        assert(newline_index(s) == l0.len());
        assert(s.take(l0.len() as int) =~= l0);
        assert(strip_cr(l0) == l0);
        assert(s.skip(l0.len() + 1 as int) =~= rest);
        law_lines_of_text_of(ls.drop_first());
        assert(lines_of(s) =~= seq![l0] + ls.drop_first());
        assert(ls =~= seq![l0] + ls.drop_first());
    }
}


proof fn lemma_newline_index(s: Seq<char>)
    ensures
        newline_index(s) <= s.len(),
        newline_index(s) < s.len() ==> s[newline_index(s) as int] == '\n',
        forall|j: int| 0 <= j < newline_index(s) ==> #[trigger] s[j] != '\n',
    decreases s.len(),
{
    if s.len() > 0 && s[0] != '\n' {
        lemma_newline_index(s.drop_first());
        assert forall|j: int| 0 <= j < newline_index(s) implies #[trigger] s[j] != '\n' by {
            if j > 0 {
                assert(s[j] == s.drop_first()[j - 1]);
            }
        }
    }
}

/// The text written for some lines followed by one more line is the text
/// for the first lines, then that line and a newline; no lines give no text.
pub proof fn law_text_of_push(ls: Seq<Seq<char>>, l: Seq<char>)
    ensures
        text_of(ls.push(l)) == text_of(ls) + l + seq!['\n'],
        text_of(Seq::<Seq<char>>::empty()) == Seq::<char>::empty(),
    decreases ls.len(),
{
    if ls.len() == 0 {
        assert(ls.push(l).drop_first() =~= Seq::<Seq<char>>::empty());
        assert(text_of(Seq::<Seq<char>>::empty()) == Seq::<char>::empty());
        assert(ls.push(l)[0] == l);
        assert(text_of(ls.push(l)) == l + seq!['\n'] + text_of(ls.push(l).drop_first()));
        assert(text_of(ls.push(l)) =~= text_of(ls) + l + seq!['\n']);
    } else {
        assert(ls.push(l).drop_first() =~= ls.drop_first().push(l));
        law_text_of_push(ls.drop_first(), l);
        assert(ls.push(l)[0] == ls[0]);
        assert(text_of(ls.push(l)) == ls[0] + seq!['\n'] + text_of(ls.drop_first().push(l)));
        assert(text_of(ls) == ls[0] + seq!['\n'] + text_of(ls.drop_first()));
        assert(text_of(ls.push(l)) =~= text_of(ls) + l + seq!['\n']);
    }
}

/// No line read from a text holds a newline.
pub proof fn law_lines_of_hold_no_newline(s: Seq<char>)
    ensures
        forall|i: int, j: int|
            0 <= i < lines_of(s).len() && 0 <= j < lines_of(s)[i].len() ==> #[trigger] lines_of(
                s,
            )[i][j] != '\n',
    decreases s.len(),
{
    if s.len() > 0 {
        lemma_newline_index(s);
        let k = newline_index(s);
        if k < s.len() {
            let rest = s.skip(k + 1 as int);
            law_lines_of_hold_no_newline(rest);
            let first = strip_cr(s.take(k as int));
            assert forall|i: int, j: int|
                0 <= i < lines_of(s).len() && 0 <= j < lines_of(s)[i].len() implies #[trigger] lines_of(
                s,
            )[i][j] != '\n' by {
                if i == 0 {
                    assert(lines_of(s)[0] == first);
                    assert(first[j] == s[j]);
                } else {
                    assert(lines_of(s)[i] == lines_of(rest)[i - 1]);
                }
            }
        }
    }
}

/// A line ended by `"\r\n"` is read without the carriage return.
pub proof fn law_lines_of_strips_crlf(l: Seq<char>, rest: Seq<char>)
    requires
        forall|j: int| 0 <= j < l.len() ==> #[trigger] l[j] != '\n',
    ensures
        lines_of(l + seq!['\r', '\n'] + rest) == seq![l] + lines_of(rest),
{
    let s = l + seq!['\r', '\n'] + rest;
    let lr = l.push('\r');
    assert(s =~= lr + (seq!['\n'] + rest));
    assert forall|j: int| 0 <= j < lr.len() implies lr[j] != '\n' by {
        if j < l.len() {
            assert(lr[j] == l[j]);
        }
    }
    lemma_newline_index_prefix(lr, seq!['\n'] + rest);
    assert((seq!['\n'] + rest)[0] == '\n');
    assert(s.take(lr.len() as int) =~= lr);
    assert(strip_cr(lr) =~= l);
    assert(s.skip(lr.len() + 1 as int) =~= rest);
}

/// Reading a text with no carriage returns that ends with a newline (or is
/// empty) and writing the lines back gives the same text.
pub proof fn law_text_of_lines_of(s: Seq<char>)
    requires
        forall|j: int| 0 <= j < s.len() ==> #[trigger] s[j] != '\r',
        s.len() == 0 || s.last() == '\n',
    ensures
        text_of(lines_of(s)) == s,
    decreases s.len(),
{
    if s.len() > 0 {
        lemma_newline_index(s);
        let k = newline_index(s);
        assert(k < s.len());
        let rest = s.skip(k + 1 as int);
        let first = s.take(k as int);
        if first.len() > 0 {
            assert(first.last() == s[k - 1]);
        }
        assert(strip_cr(first) == first);
        assert forall|j: int| 0 <= j < rest.len() implies #[trigger] rest[j] != '\r' by {
            assert(rest[j] == s[k + 1 + j]);
        }
        if rest.len() > 0 {
            assert(rest.last() == s.last());
        }
        law_text_of_lines_of(rest);
        let ls = lines_of(s);
        assert(ls == seq![first] + lines_of(rest));
        assert(ls.drop_first() =~= lines_of(rest));
        assert(text_of(ls) == ls[0] + seq!['\n'] + text_of(ls.drop_first()));
        assert(s =~= first + seq!['\n'] + rest);
    }
}

/// Trimming keeps the middle of the text: what is cut off at either end is
/// whitespace, and what is kept is empty or starts and ends with a
/// non-whitespace character.
pub proof fn law_trim(s: Seq<char>)
    ensures
        exists|a: int, b: int|
            0 <= a <= b <= s.len() && trim(s) == s.subrange(a, b) && (forall|j: int|
                0 <= j < a ==> is_white_space(#[trigger] s[j])) && (forall|j: int|
                b <= j < s.len() ==> is_white_space(#[trigger] s[j])) && (trim(s).len() > 0
                ==> !is_white_space(trim(s)[0]) && !is_white_space(trim(s).last())),
{
    lemma_leading(s);
    let a = leading_blanks(s) as int;
    let t = s.skip(a);
    lemma_trailing(t);
    let b = s.len() - trailing_blanks(t);
    assert(trim(s) =~= s.subrange(a, b));
    assert forall|j: int| b <= j < s.len() implies is_white_space(#[trigger] s[j]) by {
        assert(s[j] == t[j - a]);
    }
    if trim(s).len() > 0 {
        assert(trim(s).last() == t[b - a - 1]);
    }
}

pub proof fn lemma_leading(s: Seq<char>)
    ensures
        leading_blanks(s) <= s.len(),
        leading_blanks(s) < s.len() ==> !is_white_space(s[leading_blanks(s) as int]),
        forall|j: int| 0 <= j < leading_blanks(s) ==> is_white_space(#[trigger] s[j]),
    decreases s.len(),
{
    if s.len() > 0 && is_white_space(s[0]) {
        lemma_leading(s.drop_first());
        assert forall|j: int| 0 <= j < leading_blanks(s) implies is_white_space(#[trigger] s[j]) by {
            if j > 0 {
                assert(s[j] == s.drop_first()[j - 1]);
            }
        }
    }
}

proof fn lemma_trailing(s: Seq<char>)
    ensures
        trailing_blanks(s) <= s.len(),
        trailing_blanks(s) < s.len() ==> !is_white_space(s[s.len() - 1 - trailing_blanks(s)]),
        forall|j: int| s.len() - trailing_blanks(s) <= j < s.len() ==> is_white_space(#[trigger] s[j]),
    decreases s.len(),
{
    if s.len() > 0 && is_white_space(s.last()) {
        lemma_trailing(s.drop_last());
        assert forall|j: int| s.len() - trailing_blanks(s) <= j < s.len() implies is_white_space(
            #[trigger] s[j],
        ) by {
            if j < s.len() - 1 {
                assert(s[j] == s.drop_last()[j]);
            }
        }
    }
}
} // verus!
