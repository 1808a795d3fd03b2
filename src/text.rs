//! Wrapping log text to the width of a display.

use vstd::prelude::*;
use vstd::string::StrSliceExecFns;
use unicode_width::UnicodeWidthChar;

verus! {

/// The display width of a character in columns; none for a control character.
pub uninterp spec fn char_width_of(c: char) -> Option<usize>;

/// Relies on `UnicodeWidthChar::width` of unicode_width: the columns a
/// character takes, `None` for control characters. Its source gives printable
/// ASCII one column, the C0 and C1 control codes none, and every width from a
/// `u8` table.
#[verifier::external_body]
fn char_width(c: char) -> (r: Option<usize>)
    ensures
        r == char_width_of(c),
        (' ' <= c && c < '\u{7f}') ==> r == Some(1usize),
        (c < ' ' || ('\u{7f}' <= c && c < '\u{a0}')) ==> r is None,
        r matches Some(w) ==> w <= 255,
{
    c.width()
}

/// Relies on `String::push`: the character is appended.
#[verifier::external_body]
pub(crate) fn push_char(s: &mut String, c: char)
    ensures
        final(s)@ == old(s)@.push(c),
{
    s.push(c)
}

/// The columns `c` takes, control characters counting for none.
pub open spec fn columns(c: char) -> nat {
    match char_width_of(c) {
        Some(w) => w as nat,
        None => 0,
    }
}

/// Greedy wrapping of `text` at `max_width` columns, one character at a time:
/// the finished lines, the line being filled, and its width. A character that
/// would overflow a non-empty line starts the next one.
pub open spec fn wrap_state(text: Seq<char>, max_width: nat) -> (Seq<Seq<char>>, Seq<char>, nat)
    decreases text.len(),
{
    if text.len() == 0 {
        (Seq::empty(), Seq::empty(), 0)
    } else {
        let (lines, cur, w) = wrap_state(text.drop_last(), max_width);
        let c = text.last();
        if w + columns(c) > max_width && cur.len() > 0 {
            (lines.push(cur), seq![c], columns(c))
        } else {
            (lines, cur.push(c), w + columns(c))
        }
    }
}

/// The lines of `text` wrapped at `max_width` columns; the text whole when the
/// width is 0, and one empty line for an empty text.
pub open spec fn wrapped(text: Seq<char>, max_width: nat) -> Seq<Seq<char>> {
    if max_width == 0 {
        seq![text]
    } else {
        let (lines, cur, _w) = wrap_state(text, max_width);
        let all = if cur.len() > 0 {
            lines.push(cur)
        } else {
            lines
        };
        if all.len() == 0 {
            seq![Seq::empty()]
        } else {
            all
        }
    }
}

/// `text` wrapped to lines of at most `max_width` columns, a single character
/// wider than that standing on a line of its own.
pub fn wrap_text(text: &str, max_width: usize) -> (r: Vec<String>)
    ensures
        r@.map_values(|s: String| s@) == wrapped(text@, max_width as nat),
{
    if max_width == 0 {
        let r = vec![text.to_owned()];
        assert(r@.map_values(|s: String| s@) =~= seq![text@]);
        return r;
    }
    let n = text.unicode_len();
    let mut lines: Vec<String> = Vec::new();
    let mut current = String::new();
    let mut width: usize = 0;
    let mut i: usize = 0;
    while i < n
        invariant
            n == text@.len(),
            i <= n,
            max_width > 0,
            ({
                let (l, c, w) = wrap_state(text@.subrange(0, i as int), max_width as nat);
                &&& lines@.map_values(|s: String| s@) == l
                &&& current@ == c
                &&& width == w
            }),
            current@.len() == 0 ==> width == 0,
            width <= max_width || width <= 255,
        decreases n - i,
    {
        let c = text.get_char(i);
        let cw = match char_width(c) {
            Some(w) => w,
            None => 0,
        };
        let ghost prefix = text@.subrange(0, i as int);
        assert(text@.subrange(0, i + 1).drop_last() =~= prefix);
        assert(text@.subrange(0, i + 1).last() == c);
        let overflow = cw > max_width || width > max_width - cw;
        if overflow && current.unicode_len() > 0 {
            let ghost before = lines@.map_values(|s: String| s@);
            let ghost cv = current@;
            lines.push(current);
            current = String::new();
            push_char(&mut current, c);
            width = cw;
            assert(lines@.map_values(|s: String| s@) =~= before.push(cv));
            assert(current@ =~= seq![c]);
        } else {
            push_char(&mut current, c);
            width = width + cw;
        }
        i = i + 1;
    }
    assert(text@.subrange(0, n as int) =~= text@);
    if current.unicode_len() > 0 {
        let ghost before = lines@.map_values(|s: String| s@);
        let ghost cv = current@;
        lines.push(current);
        assert(lines@.map_values(|s: String| s@) =~= before.push(cv));
    }
    if lines.len() == 0 {
        lines.push(String::new());
        assert(lines@.map_values(|s: String| s@) =~= seq![Seq::<char>::empty()]);
    }
    lines
}

} // verus!
