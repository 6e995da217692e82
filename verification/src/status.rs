//! Position/status reporter: derives the 1-based line and column of a byte
//! offset, and composes the status-bar and match-count display strings.

use vstd::prelude::*;
use vstd::string::*;

verus! {

/// The line separator.
pub const NEWLINE: u8 = 10;

/// Number of line separators in `text[0..off)`: the 0-based line of `off`.
pub open spec fn line_of(text: Seq<u8>, off: int) -> nat
    decreases off,
{
    if off <= 0 {
        0
    } else {
        line_of(text, off - 1) + if text[off - 1] == NEWLINE {
            1nat
        } else {
            0nat
        }
    }
}

/// Offset of the first byte of the line containing `off`: just after the
/// last separator before `off`, or the start of the text.
pub open spec fn line_start_of(text: Seq<u8>, off: int) -> int
    decreases off,
{
    if off <= 0 {
        0
    } else if text[off - 1] == NEWLINE {
        off
    } else {
        line_start_of(text, off - 1)
    }
}

/// The 1-based line and column of a byte offset: the column resets right
/// after a separator, and the document start is line 1, column 1.
pub fn position_of(offset: usize, content: &Vec<u8>) -> (r: (usize, usize))
    requires
        offset <= content@.len(),
        offset < usize::MAX,
    ensures
        r.0 == line_of(content@, offset as int) + 1,
        r.1 == offset - line_start_of(content@, offset as int) + 1,
{
    let mut lines: usize = 0;
    let mut start: usize = 0;
    let mut i: usize = 0;
    while i < offset
        invariant
            i <= offset <= content@.len(),
            offset < usize::MAX,
            lines == line_of(content@, i as int),
            lines <= i,
            start == line_start_of(content@, i as int),
            start <= i,
        decreases offset - i,
    {
        if content[i] == NEWLINE {
            lines = lines + 1;
            start = i + 1;
        }
        i = i + 1;
    }
    (lines + 1, offset - start + 1)
}

/// The decimal digit character for `d` in 0..10.
pub open spec fn digit_char(d: int) -> char {
    if d == 0 {
        '0'
    } else if d == 1 {
        '1'
    } else if d == 2 {
        '2'
    } else if d == 3 {
        '3'
    } else if d == 4 {
        '4'
    } else if d == 5 {
        '5'
    } else if d == 6 {
        '6'
    } else if d == 7 {
        '7'
    } else if d == 8 {
        '8'
    } else {
        '9'
    }
}

/// The decimal rendering of a number, most significant digit first, with no
/// leading zeros (a single zero for 0).
pub open spec fn dec_str(n: nat) -> Seq<char>
    decreases n,
{
    if n < 10 {
        seq![digit_char(n as int)]
    } else {
        dec_str(n / 10) + seq![digit_char((n % 10) as int)]
    }
}

/// Append one decimal digit to a string.
fn push_digit(s: &mut String, d: usize)
    requires
        d < 10,
    ensures
        final(s)@ == old(s)@ + seq![digit_char(d as int)],
{
    let digit: &str = if d == 0 {
        "0"
    } else if d == 1 {
        "1"
    } else if d == 2 {
        "2"
    } else if d == 3 {
        "3"
    } else if d == 4 {
        "4"
    } else if d == 5 {
        "5"
    } else if d == 6 {
        "6"
    } else if d == 7 {
        "7"
    } else if d == 8 {
        "8"
    } else {
        "9"
    };
    proof {
        reveal_strlit("0");
        reveal_strlit("1");
        reveal_strlit("2");
        reveal_strlit("3");
        reveal_strlit("4");
        reveal_strlit("5");
        reveal_strlit("6");
        reveal_strlit("7");
        reveal_strlit("8");
        reveal_strlit("9");
        assert(digit@ =~= seq![digit_char(d as int)]);
    }
    s.append(digit);
}

/// Append the decimal rendering of a number to a string.
pub fn push_dec(s: &mut String, n: usize)
    ensures
        final(s)@ == old(s)@ + dec_str(n as nat),
    decreases n,
{
    if n >= 10 {
        let ghost before = s@;
        push_dec(s, n / 10);
        push_digit(s, n % 10);
        proof {
            assert(s@ =~= before + dec_str(n as nat));
        }
    } else {
        push_digit(s, n);
    }
}

/// What the status bar shows for the file identity: the path verbatim, or
/// the placeholder for an untitled document.
pub open spec fn display_name(filepath: Seq<char>) -> Seq<char> {
    if filepath.len() == 0 {
        "(untitled)"@
    } else {
        filepath
    }
}

/// The status line for a 1-based position and a display name.
pub open spec fn status_chars(line: nat, col: nat, name: Seq<char>) -> Seq<char> {
    "Line "@ + dec_str(line) + ", Col "@ + dec_str(col) + "   |   "@ + name
}

/// Compose the status line: position first, then the file identity, the
/// path verbatim when one is set and the untitled placeholder otherwise.
pub fn status_text(line: usize, col: usize, filepath: &String) -> (r: String)
    ensures
        r@ == status_chars(line as nat, col as nat, display_name(filepath@)),
{
    let mut s = "Line ".to_owned();
    push_dec(&mut s, line);
    s.append(", Col ");
    push_dec(&mut s, col);
    s.append("   |   ");
    if filepath.as_str().is_empty() {
        s.append("(untitled)");
    } else {
        s.append(filepath.as_str());
    }
    proof {
        assert(s@ =~= status_chars(line as nat, col as nat, display_name(filepath@)));
    }
    s
}

/// The match-count display: cleared when no search is active (empty
/// pattern), otherwise the number of matches of the last pass.
pub open spec fn match_count_chars(pattern_len: nat, count: nat) -> Seq<char> {
    if pattern_len == 0 {
        Seq::empty()
    } else {
        dec_str(count) + " match(es)"@
    }
}

/// Compose the match-count display for a pass that found `count` matches of
/// a pattern of length `pattern_len`.
pub fn match_count_text(pattern_len: usize, count: usize) -> (r: String)
    ensures
        r@ == match_count_chars(pattern_len as nat, count as nat),
{
    let mut s = String::new();
    if pattern_len == 0 {
        return s;
    }
    push_dec(&mut s, count);
    s.append(" match(es)");
    proof {
        assert(s@ =~= match_count_chars(pattern_len as nat, count as nat));
    }
    s
}

} // verus!
