//! Where in a source a diagnostic points: the line, the column and the text
//! of the line.

use crate::lexer::byte_offset;
use crate::text::{decimal, display_count};
use vstd::prelude::*;

verus! {

/// The first character from `from` on that starts at byte offset `pos`.
pub open spec fn place_of(code: Seq<char>, pos: usize, from: int) -> Option<int>
    decreases code.len() - from,
{
    if from < 0 || from >= code.len() {
        None
    } else if byte_offset(code, from) as usize == pos {
        Some(from)
    } else {
        place_of(code, pos, from + 1)
    }
}

/// Where the line of character `k` starts.
pub open spec fn line_start(code: Seq<char>, k: int) -> int
    decreases k,
{
    if k <= 0 || k > code.len() {
        0
    } else if code[k - 1] == '\n' {
        k
    } else {
        line_start(code, k - 1)
    }
}

/// The number of the line of character `k`, counted from 1.
pub open spec fn line_number(code: Seq<char>, k: int) -> int
    decreases k,
{
    if k <= 0 || k > code.len() {
        1
    } else if code[k - 1] == '\n' {
        line_number(code, k - 1) + 1
    } else {
        line_number(code, k - 1)
    }
}

/// Where the line that holds character `from` ends: at its line end, or at
/// the end of the source.
pub open spec fn line_end(code: Seq<char>, from: int) -> int
    decreases code.len() - from,
{
    if from < 0 || from >= code.len() {
        code.len() as int
    } else if code[from] == '\n' {
        from
    } else {
        line_end(code, from + 1)
    }
}

/// Whether a character is white space.
pub open spec fn is_blank(c: char) -> bool {
    ('\u{9}' <= c <= '\u{d}') || c == ' ' || c == '\u{85}' || c == '\u{a0}' || c == '\u{1680}' || (
    '\u{2000}' <= c <= '\u{200a}') || c == '\u{2028}' || c == '\u{2029}' || c == '\u{202f}' || c
        == '\u{205f}' || c == '\u{3000}'
}

/// The first place from `a` on, below `b`, that holds no white space; `b`
/// where there is none.
pub open spec fn first_kept(s: Seq<char>, a: int, b: int) -> int
    decreases b - a,
{
    if a < 0 || a >= b || b > s.len() {
        b
    } else if is_blank(s[a]) {
        first_kept(s, a + 1, b)
    } else {
        a
    }
}

/// The place after the last character between `a` and `b` that is no white
/// space; `a` where there is none.
pub open spec fn last_kept(s: Seq<char>, a: int, b: int) -> int
    decreases b - a,
{
    if a < 0 || a >= b || b > s.len() {
        a
    } else if is_blank(s[b - 1]) {
        last_kept(s, a, b - 1)
    } else {
        b
    }
}

/// The text between `a` and `b` without the white space at its two ends.
pub open spec fn trimmed(s: Seq<char>, a: int, b: int) -> Seq<char> {
    let from = first_kept(s, a, b);
    let to = last_kept(s, from, b);
    s.subrange(from, to)
}

/// The context of the character that starts at byte offset `pos`: the
/// number of its line, its column, both counted from 1, and the text of the
/// line without the white space at its ends. No character starts at an
/// offset at or past the end of the source, or inside a character.
pub open spec fn context_of(code: Seq<char>, pos: usize) -> Option<Seq<char>> {
    match place_of(code, pos, 0) {
        None => None,
        Some(k) => {
            let start = line_start(code, k);
            Some(
                "line "@ + decimal(line_number(code, k)) + ":"@ + decimal(k - start + 1) + " - '"@
                    + trimmed(code, start, line_end(code, start)) + "'"@,
            )
        },
    }
}

/// Whether a character is white space.
pub fn blank(c: char) -> (r: bool)
    ensures
        r == is_blank(c),
{
    ('\u{9}' <= c && c <= '\u{d}') || c == ' ' || c == '\u{85}' || c == '\u{a0}' || c
        == '\u{1680}' || ('\u{2000}' <= c && c <= '\u{200a}') || c == '\u{2028}' || c
        == '\u{2029}' || c == '\u{202f}' || c == '\u{205f}' || c == '\u{3000}'
}

/// The character that starts at byte offset `pos`, if one does.
pub fn find_place(code: &str, pos: usize) -> (r: Option<usize>)
    ensures
        match r {
            Some(k) => place_of(code@, pos, 0) == Some(k as int) && k < code@.len(),
            None => place_of(code@, pos, 0) is None,
        },
{
    let n = code.unicode_len();
    let mut k: usize = 0;
    while k < n
        invariant
            n == code@.len(),
            k <= n,
            place_of(code@, pos, 0) == place_of(code@, pos, k as int),
        decreases n - k,
    {
        let offset = code.substring_char(0, k).len();
        if offset == pos {
            return Some(k);
        }
        k += 1;
    }
    None
}

/// The context of the character that starts at byte offset `pos`.
pub fn get_error_context(code: &str, pos: usize) -> (r: Option<String>)
    ensures
        match r {
            Some(text) => context_of(code@, pos) == Some(text@),
            None => context_of(code@, pos) is None,
        },
{
    let n = code.unicode_len();
    let k = match find_place(code, pos) {
        Some(k) => k,
        None => {
            return None;
        },
    };
    let mut start: usize = 0;
    let mut line: usize = 1;
    let mut i: usize = 0;
    while i < k
        invariant
            n == code@.len(),
            k < n,
            i <= k,
            start <= i,
            1 <= line <= i + 1,
            start == line_start(code@, i as int),
            line == line_number(code@, i as int),
        decreases k - i,
    {
        if code.get_char(i) == '\n' {
            start = i + 1;
            line = line + 1;
        }
        i += 1;
    }
    let mut end: usize = start;
    while end < n && code.get_char(end) != '\n'
        invariant
            n == code@.len(),
            start <= end <= n,
            line_end(code@, start as int) == line_end(code@, end as int),
        decreases n - end,
    {
        end += 1;
    }
    let mut from: usize = start;
    while from < end && blank(code.get_char(from))
        invariant
            n == code@.len(),
            start <= from <= end <= n,
            first_kept(code@, start as int, end as int) == first_kept(
                code@,
                from as int,
                end as int,
            ),
        decreases end - from,
    {
        from += 1;
    }
    let mut to: usize = end;
    while from < to && blank(code.get_char(to - 1))
        invariant
            n == code@.len(),
            from <= to <= end <= n,
            last_kept(code@, from as int, end as int) == last_kept(code@, from as int, to as int),
        decreases to - from,
    {
        to -= 1;
    }
    let mut out = "line ".to_owned();
    out.append(display_count(line).as_str());
    out.append(":");
    out.append(display_count(k - start + 1).as_str());
    out.append(" - '");
    out.append(code.substring_char(from, to));
    out.append("'");
    Some(out)
}

} // verus!
