//! Display-width arithmetic: how many terminal columns a piece of text takes.
//!
//! One home for it, because every part of the renderer that clips or wraps
//! text needs the same answer.

use ratatui::buffer::CellWidth;
use vstd::prelude::*;
use vstd::string::StrSliceExecFns;

use crate::text::string_of_range;

verus! {

/// The number of terminal cells ratatui gives a piece of text.
pub uninterp spec fn cell_width(s: Seq<char>) -> nat;

/// An ASCII control character (`0x00..=0x1f` or `0x7f`).
pub open spec fn is_ascii_control(c: char) -> bool {
    (c as u32) < 32 || (c as u32) == 127
}

/// Text ratatui will measure without tripping its control-character check: a
/// lone ASCII control character is refused (in debug builds).
pub open spec fn measurable(s: Seq<char>) -> bool {
    !(s.len() == 1 && is_ascii_control(s[0]))
}

/// ratatui's `CellWidth::cell_width` for a `str`: a one-byte string is one
/// cell; otherwise the Unicode width of the text, cut to a `u16`, plus one for
/// each halfwidth (han)dakuten, that addition saturating at `u16::MAX`. The
/// contract names that number `cell_width` and claims of it only that a lone
/// ASCII character is one cell.
#[verifier::external_body]
fn str_cell_width(text: &str) -> (w: u16)
    requires
        measurable(text@),
    ensures
        w as nat == cell_width(text@),
        text@.len() == 1 && (text@[0] as u32) < 128 ==> w == 1,
{
    text.cell_width()
}

/// ratatui's `cell_width` of the one-character string `ch` encodes to; an
/// ASCII character is one byte, so one cell.
#[verifier::external_body]
fn char_cell_width(ch: char) -> (w: u16)
    requires
        !is_ascii_control(ch),
    ensures
        w as nat == cell_width(seq![ch]),
        (ch as u32) < 128 ==> w == 1,
{
    let mut buf = [0u8; 4];
    ch.encode_utf8(&mut buf).cell_width()
}

/// The display width of `text`, in terminal columns.
pub fn text_columns(text: &str) -> (n: usize)
    requires
        measurable(text@),
    ensures
        n == cell_width(text@),
        n <= 65535,
{
    str_cell_width(text) as usize
}

/// The display width of one character, in terminal columns.
pub fn char_columns(ch: char) -> (n: usize)
    requires
        !is_ascii_control(ch),
    ensures
        n == cell_width(seq![ch]),
        n <= 65535,
{
    char_cell_width(ch) as usize
}

/// How many leading characters of `s` fit in `width` columns, counting
/// `used` columns already spent.
pub open spec fn fitting_prefix(s: Seq<char>, width: int, used: int) -> int
    decreases s.len(),
{
    if s.len() == 0 || used + cell_width(seq![s[0]]) > width {
        0
    } else {
        1 + fitting_prefix(s.drop_first(), width, used + cell_width(seq![s[0]]))
    }
}

/// No character of `s` is an ASCII control character.
pub open spec fn no_controls(s: Seq<char>) -> bool {
    forall|i: int| 0 <= i < s.len() ==> !is_ascii_control(#[trigger] s[i])
}

/// The longest prefix of `text` that fits in `width` columns.
pub fn truncate_columns(text: &str, width: usize) -> (s: String)
    requires
        no_controls(text@),
    ensures
        s@ == text@.take(fitting_prefix(text@, width as int, 0)),
{
    let n = text.unicode_len();
    let mut used: usize = 0;
    let mut end: usize = 0;
    assert(text@.skip(0) =~= text@);
    while end < n
        invariant
            n == text@.len(),
            end <= n,
            no_controls(text@),
            used <= width,
            fitting_prefix(text@, width as int, 0) == end + fitting_prefix(
                text@.skip(end as int),
                width as int,
                used as int,
            ),
        ensures
            end <= n,
            fitting_prefix(text@, width as int, 0) == end,
        decreases n - end,
    {
        let ch = text.get_char(end);
        let columns = char_columns(ch);
        let ghost rest = text@.skip(end as int);
        assert(rest[0] == ch);
        if columns > width - used {
            assert(fitting_prefix(rest, width as int, used as int) == 0);
            break;
        }
        if end + 1 == n {
            assert(text@.skip(end + 1).len() == 0);
        }
        assert(rest.drop_first() =~= text@.skip(end + 1));
        used += columns;
        end += 1;
    }
    let chars = crate::text::chars_of(text);
    string_of_range(&chars, 0, end)
}

} // verus!
