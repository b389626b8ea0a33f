//! The edit matching ladder, stated over bytes.
//!
//! Every position here is a byte offset into the content, as the ladder's
//! spans are. The line levels walk `\n`-terminated lines and compare each pair
//! through a *view* of its body; the span they report runs from a line start to
//! wherever the kept bytes of the last matched line end.

use vstd::prelude::*;

verus! {

broadcast use vstd::seq::group_seq_axioms;

/// The newline byte.
pub open spec fn nl() -> u8 {
    10u8
}

/// The blanks a line-level comparison may drop: space, tab, carriage return.
pub open spec fn is_blank(b: u8) -> bool {
    b == 32u8 || b == 9u8 || b == 13u8
}

/// The blanks that count as indentation: space and tab.
pub open spec fn is_indent(b: u8) -> bool {
    b == 32u8 || b == 9u8
}

/// `s` without its trailing blanks.
pub open spec fn trim_end(s: Seq<u8>) -> Seq<u8>
    decreases s.len(),
{
    if s.len() > 0 && is_blank(s.last()) {
        trim_end(s.drop_last())
    } else {
        s
    }
}

/// `s` without its leading blanks.
pub open spec fn trim_start(s: Seq<u8>) -> Seq<u8>
    decreases s.len(),
{
    if s.len() > 0 && is_blank(s[0]) {
        trim_start(s.drop_first())
    } else {
        s
    }
}

/// `s` without blanks on either side.
pub open spec fn trim_both(s: Seq<u8>) -> Seq<u8> {
    trim_start(trim_end(s))
}

/// How many spaces and tabs `s` starts with.
pub open spec fn indent_len(s: Seq<u8>) -> nat
    decreases s.len(),
{
    if s.len() > 0 && is_indent(s[0]) {
        1 + indent_len(s.drop_first())
    } else {
        0
    }
}

/// Where the line that starts at `pos` ends: just past its `\n`, or at the end.
pub open spec fn line_end(s: Seq<u8>, pos: int) -> int
    decreases s.len() - pos,
{
    if pos < 0 || pos >= s.len() {
        s.len() as int
    } else if s[pos] == nl() {
        pos + 1
    } else {
        line_end(s, pos + 1)
    }
}

/// Where the body of the line that starts at `pos` ends: before its `\n`.
pub open spec fn body_end(s: Seq<u8>, pos: int) -> int {
    let e = line_end(s, pos);
    if pos < e && 0 < e && s[e - 1] == nl() {
        e - 1
    } else {
        e
    }
}

pub proof fn lemma_line_end(s: Seq<u8>, pos: int)
    requires
        0 <= pos < s.len(),
    ensures
        pos < line_end(s, pos) <= s.len(),
        line_end(s, pos) == s.len() || s[line_end(s, pos) - 1] == nl(),
        forall|j: int| pos <= j < line_end(s, pos) - 1 ==> s[j] != nl(),
        pos <= body_end(s, pos) <= line_end(s, pos) <= body_end(s, pos) + 1,
    decreases s.len() - pos,
{
    if s[pos] == nl() {
    } else if pos + 1 < s.len() {
        lemma_line_end(s, pos + 1);
    } else {
        assert(line_end(s, pos + 1) == s.len());
    }
}

/// How a line is compared at a downgraded level.
#[derive(Debug, Clone, Copy, PartialEq, Eq, Structural)]
pub enum LineShape {
    /// Trailing spaces, tabs and carriage returns are ignored.
    TrimEnd,
    /// The line is compared trimmed on both sides, indentation included.
    Trim,
}

/// The part of a line body a shape compares.
pub open spec fn line_view(body: Seq<u8>, shape: LineShape) -> Seq<u8> {
    match shape {
        LineShape::TrimEnd => trim_end(body),
        LineShape::Trim => trim_both(body),
    }
}

/// How many bytes of a line body the shape keeps, from the line's start: the
/// real indentation survives a trimmed comparison.
pub open spec fn kept_len(body: Seq<u8>, shape: LineShape) -> int {
    match shape {
        LineShape::TrimEnd => body.len() as int,
        LineShape::Trim => (indent_len(body) + trim_both(body).len()) as int,
    }
}

/// Matching the target's lines from byte `tpos` on against the content's lines
/// from byte `pos` on; the end of the span when every remaining line matches.
pub open spec fn match_from(c: Seq<u8>, pos: int, t: Seq<u8>, tpos: int, shape: LineShape) -> Option<
    int,
>
    decreases t.len() - tpos,
{
    if tpos < 0 || tpos >= t.len() || pos < 0 || pos >= c.len() {
        None
    } else {
        let sle = line_end(c, pos);
        let sbe = body_end(c, pos);
        let tle = line_end(t, tpos);
        let tbe = body_end(t, tpos);
        let sbody = c.subrange(pos, sbe);
        if line_view(sbody, shape) != line_view(t.subrange(tpos, tbe), shape) || (sle == sbe
            && tle > tbe) {
            None
        } else {
            let last = tle >= t.len();
            let keep = !last || tle > tbe;
            let end = pos + kept_len(sbody, shape) + if keep {
                sle - sbe
            } else {
                0
            };
            if last {
                Some(end)
            } else {
                proof {
                    lemma_line_end(t, tpos);
                }
                match_from(c, end, t, tle, shape)
            }
        }
    }
}

/// The spans a line level finds, trying every line start from `p` on.
pub open spec fn walk_from(c: Seq<u8>, t: Seq<u8>, shape: LineShape, p: int) -> Seq<(int, int)>
    decreases c.len() - p,
{
    if p < 0 || p >= c.len() {
        seq![]
    } else {
        proof {
            lemma_line_end(c, p);
        }
        let rest = walk_from(c, t, shape, line_end(c, p));
        match match_from(c, p, t, 0, shape) {
            Some(e) => seq![(p, e)] + rest,
            None => rest,
        }
    }
}

/// Every span a line level finds, line start by line start.
pub open spec fn walk(c: Seq<u8>, t: Seq<u8>, shape: LineShape) -> Seq<(int, int)> {
    if t.len() == 0 {
        seq![]
    } else {
        walk_from(c, t, shape, 0)
    }
}

/// Non-overlapping occurrences of `t` in `c` from byte `p` on, left to right.
pub open spec fn find_from(c: Seq<u8>, t: Seq<u8>, p: int) -> Seq<(int, int)>
    decreases c.len() - p,
{
    if t.len() == 0 || p < 0 || p + t.len() > c.len() {
        seq![]
    } else if c.subrange(p, p + t.len()) == t {
        seq![(p, p + t.len())] + find_from(c, t, p + t.len())
    } else {
        find_from(c, t, p + 1)
    }
}

/// Every non-overlapping occurrence of `t` in `c`.
pub open spec fn find_all(c: Seq<u8>, t: Seq<u8>) -> Seq<(int, int)> {
    find_from(c, t, 0)
}

/// A sequence of spans, as integers.
pub open spec fn span_ints(v: Seq<(usize, usize)>) -> Seq<(int, int)> {
    v.map_values(|p: (usize, usize)| (p.0 as int, p.1 as int))
}

/// How many newlines `s` holds.
pub open spec fn count_nl(s: Seq<u8>) -> nat
    decreases s.len(),
{
    if s.len() == 0 {
        0
    } else {
        (if s.last() == nl() {
            1nat
        } else {
            0nat
        }) + count_nl(s.drop_last())
    }
}

/// `r` replaces each span of `c`, left to right; `from` is where copying resumes.
pub open spec fn substitute(c: Seq<u8>, spans: Seq<(int, int)>, r: Seq<u8>, from: int) -> Seq<u8>
    decreases spans.len(),
{
    if spans.len() == 0 {
        c.subrange(from, c.len() as int)
    } else {
        c.subrange(from, spans[0].0) + r + substitute(c, spans.drop_first(), r, spans[0].1)
    }
}

/// `r` replaces one span of `c`.
pub open spec fn splice(c: Seq<u8>, span: (int, int), r: Seq<u8>) -> Seq<u8> {
    c.subrange(0, span.0) + r + c.subrange(span.1, c.len() as int)
}

} // verus!
