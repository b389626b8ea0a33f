//! Markdown rendering for the transcript.
//!
//! The model answers in Markdown; this turns the common subset of it into
//! styled lines, so a heading reads like a heading and a fenced block reads
//! like code. It is deliberately not CommonMark: a hand-written scanner over
//! the constructs a coding agent actually emits. Anything it does not
//! recognize is passed through verbatim, so imperfect input degrades to plain
//! text rather than disappearing.
//!
//! The palette is the answer's: nothing here is dimmed to the narration grey.
//! The caller owns the speaker prefix and the block's continuation indent.

use vstd::prelude::*;

use crate::markdown_spec::{
    alphanumeric, code_close, emphasis_close, flushed, inline_from, inline_runs, lead_digits,
    lead_run, lead_ws, lemma_inline_code, lemma_inline_emphasis, lemma_inline_end,
    lemma_inline_link, lemma_inline_plain, lemma_inline_strike, lemma_inline_strong, link_close,
    link_target, next_at, strike_close, strong_close, trail_run, trail_ws, white_space, Ink, Look,
    Run, rule_of, is_rule, count_of, heading, trim_end, trim_start, trim, opening_fence,
    closes_fence, list_item, separator_cell, split_on, table_cells, is_separator, cell_gap,
    plain_look, code_row, block_line, render_from, markdown_lines, strip_cr, rows_of, next_fence,
};
use crate::text::{first_occurrence, first_occurrence_from, join, string_of_range};

verus! {

/// A run of text and how it is drawn.
#[derive(Clone, Debug)]
pub struct Piece {
    pub text: String,
    pub look: Look,
}

/// The runs a line is drawn as, as the contracts see them.
pub open spec fn pieces_view(v: Seq<Piece>) -> Seq<Run> {
    v.map_values(|p: Piece| (p.text@, p.look))
}

/// `char::is_alphanumeric`: whether Unicode gives `c` the Alphabetic or the
/// Numeric property. The contract names that answer `alphanumeric`, and says
/// what it is on ASCII: the letters and the digits, and nothing else.
#[verifier::external_body]
fn is_alphanumeric(c: char) -> (r: bool)
    ensures
        r == alphanumeric(c),
        (c as u32) < 128 ==> (r <==> ('a' <= c <= 'z' || 'A' <= c <= 'Z' || '0' <= c <= '9')),
{
    c.is_alphanumeric()
}

/// Whether `c` is whitespace in Unicode's sense.
pub fn is_white_space(c: char) -> (r: bool)
    ensures
        r == white_space(c),
{
    let u = c as u32;
    (0x09 <= u && u <= 0x0d) || u == 0x20 || u == 0x85 || u == 0xa0 || u == 0x1680 || (0x2000
        <= u && u <= 0x200a) || u == 0x2028 || u == 0x2029 || u == 0x202f || u == 0x205f || u
        == 0x3000
}

/// The first position in `v[lo..hi]` past its leading whitespace.
fn skip_ws(v: &Vec<char>, lo: usize, hi: usize) -> (r: usize)
    requires
        lo <= hi <= v.len(),
    ensures
        r == lo + lead_ws(v@.subrange(lo as int, hi as int)),
        r <= hi,
{
    let mut i = lo;
    while i < hi && is_white_space(v[i])
        invariant
            lo <= i <= hi <= v.len(),
            lead_ws(v@.subrange(lo as int, hi as int)) == (i - lo) + lead_ws(
                v@.subrange(i as int, hi as int),
            ),
        decreases hi - i,
    {
        assert(v@.subrange(i as int, hi as int).drop_first() =~= v@.subrange(i + 1, hi as int));
        i += 1;
    }
    i
}

/// The end of `v[lo..hi]` once its trailing whitespace is cut.
fn cut_ws(v: &Vec<char>, lo: usize, hi: usize) -> (r: usize)
    requires
        lo <= hi <= v.len(),
    ensures
        r == hi - trail_ws(v@.subrange(lo as int, hi as int)),
        lo <= r,
{
    let mut j = hi;
    while j > lo && is_white_space(v[j - 1])
        invariant
            lo <= j <= hi <= v.len(),
            trail_ws(v@.subrange(lo as int, hi as int)) == (hi - j) + trail_ws(
                v@.subrange(lo as int, j as int),
            ),
        decreases j - lo,
    {
        assert(v@.subrange(lo as int, j as int).drop_last() =~= v@.subrange(lo as int, j - 1));
        j -= 1;
    }
    j
}

/// The first position in `v[lo..hi]` past its leading copies of `c`.
fn skip_run(v: &Vec<char>, lo: usize, hi: usize, c: char) -> (r: usize)
    requires
        lo <= hi <= v.len(),
    ensures
        r == lo + lead_run(v@.subrange(lo as int, hi as int), c),
        r <= hi,
{
    let mut i = lo;
    while i < hi && v[i] == c
        invariant
            lo <= i <= hi <= v.len(),
            lead_run(v@.subrange(lo as int, hi as int), c) == (i - lo) + lead_run(
                v@.subrange(i as int, hi as int),
                c,
            ),
        decreases hi - i,
    {
        assert(v@.subrange(i as int, hi as int).drop_first() =~= v@.subrange(i + 1, hi as int));
        i += 1;
    }
    i
}

/// The end of `v[lo..hi]` once its trailing copies of `c` are cut.
fn cut_run(v: &Vec<char>, lo: usize, hi: usize, c: char) -> (r: usize)
    requires
        lo <= hi <= v.len(),
    ensures
        r == hi - trail_run(v@.subrange(lo as int, hi as int), c),
        lo <= r,
{
    let mut j = hi;
    while j > lo && v[j - 1] == c
        invariant
            lo <= j <= hi <= v.len(),
            trail_run(v@.subrange(lo as int, hi as int), c) == (hi - j) + trail_run(
                v@.subrange(lo as int, j as int),
                c,
            ),
        decreases j - lo,
    {
        assert(v@.subrange(lo as int, j as int).drop_last() =~= v@.subrange(lo as int, j - 1));
        j -= 1;
    }
    j
}

/// The first position in `v[lo..hi]` past its leading ASCII digits.
fn skip_digits(v: &Vec<char>, lo: usize, hi: usize) -> (r: usize)
    requires
        lo <= hi <= v.len(),
    ensures
        r == lo + lead_digits(v@.subrange(lo as int, hi as int)),
        r <= hi,
{
    let mut i = lo;
    while i < hi && '0' <= v[i] && v[i] <= '9'
        invariant
            lo <= i <= hi <= v.len(),
            lead_digits(v@.subrange(lo as int, hi as int)) == (i - lo) + lead_digits(
                v@.subrange(i as int, hi as int),
            ),
        decreases hi - i,
    {
        assert(v@.subrange(i as int, hi as int).drop_first() =~= v@.subrange(i + 1, hi as int));
        i += 1;
    }
    i
}

/// Where `pat` first occurs in `v[from..hi]`, counted from `from`.
pub fn find_in(v: &Vec<char>, from: usize, hi: usize, pat: &Vec<char>) -> (r: Option<usize>)
    requires
        from <= hi <= v.len(),
    ensures
        match r {
            Some(e) => first_occurrence(v@.subrange(from as int, hi as int), pat@) == Some(
                e as int,
            ) && from + e + pat.len() <= hi,
            None => first_occurrence(v@.subrange(from as int, hi as int), pat@) is None,
        },
{
    let ghost s = v@.subrange(from as int, hi as int);
    if pat.len() > hi - from {
        return None;
    }
    let last = hi - from - pat.len();
    let mut i: usize = 0;
    while i <= last
        invariant
            from <= hi <= v.len(),
            s == v@.subrange(from as int, hi as int),
            last + pat@.len() == s.len(),
            i <= last + 1,
            first_occurrence_from(s, pat@, i as int) == first_occurrence(s, pat@),
        decreases last + 1 - i,
    {
        let mut k: usize = 0;
        let mut same = true;
        while k < pat.len()
            invariant
                from + i + pat.len() <= hi <= v.len(),
                s == v@.subrange(from as int, hi as int),
                k <= pat.len(),
                same ==> s.subrange(i as int, i + k) == pat@.take(k as int),
                !same ==> s.subrange(i as int, i + pat.len()) != pat@,
            decreases pat.len() - k,
        {
            if same {
                if v[from + i + k] != pat[k] {
                    assert(s.subrange(i as int, i + pat.len())[k as int] != pat@[k as int]);
                    same = false;
                } else {
                    assert(s.subrange(i as int, i + k + 1) =~= s.subrange(i as int, i + k).push(
                        s[i + k],
                    ));
                    assert(pat@.take(k + 1) =~= pat@.take(k as int).push(pat@[k as int]));
                }
            }
            k += 1;
        }
        if same {
            assert(pat@.take(pat.len() as int) =~= pat@);
            return Some(i);
        }
        assert(first_occurrence_from(s, pat@, i as int) == first_occurrence_from(
            s,
            pat@,
            i + 1,
        ));
        if i == last {
            assert(first_occurrence_from(s, pat@, i + 1) is None);
            return None;
        }
        i += 1;
    }
    None
}

/// An optional position, read as an integer.
pub open spec fn opt_int(r: Option<usize>) -> Option<int> {
    match r {
        Some(e) => Some(e as int),
        None => None,
    }
}

proof fn lemma_pieces_add(a: Seq<Piece>, b: Seq<Piece>)
    ensures
        pieces_view(a + b) == pieces_view(a) + pieces_view(b),
{
    assert(pieces_view(a + b) =~= pieces_view(a) + pieces_view(b));
}

proof fn lemma_pieces_push(a: Seq<Piece>, p: Piece)
    ensures
        pieces_view(a.push(p)) == pieces_view(a) + seq![(p.text@, p.look)],
{
    assert(pieces_view(a.push(p)) =~= pieces_view(a) + seq![(p.text@, p.look)]);
}

/// Where `pat` next occurs in `v[from..hi]`, as `next_at` counts it from
/// `from - i` within `v[i..hi]`.
fn next_in(v: &Vec<char>, i: usize, from: usize, hi: usize, pat: &Vec<char>) -> (r: Option<usize>)
    requires
        i <= from <= hi <= v.len(),
    ensures
        opt_int(r) == next_at(v@.subrange(i as int, hi as int), from - i, pat@),
        match r {
            Some(e) => from + e + pat.len() <= hi,
            None => true,
        },
{
    let ghost rest = v@.subrange(i as int, hi as int);
    assert(rest.skip(from - i) =~= v@.subrange(from as int, hi as int));
    find_in(v, from, hi, pat)
}

/// The code span that opens `v[i..hi]`, if one does.
fn code_at(v: &Vec<char>, i: usize, hi: usize) -> (r: Option<usize>)
    requires
        i < hi <= v.len(),
    ensures
        opt_int(r) == code_close(v@.subrange(i as int, hi as int)),
{
    if v[i] == '`' {
        let pat = vec!['`'];
        assert(pat@ =~= seq!['`']);
        next_in(v, i, i + 1, hi, &pat)
    } else {
        None
    }
}

/// The strong text that opens `v[i..hi]`, if any, with `prev` the character
/// before it.
fn strong_at(v: &Vec<char>, i: usize, hi: usize, prev: char) -> (r: Option<usize>)
    requires
        i < hi <= v.len(),
    ensures
        opt_int(r) == strong_close(v@.subrange(i as int, hi as int), prev),
{
    if i + 1 < hi && v[i] == '*' && v[i + 1] == '*' {
        let pat = vec!['*', '*'];
        assert(pat@ =~= seq!['*', '*']);
        next_in(v, i, i + 2, hi, &pat)
    } else if i + 1 < hi && v[i] == '_' && v[i + 1] == '_' && !is_alphanumeric(prev) {
        let pat = vec!['_', '_'];
        assert(pat@ =~= seq!['_', '_']);
        next_in(v, i, i + 2, hi, &pat)
    } else {
        None
    }
}

/// The struck-out text that opens `v[i..hi]`, if any.
fn strike_at(v: &Vec<char>, i: usize, hi: usize) -> (r: Option<usize>)
    requires
        i < hi <= v.len(),
    ensures
        opt_int(r) == strike_close(v@.subrange(i as int, hi as int)),
{
    if i + 1 < hi && v[i] == '~' && v[i + 1] == '~' {
        let pat = vec!['~', '~'];
        assert(pat@ =~= seq!['~', '~']);
        next_in(v, i, i + 2, hi, &pat)
    } else {
        None
    }
}

/// The emphasis that opens `v[i..hi]`, if any, with `prev` the character
/// before it.
fn emphasis_at(v: &Vec<char>, i: usize, hi: usize, prev: char) -> (r: Option<usize>)
    requires
        i < hi <= v.len(),
    ensures
        opt_int(r) == emphasis_close(v@.subrange(i as int, hi as int), prev),
{
    let doubled = i + 1 < hi && v[i + 1] == v[i];
    if v[i] == '*' && !doubled {
        let pat = vec!['*'];
        assert(pat@ =~= seq!['*']);
        next_in(v, i, i + 1, hi, &pat)
    } else if v[i] == '_' && !doubled && !is_alphanumeric(prev) {
        let pat = vec!['_'];
        assert(pat@ =~= seq!['_']);
        next_in(v, i, i + 1, hi, &pat)
    } else {
        None
    }
}

/// The link that opens `v[i..hi]`, if any: the lengths of label and target.
fn link_at(v: &Vec<char>, i: usize, hi: usize) -> (r: Option<(usize, usize)>)
    requires
        i < hi <= v.len(),
    ensures
        match r {
            Some((c, u)) => link_close(v@.subrange(i as int, hi as int)) == Some(
                (c as int, u as int),
            ),
            None => link_close(v@.subrange(i as int, hi as int)) is None,
        },
{
    if v[i] != '[' {
        return None;
    }
    let close = vec![']', '('];
    assert(close@ =~= seq![']', '(']);
    let paren = vec![')'];
    assert(paren@ =~= seq![')']);
    match next_in(v, i, i + 1, hi, &close) {
        Some(c) => match next_in(v, i, i + c + 3, hi, &paren) {
            Some(u) => Some((c, u)),
            None => None,
        },
        None => None,
    }
}

/// Move pending plain text into the runs.
fn flush(spans: &mut Vec<Piece>, plain: &mut Vec<char>, base: Look)
    ensures
        pieces_view(final(spans)@) == pieces_view(old(spans)@) + flushed(old(plain)@, base),
        final(plain)@ == Seq::<char>::empty(),
{
    if plain.len() > 0 {
        let text = string_of_range(plain, 0, plain.len());
        assert(plain@.subrange(0, plain@.len() as int) =~= plain@);
        let piece = Piece { text, look: base };
        proof {
            lemma_pieces_push(spans@, piece);
        }
        spans.push(piece);
        *plain = Vec::new();
    } else {
        assert(pieces_view(spans@) + seq![] =~= pieces_view(spans@));
    }
}

fn with_ink(l: Look, ink: Ink) -> (r: Look)
    ensures
        r == crate::markdown_spec::inked(l, ink),
{
    Look { ink: Some(ink), bold: l.bold, italic: l.italic, crossed: l.crossed, underlined: l.underlined }
}

fn with_bold(l: Look) -> (r: Look)
    ensures
        r == crate::markdown_spec::bolded(l),
{
    Look { ink: l.ink, bold: true, italic: l.italic, crossed: l.crossed, underlined: l.underlined }
}

fn with_italic(l: Look) -> (r: Look)
    ensures
        r == crate::markdown_spec::italicized(l),
{
    Look { ink: l.ink, bold: l.bold, italic: true, crossed: l.crossed, underlined: l.underlined }
}

fn with_crossed(l: Look) -> (r: Look)
    ensures
        r == crate::markdown_spec::crossed_out(l),
{
    Look { ink: l.ink, bold: l.bold, italic: l.italic, crossed: true, underlined: l.underlined }
}

fn with_underline(l: Look) -> (r: Look)
    ensures
        r == crate::markdown_spec::underlined(l),
{
    Look { ink: l.ink, bold: l.bold, italic: l.italic, crossed: l.crossed, underlined: true }
}

/// Whether `v[a..b]` and `v[c..d]` hold the same characters.
fn same_range(v: &Vec<char>, a: usize, b: usize, c: usize, d: usize) -> (r: bool)
    requires
        a <= b <= v.len(),
        c <= d <= v.len(),
    ensures
        r == (v@.subrange(a as int, b as int) == v@.subrange(c as int, d as int)),
{
    if b - a != d - c {
        assert(v@.subrange(a as int, b as int).len() != v@.subrange(c as int, d as int).len());
        return false;
    }
    let mut k: usize = 0;
    while k < b - a
        invariant
            a <= b <= v.len(),
            c <= d <= v.len(),
            b - a == d - c,
            k <= b - a,
            v@.subrange(a as int, a + k) == v@.subrange(c as int, c + k),
        decreases b - a - k,
    {
        if v[a + k] != v[c + k] {
            assert(v@.subrange(a as int, b as int)[k as int] != v@.subrange(c as int, d as int)[k as int]);
            return false;
        }
        assert(v@.subrange(a as int, a + k + 1) =~= v@.subrange(a as int, a + k).push(v@[a + k]));
        assert(v@.subrange(c as int, c + k + 1) =~= v@.subrange(c as int, c + k).push(v@[c + k]));
        k += 1;
    }
    true
}

/// Add the link target after a label, when it differs from the label.
fn push_target(
    spans: &mut Vec<Piece>,
    v: &Vec<char>,
    a: usize,
    b: usize,
    c: usize,
    d: usize,
    base: Look,
)
    requires
        a <= b <= v.len(),
        c <= d <= v.len(),
    ensures
        pieces_view(final(spans)@) == pieces_view(old(spans)@) + link_target(
            v@.subrange(a as int, b as int),
            v@.subrange(c as int, d as int),
            base,
        ),
{
    if !same_range(v, a, b, c, d) {
        let mut target: Vec<char> = vec![' ', '('];
        let mut k = c;
        assert(target@ =~= seq![' ', '('] + v@.subrange(c as int, k as int));
        while k < d
            invariant
                c <= k <= d <= v.len(),
                target@ == seq![' ', '('] + v@.subrange(c as int, k as int),
            decreases d - k,
        {
            target.push(v[k]);
            k += 1;
            assert(target@ =~= seq![' ', '('] + v@.subrange(c as int, k as int));
        }
        target.push(')');
        assert(target@ =~= seq![' ', '('] + v@.subrange(c as int, d as int) + seq![')']);
        let text = crate::text::string_of(&target);
        let piece = Piece { text, look: with_ink(base, Ink::Muted) };
        proof {
            lemma_pieces_push(spans@, piece);
        }
        spans.push(piece);
    } else {
        assert(pieces_view(spans@) + seq![] =~= pieces_view(spans@));
    }
}

/// One line's inline runs: code, bold, italic, strikethrough and links, over
/// the characters `v[lo..hi]`.
///
/// The character before the cursor is tracked so `snake_case` is not read as
/// emphasis: `_` only opens at a word boundary.
pub fn inline_spans(v: &Vec<char>, lo: usize, hi: usize, base: Look) -> (r: Vec<Piece>)
    requires
        lo <= hi <= v.len(),
    ensures
        pieces_view(r@) == inline_runs(v@.subrange(lo as int, hi as int), base),
    decreases hi - lo,
{
    let ghost whole = v@.subrange(lo as int, hi as int);
    let mut spans: Vec<Piece> = Vec::new();
    let mut plain: Vec<char> = Vec::new();
    let mut prev = '\n';
    let mut i = lo;
    assert(pieces_view(spans@) =~= Seq::<Run>::empty());
    while i < hi
        invariant
            lo <= i <= hi <= v.len(),
            whole == v@.subrange(lo as int, hi as int),
            pieces_view(spans@) + inline_from(v@.subrange(i as int, hi as int), plain@, prev, base)
                == inline_runs(whole, base),
        decreases hi - i,
    {
        let ghost rest = v@.subrange(i as int, hi as int);
        let ghost before = pieces_view(spans@);
        let ghost pending = plain@;
        let ghost was = prev;
        let code = code_at(v, i, hi);
        if let Some(e) = code {
            flush(&mut spans, &mut plain, base);
            let text = string_of_range(v, i + 1, i + 1 + e);
            let piece = Piece { text, look: with_ink(base, Ink::Code) };
            proof {
                lemma_pieces_push(spans@, piece);
                assert(rest.subrange(1, 1 + e) =~= v@.subrange(i + 1, i + 1 + e));
                assert(rest.skip(e + 2) =~= v@.subrange(i + e + 2, hi as int));
                lemma_inline_code(rest, pending, was, base, e as int);
            }
            spans.push(piece);
            prev = '`';
            i = i + e + 2;
            proof {
                let tail = inline_from(v@.subrange(i as int, hi as int), plain@, prev, base);
                assert(before + flushed(pending, base) + seq![(rest.subrange(1, 1 + e), crate::markdown_spec::inked(base, Ink::Code))] + tail
                    =~= before + (flushed(pending, base) + seq![(rest.subrange(1, 1 + e), crate::markdown_spec::inked(base, Ink::Code))] + tail));
            }
            continue;
        }
        let strong = strong_at(v, i, hi, prev);
        if let Some(e) = strong {
            flush(&mut spans, &mut plain, base);
            let mut inner = inline_spans(v, i + 2, i + 2 + e, with_bold(base));
            proof {
                lemma_pieces_add(spans@, inner@);
                assert(rest.subrange(2, 2 + e) =~= v@.subrange(i + 2, i + 2 + e));
                assert(rest.skip(e + 4) =~= v@.subrange(i + e + 4, hi as int));
                lemma_inline_strong(rest, pending, was, base, e as int);
            }
            let ghost x = pieces_view(inner@);
            spans.append(&mut inner);
            prev = '*';
            i = i + e + 4;
            proof {
                let tail = inline_from(v@.subrange(i as int, hi as int), plain@, prev, base);
                assert(before + flushed(pending, base) + x + tail =~= before + (flushed(pending, base) + x + tail));
            }
            continue;
        }
        let strike = strike_at(v, i, hi);
        if let Some(e) = strike {
            flush(&mut spans, &mut plain, base);
            let mut inner = inline_spans(v, i + 2, i + 2 + e, with_crossed(base));
            proof {
                lemma_pieces_add(spans@, inner@);
                assert(rest.subrange(2, 2 + e) =~= v@.subrange(i + 2, i + 2 + e));
                assert(rest.skip(e + 4) =~= v@.subrange(i + e + 4, hi as int));
                lemma_inline_strike(rest, pending, was, base, e as int);
            }
            let ghost x = pieces_view(inner@);
            spans.append(&mut inner);
            prev = '~';
            i = i + e + 4;
            proof {
                let tail = inline_from(v@.subrange(i as int, hi as int), plain@, prev, base);
                assert(before + flushed(pending, base) + x + tail =~= before + (flushed(pending, base) + x + tail));
            }
            continue;
        }
        let emphasis = emphasis_at(v, i, hi, prev);
        if let Some(e) = emphasis {
            flush(&mut spans, &mut plain, base);
            let mut inner = inline_spans(v, i + 1, i + 1 + e, with_italic(base));
            proof {
                lemma_pieces_add(spans@, inner@);
                assert(rest.subrange(1, 1 + e) =~= v@.subrange(i + 1, i + 1 + e));
                assert(rest.skip(e + 2) =~= v@.subrange(i + e + 2, hi as int));
                lemma_inline_emphasis(rest, pending, was, base, e as int);
            }
            let ghost x = pieces_view(inner@);
            spans.append(&mut inner);
            prev = '*';
            i = i + e + 2;
            proof {
                let tail = inline_from(v@.subrange(i as int, hi as int), plain@, prev, base);
                assert(before + flushed(pending, base) + x + tail =~= before + (flushed(pending, base) + x + tail));
            }
            continue;
        }
        let link = link_at(v, i, hi);
        if let Some((c, u)) = link {
            flush(&mut spans, &mut plain, base);
            let mut label = inline_spans(v, i + 1, i + 1 + c, with_underline(base));
            proof {
                lemma_pieces_add(spans@, label@);
                assert(rest.subrange(1, 1 + c) =~= v@.subrange(i + 1, i + 1 + c));
                assert(rest.subrange(c + 3, c + 3 + u) =~= v@.subrange(i + c + 3, i + c + 3 + u));
                assert(rest.skip(c + u + 4) =~= v@.subrange(i + c + u + 4, hi as int));
                lemma_inline_link(rest, pending, was, base, c as int, u as int);
            }
            let ghost x = pieces_view(label@);
            spans.append(&mut label);
            let ghost mid = pieces_view(spans@);
            let ghost target = link_target(v@.subrange(i + 1, i + 1 + c), v@.subrange(i + c + 3, i + c + 3 + u), base);
            push_target(&mut spans, v, i + 1, i + 1 + c, i + c + 3, i + c + 3 + u, base);
            prev = ')';
            i = i + c + u + 4;
            proof {
                let tail = inline_from(v@.subrange(i as int, hi as int), plain@, prev, base);
                assert(before + flushed(pending, base) + x + target + tail =~= before + (flushed(pending, base) + x + target + tail));
            }
            continue;
        }
        proof {
            lemma_inline_plain(rest, pending, was, base);
        }
        let ch = v[i];
        plain.push(ch);
        prev = ch;
        i += 1;
        assert(rest.drop_first() =~= v@.subrange(i as int, hi as int));
    }
    proof {
        lemma_inline_end(plain@, prev, base);
        assert(v@.subrange(i as int, hi as int) =~= Seq::<char>::empty());
    }
    flush(&mut spans, &mut plain, base);
    spans
}

/// Whether `v[lo..hi]` draws a thematic break with `m`.
fn rule_with(v: &Vec<char>, lo: usize, hi: usize, m: char) -> (r: bool)
    requires
        lo <= hi <= v.len(),
    ensures
        r == rule_of(v@.subrange(lo as int, hi as int), m),
{
    let ghost t = v@.subrange(lo as int, hi as int);
    let mut i = lo;
    let mut count: usize = 0;
    while i < hi
        invariant
            lo <= i <= hi <= v.len(),
            t == v@.subrange(lo as int, hi as int),
            count <= i - lo,
            count == count_of(v@.subrange(lo as int, i as int), m),
            forall|k: int| lo <= k < i ==> (#[trigger] v@[k] == ' ' || v@[k] == m),
        decreases hi - i,
    {
        if v[i] != ' ' && v[i] != m {
            assert(t[i - lo] == v@[i as int]);
            return false;
        }
        assert(v@.subrange(lo as int, i + 1).drop_last() =~= v@.subrange(lo as int, i as int));
        if v[i] == m {
            count += 1;
        }
        i += 1;
    }
    assert(v@.subrange(lo as int, i as int) =~= t);
    assert forall|k: int| 0 <= k < t.len() implies (#[trigger] t[k] == ' ' || t[k] == m) by {
        assert(t[k] == v@[lo + k]);
    }
    count >= 3
}

/// Whether `v[lo..hi]` is a thematic break.
fn rule_at(v: &Vec<char>, lo: usize, hi: usize) -> (r: bool)
    requires
        lo <= hi <= v.len(),
    ensures
        r == is_rule(v@.subrange(lo as int, hi as int)),
{
    rule_with(v, lo, hi, '-') || rule_with(v, lo, hi, '*') || rule_with(v, lo, hi, '_')
}

/// The heading `v[lo..hi]` holds, if it is one: its level and where its text
/// lies.
fn heading_at(v: &Vec<char>, lo: usize, hi: usize) -> (r: Option<(usize, usize, usize)>)
    requires
        lo <= hi <= v.len(),
    ensures
        match r {
            Some((level, a, b)) => a <= b <= hi && heading(v@.subrange(lo as int, hi as int))
                == Some((level as nat, v@.subrange(a as int, b as int))),
            None => heading(v@.subrange(lo as int, hi as int)) is None,
        },
{
    let ghost t = v@.subrange(lo as int, hi as int);
    let l = skip_run(v, lo, hi, '#') - lo;
    if 1 <= l && l <= 6 && lo + l < hi && v[lo + l] == ' ' {
        let a_lo = lo + l + 1;
        let a_hi = cut_ws(v, a_lo, hi);
        let b_hi = cut_run(v, a_lo, a_hi, '#');
        let c_hi = cut_ws(v, a_lo, b_hi);
        proof {
            assert(t[l as int] == v@[lo + l]);
            let a = trim_end(t.skip(l + 1int));
            assert(t.skip(l + 1int) =~= v@.subrange(a_lo as int, hi as int));
            assert(a =~= v@.subrange(a_lo as int, a_hi as int));
            let b = a.take(a.len() - trail_run(a, '#'));
            assert(b =~= v@.subrange(a_lo as int, b_hi as int));
            assert(trim_end(b) =~= v@.subrange(a_lo as int, c_hi as int));
        }
        Some((l, a_lo, c_hi))
    } else {
        proof {
            if lo + l < hi {
                assert(t[l as int] == v@[lo + l]);
            }
        }
        None
    }
}

/// The fence `v[lo..hi]` opens a code block with, if it does.
fn opening_fence_at(v: &Vec<char>, lo: usize, hi: usize) -> (r: Option<(char, usize)>)
    requires
        lo <= hi <= v.len(),
    ensures
        fence_view(r) == opening_fence(v@.subrange(lo as int, hi as int)),
{
    let ticks = skip_run(v, lo, hi, '`') - lo;
    if ticks >= 3 {
        return Some(('`', ticks));
    }
    let tildes = skip_run(v, lo, hi, '~') - lo;
    if tildes >= 3 {
        return Some(('~', tildes));
    }
    None
}

/// Whether `v[lo..hi]` closes a block opened by `len` copies of `ch`.
fn closes_fence_at(v: &Vec<char>, lo: usize, hi: usize, ch: char, len: usize) -> (r: bool)
    requires
        lo <= hi <= v.len(),
    ensures
        r == closes_fence(v@.subrange(lo as int, hi as int), ch, len as nat),
{
    let ghost raw = v@.subrange(lo as int, hi as int);
    let a = skip_ws(v, lo, hi);
    let b = cut_ws(v, a, hi);
    let ghost t = trim(raw);
    assert(trim_start(raw) =~= v@.subrange(a as int, hi as int));
    assert(t =~= v@.subrange(a as int, b as int));
    let c = skip_run(v, a, b, ch);
    if c - a < len {
        return false;
    }
    let mut k = c;
    while k < b
        invariant
            a <= c <= k <= b <= v.len(),
            t == v@.subrange(a as int, b as int),
            t == trim(raw),
            raw == v@.subrange(lo as int, hi as int),
            c == a + lead_run(t, ch),
            c - a >= len,
            forall|j: int| c - a <= j < k - a ==> (#[trigger] t[j] == ch || t[j] == ' '),
        decreases b - k,
    {
        assert(t[k - a] == v@[k as int]);
        if v[k] != ch && v[k] != ' ' {
            assert(!(t[k - a] == ch || t[k - a] == ' '));
            assert(lead_run(t, ch) == c - a);
            assert(!closes_fence(raw, ch, len as nat));
            return false;
        }
        k += 1;
    }
    true
}

/// An optional fence, read with its length as a natural number.
pub open spec fn fence_view(f: Option<(char, usize)>) -> Option<(char, nat)> {
    match f {
        Some((c, n)) => Some((c, n as nat)),
        None => None,
    }
}

/// The characters `v[lo..hi]`, followed by `a` and `b`.
fn chars_then(v: &Vec<char>, lo: usize, hi: usize, a: char, b: char) -> (r: Vec<char>)
    requires
        lo <= hi <= v.len(),
    ensures
        r@ == v@.subrange(lo as int, hi as int) + seq![a, b],
{
    let mut out: Vec<char> = Vec::new();
    let mut k = lo;
    while k < hi
        invariant
            lo <= k <= hi <= v.len(),
            out@ == v@.subrange(lo as int, k as int),
        decreases hi - k,
    {
        out.push(v[k]);
        k += 1;
        assert(out@ =~= v@.subrange(lo as int, k as int));
    }
    out.push(a);
    out.push(b);
    assert(out@ =~= v@.subrange(lo as int, hi as int) + seq![a, b]);
    out
}

/// The list item `v[lo..hi]` holds, if it is one: its indent and marker as
/// drawn, and where its text starts.
fn list_at(v: &Vec<char>, lo: usize, hi: usize) -> (r: Option<(Vec<char>, usize)>)
    requires
        lo <= hi <= v.len(),
    ensures
        match r {
            Some((lead, start)) => start <= hi && list_item(v@.subrange(lo as int, hi as int))
                == Some((lead@, v@.subrange(start as int, hi as int))),
            None => list_item(v@.subrange(lo as int, hi as int)) is None,
        },
{
    let ghost raw = v@.subrange(lo as int, hi as int);
    let t = skip_ws(v, lo, hi);
    let ghost k = lead_ws(raw);
    let ghost tt = raw.skip(k as int);
    assert(tt =~= v@.subrange(t as int, hi as int));
    assert(raw.take(k as int) =~= v@.subrange(lo as int, t as int));
    if hi - t > 1 && (v[t] == '-' || v[t] == '*' || v[t] == '+') && v[t + 1] == ' ' {
        let r = t + 2;
        let ghost rest = tt.skip(2);
        assert(rest =~= v@.subrange(r as int, hi as int));
        let ticked = hi - r > 3 && v[r] == '[' && (v[r + 1] == 'x' || v[r + 1] == 'X') && v[r
            + 2] == ']' && v[r + 3] == ' ';
        let empty = hi - r > 3 && v[r] == '[' && v[r + 1] == ' ' && v[r + 2] == ']' && v[r + 3]
            == ' ';
        let (marker, start) = if ticked {
            ('\u{2611}', r + 4)
        } else if empty {
            ('\u{2610}', r + 4)
        } else {
            ('\u{2022}', r)
        };
        let lead = chars_then(v, lo, t, marker, ' ');
        proof {
            if ticked || empty {
                assert(rest.skip(4) =~= v@.subrange(start as int, hi as int));
            }
            if r + 3 < hi {
                assert(rest[0] == v@[r as int]);
                assert(rest[1] == v@[r + 1]);
                assert(rest[2] == v@[r + 2]);
                assert(rest[3] == v@[r + 3]);
            }
        }
        Some((lead, start))
    } else {
        proof {
            if t + 1 < hi {
                assert(tt[0] == v@[t as int]);
                assert(tt[1] == v@[t + 1]);
            }
        }
        let d = skip_digits(v, t, hi);
        if d > t && hi - d > 1 && v[d] == '.' && v[d + 1] == ' ' {
            let lead = chars_then(v, lo, d, '.', ' ');
            proof {
                let dd = d - t;
                assert(tt[dd] == v@[d as int]);
                assert(tt[dd + 1] == v@[d + 1]);
                assert(raw.take(k as int) + tt.take(dd) =~= v@.subrange(lo as int, d as int));
                assert(tt.skip(dd + 2) =~= v@.subrange(d + 2, hi as int));
            }
            Some((lead, d + 2))
        } else {
            proof {
                let dd = d - t;
                if d + 1 < hi {
                    assert(tt[dd] == v@[d as int]);
                    assert(tt[dd + 1] == v@[d + 1]);
                }
            }
            None
        }
    }
}

/// Whether `v[a..b]` is a cell of a table's alignment row.
fn separator_at(v: &Vec<char>, a: usize, b: usize) -> (r: bool)
    requires
        a <= b <= v.len(),
    ensures
        r == separator_cell(v@.subrange(a as int, b as int)),
{
    let ghost c = v@.subrange(a as int, b as int);
    if a == b {
        return false;
    }
    let mut k = a;
    while k < b
        invariant
            a <= k <= b <= v.len(),
            c == v@.subrange(a as int, b as int),
            forall|j: int| 0 <= j < k - a ==> (#[trigger] c[j] == '-' || c[j] == ':' || c[j] == ' '),
        decreases b - k,
    {
        assert(c[k - a] == v@[k as int]);
        if v[k] != '-' && v[k] != ':' && v[k] != ' ' {
            return false;
        }
        k += 1;
    }
    true
}

/// Appends `v[a..b]`.
fn push_range(out: &mut Vec<char>, v: &Vec<char>, a: usize, b: usize)
    requires
        a <= b <= v.len(),
    ensures
        final(out)@ == old(out)@ + v@.subrange(a as int, b as int),
{
    let ghost start = out@;
    let mut k = a;
    while k < b
        invariant
            a <= k <= b <= v.len(),
            out@ == start + v@.subrange(a as int, k as int),
        decreases b - k,
    {
        out.push(v[k]);
        k += 1;
        assert(out@ =~= start + v@.subrange(a as int, k as int));
    }
}

/// Joining one more part onto a list of them.
proof fn lemma_join_push(parts: Seq<Seq<char>>, sep: Seq<char>, x: Seq<char>)
    ensures
        join(parts.push(x), sep) == if parts.len() == 0 {
            x
        } else {
            join(parts, sep) + sep + x
        },
{
    assert(parts.push(x).drop_last() =~= parts);
    assert(parts.push(x).last() == x);
    if parts.len() == 0 {
        assert(parts.push(x)[0] == x);
    }
}

/// The table row `v[lo..hi]` holds, if it is one: whether it is the
/// alignment row, and its cells as drawn.
fn table_at(v: &Vec<char>, lo: usize, hi: usize) -> (r: Option<(bool, Vec<char>)>)
    requires
        lo <= hi <= v.len(),
    ensures
        match r {
            Some((sep, text)) => match table_cells(v@.subrange(lo as int, hi as int)) {
                Some(cells) => sep == is_separator(cells) && text@ == join(cells, cell_gap()),
                None => false,
            },
            None => table_cells(v@.subrange(lo as int, hi as int)) is None,
        },
{
    let ghost t = v@.subrange(lo as int, hi as int);
    if hi - lo < 2 || v[lo] != '|' || v[hi - 1] != '|' {
        proof {
            if hi - lo >= 2 {
                assert(t[0] == v@[lo as int]);
                assert(t.last() == v@[hi - 1]);
            }
        }
        return None;
    }
    let bhi = hi - 1;
    let ghost body = v@.subrange(lo + 1, bhi as int);
    assert(t.subrange(1, t.len() - 1) =~= body);
    let bar = vec!['|'];
    assert(bar@ =~= seq!['|']);
    let mut p = lo + 1;
    let mut text: Vec<char> = Vec::new();
    let mut sep = true;
    let mut first = true;
    let ghost mut raw_done: Seq<Seq<char>> = seq![];
    let ghost mut cells: Seq<Seq<char>> = seq![];
    assert(raw_done + split_on(v@.subrange(p as int, bhi as int), '|') =~= split_on(body, '|'));
    loop
        invariant_except_break
            split_on(body, '|') == raw_done + split_on(v@.subrange(p as int, bhi as int), '|'),
        invariant
            lo + 1 <= p <= bhi,
            bhi + 1 == hi,
            hi <= v.len(),
            bar@ == seq!['|'],
            body == v@.subrange(lo + 1, bhi as int),
            cells == raw_done.map_values(|c: Seq<char>| trim(c)),
            first == (raw_done.len() == 0),
            text@ == join(cells, cell_gap()),
            sep == (forall|j: int| 0 <= j < cells.len() ==> separator_cell(#[trigger] cells[j])),
        ensures
            split_on(body, '|') == raw_done,
            cells == raw_done.map_values(|c: Seq<char>| trim(c)),
            cells.len() > 0,
            text@ == join(cells, cell_gap()),
            sep == (forall|j: int| 0 <= j < cells.len() ==> separator_cell(#[trigger] cells[j])),
        decreases bhi - p,
    {
        let ghost s = v@.subrange(p as int, bhi as int);
        let found = find_in(v, p, bhi, &bar);
        let c_end = match found {
            Some(e) => p + e,
            None => bhi,
        };
        let a = skip_ws(v, p, c_end);
        let b = cut_ws(v, a, c_end);
        let ghost cell = v@.subrange(p as int, c_end as int);
        assert(trim_start(cell) =~= v@.subrange(a as int, c_end as int));
        assert(trim(cell) =~= v@.subrange(a as int, b as int));
        let cell_sep = separator_at(v, a, b);
        proof {
            lemma_join_push(cells, cell_gap(), trim(cell));
        }
        if !first {
            text.push(' ');
            text.push('\u{2502}');
            text.push(' ');
        }
        let ghost joined = text@;
        push_range(&mut text, v, a, b);
        proof {
            if !first {
                assert(joined =~= join(cells, cell_gap()) + cell_gap());
            }
            assert(raw_done.push(cell).map_values(|c: Seq<char>| trim(c)) =~= cells.push(trim(cell)));
            let old_cells = cells;
            raw_done = raw_done.push(cell);
            cells = cells.push(trim(cell));
            assert forall|j: int| 0 <= j < old_cells.len() implies cells[j] == old_cells[j] by {}
            assert(cells[cells.len() - 1] == trim(cell));
        }
        sep = sep && cell_sep;
        first = false;
        match found {
            Some(e) => {
                proof {
                    assert(s.take(e as int) =~= cell);
                    assert(s.skip(e + 1) =~= v@.subrange(p + e + 1, bhi as int));
                    assert(raw_done.drop_last() + (seq![cell] + split_on(s.skip(e + 1), '|'))
                        =~= raw_done + split_on(s.skip(e + 1), '|'));
                }
                p = p + e + 1;
            },
            None => {
                proof {
                    assert(s =~= cell);
                    assert(raw_done.drop_last() + seq![cell] =~= raw_done);
                }
                break;
            },
        }
    }
    Some((sep, text))
}

/// The terminal's default look.
pub fn plain() -> (r: Look)
    ensures
        r == plain_look(),
{
    Look { ink: None, bold: false, italic: false, crossed: false, underlined: false }
}

/// One run holding `chars` in `look`.
fn single(chars: &Vec<char>, look: Look) -> (r: Vec<Piece>)
    ensures
        pieces_view(r@) == seq![(chars@, look)],
{
    let text = crate::text::string_of(chars);
    let out = vec![Piece { text, look }];
    assert(pieces_view(out@) =~= seq![(chars@, look)]);
    out
}

/// A line inside a fenced block.
fn code_row_at(v: &Vec<char>, lo: usize, hi: usize) -> (r: Vec<Piece>)
    requires
        lo <= hi <= v.len(),
    ensures
        pieces_view(r@) == code_row(v@.subrange(lo as int, hi as int)),
{
    let mut chars: Vec<char> = vec![' ', ' '];
    let ghost start = chars@;
    assert(start =~= seq![' ', ' ']);
    push_range(&mut chars, v, lo, hi);
    single(&chars, with_ink(plain(), Ink::Code))
}

/// The line `v[lo..hi]` is drawn as outside a fenced block; `None` for a
/// table's alignment row, which is not drawn.
fn block_line_at(v: &Vec<char>, lo: usize, hi: usize) -> (r: Option<Vec<Piece>>)
    requires
        lo <= hi <= v.len(),
    ensures
        match r {
            Some(line) => block_line(v@.subrange(lo as int, hi as int)) == Some(
                pieces_view(line@),
            ),
            None => block_line(v@.subrange(lo as int, hi as int)) is None,
        },
{
    reveal(block_line);
    let ghost raw = v@.subrange(lo as int, hi as int);
    let t = skip_ws(v, lo, hi);
    assert(trim_start(raw) =~= v@.subrange(t as int, hi as int));
    if t == hi {
        let out: Vec<Piece> = Vec::new();
        assert(pieces_view(out@) =~= Seq::<Run>::empty());
        return Some(out);
    }
    if let Some((level, a, b)) = heading_at(v, t, hi) {
        let ink = if level <= 2 {
            Some(Ink::Heading)
        } else {
            None
        };
        let look = Look { ink, bold: true, italic: false, crossed: false, underlined: false };
        let mut chars: Vec<char> = Vec::new();
        push_range(&mut chars, v, a, b);
        assert(chars@ =~= v@.subrange(a as int, b as int));
        return Some(single(&chars, look));
    }
    if rule_at(v, t, hi) {
        let mut chars: Vec<char> = Vec::new();
        let mut k: usize = 0;
        while k < 24
            invariant
                k <= 24,
                chars@ == Seq::new(k as nat, |i: int| '\u{2500}'),
            decreases 24 - k,
        {
            chars.push('\u{2500}');
            k += 1;
            assert(chars@ =~= Seq::new(k as nat, |i: int| '\u{2500}'));
        }
        return Some(single(&chars, with_ink(plain(), Ink::Muted)));
    }
    if v[t] == '>' {
        let r = if hi - t > 1 && v[t + 1] == ' ' {
            t + 2
        } else {
            t + 1
        };
        proof {
            let tt = v@.subrange(t as int, hi as int);
            assert(tt[0] == v@[t as int]);
            assert(tt.skip(1) =~= v@.subrange(t + 1, hi as int));
            if hi - t > 1 {
                assert(tt.skip(1)[0] == v@[t + 1]);
                assert(tt.skip(1).skip(1) =~= v@.subrange(t + 2, hi as int));
            }
        }
        let muted = with_ink(plain(), Ink::Muted);
        let bar: Vec<char> = vec!['\u{2502}', ' '];
        assert(bar@ =~= seq!['\u{2502}', ' ']);
        let mut out = single(&bar, muted);
        let mut rest = inline_spans(v, r, hi, muted);
        proof {
            lemma_pieces_add(out@, rest@);
        }
        out.append(&mut rest);
        return Some(out);
    }
    proof {
        assert(v@.subrange(t as int, hi as int)[0] == v@[t as int]);
    }
    if let Some((lead, start)) = list_at(v, lo, hi) {
        let mut out = single(&lead, plain());
        let mut rest = inline_spans(v, start, hi, plain());
        proof {
            lemma_pieces_add(out@, rest@);
        }
        out.append(&mut rest);
        return Some(out);
    }
    if let Some((sep, text)) = table_at(v, t, hi) {
        if sep {
            return None;
        }
        return Some(single(&text, plain()));
    }
    Some(inline_spans(v, lo, hi, plain()))
}

/// The lines a sequence of drawn lines is, as the contracts see them.
pub open spec fn lines_view(v: Seq<Vec<Piece>>) -> Seq<Seq<Run>> {
    v.map_values(|l: Vec<Piece>| pieces_view(l@))
}

proof fn lemma_lines_push(a: Seq<Vec<Piece>>, l: Vec<Piece>)
    ensures
        lines_view(a.push(l)) == lines_view(a) + seq![pieces_view(l@)],
{
    assert(lines_view(a.push(l)) =~= lines_view(a) + seq![pieces_view(l@)]);
}

/// Render one block of Markdown text as terminal lines.
pub fn to_lines(text: &str) -> (r: Vec<Vec<Piece>>)
    ensures
        lines_view(r@) == markdown_lines(text@),
{
    let chars = crate::text::chars_of(text);
    let v = &chars;
    let n = v.len();
    let nl = vec!['\n'];
    assert(nl@ =~= seq!['\n']);
    let mut out: Vec<Vec<Piece>> = Vec::new();
    let mut fence: Option<(char, usize)> = None;
    let mut p: usize = 0;
    assert(v@.subrange(0, n as int) =~= v@);
    assert(lines_view(out@) =~= Seq::<Seq<Run>>::empty());
    assert(lines_view(out@) + markdown_lines(v@) =~= markdown_lines(v@));
    loop
        invariant_except_break
            lines_view(out@) + render_from(
                split_on(v@.subrange(p as int, n as int), '\n'),
                fence_view(fence),
            ) == markdown_lines(v@),
        invariant
            p <= n,
            n == v.len(),
            v@ == text@,
            nl@ == seq!['\n'],
        ensures
            lines_view(out@) == markdown_lines(v@),
        decreases n - p,
    {
        let ghost s = v@.subrange(p as int, n as int);
        let ghost before = lines_view(out@);
        let ghost f0 = fence_view(fence);
        let found = find_in(v, p, n, &nl);
        let le = match found {
            Some(e) => p + e,
            None => n,
        };
        let re = if le > p && v[le - 1] == '\r' {
            le - 1
        } else {
            le
        };
        let ghost line = v@.subrange(p as int, le as int);
        assert(strip_cr(line) =~= v@.subrange(p as int, re as int));
        let ghost lines: Seq<Seq<char>> = match found {
            Some(e) => seq![line] + split_on(v@.subrange(p + e + 1, n as int), '\n'),
            None => seq![line],
        };
        proof {
            match found {
                Some(e) => {
                    assert(s.take(e as int) =~= line);
                    assert(s.skip(e + 1) =~= v@.subrange(p + e + 1, n as int));
                },
                None => {
                    assert(s =~= line);
                },
            }
            assert(split_on(s, '\n') == lines);
            assert(lines[0] == line);
        }
        let ghost later = lines.drop_first();
        let ghost raw = v@.subrange(p as int, re as int);
        let ghost rows = rows_of(raw, f0);
        assert(render_from(lines, f0) == rows + render_from(later, next_fence(raw, f0)));
        match fence {
            Some((ch, len)) => {
                if closes_fence_at(v, p, re, ch, len) {
                    fence = None;
                    assert(rows =~= Seq::<Seq<Run>>::empty());
                } else {
                    let row = code_row_at(v, p, re);
                    proof {
                        lemma_lines_push(out@, row);
                    }
                    out.push(row);
                }
            },
            None => {
                let t = skip_ws(v, p, re);
                assert(trim_start(raw) =~= v@.subrange(t as int, re as int));
                match opening_fence_at(v, t, re) {
                    Some(f) => {
                        fence = Some(f);
                        assert(rows =~= Seq::<Seq<Run>>::empty());
                    },
                    None => match block_line_at(v, p, re) {
                        Some(l) => {
                            proof {
                                lemma_lines_push(out@, l);
                            }
                            out.push(l);
                        },
                        None => {
                            assert(rows =~= Seq::<Seq<Run>>::empty());
                        },
                    },
                }
            },
        }
        assert(fence_view(fence) == next_fence(raw, f0));
        assert(lines_view(out@) == before + rows);
        assert(before + (rows + render_from(later, fence_view(fence))) =~= lines_view(out@)
            + render_from(later, fence_view(fence)));
        match found {
            Some(e) => {
                assert(later =~= split_on(v@.subrange(p + e + 1, n as int), '\n'));
                p = p + e + 1;
            },
            None => {
                assert(later =~= Seq::<Seq<char>>::empty());
                assert(lines_view(out@) + render_from(later, fence_view(fence)) =~= lines_view(
                    out@,
                ));
                break;
            },
        }
    }
    out
}

} // verus!
