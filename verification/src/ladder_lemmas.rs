//! Shape facts about the ladder's trims, walks and searches.

use vstd::prelude::*;
use vstd::utf8::valid_utf8;

use crate::bytes::{at_char_start, lemma_valid_concat3, lemma_valid_subrange};

use crate::ladder_spec::{
    body_end, find_from, splice, substitute, indent_len, is_blank, is_indent, kept_len, lemma_line_end, line_end,
    line_view, match_from, trim_end, trim_start, walk_from, LineShape,
};

verus! {

broadcast use vstd::seq::group_seq_axioms;

pub proof fn lemma_trim_end_prefix(s: Seq<u8>)
    ensures
        trim_end(s).len() <= s.len(),
        trim_end(s) =~= s.take(trim_end(s).len() as int),
        trim_end(s).len() == 0 || !is_blank(s[trim_end(s).len() - 1]),
    decreases s.len(),
{
    if s.len() > 0 && is_blank(s.last()) {
        lemma_trim_end_prefix(s.drop_last());
    }
}

pub proof fn lemma_trim_start_suffix(s: Seq<u8>)
    ensures
        trim_start(s).len() <= s.len(),
        trim_start(s) =~= s.skip(s.len() - trim_start(s).len()),
        forall|j: int| 0 <= j < s.len() - trim_start(s).len() ==> is_blank(s[j]),
        trim_start(s).len() == 0 || !is_blank(s[s.len() - trim_start(s).len()]),
    decreases s.len(),
{
    if s.len() > 0 && is_blank(s[0]) {
        lemma_trim_start_suffix(s.drop_first());
        let d = s.drop_first();
        assert forall|j: int| 0 <= j < s.len() - trim_start(s).len() implies is_blank(s[j]) by {
            if j > 0 {
                assert(s[j] == d[j - 1]);
            }
        }
    }
}

pub proof fn lemma_indent_prefix(s: Seq<u8>)
    ensures
        indent_len(s) <= s.len(),
        forall|j: int| 0 <= j < indent_len(s) ==> is_indent(s[j]),
        indent_len(s) == s.len() || !is_indent(s[indent_len(s) as int]),
    decreases s.len(),
{
    if s.len() > 0 && is_indent(s[0]) {
        lemma_indent_prefix(s.drop_first());
        let d = s.drop_first();
        assert forall|j: int| 0 <= j < indent_len(s) implies is_indent(s[j]) by {
            if j > 0 {
                assert(s[j] == d[j - 1]);
            }
        }
    }
}

/// A shape never keeps more than the line body.
pub proof fn lemma_kept_le(s: Seq<u8>, shape: LineShape)
    ensures
        0 <= kept_len(s, shape) <= s.len(),
        line_view(s, shape).len() <= s.len(),
{
    lemma_trim_end_prefix(s);
    let e = trim_end(s);
    lemma_trim_start_suffix(e);
    lemma_indent_prefix(s);
    let k = e.len() as int;
    let a = k - trim_start(e).len();
    let i = indent_len(s) as int;
    if k > 0 && i > a {
        assert(e[a] == s[a]);
        assert(is_indent(s[a]));
        if trim_start(e).len() == 0 {
            assert(a == k);
            assert(s[k - 1] == e[k - 1]);
            assert(is_blank(e[k - 1]));
        } else {
            assert(!is_blank(e[a]));
        }
    }
}

/// A line match starts where it is tried and ends inside the content.
pub proof fn lemma_match_from_bounds(c: Seq<u8>, pos: int, t: Seq<u8>, tpos: int, shape: LineShape)
    ensures
        match_from(c, pos, t, tpos, shape) matches Some(e) ==> 0 <= pos < c.len() && pos <= e
            <= c.len(),
    decreases t.len() - tpos,
{
    if tpos < 0 || tpos >= t.len() || pos < 0 || pos >= c.len() {
    } else {
        lemma_line_end(c, pos);
        lemma_line_end(t, tpos);
        let sle = line_end(c, pos);
        let sbe = body_end(c, pos);
        let tle = line_end(t, tpos);
        let sbody = c.subrange(pos, sbe);
        lemma_kept_le(sbody, shape);
        let keep = !(tle >= t.len()) || tle > body_end(t, tpos);
        let end = pos + kept_len(sbody, shape) + if keep {
            sle - sbe
        } else {
            0
        };
        assert(end <= sle);
        if tle < t.len() {
            lemma_match_from_bounds(c, end, t, tle, shape);
        }
    }
}

/// The spans a line level finds start at increasing line starts at or after
/// `p`, and each ends no earlier than it starts.
pub proof fn lemma_walk_from_shape(c: Seq<u8>, t: Seq<u8>, shape: LineShape, p: int)
    ensures
        forall|i: int|
            0 <= i < walk_from(c, t, shape, p).len() ==> {
                let s = #[trigger] walk_from(c, t, shape, p)[i];
                &&& p <= s.0 < c.len()
                &&& s.0 <= s.1 <= c.len()
            },
        forall|i: int, j: int|
            0 <= i < j < walk_from(c, t, shape, p).len() ==> walk_from(c, t, shape, p)[i].0
                < walk_from(c, t, shape, p)[j].0,
    decreases c.len() - p,
{
    if p < 0 || p >= c.len() {
    } else {
        lemma_line_end(c, p);
        let next = line_end(c, p);
        lemma_walk_from_shape(c, t, shape, next);
        lemma_match_from_bounds(c, p, t, 0, shape);
        let rest = walk_from(c, t, shape, next);
        match match_from(c, p, t, 0, shape) {
            Some(e) => {
                let w = seq![(p, e)] + rest;
                assert(walk_from(c, t, shape, p) == w);
                assert forall|i: int| 0 < i < w.len() implies w[i] == rest[i - 1] by {}
            },
            None => {},
        }
    }
}

/// Every occurrence found from `p` on is an occurrence, they come in order, and
/// none overlaps the next.
pub proof fn lemma_find_from_shape(c: Seq<u8>, t: Seq<u8>, p: int)
    ensures
        forall|i: int|
            0 <= i < find_from(c, t, p).len() ==> {
                let s = #[trigger] find_from(c, t, p)[i];
                &&& p <= s.0
                &&& s.1 == s.0 + t.len()
                &&& s.1 <= c.len()
                &&& t.len() > 0
                &&& c.subrange(s.0, s.1) == t
            },
        forall|i: int|
            0 <= i < find_from(c, t, p).len() - 1 ==> find_from(c, t, p)[i].1 <= find_from(
                c,
                t,
                p,
            )[i + 1].0,
    decreases c.len() - p,
{
    if t.len() == 0 || p < 0 || p + t.len() > c.len() {
    } else if c.subrange(p, p + t.len()) == t {
        lemma_find_from_shape(c, t, p + t.len());
        let rest = find_from(c, t, p + t.len());
        let w = seq![(p, p + t.len())] + rest;
        assert(find_from(c, t, p) == w);
        assert forall|i: int| 0 < i < w.len() implies w[i] == rest[i - 1] by {}
        assert(w[0] == (p, p + t.len()));
        if rest.len() > 0 {
            assert(w[1] == rest[0]);
        }
    } else {
        lemma_find_from_shape(c, t, p + 1);
        assert(find_from(c, t, p) == find_from(c, t, p + 1));
    }
}

/// Replacing a span cut at character starts by valid text keeps the whole valid.
pub proof fn lemma_splice_valid(c: Seq<u8>, span: (int, int), r: Seq<u8>)
    requires
        valid_utf8(c),
        valid_utf8(r),
        0 <= span.0 <= span.1 <= c.len(),
        at_char_start(c, span.0),
        at_char_start(c, span.1),
    ensures
        valid_utf8(splice(c, span, r)),
{
    lemma_valid_subrange(c, 0, span.0);
    lemma_valid_subrange(c, span.1, c.len() as int);
    lemma_valid_concat3(c.subrange(0, span.0), r, c.subrange(span.1, c.len() as int));
}

/// Spans in order, each cut at character starts, no earlier than `from`.
pub open spec fn cut_points(c: Seq<u8>, spans: Seq<(int, int)>, from: int) -> bool {
    &&& 0 <= from <= c.len()
    &&& forall|i: int|
        0 <= i < spans.len() ==> {
            &&& 0 <= (#[trigger] spans[i]).0 <= spans[i].1 <= c.len()
            &&& at_char_start(c, spans[i].0)
            &&& at_char_start(c, spans[i].1)
            &&& from <= spans[i].0
        }
    &&& forall|i: int| 0 <= i < spans.len() - 1 ==> spans[i].1 <= spans[i + 1].0
}

/// Substituting valid text for spans cut at character starts keeps the whole
/// valid.
pub proof fn lemma_substitute_valid(c: Seq<u8>, spans: Seq<(int, int)>, r: Seq<u8>, from: int)
    requires
        valid_utf8(c),
        valid_utf8(r),
        at_char_start(c, from),
        cut_points(c, spans, from),
    ensures
        valid_utf8(substitute(c, spans, r, from)),
    decreases spans.len(),
{
    if spans.len() == 0 {
        lemma_valid_subrange(c, from, c.len() as int);
    } else {
        let rest = spans.drop_first();
        assert forall|i: int| 0 <= i < rest.len() implies {
            &&& 0 <= (#[trigger] rest[i]).0 <= rest[i].1 <= c.len()
            &&& at_char_start(c, rest[i].0)
            &&& at_char_start(c, rest[i].1)
            &&& spans[0].1 <= rest[i].0
        } by {
            lemma_cut_points_order(c, spans, from, 0, i + 1);
        }
        assert forall|i: int| 0 <= i < rest.len() - 1 implies rest[i].1 <= rest[i + 1].0 by {
            assert(rest[i] == spans[i + 1]);
            assert(rest[i + 1] == spans[i + 2]);
        }
        lemma_substitute_valid(c, rest, r, spans[0].1);
        lemma_valid_subrange(c, from, spans[0].0);
        lemma_valid_concat3(c.subrange(from, spans[0].0), r, substitute(c, rest, r, spans[0].1));
    }
}

proof fn lemma_cut_points_order(c: Seq<u8>, spans: Seq<(int, int)>, from: int, i: int, j: int)
    requires
        cut_points(c, spans, from),
        0 <= i < j < spans.len(),
    ensures
        spans[i].1 <= spans[j].0,
    decreases j - i,
{
    if j > i + 1 {
        lemma_cut_points_order(c, spans, from, i + 1, j);
        assert(spans[i + 1].0 <= spans[i + 1].1);
    }
}

} // verus!
