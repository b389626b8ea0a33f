//! The ladder's byte-level machinery: searching, walking lines, and the
//! guardrails, all over the content's UTF-8 bytes.

use vstd::prelude::*;

use crate::bytes::at_char_start;
use crate::edit::MatchLevel;
use crate::ladder_lemmas::{
    lemma_find_from_shape, lemma_indent_prefix, lemma_kept_le, lemma_match_from_bounds,
    lemma_trim_end_prefix, lemma_trim_start_suffix, lemma_walk_from_shape,
};
use crate::ladder_spec::{
    body_end, count_nl, find_all, find_from, indent_len, is_blank, is_indent, kept_len,
    lemma_line_end, line_end, line_view, match_from, nl, span_ints, substitute, trim_end,
    trim_start, walk, walk_from, LineShape, splice,
};
use crate::ladder_lemmas::cut_points;

verus! {

broadcast use vstd::seq::group_seq_axioms;

/// A matched span larger than this many bytes is not the edit the model meant.
pub const MAX_MATCH_BYTES: usize = 8192;

/// Nor is a matched span holding more than this many newlines.
pub const MAX_MATCH_LINES: usize = 200;

/// A matched span more than this many times the search length is refused.
pub const MAX_MATCH_RATIO: usize = 4;

/// What the ladder decides, before any text is built.
pub enum LadderOutcome {
    NoMatch,
    NonUnique(nat),
    TooLarge(nat, nat),
    Found(MatchLevel, Seq<(int, int)>),
}

/// The candidate spans of one level.
pub open spec fn level_spans(c: Seq<u8>, t: Seq<u8>, level: MatchLevel) -> Seq<(int, int)> {
    match level {
        MatchLevel::Exact => find_all(c, t),
        MatchLevel::LineEndWhitespace => walk(c, t, LineShape::TrimEnd),
        MatchLevel::LineTrim => walk(c, t, LineShape::Trim),
    }
}

/// `n` times the ratio, saturating at the largest `usize`.
pub open spec fn ratio_limit(n: nat) -> int {
    if n * 4 > usize::MAX {
        usize::MAX as int
    } else {
        (n * 4) as int
    }
}

/// Whether the region from the first candidate to the last is too large: more
/// bytes or newlines than the limits, or too many times the search length.
pub open spec fn region_too_large(bytes: int, lines: int, tlen: nat) -> bool {
    bytes > MAX_MATCH_BYTES || lines > MAX_MATCH_LINES || bytes > ratio_limit(tlen)
}

/// The guardrails over the non-empty candidates of the winning level.
pub open spec fn guarded(
    c: Seq<u8>,
    spans: Seq<(int, int)>,
    tlen: nat,
    replace_all: bool,
    level: MatchLevel,
) -> LadderOutcome {
    let first = spans[0];
    let last = spans.last();
    let bytes = last.1 - first.0;
    let lines = count_nl(c.subrange(first.0, last.1));
    if region_too_large(bytes, lines as int, tlen) {
        LadderOutcome::TooLarge(bytes as nat, lines)
    } else if !replace_all && spans.len() > 1 {
        LadderOutcome::NonUnique(spans.len())
    } else {
        LadderOutcome::Found(level, spans)
    }
}

/// The level that wins: the first one, in ladder order, with any candidate.
/// With `replace_all` only the exact level is consulted.
pub open spec fn winning_level(c: Seq<u8>, t: Seq<u8>, replace_all: bool) -> Option<MatchLevel> {
    if t.len() == 0 {
        None
    } else if level_spans(c, t, MatchLevel::Exact).len() > 0 {
        Some(MatchLevel::Exact)
    } else if replace_all {
        None
    } else if level_spans(c, t, MatchLevel::LineEndWhitespace).len() > 0 {
        Some(MatchLevel::LineEndWhitespace)
    } else if level_spans(c, t, MatchLevel::LineTrim).len() > 0 {
        Some(MatchLevel::LineTrim)
    } else {
        None
    }
}

/// The whole ladder over bytes: the first level with a candidate, through the
/// guardrails.
pub open spec fn ladder(c: Seq<u8>, t: Seq<u8>, replace_all: bool) -> LadderOutcome {
    match winning_level(c, t, replace_all) {
        None => LadderOutcome::NoMatch,
        Some(level) => guarded(c, level_spans(c, t, level), t.len(), replace_all, level),
    }
}

/// The candidates of the winning level, or none.
pub open spec fn winning_spans(c: Seq<u8>, t: Seq<u8>, replace_all: bool) -> Seq<(int, int)> {
    match winning_level(c, t, replace_all) {
        None => seq![],
        Some(level) => level_spans(c, t, level),
    }
}

/// A line match from `pos` only ever starts reading a line at a character start.
pub open spec fn match_reads_whole_chars(
    c: Seq<u8>,
    pos: int,
    t: Seq<u8>,
    tpos: int,
    shape: LineShape,
) -> bool
    decreases t.len() - tpos,
{
    if tpos < 0 || tpos >= t.len() || pos < 0 || pos >= c.len() {
        true
    } else {
        let sle = line_end(c, pos);
        let sbe = body_end(c, pos);
        let tle = line_end(t, tpos);
        let tbe = body_end(t, tpos);
        let sbody = c.subrange(pos, sbe);
        &&& at_char_start(c, pos)
        &&& if line_view(sbody, shape) != line_view(t.subrange(tpos, tbe), shape) || (sle == sbe
            && tle > tbe) || tle >= t.len() {
            true
        } else {
            let end = pos + kept_len(sbody, shape) + (sle - sbe);
            proof {
                lemma_line_end(t, tpos);
            }
            match_reads_whole_chars(c, end, t, tle, shape)
        }
    }
}

/// Every line match a level tries reads its lines at character starts.
pub open spec fn walk_reads_whole_chars(c: Seq<u8>, t: Seq<u8>, shape: LineShape, p: int) -> bool
    decreases c.len() - p,
{
    if p < 0 || p >= c.len() {
        true
    } else {
        proof {
            lemma_line_end(c, p);
        }
        match_reads_whole_chars(c, p, t, 0, shape) && walk_reads_whole_chars(
            c,
            t,
            shape,
            line_end(c, p),
        )
    }
}

/// The region the guardrails measure starts and ends at character starts.
pub open spec fn region_whole_chars(c: Seq<u8>, spans: Seq<(int, int)>) -> bool {
    spans.len() > 0 ==> at_char_start(c, spans[0].0) && at_char_start(c, spans.last().1)
}

/// Running the ladder over `c` only ever cuts the text at character starts.
/// (An exact match always does; a line level can land inside a character when
/// a carriage return precedes a line's indentation.)
pub open spec fn ladder_cuts_whole_chars(c: Seq<u8>, t: Seq<u8>, replace_all: bool) -> bool {
    replace_all || t.len() == 0 || {
        &&& find_all(c, t).len() == 0 ==> walk_reads_whole_chars(c, t, LineShape::TrimEnd, 0)
        &&& (find_all(c, t).len() == 0 && walk(c, t, LineShape::TrimEnd).len() == 0)
            ==> walk_reads_whole_chars(c, t, LineShape::Trim, 0)
        &&& region_whole_chars(c, winning_spans(c, t, false))
    }
}

/// The ladder's decision, with the spans as byte offsets.
pub enum Plan {
    NoMatch,
    NonUnique(usize),
    TooLarge { bytes: usize, lines: usize },
    Found(MatchLevel, Vec<(usize, usize)>),
}

/// The decision a plan carries, as a ladder outcome.
pub open spec fn plan_outcome(p: Plan) -> LadderOutcome {
    match p {
        Plan::NoMatch => LadderOutcome::NoMatch,
        Plan::NonUnique(n) => LadderOutcome::NonUnique(n as nat),
        Plan::TooLarge { bytes, lines } => LadderOutcome::TooLarge(bytes as nat, lines as nat),
        Plan::Found(level, v) => LadderOutcome::Found(level, span_ints(v@)),
    }
}

fn is_blank_byte(b: u8) -> (r: bool)
    ensures
        r == is_blank(b),
{
    b == 32 || b == 9 || b == 13
}

fn is_indent_byte(b: u8) -> (r: bool)
    ensures
        r == is_indent(b),
{
    b == 32 || b == 9
}

/// Where `b[lo..hi]` ends once its trailing blanks are dropped.
fn trim_end_at(b: &[u8], lo: usize, hi: usize) -> (k: usize)
    requires
        lo <= hi <= b@.len(),
    ensures
        lo <= k <= hi,
        b@.subrange(lo as int, k as int) == trim_end(b@.subrange(lo as int, hi as int)),
{
    let mut k = hi;
    while k > lo && is_blank_byte(b[k - 1])
        invariant
            lo <= k <= hi <= b@.len(),
            trim_end(b@.subrange(lo as int, k as int)) == trim_end(
                b@.subrange(lo as int, hi as int),
            ),
        decreases k,
    {
        let ghost s = b@.subrange(lo as int, k as int);
        assert(s.drop_last() =~= b@.subrange(lo as int, k - 1));
        k -= 1;
    }
    k
}

/// Where `b[lo..hi]` starts once its leading blanks are dropped.
fn trim_start_at(b: &[u8], lo: usize, hi: usize) -> (a: usize)
    requires
        lo <= hi <= b@.len(),
    ensures
        lo <= a <= hi,
        b@.subrange(a as int, hi as int) == trim_start(b@.subrange(lo as int, hi as int)),
{
    let mut a = lo;
    while a < hi && is_blank_byte(b[a])
        invariant
            lo <= a <= hi <= b@.len(),
            trim_start(b@.subrange(a as int, hi as int)) == trim_start(
                b@.subrange(lo as int, hi as int),
            ),
        decreases hi - a,
    {
        let ghost s = b@.subrange(a as int, hi as int);
        assert(s.drop_first() =~= b@.subrange(a + 1, hi as int));
        a += 1;
    }
    a
}

/// How many spaces and tabs `b[lo..hi]` starts with.
fn indent_at(b: &[u8], lo: usize, hi: usize) -> (n: usize)
    requires
        lo <= hi <= b@.len(),
    ensures
        n == indent_len(b@.subrange(lo as int, hi as int)),
        n <= hi - lo,
{
    let mut k = lo;
    while k < hi && is_indent_byte(b[k])
        invariant
            lo <= k <= hi <= b@.len(),
            indent_len(b@.subrange(lo as int, hi as int)) == (k - lo) + indent_len(
                b@.subrange(k as int, hi as int),
            ),
        decreases hi - k,
    {
        let ghost s = b@.subrange(k as int, hi as int);
        assert(s.drop_first() =~= b@.subrange(k + 1, hi as int));
        k += 1;
    }
    k - lo
}

/// The bounds of the part of `b[lo..hi]` the shape compares.
fn view_at(b: &[u8], lo: usize, hi: usize, shape: LineShape) -> (r: (usize, usize))
    requires
        lo <= hi <= b@.len(),
    ensures
        lo <= r.0 <= r.1 <= hi,
        b@.subrange(r.0 as int, r.1 as int) == line_view(b@.subrange(lo as int, hi as int), shape),
{
    let e = trim_end_at(b, lo, hi);
    match shape {
        LineShape::TrimEnd => (lo, e),
        LineShape::Trim => {
            let a = trim_start_at(b, lo, e);
            (a, e)
        },
    }
}

/// How many bytes of the line body `b[lo..hi]` the shape keeps.
fn kept_at(b: &[u8], lo: usize, hi: usize, shape: LineShape) -> (n: usize)
    requires
        lo <= hi <= b@.len(),
    ensures
        n == kept_len(b@.subrange(lo as int, hi as int), shape),
        n <= hi - lo,
{
    proof {
        lemma_kept_le(b@.subrange(lo as int, hi as int), shape);
    }
    match shape {
        LineShape::TrimEnd => hi - lo,
        LineShape::Trim => {
            let (a, e) = view_at(b, lo, hi, shape);
            let i = indent_at(b, lo, hi);
            i + (e - a)
        },
    }
}

/// Whether two byte ranges hold the same bytes.
pub fn same_bytes(a: &[u8], alo: usize, ahi: usize, b: &[u8], blo: usize, bhi: usize) -> (r: bool)
    requires
        alo <= ahi <= a@.len(),
        blo <= bhi <= b@.len(),
    ensures
        r == (a@.subrange(alo as int, ahi as int) == b@.subrange(blo as int, bhi as int)),
{
    if ahi - alo != bhi - blo {
        assert(a@.subrange(alo as int, ahi as int).len() != b@.subrange(blo as int, bhi as int).len());
        return false;
    }
    let n = ahi - alo;
    let mut i: usize = 0;
    while i < n
        invariant
            n == ahi - alo,
            n == bhi - blo,
            alo <= ahi <= a@.len(),
            blo <= bhi <= b@.len(),
            i <= n,
            a@.subrange(alo as int, alo + i) == b@.subrange(blo as int, blo + i),
        decreases n - i,
    {
        if a[alo + i] != b[blo + i] {
            assert(a@.subrange(alo as int, ahi as int)[i as int] != b@.subrange(
                blo as int,
                bhi as int,
            )[i as int]);
            return false;
        }
        assert(a@.subrange(alo as int, alo + i + 1) =~= a@.subrange(alo as int, alo + i).push(
            a@[alo + i],
        ));
        assert(b@.subrange(blo as int, blo + i + 1) =~= b@.subrange(blo as int, blo + i).push(
            b@[blo + i],
        ));
        i += 1;
    }
    assert(a@.subrange(alo as int, ahi as int) =~= b@.subrange(blo as int, bhi as int));
    true
}

/// Where the line starting at `pos` ends: just past its newline, or at the end.
fn line_end_at(b: &[u8], pos: usize) -> (e: usize)
    requires
        pos < b@.len(),
    ensures
        e == line_end(b@, pos as int),
{
    let mut j = pos;
    while j < b.len() && b[j] != 10
        invariant
            pos <= j <= b@.len(),
            line_end(b@, j as int) == line_end(b@, pos as int),
        decreases b@.len() - j,
    {
        j += 1;
    }
    if j < b.len() {
        j + 1
    } else {
        j
    }
}

/// An `Option<usize>` as an `Option<int>`.
pub open spec fn opt_int(r: Option<usize>) -> Option<int> {
    match r {
        Some(e) => Some(e as int),
        None => None,
    }
}

/// Match the target's lines against the content's from `pos`; the span's end.
fn match_at(c: &[u8], pos: usize, t: &[u8], shape: LineShape) -> (r: Option<usize>)
    requires
        t@.len() > 0,
    ensures
        opt_int(r) == match_from(c@, pos as int, t@, 0, shape),
{
    let mut p = pos;
    let mut tp: usize = 0;
    loop
        invariant
            0 <= tp < t@.len(),
            match_from(c@, p as int, t@, tp as int, shape) == match_from(
                c@,
                pos as int,
                t@,
                0,
                shape,
            ),
        decreases t@.len() - tp,
    {
        if p >= c.len() {
            return None;
        }
        proof {
            lemma_line_end(c@, p as int);
            lemma_line_end(t@, tp as int);
        }
        let sle = line_end_at(c, p);
        let sbe = if c[sle - 1] == 10 {
            sle - 1
        } else {
            sle
        };
        let tle = line_end_at(t, tp);
        let tbe = if t[tle - 1] == 10 {
            tle - 1
        } else {
            tle
        };
        assert(sbe == body_end(c@, p as int));
        assert(tbe == body_end(t@, tp as int));
        let (va, vb) = view_at(c, p, sbe, shape);
        let (wa, wb) = view_at(t, tp, tbe, shape);
        if !same_bytes(c, va, vb, t, wa, wb) || (sle == sbe && tle > tbe) {
            return None;
        }
        let last = tle >= t.len();
        let keep = !last || tle > tbe;
        let kept = kept_at(c, p, sbe, shape);
        let end = p + kept + if keep {
            sle - sbe
        } else {
            0
        };
        if last {
            return Some(end);
        }
        p = end;
        tp = tle;
    }
}

/// Every candidate span of a line level, line start by line start.
fn walk_lines(c: &[u8], t: &[u8], shape: LineShape) -> (v: Vec<(usize, usize)>)
    ensures
        span_ints(v@) == walk(c@, t@, shape),
{
    let mut spans: Vec<(usize, usize)> = Vec::new();
    if t.len() == 0 {
        assert(span_ints(spans@) =~= seq![]);
        return spans;
    }
    let mut p: usize = 0;
    while p < c.len()
        invariant
            t@.len() > 0,
            p <= c@.len(),
            span_ints(spans@) + walk_from(c@, t@, shape, p as int) == walk(c@, t@, shape),
        decreases c@.len() - p,
    {
        proof {
            lemma_line_end(c@, p as int);
        }
        let ghost before = spans@;
        let next = line_end_at(c, p);
        match match_at(c, p, t, shape) {
            Some(e) => {
                spans.push((p, e));
                assert(span_ints(spans@) =~= span_ints(before) + seq![(p as int, e as int)]);
            },
            None => {},
        }
        p = next;
    }
    assert(walk_from(c@, t@, shape, p as int) =~= seq![]);
    assert(span_ints(spans@) + seq![] =~= span_ints(spans@));
    spans
}

/// Every non-overlapping occurrence of `t` in `c`, left to right.
pub fn find_all_spans_pub(c: &[u8], t: &[u8]) -> (v: Vec<(usize, usize)>)
    ensures
        span_ints(v@) == find_all(c@, t@),
{
    let mut spans: Vec<(usize, usize)> = Vec::new();
    if t.len() == 0 || t.len() > c.len() {
        assert(span_ints(spans@) =~= seq![]);
        return spans;
    }
    let mut p: usize = 0;
    while p <= c.len() - t.len()
        invariant
            0 < t@.len() <= c@.len(),
            p <= c@.len(),
            span_ints(spans@) + find_from(c@, t@, p as int) == find_all(c@, t@),
        decreases c@.len() - p,
    {
        let ghost before = spans@;
        if same_bytes(c, p, p + t.len(), t, 0, t.len()) {
            assert(t@.subrange(0, t@.len() as int) =~= t@);
            spans.push((p, p + t.len()));
            assert(span_ints(spans@) =~= span_ints(before) + seq![
                (p as int, p + t@.len()),
            ]);
            p = p + t.len();
        } else {
            assert(t@.subrange(0, t@.len() as int) =~= t@);
            p = p + 1;
        }
    }
    assert(find_from(c@, t@, p as int) =~= seq![]);
    assert(span_ints(spans@) + seq![] =~= span_ints(spans@));
    spans
}

/// How many newlines `c[lo..hi]` holds.
fn count_newlines(c: &[u8], lo: usize, hi: usize) -> (n: usize)
    requires
        lo <= hi <= c@.len(),
    ensures
        n == count_nl(c@.subrange(lo as int, hi as int)),
{
    let mut n: usize = 0;
    let mut k = lo;
    while k < hi
        invariant
            lo <= k <= hi <= c@.len(),
            n == count_nl(c@.subrange(lo as int, k as int)),
            n <= k - lo,
        decreases hi - k,
    {
        assert(c@.subrange(lo as int, k + 1).drop_last() =~= c@.subrange(lo as int, k as int));
        if c[k] == 10 {
            n += 1;
        }
        k += 1;
    }
    n
}

/// The spans found at some level, as the guardrails see them: ordered starts,
/// each span inside the content.
pub open spec fn spans_in_order(c: Seq<u8>, s: Seq<(int, int)>) -> bool {
    &&& forall|i: int| 0 <= i < s.len() ==> 0 <= #[trigger] s[i].0 <= s[i].1 <= c.len()
    &&& forall|i: int, j: int| 0 <= i < j < s.len() ==> s[i].0 <= s[j].0
}

pub proof fn lemma_level_spans_in_order(c: Seq<u8>, t: Seq<u8>, level: MatchLevel)
    ensures
        spans_in_order(c, level_spans(c, t, level)),
{
    match level {
        MatchLevel::Exact => {
            lemma_find_from_shape(c, t, 0);
            let s = find_all(c, t);
            assert forall|i: int, j: int| 0 <= i < j < s.len() implies s[i].0 <= s[j].0 by {
                lemma_find_ordered(c, t, 0, i, j);
            }
        },
        MatchLevel::LineEndWhitespace => {
            lemma_walk_from_shape(c, t, LineShape::TrimEnd, 0);
        },
        MatchLevel::LineTrim => {
            lemma_walk_from_shape(c, t, LineShape::Trim, 0);
        },
    }
}

proof fn lemma_find_ordered(c: Seq<u8>, t: Seq<u8>, p: int, i: int, j: int)
    requires
        0 <= i < j < find_from(c, t, p).len(),
    ensures
        find_from(c, t, p)[i].1 <= find_from(c, t, p)[j].0,
    decreases j - i,
{
    lemma_find_from_shape(c, t, p);
    if j > i + 1 {
        lemma_find_ordered(c, t, p, i + 1, j);
    }
}

/// The guardrails over the candidates of the winning level.
fn guard(c: &[u8], spans: Vec<(usize, usize)>, tlen: usize, replace_all: bool, level: MatchLevel) -> (r: Plan)
    requires
        spans@.len() > 0,
        spans_in_order(c@, span_ints(spans@)),
    ensures
        plan_outcome(r) == guarded(c@, span_ints(spans@), tlen as nat, replace_all, level),
{
    let ghost s = span_ints(spans@);
    let first = spans[0];
    let last = spans[spans.len() - 1];
    assert(s[0] == (first.0 as int, first.1 as int));
    assert(s.last() == (last.0 as int, last.1 as int));
    assert(s[0].0 <= s[s.len() - 1].0);
    let bytes = last.1 - first.0;
    let lines = count_newlines(c, first.0, last.1);
    let ratio = if tlen > usize::MAX / 4 {
        usize::MAX
    } else {
        tlen * 4
    };
    if bytes > MAX_MATCH_BYTES || lines > MAX_MATCH_LINES || bytes > ratio {
        Plan::TooLarge { bytes, lines }
    } else if !replace_all && spans.len() > 1 {
        Plan::NonUnique(spans.len())
    } else {
        Plan::Found(level, spans)
    }
}

/// The ladder over bytes: the first level with a candidate, through the
/// guardrails.
pub fn plan(c: &[u8], t: &[u8], replace_all: bool) -> (r: Plan)
    ensures
        plan_outcome(r) == ladder(c@, t@, replace_all),
        r matches Plan::Found(level, v) ==> span_ints(v@) == winning_spans(c@, t@, replace_all)
            && winning_level(c@, t@, replace_all) == Some(level),
{
    if t.len() == 0 {
        return Plan::NoMatch;
    }
    let exact = find_all_spans_pub(c, t);
    if exact.len() > 0 {
        proof {
            lemma_level_spans_in_order(c@, t@, MatchLevel::Exact);
        }
        return guard(c, exact, t.len(), replace_all, MatchLevel::Exact);
    }
    if replace_all {
        return Plan::NoMatch;
    }
    let trim_end_spans = walk_lines(c, t, LineShape::TrimEnd);
    if trim_end_spans.len() > 0 {
        proof {
            lemma_level_spans_in_order(c@, t@, MatchLevel::LineEndWhitespace);
        }
        return guard(c, trim_end_spans, t.len(), false, MatchLevel::LineEndWhitespace);
    }
    let trim_spans = walk_lines(c, t, LineShape::Trim);
    if trim_spans.len() > 0 {
        proof {
            lemma_level_spans_in_order(c@, t@, MatchLevel::LineTrim);
        }
        return guard(c, trim_spans, t.len(), false, MatchLevel::LineTrim);
    }
    Plan::NoMatch
}

/// `r` in place of the bytes `c[start..end]`.
pub fn splice_bytes(c: &[u8], start: usize, end: usize, r: &[u8]) -> (v: Vec<u8>)
    requires
        start <= end <= c@.len(),
    ensures
        v@ == splice(c@, (start as int, end as int), r@),
{
    let mut v: Vec<u8> = Vec::new();
    let mut i: usize = 0;
    while i < start
        invariant
            i <= start <= end <= c@.len(),
            v@ == c@.subrange(0, i as int),
        decreases start - i,
    {
        v.push(c[i]);
        i += 1;
        assert(v@ =~= c@.subrange(0, i as int));
    }
    let ghost head = v@;
    let mut j: usize = 0;
    while j < r.len()
        invariant
            j <= r@.len(),
            v@ == head + r@.subrange(0, j as int),
        decreases r@.len() - j,
    {
        v.push(r[j]);
        j += 1;
        assert(v@ =~= head + r@.subrange(0, j as int));
    }
    assert(r@.subrange(0, r@.len() as int) =~= r@);
    let ghost mid = v@;
    let mut k: usize = end;
    while k < c.len()
        invariant
            end <= k <= c@.len(),
            v@ == mid + c@.subrange(end as int, k as int),
        decreases c@.len() - k,
    {
        v.push(c[k]);
        k += 1;
        assert(v@ =~= mid + c@.subrange(end as int, k as int));
    }
    v
}

/// `r` in place of every span of `c`, left to right.
pub fn substitute_bytes(c: &[u8], spans: &Vec<(usize, usize)>, r: &[u8]) -> (v: Vec<u8>)
    requires
        cut_points_or_plain(c@, span_ints(spans@)),
    ensures
        v@ == substitute(c@, span_ints(spans@), r@, 0),
{
    let ghost s = span_ints(spans@);
    let mut v: Vec<u8> = Vec::new();
    let mut from: usize = 0;
    let mut i: usize = 0;
    assert(s.skip(0) =~= s);
    assert(v@ + substitute(c@, s, r@, 0) =~= substitute(c@, s, r@, 0));
    while i < spans.len()
        invariant
            s == span_ints(spans@),
            cut_points_or_plain(c@, s),
            i <= spans@.len(),
            from <= c@.len(),
            i < spans@.len() ==> from <= s[i as int].0,
            v@ + substitute(c@, s.skip(i as int), r@, from as int) == substitute(c@, s, r@, 0),
        decreases spans@.len() - i,
    {
        let (a, b) = spans[i];
        assert(s[i as int] == (a as int, b as int));
        let ghost before = v@;
        let mut k = from;
        while k < a
            invariant
                from <= k <= a <= c@.len(),
                v@ == before + c@.subrange(from as int, k as int),
            decreases a - k,
        {
            v.push(c[k]);
            k += 1;
            assert(v@ =~= before + c@.subrange(from as int, k as int));
        }
        let ghost mid = v@;
        let mut j: usize = 0;
        while j < r.len()
            invariant
                j <= r@.len(),
                v@ == mid + r@.subrange(0, j as int),
            decreases r@.len() - j,
        {
            v.push(r[j]);
            j += 1;
            assert(v@ =~= mid + r@.subrange(0, j as int));
        }
        assert(r@.subrange(0, r@.len() as int) =~= r@);
        assert(s.skip(i as int).drop_first() =~= s.skip(i + 1));
        assert(s.skip(i as int)[0] == s[i as int]);
        from = b;
        i += 1;
        if i < spans.len() {
            assert(s[i - 1].1 <= s[i as int].0);
        }
    }
    let ghost before = v@;
    let mut k = from;
    while k < c.len()
        invariant
            from <= k <= c@.len(),
            v@ == before + c@.subrange(from as int, k as int),
        decreases c@.len() - k,
    {
        v.push(c[k]);
        k += 1;
        assert(v@ =~= before + c@.subrange(from as int, k as int));
    }
    assert(s.skip(spans@.len() as int) =~= seq![]);
    v
}

/// Spans in order and inside `c`, none overlapping the next.
pub open spec fn cut_points_or_plain(c: Seq<u8>, s: Seq<(int, int)>) -> bool {
    &&& forall|i: int| 0 <= i < s.len() ==> 0 <= (#[trigger] s[i]).0 <= s[i].1 <= c.len()
    &&& forall|i: int| 0 <= i < s.len() - 1 ==> s[i].1 <= s[i + 1].0
}

} // verus!
