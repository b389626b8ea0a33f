//! Facts about UTF-8 byte sequences that the byte-level text algorithms rely
//! on: where a valid sequence may be cut so that both sides stay valid.

use vstd::prelude::*;
use vstd::utf8::*;

verus! {

broadcast use vstd::seq::group_seq_axioms;

/// `i` is a position a `str` may be sliced at: an end of the sequence, or a
/// byte that does not continue an earlier character.
pub open spec fn at_char_start(c: Seq<u8>, i: int) -> bool {
    ||| i == 0
    ||| i == c.len()
    ||| (0 < i < c.len() && !is_continuation_byte(c[i]))
}

/// The bytes that a sequence of characters is stored as.
pub open spec fn utf8_of(s: Seq<char>) -> Seq<u8> {
    encode_utf8(s)
}

/// A non-empty valid sequence starts with a leading byte.
pub proof fn lemma_valid_starts_with_leading(r: Seq<u8>)
    requires
        valid_utf8(r),
        r.len() > 0,
    ensures
        !is_continuation_byte(r[0]),
{
}

/// Cutting a valid sequence at two character starts leaves a valid piece.
pub proof fn lemma_valid_subrange(c: Seq<u8>, a: int, b: int)
    requires
        valid_utf8(c),
        0 <= a <= b <= c.len(),
        at_char_start(c, a),
        at_char_start(c, b),
    ensures
        valid_utf8(c.subrange(a, b)),
{
    is_char_boundary_start_end_of_seq(c);
    if 0 < a < c.len() {
        is_char_boundary_iff_not_is_continuation_byte(c, a);
    }
    assert(is_char_boundary(c, a));
    valid_utf8_split(c, a);
    let d = c.subrange(a, c.len() as int);
    assert(valid_utf8(d));
    is_char_boundary_start_end_of_seq(d);
    if b < c.len() && b > a {
        assert(d[b - a] == c[b]);
        is_char_boundary_iff_not_is_continuation_byte(d, b - a);
    }
    if b == c.len() {
        assert(d.len() == b - a);
    }
    assert(is_char_boundary(d, b - a));
    valid_utf8_split(d, b - a);
    assert(d.subrange(0, b - a) =~= c.subrange(a, b));
}

/// What follows a valid prefix of a valid sequence is valid.
pub proof fn lemma_valid_rest(t: Seq<u8>, r: Seq<u8>)
    requires
        valid_utf8(t),
        valid_utf8(t + r),
    ensures
        valid_utf8(r),
    decreases t.len(),
{
    if t.len() == 0 {
        assert(t + r =~= r);
    } else {
        let tr = t + r;
        let n = length_of_first_scalar(t);
        assert(valid_first_scalar(t));
        assert(1 <= n <= t.len());
        assert(tr[0] == t[0]);
        assert(n >= 2 ==> tr[1] == t[1]);
        assert(n >= 3 ==> tr[2] == t[2]);
        assert(n >= 4 ==> tr[3] == t[3]);
        assert(length_of_first_scalar(tr) == n);
        assert(pop_first_scalar(tr) =~= pop_first_scalar(t) + r);
        assert(pop_first_scalar(t).len() < t.len());
        lemma_valid_rest(pop_first_scalar(t), r);
    }
}

/// A place where a valid needle occurs in a valid haystack is cut at
/// character starts on both sides.
pub proof fn lemma_occurrence_at_char_starts(c: Seq<u8>, t: Seq<u8>, i: int)
    requires
        valid_utf8(c),
        valid_utf8(t),
        t.len() > 0,
        0 <= i,
        i + t.len() <= c.len(),
        c.subrange(i, i + t.len()) == t,
    ensures
        at_char_start(c, i),
        at_char_start(c, i + t.len()),
{
    lemma_valid_starts_with_leading(t);
    assert(c[i] == t[0]);
    assert(at_char_start(c, i));
    lemma_valid_subrange(c, i, c.len() as int);
    let d = c.subrange(i, c.len() as int);
    let r = c.subrange(i + t.len(), c.len() as int);
    assert(d =~= t + r);
    lemma_valid_rest(t, r);
    if i + t.len() < c.len() {
        lemma_valid_starts_with_leading(r);
        assert(r[0] == c[i + t.len()]);
    }
}

/// Gluing valid pieces keeps the whole valid.
pub proof fn lemma_valid_concat3(a: Seq<u8>, b: Seq<u8>, c: Seq<u8>)
    requires
        valid_utf8(a),
        valid_utf8(b),
        valid_utf8(c),
    ensures
        valid_utf8(a + b + c),
{
    valid_utf8_concat(a, b);
    valid_utf8_concat(a + b, c);
}

/// Non-empty text is stored in at least one byte.
pub proof fn lemma_utf8_nonempty(s: Seq<char>)
    ensures
        s.len() > 0 ==> utf8_of(s).len() > 0,
{
    if s.len() > 0 {
        assert(vstd::utf8::encode_scalar(s[0] as u32).len() >= 1);
    }
}

} // verus!
