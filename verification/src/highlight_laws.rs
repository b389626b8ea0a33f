//! What painting a highlighter's steps keeps of the text: when the runs of
//! source it reports tile the text, one after another from its start to its
//! end, the painted lines hold the text whole, cut only at its newlines.

use vstd::prelude::*;
use vstd::utf8::*;

use crate::bytes::{at_char_start, lemma_valid_subrange, utf8_of};
use crate::highlight::{add_parts, painted, piece, run_steps, split_nl, Class, HighlightStep};
use crate::text::join;

verus! {

broadcast use vstd::seq::group_seq_axioms;

/// The text of a painted line: its spans' texts, one after another.
pub open spec fn line_text(line: Seq<(Seq<char>, Class)>) -> Seq<char>
    decreases line.len(),
{
    if line.len() == 0 {
        seq![]
    } else {
        line_text(line.drop_last()) + line.last().0
    }
}

/// The texts of painted lines.
pub open spec fn line_texts(lines: Seq<Seq<(Seq<char>, Class)>>) -> Seq<Seq<char>> {
    lines.map_values(|l: Seq<(Seq<char>, Class)>| line_text(l))
}

/// Painted lines as one text: the lines' texts joined by newlines.
pub open spec fn joined(lines: Seq<Seq<(Seq<char>, Class)>>) -> Seq<char> {
    join(line_texts(lines), "\n"@)
}

/// How far into `b` the first `n` steps have painted, when every run of
/// source among them starts where the one before ended (the first at the
/// start) and cuts the text at character starts; `None` once one does not.
pub open spec fn reached(b: Seq<u8>, steps: Seq<HighlightStep>, n: int) -> Option<int>
    decreases n,
{
    if n <= 0 {
        Some(0)
    } else {
        match reached(b, steps, n - 1) {
            None => None,
            Some(p) => match steps[n - 1] {
                HighlightStep::Source { start, end } => if start == p && piece(
                    b,
                    start as int,
                    end as int,
                ) is Some {
                    Some(end as int)
                } else {
                    None
                },
                _ => Some(p),
            },
        }
    }
}

/// The steps' runs of source tile the text: one after another, from its
/// first byte to its last.
pub open spec fn tiles(source: Seq<char>, steps: Seq<HighlightStep>) -> bool {
    reached(utf8_of(source), steps, steps.len() as int) == Some(utf8_of(source).len() as int)
}

/// Joining with one more character on the last part adds that character.
proof fn lemma_join_extend_last(parts: Seq<Seq<char>>, x: Seq<char>)
    requires
        parts.len() >= 1,
    ensures
        join(parts.update(parts.len() - 1, parts.last() + x), "\n"@) == join(parts, "\n"@) + x,
{
    let u = parts.update(parts.len() - 1, parts.last() + x);
    if parts.len() > 1 {
        assert(u.drop_last() =~= parts.drop_last());
    }
}

/// Joining with one more empty part adds a newline.
proof fn lemma_join_push_empty(parts: Seq<Seq<char>>)
    requires
        parts.len() >= 1,
    ensures
        join(parts.push(seq![]), "\n"@) == join(parts, "\n"@) + "\n"@,
{
    assert(parts.push(seq![]).drop_last() =~= parts);
    assert(join(parts, "\n"@) + "\n"@ + seq![] =~= join(parts, "\n"@) + "\n"@);
}

/// Cutting at newlines and joining again gives the text back.
proof fn lemma_join_split(t: Seq<char>)
    ensures
        join(split_nl(t), "\n"@) == t,
    decreases t.len(),
{
    if t.len() > 0 {
        let r = split_nl(t.drop_last());
        lemma_join_split(t.drop_last());
        crate::highlight::lemma_split_nl_len(t.drop_last());
        if t.last() == '\n' {
            lemma_join_push_empty(r);
            assert(t.drop_last() + "\n"@ =~= t) by {
                reveal_strlit("\n");
            }
        } else {
            lemma_join_extend_last(r, seq![t.last()]);
            assert(r.last().push(t.last()) =~= r.last() + seq![t.last()]);
            assert(t.drop_last() + seq![t.last()] =~= t);
        }
    }
}

/// Adding parts never takes a line away.
proof fn lemma_add_parts_len(lines: Seq<Seq<(Seq<char>, Class)>>, parts: Seq<Seq<char>>, class: Class)
    ensures
        add_parts(lines, parts, class).len() >= lines.len(),
    decreases parts.len(),
{
    if parts.len() > 0 {
        lemma_add_parts_len(lines, parts.drop_last(), class);
    }
}

/// Adding parts adds their text, a newline before each after the first.
proof fn lemma_add_parts_joined(
    lines: Seq<Seq<(Seq<char>, Class)>>,
    parts: Seq<Seq<char>>,
    class: Class,
)
    requires
        lines.len() >= 1,
    ensures
        joined(add_parts(lines, parts, class)) == joined(lines) + join(parts, "\n"@),
    decreases parts.len(),
{
    if parts.len() == 0 {
        assert(joined(lines) + seq![] =~= joined(lines));
    } else {
        let l = add_parts(lines, parts.drop_last(), class);
        lemma_add_parts_joined(lines, parts.drop_last(), class);
        lemma_add_parts_len(lines, parts.drop_last(), class);
        let l2 = if parts.len() > 1 {
            l.push(seq![])
        } else {
            l
        };
        if parts.len() > 1 {
            assert(line_texts(l2) =~= line_texts(l).push(seq![])) by {
                assert(line_text(seq![]) == Seq::<char>::empty());
            }
            lemma_join_push_empty(line_texts(l));
            assert(joined(l2) == joined(l) + "\n"@);
        } else {
            assert(parts.drop_last() =~= seq![]);
            assert(join(parts.drop_last(), "\n"@) =~= seq![]);
            assert(joined(lines) + seq![] =~= joined(lines));
        }
        let p = parts.last();
        if p.len() > 0 {
            let last = l2.last().push((p, class));
            let l3 = l2.update(l2.len() - 1, last);
            assert(last.drop_last() =~= l2.last());
            assert(line_text(last) == line_text(l2.last()) + p);
            assert(line_texts(l3) =~= line_texts(l2).update(
                line_texts(l2).len() - 1,
                line_texts(l2).last() + p,
            ));
            lemma_join_extend_last(line_texts(l2), p);
        } else {
            assert(p =~= seq![]);
            assert(joined(l2) + p =~= joined(l2));
        }
        if parts.len() > 1 {
            assert(join(parts, "\n"@) == join(parts.drop_last(), "\n"@) + "\n"@ + p);
        } else {
            assert(join(parts, "\n"@) == p);
        }
        assert(joined(add_parts(lines, parts, class)) =~= joined(lines) + join(parts, "\n"@));
    }
}

/// What the first `n` steps have painted is the text up to where they reached.
proof fn lemma_run_steps_joined(
    b: Seq<u8>,
    names: Seq<Seq<char>>,
    steps: Seq<HighlightStep>,
    n: int,
)
    requires
        valid_utf8(b),
        0 <= n <= steps.len(),
        reached(b, steps, n) is Some,
    ensures
        run_steps(b, names, steps, n).0.len() >= 1,
        joined(run_steps(b, names, steps, n).0) == decode_utf8(
            b.subrange(0, reached(b, steps, n)->0),
        ),
        0 <= reached(b, steps, n)->0 <= b.len(),
        at_char_start(b, reached(b, steps, n)->0),
    decreases n,
{
    if n == 0 {
        let first: Seq<Seq<(Seq<char>, Class)>> = seq![seq![]];
        assert(line_texts(first) =~= seq![Seq::<char>::empty()]);
        assert(b.subrange(0, 0) =~= Seq::<u8>::empty());
        assert(decode_utf8(Seq::<u8>::empty()) =~= Seq::<char>::empty());
    } else {
        lemma_run_steps_joined(b, names, steps, n - 1);
        let p = reached(b, steps, n - 1)->0;
        let (lines, stack) = run_steps(b, names, steps, n - 1);
        match steps[n - 1] {
            HighlightStep::Source { start, end } => {
                let t = piece(b, start as int, end as int)->0;
                let class = if stack.len() > 0 {
                    stack.last()
                } else {
                    Class::Plain
                };
                lemma_add_parts_joined(lines, split_nl(t), class);
                lemma_add_parts_len(lines, split_nl(t), class);
                lemma_join_split(t);
                let e = end as int;
                let whole = b.subrange(0, e);
                lemma_valid_subrange(b, 0, e);
                assert(valid_utf8(whole));
                is_char_boundary_start_end_of_seq(whole);
                if 0 < p < e {
                    assert(whole[p] == b[p]);
                    is_char_boundary_iff_not_is_continuation_byte(whole, p);
                }
                assert(is_char_boundary(whole, p));
                decode_utf8_split(whole, p);
                assert(whole.subrange(0, p) =~= b.subrange(0, p));
                assert(whole.subrange(p, whole.len() as int) =~= b.subrange(p, e));
            },
            _ => {},
        }
    }
}

/// Steps whose runs of source tile the text paint it back whole: the painted
/// lines' texts, joined by newlines, are the text.
pub proof fn tiled_steps_paint_the_whole_text(
    source: Seq<char>,
    names: Seq<Seq<char>>,
    steps: Seq<HighlightStep>,
)
    requires
        tiles(source, steps),
    ensures
        joined(painted(source, names, steps)) == source,
{
    let b = utf8_of(source);
    encode_utf8_valid_utf8(source);
    lemma_run_steps_joined(b, names, steps, steps.len() as int);
    assert(b.subrange(0, b.len() as int) =~= b);
    encode_utf8_decode_utf8(source);
}

} // verus!
