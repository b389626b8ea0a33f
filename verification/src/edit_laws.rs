//! What the edit ladder and its inverse promise as a whole: the ladder is
//! first-success-wins with the exact level first, a single edit is refused
//! rather than guessed when it is not unique, and `/undo` either reproduces a
//! file the edit could really have started from or leaves the workspace alone.

use vstd::prelude::*;

use crate::bytes::utf8_of;
use crate::edit::{replays, revert_hits, revert_outcome};
use crate::ladder::{ladder, level_spans, lemma_level_spans_in_order, spans_in_order, winning_level, LadderOutcome};
use crate::ladder_lemmas::lemma_find_from_shape;
use crate::ladder_spec::{find_all, splice};
use crate::edit::MatchLevel;
use crate::placeholder::placeholder;

verus! {

broadcast use vstd::seq::group_seq_axioms;

/// First success wins and the exact level is always tried first: whenever the
/// search text occurs verbatim, a match the ladder finds is an exact one. With
/// `replace_all` only the exact level is ever consulted.
pub proof fn exact_level_wins(c: Seq<u8>, t: Seq<u8>, replace_all: bool)
    ensures
        (t.len() > 0 && find_all(c, t).len() > 0) ==> winning_level(c, t, replace_all) == Some(
            MatchLevel::Exact,
        ),
        replace_all ==> (ladder(c, t, replace_all) matches LadderOutcome::Found(level, _) ==> level
            == MatchLevel::Exact),
{
}

/// Without `replace_all`, a match the ladder accepts is a single region: more
/// than one candidate is refused, never guessed at.
pub proof fn single_edit_is_unique(c: Seq<u8>, t: Seq<u8>)
    ensures
        ladder(c, t, false) matches LadderOutcome::Found(_, spans) ==> spans.len() == 1,
{
    match winning_level(c, t, false) {
        Some(level) => {
            assert(level_spans(c, t, level).len() > 0);
        },
        None => {},
    }
}

/// Every restore `/undo` tries and keeps replays: the ladder over it finds
/// one region, at the place the restore put the recorded bytes, holding those
/// bytes, and the edit reproduces the current file.
proof fn hits_replay(c: Seq<u8>, b: Seq<u8>, old: Seq<char>, n: Seq<u8>, occ: Seq<(int, int)>)
    ensures
        forall|i: int|
            0 <= i < revert_hits(c, b, old, n, occ).len() ==> {
                let sp = #[trigger] revert_hits(c, b, old, n, occ)[i];
                replays(splice(c, sp, b), old, n, sp.0, b, c)
            },
    decreases occ.len(),
{
    reveal(revert_hits);
    if occ.len() > 0 {
        hits_replay(c, b, old, n, occ.drop_last());
        let rest = revert_hits(c, b, old, n, occ.drop_last());
        let sp = occ.last();
        let h = revert_hits(c, b, old, n, occ);
        assert forall|i: int| 0 <= i < h.len() implies {
            let q = #[trigger] h[i];
            replays(splice(c, q, b), old, n, q.0, b, c)
        } by {
            if i < rest.len() {
                assert(h[i] == rest[i]);
            }
        }
    }
}

/// `/undo` never guesses: when it restores a file, replaying the original
/// edit's arguments over that file finds exactly one region, holding the bytes
/// the edit recorded, and applying the edit there gives back the current file
/// byte for byte.
pub proof fn undo_restores_a_replaying_file(
    content: Seq<char>,
    before: Seq<char>,
    old: Seq<char>,
    new: Seq<char>,
)
    requires
        revert_outcome(content, before, old, new, false) is Ok,
    ensures
        ({
            let r = revert_outcome(content, before, old, new, false)->Ok_0;
            &&& placeholder(old) is None
            &&& ladder(r, utf8_of(old), false) matches LadderOutcome::Found(_, s) && s.len() == 1
                && r.subrange(s[0].0, s[0].1) == utf8_of(before) && splice(r, s[0], utf8_of(new))
                == utf8_of(content)
        }),
{
    let c = utf8_of(content);
    let b = utf8_of(before);
    let n = utf8_of(new);
    let h = revert_hits(c, b, old, n, find_all(c, n));
    hits_replay(c, b, old, n, find_all(c, n));
    assert(h.len() == 1);
    let sp = h[0];
    assert(replays(splice(c, sp, b), old, n, sp.0, b, c));
    reveal(replays);
}

/// Putting the replaced bytes back where the replacement went undoes the
/// replacement.
proof fn splice_back(c: Seq<u8>, s: (int, int), n: Seq<u8>)
    requires
        0 <= s.0 <= s.1 <= c.len(),
    ensures
        splice(splice(c, s, n), (s.0, s.0 + n.len()), c.subrange(s.0, s.1)) == c,
{
    let e = splice(c, s, n);
    assert(e.subrange(0, s.0) =~= c.subrange(0, s.0));
    assert(e.subrange(s.0 + n.len(), e.len() as int) =~= c.subrange(s.1, c.len() as int));
    assert(splice(e, (s.0, s.0 + n.len()), c.subrange(s.0, s.1)) =~= c);
}

/// `/undo` undoes an accepted single edit: when the edited file holds the
/// replacement text exactly once, reverting with the bytes the edit replaced
/// gives back the file as it was before the edit.
pub proof fn undo_restores_the_original(
    original: Seq<char>,
    edited: Seq<char>,
    before: Seq<char>,
    old: Seq<char>,
    new: Seq<char>,
)
    requires
        new.len() > 0,
        placeholder(old) is None,
        ladder(utf8_of(original), utf8_of(old), false) is Found,
        ({
            let c = utf8_of(original);
            let s = (ladder(c, utf8_of(old), false)->Found_1)[0];
            let n = utf8_of(new);
            &&& utf8_of(before) == c.subrange(s.0, s.1)
            &&& utf8_of(edited) == splice(c, s, n)
            &&& find_all(utf8_of(edited), n) == seq![(s.0, s.0 + n.len())]
        }),
    ensures
        revert_outcome(edited, before, old, new, false) == Ok::<Seq<u8>, crate::edit::RevertError>(
            utf8_of(original),
        ),
{
    let c = utf8_of(original);
    let o = utf8_of(old);
    let n = utf8_of(new);
    let e = utf8_of(edited);
    let b = utf8_of(before);
    single_edit_is_unique(c, o);
    let level = ladder(c, o, false)->Found_0;
    let spans = ladder(c, o, false)->Found_1;
    let s = spans[0];
    assert(winning_level(c, o, false) == Some(level));
    assert(spans == level_spans(c, o, level));
    lemma_level_spans_in_order(c, o, level);
    assert(spans_in_order(c, spans));
    assert(0 <= s.0 <= s.1 <= c.len());
    assert(new.len() > 0 ==> n.len() > 0) by {
        crate::bytes::lemma_utf8_nonempty(new);
    }
    splice_back(c, s, n);
    let occ = seq![(s.0, s.0 + n.len())];
    assert(splice(e, occ[0], b) == c);
    assert(replays(c, old, n, s.0, b, e)) by {
        reveal(replays);
    }
    assert(revert_hits(c, b, old, n, occ.drop_last()) == Seq::<(int, int)>::empty()) by {
        reveal(revert_hits);
    }
    assert(revert_hits(e, b, old, n, occ) == seq![(s.0, s.0 + n.len())]) by {
        reveal(revert_hits);
        assert(occ.drop_last() =~= Seq::<(int, int)>::empty());
        assert(revert_hits(e, b, old, n, Seq::<(int, int)>::empty()) == Seq::<(int, int)>::empty());
        assert(occ.last() == (s.0, s.0 + n.len()));
    }
}

} // verus!
