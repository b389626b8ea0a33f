//! The edit matching ladder.
//!
//! A pure function over `(file content, old_string, new_string)`. The ladder is
//! an ordered list of match levels, first-success-wins, so a small formatting
//! deviation by the model does not fail the edit; the level that hit is
//! reported because a downgrade must never be silent. Three guardrails reject
//! the dangerous edits: a non-unique match, an over-large matched span, and a
//! placeholder phrase shaped like a comment.
//!
//! [`revert`] is the inverse: given the file as it is now and the bytes an
//! edit replaced, it reconstructs the content the edit started from, accepting
//! a candidate only when replaying the ladder over it reproduces the file.

use std::ops::Range;

use vstd::prelude::*;
use vstd::slice::{slice_subrange, slice_to_vec};
use vstd::utf8::{encode_utf8, valid_utf8};

use crate::bytes::{
    at_char_start, lemma_occurrence_at_char_starts, lemma_valid_concat3, lemma_valid_subrange,
    utf8_of,
};
use crate::ladder::{
    ladder, ladder_cuts_whole_chars, lemma_level_spans_in_order, level_spans, plan,
    plan_outcome, region_whole_chars, spans_in_order, winning_spans, LadderOutcome, Plan,
};
use crate::ladder::{cut_points_or_plain, find_all_spans_pub, same_bytes, splice_bytes, substitute_bytes};
use crate::ladder_lemmas::{cut_points, lemma_find_from_shape, lemma_splice_valid, lemma_substitute_valid};
use crate::ladder_spec::{find_all, find_from, span_ints, splice, substitute};
use crate::placeholder::{placeholder, placeholder_phrase};
use crate::text::{chars_of, decimal, push_char, push_decimal, push_str, text_of_bytes};

verus! {

broadcast use vstd::seq::group_seq_axioms, vstd::utf8::encode_utf8_valid_utf8;

/// The ordered ladder. First success wins; `Exact` is always tried first.
#[derive(Debug, Clone, Copy, PartialEq, Eq, PartialOrd, Ord, Structural)]
pub enum MatchLevel {
    /// Byte-for-byte equality.
    Exact,
    /// Equal once trailing whitespace at end of line is ignored.
    LineEndWhitespace,
    /// Equal once every line is trimmed (indentation included).
    LineTrim,
}

/// The stable name of a level.
pub open spec fn level_name(level: MatchLevel) -> Seq<char> {
    match level {
        MatchLevel::Exact => "exact"@,
        MatchLevel::LineEndWhitespace => "line-end-whitespace-insensitive"@,
        MatchLevel::LineTrim => "line-trim"@,
    }
}

impl MatchLevel {
    /// Every level, in ladder order.
    pub const LADDER: [MatchLevel; 3] = [
        MatchLevel::Exact,
        MatchLevel::LineEndWhitespace,
        MatchLevel::LineTrim,
    ];

    /// Stable name for diagnostics and the contract text in a tool result.
    pub fn as_str(&self) -> (s: &'static str)
        ensures
            s@ == level_name(*self),
    {
        match self {
            MatchLevel::Exact => "exact",
            MatchLevel::LineEndWhitespace => "line-end-whitespace-insensitive",
            MatchLevel::LineTrim => "line-trim",
        }
    }
}

/// One accepted edit: where it lands, the bytes it replaces, and the
/// replacement.
///
/// `old_text` is the **actual replaced region** from the file, not the
/// caller's `old_string`: a downgraded level matches different bytes, and that
/// difference is exactly what an undo needs to restore.
#[derive(Debug, PartialEq, Eq)]
pub struct EditMatch {
    pub level: MatchLevel,
    /// Byte range replaced in the original content.
    pub span: Range<usize>,
    /// The original bytes at `span`.
    pub old_text: String,
    /// The bytes that take `span`'s place.
    pub new_text: String,
}

/// Why an undo could not reconstruct the content a snapshot came from.
///
/// Every variant is a refusal, never a guess.
#[derive(Debug, Clone, Copy, PartialEq, Eq, Structural)]
pub enum RevertError {
    /// The file no longer contains the region this snapshot replaced.
    Stale,
    /// More than one region of the file could be the one replaced.
    Ambiguous,
    /// The edit deleted the matched region, and nothing records where it was.
    CannotLocateDeletion,
}

/// Why an edit was refused. Every variant carries the detail the model needs
/// to correct itself.
#[derive(Debug, Clone, PartialEq, Eq)]
pub enum EditError {
    NoMatch,
    NonUnique { count: usize, old_text: String },
    MatchTooLarge { bytes: usize, lines: usize, old_bytes: usize },
    Placeholder { phrase: String },
}

impl RevertError {
    /// What the refusal says.
    pub fn message(&self) -> (s: String)
        ensures
            s@ == revert_error_text(*self),
    {
        let mut s = String::new();
        match self {
            RevertError::Stale => push_str(
                &mut s,
                "the file no longer contains the region this snapshot replaced",
            ),
            RevertError::Ambiguous => push_str(
                &mut s,
                "more than one region of the file could be the one this snapshot replaced; the file has changed since the edit",
            ),
            RevertError::CannotLocateDeletion => push_str(
                &mut s,
                "this edit deleted the matched region, and the stream records no position for it; it cannot be undone automatically",
            ),
        }
        s
    }
}

/// The text of a revert refusal.
pub open spec fn revert_error_text(e: RevertError) -> Seq<char> {
    match e {
        RevertError::Stale => "the file no longer contains the region this snapshot replaced"@,
        RevertError::Ambiguous => "more than one region of the file could be the one this snapshot replaced; the file has changed since the edit"@,
        RevertError::CannotLocateDeletion => "this edit deleted the matched region, and the stream records no position for it; it cannot be undone automatically"@,
    }
}

/// `s` as a quoted literal: wrapped in double quotes, with quotes, backslashes
/// and the three common control characters escaped.
pub open spec fn quoted(s: Seq<char>) -> Seq<char> {
    seq!['"'] + escaped(s) + seq!['"']
}

pub open spec fn escaped(s: Seq<char>) -> Seq<char>
    decreases s.len(),
{
    if s.len() == 0 {
        seq![]
    } else {
        escaped(s.drop_last()) + escape_char(s.last())
    }
}

pub open spec fn escape_char(c: char) -> Seq<char> {
    if c == '"' {
        seq!['\\', '"']
    } else if c == '\\' {
        seq!['\\', '\\']
    } else if c == '\n' {
        seq!['\\', 'n']
    } else if c == '\r' {
        seq!['\\', 'r']
    } else if c == '\t' {
        seq!['\\', 't']
    } else {
        seq![c]
    }
}

fn push_quoted(s: &mut String, text: &str)
    ensures
        final(s)@ == old(s)@ + quoted(text@),
{
    let chars = chars_of(text);
    push_char(s, '"');
    let ghost start = s@;
    let mut i: usize = 0;
    while i < chars.len()
        invariant
            i <= chars@.len(),
            chars@ == text@,
            s@ == start + escaped(chars@.take(i as int)),
        decreases chars@.len() - i,
    {
        let c = chars[i];
        if c == '"' {
            push_char(s, '\\');
            push_char(s, '"');
        } else if c == '\\' {
            push_char(s, '\\');
            push_char(s, '\\');
        } else if c == '\n' {
            push_char(s, '\\');
            push_char(s, 'n');
        } else if c == '\r' {
            push_char(s, '\\');
            push_char(s, 'r');
        } else if c == '\t' {
            push_char(s, '\\');
            push_char(s, 't');
        } else {
            push_char(s, c);
        }
        assert(chars@.take(i + 1).drop_last() =~= chars@.take(i as int));
        i += 1;
    }
    assert(chars@.take(chars@.len() as int) =~= chars@);
    push_char(s, '"');
}

/// The text of an edit refusal.
pub open spec fn edit_error_text(e: EditError) -> Seq<char> {
    match e {
        EditError::NoMatch => "no match found at any level of the ladder (exact, line-end-whitespace-insensitive, line-trim)"@,
        EditError::NonUnique { count, .. } => "`old_string` matches "@ + decimal(count as nat)
            + " times; include more surrounding context to make it unique, or pass replace_all to change every occurrence"@,
        EditError::MatchTooLarge { bytes, lines, old_bytes } => "matched region is "@ + decimal(
            bytes as nat,
        ) + " bytes / "@ + decimal(lines as nat) + " lines, too large for `old_string` ("@
            + decimal(old_bytes as nat)
            + " bytes); include the exact text you mean to replace"@,
        EditError::Placeholder { phrase } => "`old_string` looks like a placeholder ("@ + quoted(
            phrase@,
        )
            + "); it is a comment-shaped stand-in, not text in the file. Pass the real text you want to replace"@,
    }
}

impl EditError {
    /// What the refusal tells the model, with the detail it needs to correct
    /// itself.
    pub fn message(&self) -> (s: String)
        ensures
            s@ == edit_error_text(*self),
    {
        let mut s = String::new();
        match self {
            EditError::NoMatch => push_str(
                &mut s,
                "no match found at any level of the ladder (exact, line-end-whitespace-insensitive, line-trim)",
            ),
            EditError::NonUnique { count, .. } => {
                push_str(&mut s, "`old_string` matches ");
                push_decimal(&mut s, *count as u64);
                push_str(
                    &mut s,
                    " times; include more surrounding context to make it unique, or pass replace_all to change every occurrence",
                );
            },
            EditError::MatchTooLarge { bytes, lines, old_bytes } => {
                push_str(&mut s, "matched region is ");
                push_decimal(&mut s, *bytes as u64);
                push_str(&mut s, " bytes / ");
                push_decimal(&mut s, *lines as u64);
                push_str(&mut s, " lines, too large for `old_string` (");
                push_decimal(&mut s, *old_bytes as u64);
                push_str(&mut s, " bytes); include the exact text you mean to replace");
            },
            EditError::Placeholder { phrase } => {
                push_str(&mut s, "`old_string` looks like a placeholder (");
                push_quoted(&mut s, phrase.as_str());
                push_str(
                    &mut s,
                    "); it is a comment-shaped stand-in, not text in the file. Pass the real text you want to replace",
                );
            },
        }
        s
    }
}

/// The edits a found match plans: one per span, each replacing exactly the
/// content's bytes there with `new_text`.
pub open spec fn edits_are(
    c: Seq<u8>,
    new_text: Seq<char>,
    level: MatchLevel,
    spans: Seq<(int, int)>,
    v: Seq<EditMatch>,
) -> bool {
    &&& v.len() == spans.len()
    &&& forall|i: int|
        0 <= i < v.len() ==> {
            &&& (#[trigger] v[i]).level == level
            &&& v[i].span.start == spans[i].0
            &&& v[i].span.end == spans[i].1
            &&& encode_utf8(v[i].old_text@) == c.subrange(spans[i].0, spans[i].1)
            &&& v[i].new_text@ == new_text
        }
}

/// What [`find_matches`] answers for the given content and arguments.
pub open spec fn matches_result(
    content: Seq<char>,
    old: Seq<char>,
    new: Seq<char>,
    replace_all: bool,
    r: Result<Vec<EditMatch>, EditError>,
) -> bool {
    match placeholder(old) {
        Some(p) => r matches Err(EditError::Placeholder { phrase }) && phrase@ == p,
        None => match ladder(utf8_of(content), utf8_of(old), replace_all) {
            LadderOutcome::NoMatch => r matches Err(EditError::NoMatch),
            LadderOutcome::NonUnique(n) => r matches Err(EditError::NonUnique { count, old_text })
                && count == n && old_text@ == old,
            LadderOutcome::TooLarge(bytes, lines) => r matches Err(
                EditError::MatchTooLarge { bytes: b, lines: l, old_bytes },
            ) && b == bytes && l == lines && old_bytes == utf8_of(old).len(),
            LadderOutcome::Found(level, spans) => r matches Ok(v) && edits_are(
                utf8_of(content),
                new,
                level,
                spans,
                v@,
            ),
        },
    }
}

/// Plan every edit for one `old_string`/`new_string` pair.
///
/// With `replace_all` the match is looked up at the exact level only: a
/// downgraded level is there to absorb a formatting slip on a unique string.
/// Without `replace_all`, more than one hit is refused instead of guessed at.
pub fn find_matches(content: &str, old_string: &str, new_string: &str, replace_all: bool) -> (r:
    Result<Vec<EditMatch>, EditError>)
    requires
        placeholder(old_string@) is None ==> ladder_cuts_whole_chars(
            utf8_of(content@),
            utf8_of(old_string@),
            replace_all,
        ),
    ensures
        matches_result(content@, old_string@, new_string@, replace_all, r),
{
    let old_chars = chars_of(old_string);
    match placeholder_phrase(&old_chars) {
        Some(phrase) => {
            return Err(EditError::Placeholder { phrase });
        },
        None => {},
    }
    let c = content.as_bytes();
    let t = old_string.as_bytes();
    match plan(c, t, replace_all) {
        Plan::NoMatch => Err(EditError::NoMatch),
        Plan::NonUnique(count) => Err(
            EditError::NonUnique { count, old_text: old_string.to_owned() },
        ),
        Plan::TooLarge { bytes, lines } => Err(
            EditError::MatchTooLarge { bytes, lines, old_bytes: t.len() },
        ),
        Plan::Found(level, spans) => {
            let ghost s = span_ints(spans@);
            proof {
                lemma_level_spans_in_order(c@, t@, level);
                lemma_find_from_shape(c@, t@, 0);
            }
            let mut edits: Vec<EditMatch> = Vec::new();
            let mut i: usize = 0;
            while i < spans.len()
                invariant
                    s == span_ints(spans@),
                    s == level_spans(c@, t@, level),
                    s == winning_spans(c@, t@, replace_all),
                    c@ == utf8_of(content@),
                    t@ == utf8_of(old_string@),
                    ladder(c@, t@, replace_all) == LadderOutcome::Found(level, s),
                    spans_in_order(c@, s),
                    level == MatchLevel::Exact || (!replace_all && s.len() == 1
                        && region_whole_chars(c@, s)),
                    i <= spans@.len(),
                    edits_are(c@, new_string@, level, s.take(i as int), edits@),
                decreases spans@.len() - i,
            {
                let (start, end) = spans[i];
                assert(s[i as int] == (start as int, end as int));
                proof {
                    if level == MatchLevel::Exact {
                        lemma_find_from_shape(c@, t@, 0);
                        assert(s[i as int] == find_from(c@, t@, 0)[i as int]);
                        lemma_occurrence_at_char_starts(c@, t@, start as int);
                    }
                    if level != MatchLevel::Exact {
                        assert(i == 0);
                        assert(s.last() == s[0]);
                    }
                    lemma_valid_subrange(c@, start as int, end as int);
                }
                let piece = slice_to_vec(slice_subrange(c, start, end));
                let old_text = text_of_bytes(piece);
                let ghost before = edits@;
                edits.push(
                    EditMatch {
                        level,
                        span: Range { start, end },
                        old_text,
                        new_text: new_string.to_owned(),
                    },
                );
                i += 1;
                assert(edits_are(c@, new_string@, level, s.take(i as int), edits@)) by {
                    assert forall|j: int| 0 <= j < edits@.len() implies {
                        &&& (#[trigger] edits@[j]).level == level
                        &&& edits@[j].span.start == s.take(i as int)[j].0
                        &&& edits@[j].span.end == s.take(i as int)[j].1
                        &&& encode_utf8(edits@[j].old_text@) == c@.subrange(
                            s.take(i as int)[j].0,
                            s.take(i as int)[j].1,
                        )
                        &&& edits@[j].new_text@ == new_string@
                    } by {
                        if j < i - 1 {
                            assert(edits@[j] == before[j]);
                        }
                    }
                }
            }
            assert(s.take(spans@.len() as int) =~= s);
            Ok(edits)
        },
    }
}

/// Find the first successful level and return the one planned edit.
pub fn find_match(content: &str, old_string: &str, new_string: &str) -> (r: Result<
    EditMatch,
    EditError,
>)
    requires
        placeholder(old_string@) is None ==> ladder_cuts_whole_chars(
            utf8_of(content@),
            utf8_of(old_string@),
            false,
        ),
    ensures
        match placeholder(old_string@) {
            Some(p) => r matches Err(EditError::Placeholder { phrase }) && phrase@ == p,
            None => match ladder(utf8_of(content@), utf8_of(old_string@), false) {
                LadderOutcome::NoMatch => r matches Err(EditError::NoMatch),
                LadderOutcome::NonUnique(n) => r matches Err(
                    EditError::NonUnique { count, old_text },
                ) && count == n && old_text@ == old_string@,
                LadderOutcome::TooLarge(bytes, lines) => r matches Err(
                    EditError::MatchTooLarge { bytes: b, lines: l, old_bytes },
                ) && b == bytes && l == lines && old_bytes == utf8_of(old_string@).len(),
                LadderOutcome::Found(level, spans) => r matches Ok(m) && edits_are(
                    utf8_of(content@),
                    new_string@,
                    level,
                    spans,
                    seq![m],
                ),
            },
        },
{
    let r = find_matches(content, old_string, new_string, false);
    match r {
        Ok(mut edits) => {
            proof {
                let c = utf8_of(content@);
                let t = utf8_of(old_string@);
                if let LadderOutcome::Found(level, spans) = ladder(c, t, false) {
                    assert(spans.len() <= 1);
                }
            }
            if edits.len() == 0 {
                return Err(EditError::NoMatch);
            }
            let ghost v = edits@;
            let m = edits.remove(0);
            assert(seq![m] =~= v);
            Ok(m)
        },
        Err(e) => Err(e),
    }
}

/// Whether replaying the ladder over `cand` reproduces `c`, with its one match
/// starting at `start` on exactly the bytes `b`.
#[verifier::opaque]
pub open spec fn replays(cand: Seq<u8>, old: Seq<char>, n: Seq<u8>, start: int, b: Seq<u8>, c: Seq<
    u8,
>) -> bool {
    &&& placeholder(old) is None
    &&& match ladder(cand, utf8_of(old), false) {
        LadderOutcome::Found(_, s) => {
            &&& s.len() == 1
            &&& s[0].0 == start
            &&& cand.subrange(s[0].0, s[0].1) == b
            &&& splice(cand, s[0], n) == c
        },
        _ => false,
    }
}

/// The occurrences of the replacement whose restore replays, in order.
#[verifier::opaque]
pub open spec fn revert_hits(c: Seq<u8>, b: Seq<u8>, old: Seq<char>, n: Seq<u8>, occ: Seq<
    (int, int),
>) -> Seq<(int, int)>
    decreases occ.len(),
{
    if occ.len() == 0 {
        seq![]
    } else {
        let rest = revert_hits(c, b, old, n, occ.drop_last());
        let sp = occ.last();
        if replays(splice(c, sp, b), old, n, sp.0, b, c) {
            rest.push(sp)
        } else {
            rest
        }
    }
}

/// `b` is `o` repeated.
pub open spec fn repeats(b: Seq<u8>, o: Seq<u8>) -> bool {
    forall|i: int| 0 <= i < b.len() ==> #[trigger] b[i] == o[i % (o.len() as int)]
}

/// Rebuilding the content a `replace_all` edit of `count` regions started
/// from: `old` back in place of every `n`, accepted only when replaying the
/// edit over the result reproduces `c`.
pub open spec fn restore_all(c: Seq<u8>, old: Seq<char>, n: Seq<u8>, count: int) -> Result<
    Seq<u8>,
    RevertError,
> {
    let o = utf8_of(old);
    let restored = substitute(c, find_all(c, n), o, 0);
    if placeholder(old) is Some {
        Err(RevertError::Stale)
    } else {
        match ladder(restored, o, true) {
            LadderOutcome::Found(_, s) => if s.len() == count && substitute(restored, s, n, 0)
                == c {
                Ok(restored)
            } else {
                Err(RevertError::Stale)
            },
            _ => Err(RevertError::Stale),
        }
    }
}

/// The undo of a `replace_all` edit: every replaced region was an exact match,
/// so the snapshot is `old` repeated once per region.
pub open spec fn revert_all_outcome(c: Seq<u8>, b: Seq<u8>, old: Seq<char>, n: Seq<u8>) -> Result<
    Seq<u8>,
    RevertError,
> {
    let o = utf8_of(old);
    if o.len() == 0 || b.len() == 0 || b.len() % o.len() != 0 || !repeats(b, o) || find_all(
        c,
        n,
    ).len() != b.len() / o.len() {
        Err(RevertError::Stale)
    } else {
        restore_all(c, old, n, (b.len() / o.len()) as int)
    }
}

/// The content an edit started from, as bytes, or why it cannot be told.
pub open spec fn revert_outcome(
    content: Seq<char>,
    before: Seq<char>,
    old: Seq<char>,
    new: Seq<char>,
    replace_all: bool,
) -> Result<Seq<u8>, RevertError> {
    let c = utf8_of(content);
    let b = utf8_of(before);
    let n = utf8_of(new);
    if new.len() == 0 {
        Err(RevertError::CannotLocateDeletion)
    } else if replace_all {
        revert_all_outcome(c, b, old, n)
    } else {
        let h = revert_hits(c, b, old, n, find_all(c, n));
        if h.len() == 0 {
            Err(RevertError::Stale)
        } else if h.len() == 1 {
            Ok(splice(c, h[0], b))
        } else {
            Err(RevertError::Ambiguous)
        }
    }
}

/// Trying the restores in order only ever replays the ladder over candidates
/// it can cut at character starts: those tried before a second hit is found.
pub open spec fn revert_cuts_whole_chars(
    content: Seq<char>,
    before: Seq<char>,
    old: Seq<char>,
    new: Seq<char>,
    replace_all: bool,
) -> bool {
    let c = utf8_of(content);
    let b = utf8_of(before);
    let n = utf8_of(new);
    let occ = find_all(c, n);
    new.len() == 0 || replace_all || placeholder(old) is Some || forall|k: int|
        0 <= k < occ.len() && revert_hits(c, b, old, n, occ.take(k)).len() < 2
            ==> ladder_cuts_whole_chars(#[trigger] splice(c, occ[k], b), utf8_of(old), false)
}

proof fn lemma_hits_step(c: Seq<u8>, b: Seq<u8>, old: Seq<char>, n: Seq<u8>, occ: Seq<(int, int)>, k: int)
    requires
        0 <= k < occ.len(),
    ensures
        revert_hits(c, b, old, n, occ.take(k + 1)) == if replays(splice(c, occ[k], b), old, n, occ[k].0, b, c) {
            revert_hits(c, b, old, n, occ.take(k)).push(occ[k])
        } else {
            revert_hits(c, b, old, n, occ.take(k))
        },
{
    reveal(revert_hits);
    assert(occ.take(k + 1).drop_last() =~= occ.take(k));
    assert(occ.take(k + 1).last() == occ[k]);
}

proof fn lemma_hits_prefix(c: Seq<u8>, b: Seq<u8>, old: Seq<char>, n: Seq<u8>, occ: Seq<(int, int)>, j: int)
    requires
        0 <= j <= occ.len(),
    ensures
        revert_hits(c, b, old, n, occ.take(j)).len() <= revert_hits(c, b, old, n, occ).len(),
    decreases occ.len(),
{
    reveal(revert_hits);
    if j == occ.len() {
        assert(occ.take(j) =~= occ);
    } else {
        assert(occ.drop_last().take(j) =~= occ.take(j));
        lemma_hits_prefix(c, b, old, n, occ.drop_last(), j);
    }
}

/// Whether restoring `cand` replays to `c`.
fn replays_at(cand: &[u8], old: &str, has_placeholder: bool, n: &[u8], start: usize, b: &[u8], c: &[u8]) -> (r: bool)
    requires
        has_placeholder == placeholder(old@) is Some,
    ensures
        r == replays(cand@, old@, n@, start as int, b@, c@),
{
    reveal(replays);
    if has_placeholder {
        return false;
    }
    let t = old.as_bytes();
    match plan(cand, t, false) {
        Plan::Found(_, spans) => {
            proof {
                lemma_level_spans_in_order(cand@, t@, winning_level_of(cand@, t@));
            }
            if spans.len() != 1 {
                return false;
            }
            let (s0, s1) = spans[0];
            assert(span_ints(spans@)[0] == (s0 as int, s1 as int));
            if s0 != start {
                return false;
            }
            if !same_bytes(cand, s0, s1, b, 0, b.len()) {
                assert(b@.subrange(0, b@.len() as int) =~= b@);
                return false;
            }
            assert(b@.subrange(0, b@.len() as int) =~= b@);
            let replay = splice_bytes(cand, s0, s1, n);
            same_bytes(replay.as_slice(), 0, replay.len(), c, 0, c.len())
                && {
                assert(replay@.subrange(0, replay@.len() as int) =~= replay@);
                assert(c@.subrange(0, c@.len() as int) =~= c@);
                true
            }
        },
        _ => false,
    }
}

/// The winning level, for the proof that found spans are in order.
spec fn winning_level_of(c: Seq<u8>, t: Seq<u8>) -> MatchLevel {
    match crate::ladder::winning_level(c, t, false) {
        Some(l) => l,
        None => MatchLevel::Exact,
    }
}

/// Reconstruct the file content an edit started from: the inverse of the
/// ladder.
///
/// `content` is the file as it is now, `before` is the **actual replaced
/// bytes** the edit recorded, and `old_string` / `new_string` / `replace_all`
/// are the edit's own arguments. A candidate restore is accepted only when
/// replaying the ladder over it reproduces the current content exactly. A
/// pure deletion (`new_string` empty) carries no position to recover, so it is
/// refused rather than guessed at.
pub fn revert(content: &str, before: &str, old_string: &str, new_string: &str, replace_all: bool) -> (r:
    Result<String, RevertError>)
    requires
        revert_cuts_whole_chars(content@, before@, old_string@, new_string@, replace_all),
    ensures
        match revert_outcome(content@, before@, old_string@, new_string@, replace_all) {
            Ok(bytes) => r matches Ok(s) && utf8_of(s@) == bytes,
            Err(e) => r == Err::<String, RevertError>(e),
        },
{
    if new_string.is_empty() {
        return Err(RevertError::CannotLocateDeletion);
    }
    if replace_all {
        return revert_all(content, before, old_string, new_string);
    }
    let c = content.as_bytes();
    let b = before.as_bytes();
    let n = new_string.as_bytes();
    match restore_one_bytes(c, b, old_string, n) {
        Ok(v) => {
            proof {
                let s = find_all(c@, n@);
                let h = revert_hits(c@, b@, old_string@, n@, s);
                lemma_hit_is_occurrence(c@, b@, old_string@, n@, s, 0);
                lemma_find_from_shape(c@, n@, 0);
                let sp = h[0];
                lemma_occurrence_at_char_starts(c@, n@, sp.0);
                lemma_splice_valid(c@, sp, b@);
            }
            Ok(text_of_bytes(v))
        },
        Err(e) => Err(e),
    }
}

/// The one restore of `c` whose replay reproduces it, or why there is none.
fn restore_one_bytes(c: &[u8], b: &[u8], old_string: &str, n: &[u8]) -> (r: Result<Vec<u8>, RevertError>)
    requires
        n@.len() > 0,
    ensures
        ({
            let h = revert_hits(c@, b@, old_string@, n@, find_all(c@, n@));
            &&& h.len() == 0 ==> r == Err::<Vec<u8>, RevertError>(RevertError::Stale)
            &&& h.len() == 1 ==> (r matches Ok(v) && v@ == splice(c@, h[0], b@))
            &&& h.len() >= 2 ==> r == Err::<Vec<u8>, RevertError>(RevertError::Ambiguous)
        }),
{
    let has_placeholder = placeholder_phrase(&chars_of(old_string)).is_some();
    let occ = find_all_spans_pub(c, n);
    let ghost s = span_ints(occ@);
    let mut restored: Option<Vec<u8>> = None;
    let mut k: usize = 0;
    proof {
        reveal(revert_hits);
        assert(s.take(0) =~= seq![]);
    }
    while k < occ.len()
        invariant
            s == span_ints(occ@),
            s == find_all(c@, n@),
            n@.len() > 0,
            has_placeholder == placeholder(old_string@) is Some,
            k <= occ@.len(),
            revert_hits(c@, b@, old_string@, n@, s.take(k as int)).len() <= 1,
            match restored {
                Some(v) => revert_hits(c@, b@, old_string@, n@, s.take(k as int)).len() == 1
                    && v@ == splice(c@, revert_hits(c@, b@, old_string@, n@, s.take(k as int))[0], b@),
                None => revert_hits(c@, b@, old_string@, n@, s.take(k as int)).len() == 0,
            },
        decreases occ@.len() - k,
    {
        let (start, end) = occ[k];
        proof {
            lemma_find_from_shape(c@, n@, 0);
            assert(s[k as int] == (start as int, end as int));
            lemma_hits_step(c@, b@, old_string@, n@, s, k as int);
        }
        let cand = splice_bytes(c, start, end, b);
        if replays_at(cand.as_slice(), old_string, has_placeholder, n, start, b, c) {
            if restored.is_some() {
                proof {
                    lemma_hits_prefix(c@, b@, old_string@, n@, s, k + 1);
                    assert(revert_hits(c@, b@, old_string@, n@, s.take(k + 1)).len() == 2);
                }
                return Err(RevertError::Ambiguous);
            }
            restored = Some(cand);
        }
        k += 1;
    }
    assert(s.take(occ@.len() as int) =~= s);
    match restored {
        Some(v) => Ok(v),
        None => Err(RevertError::Stale),
    }
}

proof fn lemma_hit_is_occurrence(c: Seq<u8>, b: Seq<u8>, old: Seq<char>, n: Seq<u8>, occ: Seq<(int, int)>, i: int)
    requires
        0 <= i < revert_hits(c, b, old, n, occ).len(),
    ensures
        occ.contains(revert_hits(c, b, old, n, occ)[i]),
    decreases occ.len(),
{
    reveal(revert_hits);
    let rest = revert_hits(c, b, old, n, occ.drop_last());
    if i < rest.len() {
        lemma_hit_is_occurrence(c, b, old, n, occ.drop_last(), i);
        let x = rest[i];
        let j = choose|j: int| 0 <= j < occ.drop_last().len() && occ.drop_last()[j] == x;
        assert(occ[j] == x);
    } else {
        assert(occ[occ.len() - 1] == occ.last());
    }
}

/// Whether `b` is `o` repeated.
fn repeats_bytes(b: &[u8], o: &[u8]) -> (r: bool)
    requires
        o@.len() > 0,
    ensures
        r == repeats(b@, o@),
{
    let mut i: usize = 0;
    while i < b.len()
        invariant
            o@.len() > 0,
            i <= b@.len(),
            forall|j: int| 0 <= j < i ==> #[trigger] b@[j] == o@[j % (o@.len() as int)],
        decreases b@.len() - i,
    {
        if b[i] != o[i % o.len()] {
            assert(b@[i as int] != o@[i as int % (o@.len() as int)]);
            return false;
        }
        i += 1;
    }
    true
}

/// `old` back in place of every `n` in `c`, checked by replaying the edit.
fn restore_all_bytes(c: &[u8], old_string: &str, n: &[u8], occ: &Vec<(usize, usize)>, count: usize) -> (r: Result<Vec<u8>, RevertError>)
    requires
        span_ints(occ@) == find_all(c@, n@),
        n@.len() > 0,
    ensures
        match restore_all(c@, old_string@, n@, count as int) {
            Ok(bytes) => r matches Ok(v) && v@ == bytes,
            Err(e) => r == Err::<Vec<u8>, RevertError>(e),
        },
{
    let o = old_string.as_bytes();
    proof {
        lemma_find_from_shape(c@, n@, 0);
        assert(cut_points_or_plain(c@, span_ints(occ@)));
    }
    let restored = substitute_bytes(c, occ, o);
    if placeholder_phrase(&chars_of(old_string)).is_some() {
        return Err(RevertError::Stale);
    }
    match plan(restored.as_slice(), o, true) {
        Plan::Found(_, spans) => {
            if spans.len() != count {
                return Err(RevertError::Stale);
            }
            proof {
                lemma_find_from_shape(restored@, o@, 0);
                assert(cut_points_or_plain(restored@, span_ints(spans@)));
            }
            let replay = substitute_bytes(restored.as_slice(), &spans, n);
            let same = same_bytes(replay.as_slice(), 0, replay.len(), c, 0, c.len());
            proof {
                assert(replay@.subrange(0, replay@.len() as int) =~= replay@);
                assert(c@.subrange(0, c@.len() as int) =~= c@);
            }
            if same {
                Ok(restored)
            } else {
                Err(RevertError::Stale)
            }
        },
        _ => Err(RevertError::Stale),
    }
}

/// Undo one `replace_all`: every occurrence the call replaced is an exact
/// match, so the snapshot is `old_string` repeated, which is what makes the
/// regions countable without a stored span.
fn revert_all(content: &str, before: &str, old_string: &str, new_string: &str) -> (r: Result<
    String,
    RevertError,
>)
    requires
        new_string@.len() > 0,
    ensures
        match revert_all_outcome(utf8_of(content@), utf8_of(before@), old_string@, utf8_of(new_string@)) {
            Ok(bytes) => r matches Ok(s) && utf8_of(s@) == bytes,
            Err(e) => r == Err::<String, RevertError>(e),
        },
{
    let c = content.as_bytes();
    let b = before.as_bytes();
    let o = old_string.as_bytes();
    let n = new_string.as_bytes();
    if o.len() == 0 || b.len() == 0 {
        return Err(RevertError::Stale);
    }
    if b.len() % o.len() != 0 {
        return Err(RevertError::Stale);
    }
    let count = b.len() / o.len();
    if !repeats_bytes(b, o) {
        return Err(RevertError::Stale);
    }
    let occ = find_all_spans_pub(c, n);
    if occ.len() != count {
        return Err(RevertError::Stale);
    }
    match restore_all_bytes(c, old_string, n, &occ, count) {
        Ok(restored) => {
            proof {
                lemma_find_from_shape(c@, n@, 0);
                let sp = span_ints(occ@);
                assert forall|i: int| 0 <= i < sp.len() implies at_char_start(c@, (#[trigger] sp[i]).0) && at_char_start(c@, sp[i].1) by {
                    lemma_occurrence_at_char_starts(c@, n@, sp[i].0);
                }
                assert(cut_points(c@, sp, 0));
                lemma_substitute_valid(c@, sp, o@, 0);
            }
            Ok(text_of_bytes(restored))
        },
        Err(e) => Err(e),
    }
}

} // verus!
