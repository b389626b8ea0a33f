//! What the file tools decide once the file's text is in hand: which bytes an
//! `edit_file` call replaces, the file as it will be written, the snapshot
//! `/undo` restores from, and the result line the model reads. Reading and
//! writing the file stay with the caller.

use vstd::prelude::*;
use vstd::utf8::valid_utf8;

use crate::bytes::{lemma_occurrence_at_char_starts, utf8_of};
use crate::edit::{edit_error_text, edits_are, find_matches, level_name, matches_result, EditError, EditMatch, MatchLevel};
use crate::ladder::{ladder, ladder_cuts_whole_chars, lemma_level_spans_in_order, level_spans, region_whole_chars, spans_in_order, substitute_bytes, winning_level, winning_spans, LadderOutcome};
use crate::ladder_lemmas::{cut_points, lemma_find_from_shape, lemma_substitute_valid};
use crate::ladder_spec::{find_all, find_from, span_ints, substitute};
use crate::placeholder::placeholder;
use crate::markdown_spec::strip_cr;
use crate::placeholder::{char_line_end, lemma_char_line_end, line_span, line_text};
use crate::text::{chars_of, decimal, push_decimal, push_str, string_of_range, text_of_bytes};
use vstd::string::StrSliceExecFns;
use crate::tool::ToolError;

verus! {

broadcast use vstd::seq::group_seq_axioms, vstd::utf8::encode_utf8_valid_utf8;

/// What an `edit_file` result starts with, before the level that matched.
pub const MATCH_LEVEL_PREFIX: &'static str = "edit match level: ";

/// What a successful write's result starts with, before the path written.
pub const WROTE_PATH_PREFIX: &'static str = "wrote: ";

/// An accepted `edit_file` call, ready to be written.
pub struct EditPlan {
    /// The file's new text.
    pub updated: String,
    /// The bytes the edit replaced, region after region: what `/undo` restores.
    pub replaced: String,
    /// The result line the model reads.
    pub report: String,
}

/// The spans a list of edits replaces.
pub open spec fn edit_spans(v: Seq<EditMatch>) -> Seq<(int, int)> {
    v.map_values(|e: EditMatch| (e.span.start as int, e.span.end as int))
}

/// The replaced texts of a list of edits, one after another.
pub open spec fn replaced_text(v: Seq<EditMatch>) -> Seq<char>
    decreases v.len(),
{
    if v.len() == 0 {
        seq![]
    } else {
        replaced_text(v.drop_last()) + v.last().old_text@
    }
}

/// The result line of an applied edit.
pub open spec fn edit_report(
    path: Seq<char>,
    level: MatchLevel,
    count: nat,
    before_bytes: nat,
    after_bytes: nat,
) -> Seq<char> {
    MATCH_LEVEL_PREFIX@ + " "@ + level_name(level) + ": "@ + decimal(count) + " replacement"@ + (
    if count == 1 {
        ""@
    } else {
        "s"@
    }) + " in "@ + path + " ("@ + decimal(before_bytes) + " bytes -> "@ + decimal(after_bytes)
        + " bytes)"@
}

/// How a refused ladder answers: a failed match withdraws the path's read
/// permission (the agent's picture of the file is stale); every other refusal
/// is a plain message. Both name the path.
pub open spec fn edit_refusal(path: Seq<char>, e: EditError, r: ToolError) -> bool {
    if e is NoMatch {
        r matches ToolError::InvalidatesReads { message, path: p } && message@ == path + ": "@
            + edit_error_text(e) && p@ == path
    } else {
        r matches ToolError::Message(m) && m@ == path + ": "@ + edit_error_text(e)
    }
}

/// Every occurrence of valid text in valid text is cut at character starts.
proof fn lemma_exact_cut(c: Seq<u8>, t: Seq<u8>)
    requires
        valid_utf8(c),
        valid_utf8(t),
    ensures
        cut_points(c, find_all(c, t), 0),
{
    let s = find_all(c, t);
    lemma_find_from_shape(c, t, 0);
    assert forall|i: int| 0 <= i < s.len() implies {
        &&& 0 <= (#[trigger] s[i]).0 <= s[i].1 <= c.len()
        &&& crate::bytes::at_char_start(c, s[i].0)
        &&& crate::bytes::at_char_start(c, s[i].1)
        &&& 0 <= s[i].0
    } by {
        lemma_occurrence_at_char_starts(c, t, s[i].0);
    }
}

/// The spans of a found match are cut at character starts, when the ladder
/// cuts the text only at character starts.
#[verifier::rlimit(30)]
proof fn lemma_found_cut(c: Seq<u8>, t: Seq<u8>, replace_all: bool)
    requires
        ladder_cuts_whole_chars(c, t, replace_all),
        valid_utf8(c),
        valid_utf8(t),
        ladder(c, t, replace_all) is Found,
    ensures
        cut_points(c, ladder(c, t, replace_all)->Found_1, 0),
{
    let level = ladder(c, t, replace_all)->Found_0;
    let s = ladder(c, t, replace_all)->Found_1;
    assert(winning_level(c, t, replace_all) == Some(level));
    assert(s == level_spans(c, t, level));
    if level == MatchLevel::Exact {
        lemma_exact_cut(c, t);
    } else {
        lemma_level_spans_in_order(c, t, level);
        assert(!replace_all);
        assert(s.len() == 1);
        assert(s == winning_spans(c, t, false));
        assert(region_whole_chars(c, s));
        assert(s.last() == s[0]);
    }
}

/// Plan an `edit_file` call over the file's current text: run the ladder,
/// answer a refusal with the path named, or apply every planned edit and
/// report the level that matched — a downgrade is never silent.
pub fn plan_file_edit(
    path: &str,
    content: &str,
    old_string: &str,
    new_string: &str,
    replace_all: bool,
) -> (r: Result<EditPlan, ToolError>)
    requires
        placeholder(old_string@) is None ==> ladder_cuts_whole_chars(
            utf8_of(content@),
            utf8_of(old_string@),
            replace_all,
        ),
    ensures
        exists|m: Result<Vec<EditMatch>, EditError>|
            #![trigger matches_result(content@, old_string@, new_string@, replace_all, m)]
            matches_result(content@, old_string@, new_string@, replace_all, m) && match m {
                Err(e) => r matches Err(te) && edit_refusal(path@, e, te),
                Ok(v) => r matches Ok(plan) && v@.len() > 0 && utf8_of(plan.updated@) == substitute(
                    utf8_of(content@),
                    edit_spans(v@),
                    utf8_of(new_string@),
                    0,
                ) && plan.replaced@ == replaced_text(v@) && plan.report@ == edit_report(
                    path@,
                    v@[0].level,
                    v@.len(),
                    utf8_of(content@).len(),
                    utf8_of(plan.updated@).len(),
                ),
            },
{
    let m = find_matches(content, old_string, new_string, replace_all);
    let ghost gm = m;
    let edits = match m {
        Ok(v) => v,
        Err(e) => {
            let mut message = String::new();
            push_str(&mut message, path);
            push_str(&mut message, ": ");
            let text = e.message();
            push_str(&mut message, text.as_str());
            let te = match e {
                EditError::NoMatch => ToolError::InvalidatesReads {
                    message,
                    path: path.to_string(),
                },
                _ => ToolError::Message(message),
            };
            return Err(te);
        },
    };
    let ghost c = utf8_of(content@);
    let ghost t = utf8_of(old_string@);
    let ghost level = ladder(c, t, replace_all)->Found_0;
    let ghost s = ladder(c, t, replace_all)->Found_1;
    proof {
        assert(placeholder(old_string@) is None);
        assert(ladder(c, t, replace_all) is Found);
        assert(edits_are(c, new_string@, level, s, edits@));
        assert(winning_level(c, t, replace_all) == Some(level));
        assert(level_spans(c, t, level).len() > 0);
        lemma_found_cut(c, t, replace_all);
    }
    let n = edits.len();
    let mut spans: Vec<(usize, usize)> = Vec::new();
    let mut replaced = String::new();
    let mut i: usize = 0;
    while i < n
        invariant
            n == edits@.len(),
            i <= n,
            edits_are(c, new_string@, level, s, edits@),
            span_ints(spans@) == edit_spans(edits@).take(i as int),
            replaced@ == replaced_text(edits@.take(i as int)),
        decreases n - i,
    {
        let e = &edits[i];
        let ghost before = spans@;
        let pair = (e.span.start, e.span.end);
        spans.push(pair);
        push_str(&mut replaced, e.old_text.as_str());
        proof {
            assert(spans@ == before.push(pair));
            assert(span_ints(spans@) =~= span_ints(before).push((pair.0 as int, pair.1 as int)));
            assert(edit_spans(edits@)[i as int] == (pair.0 as int, pair.1 as int));
            assert(edit_spans(edits@).take(i + 1) =~= edit_spans(edits@).take(i as int).push(
                edit_spans(edits@)[i as int],
            ));
            assert(edits@.take(i + 1).drop_last() =~= edits@.take(i as int));
        }
        i += 1;
    }
    assert(edit_spans(edits@).take(n as int) =~= edit_spans(edits@));
    assert(edits@.take(n as int) =~= edits@);
    assert(edit_spans(edits@) =~= s);
    let bytes = substitute_bytes(content.as_bytes(), &spans, new_string.as_bytes());
    proof {
        lemma_substitute_valid(c, s, utf8_of(new_string@), 0);
    }
    let after = bytes.len();
    let updated = text_of_bytes(bytes);
    let first_level = edits[0].level;
    let mut report = String::new();
    push_str(&mut report, MATCH_LEVEL_PREFIX);
    push_str(&mut report, " ");
    push_str(&mut report, first_level.as_str());
    push_str(&mut report, ": ");
    push_decimal(&mut report, n as u64);
    push_str(&mut report, " replacement");
    if n == 1 {
        push_str(&mut report, "");
    } else {
        push_str(&mut report, "s");
    }
    push_str(&mut report, " in ");
    push_str(&mut report, path);
    push_str(&mut report, " (");
    push_decimal(&mut report, content.as_bytes().len() as u64);
    push_str(&mut report, " bytes -> ");
    push_decimal(&mut report, after as u64);
    push_str(&mut report, " bytes)");
    Ok(EditPlan { updated, replaced, report })
}

/// The `file_path` every file tool requires, or the same "required" error
/// for each.
pub fn required_path(tool: &str, file_path: &str) -> (r: Result<String, ToolError>)
    ensures
        file_path@.len() == 0 ==> (r matches Err(ToolError::Message(m)) && m@ == tool@
            + ": `file_path` is required"@),
        file_path@.len() > 0 ==> (r matches Ok(p) && p@ == file_path@),
{
    if file_path.unicode_len() == 0 {
        let mut m = String::new();
        push_str(&mut m, tool);
        push_str(&mut m, ": `file_path` is required");
        return Err(ToolError::Message(m));
    }
    Ok(file_path.to_string())
}

/// The write targets a file call declares: its path, or nothing when it
/// names none (the call then fails inside the tool with a real message).
pub fn declared_targets(file_path: &str) -> (v: Vec<String>)
    ensures
        file_path@.len() == 0 ==> v@.len() == 0,
        file_path@.len() > 0 ==> v@.len() == 1 && v@[0]@ == file_path@,
{
    let mut v: Vec<String> = Vec::new();
    if file_path.unicode_len() > 0 {
        v.push(file_path.to_string());
    }
    v
}

/// The lines of `s` from character `pos` on, each numbered from `n` and
/// followed by a newline: `{n}\t{line}\n`.
pub open spec fn numbered_from(s: Seq<char>, pos: int, n: nat) -> Seq<char>
    decreases s.len() - pos,
{
    if pos < 0 || pos >= s.len() {
        seq![]
    } else {
        proof {
            lemma_char_line_end(s, pos);
        }
        decimal(n) + "\t"@ + line_text(s, pos) + "\n"@ + numbered_from(
            s,
            char_line_end(s, pos),
            n + 1,
        )
    }
}

/// What `read_file` returns: the resolved path on a line of its own, then
/// every line of the file, numbered from 1.
pub fn read_listing(path: &str, content: &str) -> (s: String)
    requires
        content@.len() < usize::MAX,
    ensures
        s@ == path@ + "\n"@ + numbered_from(content@, 0, 1),
{
    let v = chars_of(content);
    let mut s = String::new();
    push_str(&mut s, path);
    push_str(&mut s, "\n");
    let ghost head = s@;
    let mut pos: usize = 0;
    let mut n: u64 = 1;
    while pos < v.len()
        invariant
            v@ == content@,
            pos <= v@.len(),
            1 <= n <= pos + 1,
            v@.len() < usize::MAX,
            head + numbered_from(v@, 0, 1) == s@ + numbered_from(v@, pos as int, n as nat),
        decreases v@.len() - pos,
    {
        let (hi, next) = line_span(&v, pos);
        let ghost before = s@;
        push_decimal(&mut s, n);
        push_str(&mut s, "\t");
        let line = string_of_range(&v, pos, hi);
        push_str(&mut s, line.as_str());
        push_str(&mut s, "\n");
        proof {
            lemma_char_line_end(v@, pos as int);
            assert(s@ == before + decimal(n as nat) + "\t"@ + line_text(v@, pos as int) + "\n"@);
        }
        pos = next;
        n = n + 1;
    }
    s
}

/// What `write_file` returns: whether it replaced a file or created one, and
/// how many bytes it wrote.
pub fn write_report(path: &str, existed: bool, bytes: usize) -> (s: String)
    ensures
        s@ == "write_file: "@ + (if existed {
            "replaced"@
        } else {
            "created"@
        }) + " "@ + path@ + " ("@ + decimal(bytes as nat) + " bytes)"@,
{
    let mut s = String::new();
    push_str(&mut s, "write_file: ");
    if existed {
        push_str(&mut s, "replaced");
    } else {
        push_str(&mut s, "created");
    }
    push_str(&mut s, " ");
    push_str(&mut s, path);
    push_str(&mut s, " (");
    push_decimal(&mut s, bytes as u64);
    push_str(&mut s, " bytes)");
    s
}


/// How many newlines `s` holds.
pub open spec fn newlines(s: Seq<char>) -> nat
    decreases s.len(),
{
    if s.len() == 0 {
        0
    } else {
        (if s[0] == '\n' {
            1nat
        } else {
            0nat
        }) + newlines(s.drop_first())
    }
}

/// `s` is made of whole lines: it is empty or ends with a newline.
pub open spec fn whole_lines(s: Seq<char>) -> bool {
    s.len() == 0 || s.last() == '\n'
}

/// Inside whole lines, the line at `pos` ends inside them, at the newline
/// that is one of theirs.
proof fn lemma_line_end_inside(before: Seq<char>, rest: Seq<char>, pos: int)
    requires
        0 <= pos < before.len(),
        before.last() == '\n',
    ensures
        pos < char_line_end(before, pos) <= before.len(),
        char_line_end(before + rest, pos) == char_line_end(before, pos),
        line_text(before + rest, pos) == line_text(before, pos),
        newlines(before.subrange(pos, before.len() as int)) == 1 + newlines(
            before.subrange(char_line_end(before, pos), before.len() as int),
        ),
    decreases before.len() - pos,
{
    let s = before + rest;
    let tail = before.subrange(pos, before.len() as int);
    assert(tail[0] == before[pos]);
    assert(tail.drop_first() =~= before.subrange(pos + 1, before.len() as int));
    if before[pos] == '\n' {
        assert(s[pos] == '\n');
    } else {
        assert(pos + 1 < before.len());
        assert(s[pos] == before[pos]);
        lemma_line_end_inside(before, rest, pos + 1);
    }
    let e = char_line_end(before, pos);
    lemma_char_line_end(before, pos);
    assert(s.subrange(pos, e) =~= before.subrange(pos, e));
    assert(s.subrange(pos, e - 1) =~= before.subrange(pos, e - 1));
    assert(s[e - 1] == before[e - 1]);
}

/// The line ends of a text are those of its own, after anything before it.
proof fn lemma_line_end_shift(a: Seq<char>, r: Seq<char>, i: int)
    requires
        0 <= i < r.len(),
    ensures
        char_line_end(a + r, a.len() + i) == a.len() + char_line_end(r, i),
        line_text(a + r, a.len() + i) == line_text(r, i),
    decreases r.len() - i,
{
    let s = a + r;
    assert(s[a.len() + i] == r[i]);
    if r[i] == '\n' {
        assert(char_line_end(s, a.len() + i) == a.len() + i + 1);
        assert(char_line_end(r, i) == i + 1);
    } else if i + 1 < r.len() {
        lemma_line_end_shift(a, r, i + 1);
        assert(char_line_end(s, a.len() + i) == char_line_end(s, a.len() + i + 1));
        assert(char_line_end(r, i) == char_line_end(r, i + 1));
    } else {
        assert(char_line_end(s, a.len() + i + 1) == s.len());
        assert(char_line_end(s, a.len() + i) == s.len());
        assert(char_line_end(r, i + 1) == r.len());
        assert(char_line_end(r, i) == r.len());
    }
    lemma_char_line_end(r, i);
    let e = char_line_end(r, i);
    assert(s.subrange(a.len() + i, a.len() + e) =~= r.subrange(i, e));
    assert(s.subrange(a.len() + i, a.len() + e - 1) =~= r.subrange(i, e - 1));
    assert(s[a.len() + e - 1] == r[e - 1]);
}

/// Listing a text from inside it after anything before it is listing the
/// text on its own.
proof fn lemma_numbered_shift(a: Seq<char>, r: Seq<char>, i: int, m: nat)
    requires
        0 <= i,
    ensures
        numbered_from(a + r, a.len() + i, m) == numbered_from(r, i, m),
    decreases r.len() - i,
{
    if i < r.len() {
        lemma_line_end_shift(a, r, i);
        lemma_char_line_end(r, i);
        lemma_numbered_shift(a, r, char_line_end(r, i), m + 1);
    }
}

/// Listing whole lines and what follows them is listing the lines, then
/// what follows, numbered on from the lines' count.
proof fn lemma_numbered_split(before: Seq<char>, rest: Seq<char>, pos: int, m: nat)
    requires
        0 <= pos <= before.len(),
        pos == before.len() || before.last() == '\n',
    ensures
        numbered_from(before + rest, pos, m) == numbered_from(before, pos, m) + numbered_from(
            before + rest,
            before.len() as int,
            m + newlines(before.subrange(pos, before.len() as int)),
        ),
    decreases before.len() - pos,
{
    if pos == before.len() {
        assert(before.subrange(pos, pos) =~= Seq::<char>::empty());
        assert(numbered_from(before, pos, m) =~= Seq::<char>::empty());
        assert(Seq::<char>::empty() + numbered_from(before + rest, pos, m) =~= numbered_from(
            before + rest,
            pos,
            m,
        ));
    } else {
        lemma_line_end_inside(before, rest, pos);
        lemma_char_line_end(before, pos);
        let e = char_line_end(before, pos);
        lemma_numbered_split(before, rest, e, m + 1);
        let d = decimal(m) + "\t"@ + line_text(before, pos) + "\n"@;
        assert(numbered_from(before + rest, pos, m) == d + numbered_from(before + rest, e, m + 1));
        assert(numbered_from(before, pos, m) == d + numbered_from(before, e, m + 1));
    }
}

/// Listing nothing lists nothing, and every line of a text is listed in its
/// place with its number: the line after `k` whole lines is the `k`-th one
/// after the first number, written as that number, a tab and the line (its
/// `\r` before the newline cut), between the listing of the lines before it
/// and that of the text after it, numbered on. No line is dropped however
/// many come before it.
pub proof fn each_line_is_listed_with_its_number(
    before: Seq<char>,
    line: Seq<char>,
    after: Seq<char>,
    n: nat,
)
    requires
        whole_lines(before),
        forall|k: int| 0 <= k < line.len() ==> line[k] != '\n',
    ensures
        numbered_from(Seq::<char>::empty(), 0, n) == Seq::<char>::empty(),
        numbered_from(before + (line + "\n"@ + after), 0, n) == numbered_from(before, 0, n) + decimal(
            n + newlines(before),
        ) + "\t"@ + strip_cr(line) + "\n"@ + numbered_from(after, 0, n + newlines(before) + 1),
{
    reveal_strlit("\n");
    let l = line + "\n"@ + after;
    let k = newlines(before);
    lemma_numbered_split(before, l, 0, n);
    assert(before.subrange(0, before.len() as int) =~= before);
    lemma_numbered_shift(before, l, 0, n + k);
    assert(before + l =~= before + l);
    assert(l[line.len() as int] == '\n');
    lemma_no_newline_run(l, 0, line.len() as int);
    let e: int = line.len() + 1int;
    assert(char_line_end(l, 0) == e);
    assert(l.subrange(0, e - 1) =~= line);
    assert(line_text(l, 0) == strip_cr(line));
    assert(l =~= (line + "\n"@) + after);
    assert((line + "\n"@).len() == e);
    lemma_numbered_shift(line + "\n"@, after, 0, n + k + 1);
    assert(numbered_from(l, e, n + k + 1) == numbered_from(after, 0, n + k + 1));
}

/// The last line of a text is listed too when no newline ends it.
pub proof fn the_last_line_is_listed_without_a_newline(before: Seq<char>, line: Seq<char>, n: nat)
    requires
        whole_lines(before),
        line.len() > 0,
        forall|k: int| 0 <= k < line.len() ==> line[k] != '\n',
    ensures
        numbered_from(before + line, 0, n) == numbered_from(before, 0, n) + decimal(
            n + newlines(before),
        ) + "\t"@ + line + "\n"@,
{
    let k = newlines(before);
    lemma_numbered_split(before, line, 0, n);
    assert(before.subrange(0, before.len() as int) =~= before);
    lemma_numbered_shift(before, line, 0, n + k);
    lemma_no_newline_run(line, 0, line.len() as int);
    assert(char_line_end(line, 0) == line.len());
    assert(line.subrange(0, line.len() as int) =~= line);
    assert(line_text(line, 0) == line);
    assert(numbered_from(line, line.len() as int, n + k + 1) =~= Seq::<char>::empty());
}

/// A run without newlines from `i` to `j` ends the line at the newline at
/// `j`, or at the end of the text.
proof fn lemma_no_newline_run(s: Seq<char>, i: int, j: int)
    requires
        0 <= i <= j <= s.len(),
        forall|k: int| i <= k < j ==> s[k] != '\n',
        j == s.len() || s[j] == '\n',
    ensures
        char_line_end(s, i) == if j < s.len() {
            j + 1
        } else {
            s.len() as int
        },
    decreases j - i,
{
    if i < j {
        lemma_no_newline_run(s, i + 1, j);
    }
}

} // verus!
