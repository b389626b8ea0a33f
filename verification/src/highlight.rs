//! Syntax highlighting and diff coloring — deliberately **two layers**.
//!
//! The diff layer answers one question about a line: is it added, removed, a
//! hunk header, or context? The syntax layer answers a different one: what
//! kind of code is this? A line can be both an addition and a keyword, and the
//! painters compose the two rather than picking a winner.
//!
//! The syntax layer runs the Rust grammar through `tree-sitter-highlight`;
//! what the highlighter reports is turned into lines of colored spans here.

use tree_sitter_highlight::{HighlightConfiguration, HighlightEvent, Highlighter};
use vstd::prelude::*;
use vstd::utf8::{decode_utf8, valid_utf8};

use crate::bytes::{at_char_start, utf8_of};
use crate::placeholder::starts_with;
use crate::text::{chars_of, join, lemma_join_step, push_char, push_str, str_eq, string_of, string_of_range};
use vstd::string::StrSliceExecFns;

verus! {

broadcast use vstd::seq::group_seq_axioms;

/// A kind of code, as far as coloring is concerned.
#[derive(Debug, Clone, Copy, PartialEq, Eq, Structural)]
pub enum Class {
    Plain,
    Keyword,
    Function,
    Type,
    String,
    Comment,
    Number,
    Variable,
    Constant,
    Operator,
    Punctuation,
}

/// The family a capture name belongs to: the dotted prefix decides, longest
/// prefixes first where two could match.
pub open spec fn class_of(capture: Seq<char>) -> Class {
    if starts_with(capture, "comment"@) {
        Class::Comment
    } else if starts_with(capture, "string"@) || capture == "escape"@ {
        Class::String
    } else if starts_with(capture, "keyword"@) {
        Class::Keyword
    } else if starts_with(capture, "function"@) {
        Class::Function
    } else if starts_with(capture, "type"@) || capture == "constructor"@ {
        Class::Type
    } else if starts_with(capture, "number"@) {
        Class::Number
    } else if starts_with(capture, "constant"@) || capture == "boolean"@ {
        Class::Constant
    } else if starts_with(capture, "variable"@) || capture == "label"@ || capture == "property"@ {
        Class::Variable
    } else if starts_with(capture, "operator"@) {
        Class::Operator
    } else if starts_with(capture, "punctuation"@) {
        Class::Punctuation
    } else {
        Class::Plain
    }
}

/// Whether `s` starts with `p`.
fn has_prefix(s: &str, p: &str) -> (r: bool)
    ensures
        r == starts_with(s@, p@),
{
    let v = chars_of(s);
    let w = chars_of(p);
    if w.len() > v.len() {
        return false;
    }
    let r = crate::text::occurs_at_exec(&v, 0, &w);
    assert(v@.subrange(0, w@.len() as int) =~= v@.take(w@.len() as int));
    r
}

/// The ANSI color of a class, when it has one.
pub open spec fn class_ansi(c: Class) -> Seq<char> {
    match c {
        Class::Plain => ""@,
        Class::Keyword => "\x1b[35m"@,
        Class::Function => "\x1b[34m"@,
        Class::Type => "\x1b[36m"@,
        Class::String => "\x1b[32m"@,
        Class::Comment => "\x1b[90m"@,
        Class::Number | Class::Constant => "\x1b[33m"@,
        Class::Variable => ""@,
        Class::Operator | Class::Punctuation => "\x1b[37m"@,
    }
}

impl Class {
    /// The class a capture name reports.
    pub fn of(capture: &str) -> (c: Class)
        ensures
            c == class_of(capture@),
    {
        if has_prefix(capture, "comment") {
            Class::Comment
        } else if has_prefix(capture, "string") || str_eq(capture, "escape") {
            Class::String
        } else if has_prefix(capture, "keyword") {
            Class::Keyword
        } else if has_prefix(capture, "function") {
            Class::Function
        } else if has_prefix(capture, "type") || str_eq(capture, "constructor") {
            Class::Type
        } else if has_prefix(capture, "number") {
            Class::Number
        } else if has_prefix(capture, "constant") || str_eq(capture, "boolean") {
            Class::Constant
        } else if has_prefix(capture, "variable") || str_eq(capture, "label") || str_eq(
            capture,
            "property",
        ) {
            Class::Variable
        } else if has_prefix(capture, "operator") {
            Class::Operator
        } else if has_prefix(capture, "punctuation") {
            Class::Punctuation
        } else {
            Class::Plain
        }
    }

    /// The ANSI SGR prefix for this class, or nothing for no color.
    pub fn ansi(self) -> (s: &'static str)
        ensures
            s@ == class_ansi(self),
    {
        match self {
            Class::Plain => "",
            Class::Keyword => "\x1b[35m",
            Class::Function => "\x1b[34m",
            Class::Type => "\x1b[36m",
            Class::String => "\x1b[32m",
            Class::Comment => "\x1b[90m",
            Class::Number | Class::Constant => "\x1b[33m",
            Class::Variable => "",
            Class::Operator | Class::Punctuation => "\x1b[37m",
        }
    }
}

/// One colored piece of a line.
#[derive(Debug, Clone, PartialEq, Eq)]
pub struct Span {
    pub text: String,
    pub class: Class,
}

/// Which layer of a diff a line belongs to.
#[derive(Debug, Clone, Copy, PartialEq, Eq, Structural)]
pub enum DiffTag {
    /// Not part of a diff at all.
    Context,
    Added,
    Removed,
    /// A file header (`+++` / `---`) or a hunk header (`@@`).
    Hunk,
}

/// The ANSI color a plain terminal paints a diff tag with.
pub open spec fn tag_ansi(t: DiffTag) -> Seq<char> {
    match t {
        DiffTag::Context => ""@,
        DiffTag::Added => "\x1b[32m"@,
        DiffTag::Removed => "\x1b[31m"@,
        DiffTag::Hunk => "\x1b[36m"@,
    }
}

impl DiffTag {
    /// The ANSI color a plain terminal paints this tag with.
    pub fn ansi(self) -> (s: &'static str)
        ensures
            s@ == tag_ansi(self),
    {
        match self {
            DiffTag::Context => "",
            DiffTag::Added => "\x1b[32m",
            DiffTag::Removed => "\x1b[31m",
            DiffTag::Hunk => "\x1b[36m",
        }
    }
}

/// The diff layer of one line.
pub open spec fn tag_of(line: Seq<char>) -> DiffTag {
    if starts_with(line, "+++"@) || starts_with(line, "---"@) || starts_with(line, "@@"@) {
        DiffTag::Hunk
    } else if line.len() > 0 && line[0] == '+' {
        DiffTag::Added
    } else if line.len() > 0 && line[0] == '-' {
        DiffTag::Removed
    } else {
        DiffTag::Context
    }
}

/// Classify one line of a unified diff.
pub fn diff_tag(line: &str) -> (t: DiffTag)
    ensures
        t == tag_of(line@),
{
    if has_prefix(line, "+++") || has_prefix(line, "---") || has_prefix(line, "@@") {
        DiffTag::Hunk
    } else if has_prefix(line, "+") {
        proof {
            reveal_strlit("+");
            assert(line@.take(1)[0] == line@[0]);
        }
        DiffTag::Added
    } else if has_prefix(line, "-") {
        proof {
            reveal_strlit("-");
            reveal_strlit("+");
            assert(line@.take(1)[0] == line@[0]);
            if line@.len() > 0 && line@[0] == '+' {
                assert(line@.take(1) =~= "+"@);
            }
        }
        DiffTag::Removed
    } else {
        proof {
            reveal_strlit("-");
            reveal_strlit("+");
            if line@.len() > 0 && line@[0] == '+' {
                assert(line@.take(1) =~= "+"@);
            }
            if line@.len() > 0 && line@[0] == '-' {
                assert(line@.take(1) =~= "-"@);
            }
        }
        DiffTag::Context
    }
}

/// One step of what the highlighter reports: a run of source bytes, the start
/// of a highlight (by its index in the recognised capture names), or its end.
#[derive(Debug, Clone, Copy, PartialEq, Eq, Structural)]
pub enum HighlightStep {
    Source { start: usize, end: usize },
    Start(usize),
    End,
}

/// The capture names this renderer recognises. Anything a query names that is
/// not here falls back to plain text, so a grammar update can only go
/// uncolored, never break rendering.
pub open spec fn captures_seq() -> Seq<Seq<char>> {
    seq![
        "attribute"@, "boolean"@, "comment"@, "constant"@, "constant.builtin"@, "constructor"@,
        "embedded"@, "escape"@, "function"@, "function.builtin"@, "function.macro"@,
        "function.method"@, "keyword"@, "label"@, "number"@, "operator"@, "property"@,
        "punctuation"@, "punctuation.bracket"@, "punctuation.delimiter"@, "string"@,
        "string.special"@, "type"@, "type.builtin"@, "variable"@, "variable.builtin"@,
        "variable.parameter"@,
    ]
}

/// The capture names this renderer recognises, in the order the highlighter
/// is configured with.
pub fn captures() -> (c: [&'static str; 27])
    ensures
        c@.map_values(|x: &str| x@) == captures_seq(),
{
    let c = [
        "attribute",
        "boolean",
        "comment",
        "constant",
        "constant.builtin",
        "constructor",
        "embedded",
        "escape",
        "function",
        "function.builtin",
        "function.macro",
        "function.method",
        "keyword",
        "label",
        "number",
        "operator",
        "property",
        "punctuation",
        "punctuation.bracket",
        "punctuation.delimiter",
        "string",
        "string.special",
        "type",
        "type.builtin",
        "variable",
        "variable.builtin",
        "variable.parameter",
    ];
    assert(c@.map_values(|x: &str| x@) =~= captures_seq());
    c
}

/// What the Rust grammar's highlighter reports for `source`, configured with
/// the capture names `names`; `None` when it cannot run.
pub uninterp spec fn rust_highlights(source: Seq<char>, names: Seq<Seq<char>>) -> Option<Seq<HighlightStep>>;

/// `tree_sitter_highlight`: builds the Rust configuration from
/// `tree_sitter_rust`'s queries, recognises `names`, and runs a `Highlighter`
/// over `source`, giving each event back one for one. Claimed: the answer is
/// `rust_highlights` of the text and the names; `None` when the configuration
/// cannot be built or the highlighter reports an error. Nothing is claimed of
/// which steps it reports.
#[verifier::external_body]
fn highlight_steps(source: &str, names: &[&str]) -> (r: Option<Vec<HighlightStep>>)
    ensures
        match r {
            Some(v) => rust_highlights(source@, names@.map_values(|x: &str| x@)) == Some(v@),
            None => rust_highlights(source@, names@.map_values(|x: &str| x@)) is None,
        },
{
    let mut config = HighlightConfiguration::new(tree_sitter_rust::LANGUAGE.into(), "rust", tree_sitter_rust::HIGHLIGHTS_QUERY, tree_sitter_rust::INJECTIONS_QUERY, "").ok()?;
    config.configure(names);
    let mut highlighter = Highlighter::new();
    let events = highlighter.highlight(&config, source.as_bytes(), None, None, |_| None).ok()?;
    events.map(|event| event.ok().map(|event| match event {
        HighlightEvent::Source { start, end } => HighlightStep::Source { start, end },
        HighlightEvent::HighlightStart(h) => HighlightStep::Start(h.0),
        HighlightEvent::HighlightEnd => HighlightStep::End,
    })).collect()
}

/// A span as plain values: its text and its class.
pub open spec fn span_view(s: Span) -> (Seq<char>, Class) {
    (s.text@, s.class)
}

/// A line of spans as plain values.
pub open spec fn line_view(l: Vec<Span>) -> Seq<(Seq<char>, Class)> {
    l@.map_values(|s: Span| span_view(s))
}

/// Lines of spans as plain values.
pub open spec fn lines_view(v: Seq<Vec<Span>>) -> Seq<Seq<(Seq<char>, Class)>> {
    v.map_values(|l: Vec<Span>| line_view(l))
}

/// `t` cut at every newline, as `str::split('\n')` cuts it: never empty.
pub open spec fn split_nl(t: Seq<char>) -> Seq<Seq<char>>
    decreases t.len(),
{
    if t.len() == 0 {
        seq![seq![]]
    } else {
        let r = split_nl(t.drop_last());
        if t.last() == '\n' {
            r.push(seq![])
        } else {
            r.update(r.len() - 1, r.last().push(t.last()))
        }
    }
}

/// `t` cut at newlines has at least one part.
pub proof fn lemma_split_nl_len(t: Seq<char>)
    ensures
        split_nl(t).len() >= 1,
    decreases t.len(),
{
    if t.len() > 0 {
        lemma_split_nl_len(t.drop_last());
    }
}

/// The parts of a run of text added to the lines: every part after the first
/// starts a new line, and a non-empty part is a span in `class` at the end of
/// the last line.
pub open spec fn add_parts(
    lines: Seq<Seq<(Seq<char>, Class)>>,
    parts: Seq<Seq<char>>,
    class: Class,
) -> Seq<Seq<(Seq<char>, Class)>>
    decreases parts.len(),
{
    if parts.len() == 0 {
        lines
    } else {
        let l = add_parts(lines, parts.drop_last(), class);
        let l2 = if parts.len() > 1 {
            l.push(seq![])
        } else {
            l
        };
        if parts.last().len() > 0 {
            l2.update(l2.len() - 1, l2.last().push((parts.last(), class)))
        } else {
            l2
        }
    }
}

/// The text `source[start..end]` names, when those byte offsets cut it at
/// character starts.
pub open spec fn piece(b: Seq<u8>, start: int, end: int) -> Option<Seq<char>> {
    if start <= end && end <= b.len() && at_char_start(b, start) && at_char_start(b, end) {
        Some(decode_utf8(b.subrange(start, end)))
    } else {
        None
    }
}

/// The class a highlight index names, plain for an index no name has.
pub open spec fn class_at(names: Seq<Seq<char>>, i: int) -> Class {
    if 0 <= i < names.len() {
        class_of(names[i])
    } else {
        class_of("plain"@)
    }
}

/// The lines and the open highlights after the first `n` steps: a start
/// opens the class its name reports, an end closes the innermost one, and a
/// run of source is added in the innermost class (plain when none is open).
pub open spec fn run_steps(b: Seq<u8>, names: Seq<Seq<char>>, steps: Seq<HighlightStep>, n: int) -> (
    Seq<Seq<(Seq<char>, Class)>>,
    Seq<Class>,
)
    decreases n,
{
    if n <= 0 {
        (seq![seq![]], seq![])
    } else {
        let (lines, stack) = run_steps(b, names, steps, n - 1);
        match steps[n - 1] {
            HighlightStep::Start(i) => (lines, stack.push(class_at(names, i as int))),
            HighlightStep::End => (
                lines,
                if stack.len() > 0 {
                    stack.drop_last()
                } else {
                    stack
                },
            ),
            HighlightStep::Source { start, end } => match piece(b, start as int, end as int) {
                Some(t) => (
                    add_parts(
                        lines,
                        split_nl(t),
                        if stack.len() > 0 {
                            stack.last()
                        } else {
                            Class::Plain
                        },
                    ),
                    stack,
                ),
                None => (lines, stack),
            },
        }
    }
}

/// The lines of spans a run of highlight steps over `source` paints.
pub open spec fn painted(source: Seq<char>, names: Seq<Seq<char>>, steps: Seq<HighlightStep>) -> Seq<
    Seq<(Seq<char>, Class)>,
> {
    run_steps(utf8_of(source), names, steps, steps.len() as int).0
}

/// Whether byte offset `i` cuts `b` at a character start.
fn char_start(b: &[u8], i: usize) -> (r: bool)
    ensures
        r == at_char_start(b@, i as int),
{
    i == 0 || i == b.len() || (i < b.len() && !(0x80 <= b[i] && b[i] <= 0xbf))
}

/// `t` cut at every newline.
fn split_newlines(t: &Vec<char>) -> (parts: Vec<Vec<char>>)
    ensures
        parts@.map_values(|p: Vec<char>| p@) == split_nl(t@),
{
    let mut parts: Vec<Vec<char>> = Vec::new();
    parts.push(Vec::new());
    let ghost first = parts@;
    assert(parts@.map_values(|p: Vec<char>| p@) =~= split_nl(t@.take(0)));
    let mut i: usize = 0;
    while i < t.len()
        invariant
            i <= t@.len(),
            parts@.len() >= 1,
            parts@.map_values(|p: Vec<char>| p@) == split_nl(t@.take(i as int)),
        decreases t@.len() - i,
    {
        let c = t[i];
        let ghost before = parts@.map_values(|p: Vec<char>| p@);
        assert(t@.take(i + 1).drop_last() =~= t@.take(i as int));
        assert(t@.take(i + 1).last() == c);
        if c == '\n' {
            parts.push(Vec::new());
            assert(parts@.map_values(|p: Vec<char>| p@) =~= before.push(seq![]));
        } else {
            let mut last = parts.pop().unwrap();
            last.push(c);
            parts.push(last);
            assert(parts@.map_values(|p: Vec<char>| p@) =~= before.update(
                before.len() - 1,
                before.last().push(c),
            ));
        }
        i += 1;
    }
    assert(t@.take(t@.len() as int) =~= t@);
    parts
}

/// Add a run of text, cut at its newlines, to the lines in `class`.
fn add_text(lines: &mut Vec<Vec<Span>>, t: &Vec<char>, class: Class)
    requires
        old(lines)@.len() >= 1,
    ensures
        final(lines)@.len() >= 1,
        lines_view(final(lines)@) == add_parts(lines_view(old(lines)@), split_nl(t@), class),
{
    let parts = split_newlines(t);
    let ghost ps = parts@.map_values(|p: Vec<char>| p@);
    let ghost start = lines_view(lines@);
    let mut k: usize = 0;
    while k < parts.len()
        invariant
            k <= parts@.len(),
            ps == parts@.map_values(|p: Vec<char>| p@),
            lines@.len() >= 1,
            lines_view(lines@) == add_parts(start, ps.take(k as int), class),
        decreases parts@.len() - k,
    {
        let ghost before = lines_view(lines@);
        assert(ps.take(k + 1).drop_last() =~= ps.take(k as int));
        assert(ps.take(k + 1).last() == ps[k as int]);
        if k > 0 {
            let empty: Vec<Span> = Vec::new();
            assert(line_view(empty) =~= Seq::<(Seq<char>, Class)>::empty());
            lines.push(empty);
            assert(lines_view(lines@) =~= before.push(seq![]));
        }
        let ghost mid = lines_view(lines@);
        if parts[k].len() > 0 {
            let text = string_of(&parts[k]);
            let mut last = lines.pop().unwrap();
            let ghost last_before = line_view(last);
            last.push(Span { text, class });
            assert(line_view(last) =~= last_before.push((ps[k as int], class)));
            lines.push(last);
            assert(lines_view(lines@) =~= mid.update(mid.len() - 1, mid.last().push((ps[k as int], class))));
        }
        k += 1;
    }
    assert(ps.take(parts@.len() as int) =~= ps);
}

/// The lines of spans a run of highlight steps over `source` paints, the
/// highlight names being `names`. A run of source that does not cut the text
/// at character starts is skipped.
pub fn paint_steps(source: &str, names: &[&str], steps: &[HighlightStep]) -> (lines: Vec<Vec<Span>>)
    ensures
        lines_view(lines@) == painted(source@, names@.map_values(|x: &str| x@), steps@),
{
    let ghost ns = names@.map_values(|x: &str| x@);
    let b = source.as_bytes();
    let mut lines: Vec<Vec<Span>> = Vec::new();
    let empty: Vec<Span> = Vec::new();
    assert(line_view(empty) =~= Seq::<(Seq<char>, Class)>::empty());
    lines.push(empty);
    let mut stack: Vec<Class> = Vec::new();
    assert(lines_view(lines@) =~= seq![seq![]]);
    proof {
        vstd::utf8::encode_utf8_valid_utf8(source@);
    }
    assert(stack@ =~= Seq::<Class>::empty());
    let mut i: usize = 0;
    while i < steps.len()
        invariant
            i <= steps@.len(),
            b@ == utf8_of(source@),
            vstd::utf8::valid_utf8(b@),
            ns == names@.map_values(|x: &str| x@),
            lines@.len() >= 1,
            (lines_view(lines@), stack@) == run_steps(b@, ns, steps@, i as int),
        decreases steps@.len() - i,
    {
        match steps[i] {
            HighlightStep::Start(k) => {
                let class = if k < names.len() {
                    Class::of(names[k])
                } else {
                    Class::of("plain")
                };
                stack.push(class);
            },
            HighlightStep::End => {
                if stack.len() > 0 {
                    stack.pop();
                }
            },
            HighlightStep::Source { start, end } => {
                if start <= end && end <= b.len() && char_start(b, start) && char_start(b, end) {
                    proof {
                        crate::bytes::lemma_valid_subrange(b@, start as int, end as int);
                    }
                    let piece_bytes = vstd::slice::slice_to_vec(vstd::slice::slice_subrange(b, start, end));
                    let text = crate::text::text_of_bytes(piece_bytes);
                    proof {
                        vstd::utf8::encode_utf8_decode_utf8(text@);
                    }
                    let t = chars_of(text.as_str());
                    let class = if stack.len() > 0 {
                        stack[stack.len() - 1]
                    } else {
                        Class::Plain
                    };
                    add_text(&mut lines, &t, class);
                }
            },
        }
        i += 1;
    }
    lines
}

/// What the syntax layer paints for `source` when the highlighter runs.
pub open spec fn rust_lines(source: Seq<char>) -> Option<Seq<Seq<(Seq<char>, Class)>>> {
    match rust_highlights(source, captures_seq()) {
        Some(steps) => Some(painted(source, captures_seq(), steps)),
        None => None,
    }
}

/// One plain span per non-empty line.
pub open spec fn plain_text_lines(source: Seq<char>) -> Seq<Seq<(Seq<char>, Class)>> {
    split_nl(source).map_values(
        |l: Seq<char>|
            if l.len() == 0 {
                Seq::<(Seq<char>, Class)>::empty()
            } else {
                seq![(l, Class::Plain)]
            },
    )
}

/// Every line as one plain span (an empty line has none).
fn plain_lines(source: &str) -> (lines: Vec<Vec<Span>>)
    ensures
        lines_view(lines@) == plain_text_lines(source@),
{
    let t = chars_of(source);
    let parts = split_newlines(&t);
    let ghost ps = parts@.map_values(|p: Vec<char>| p@);
    let mut lines: Vec<Vec<Span>> = Vec::new();
    let mut k: usize = 0;
    while k < parts.len()
        invariant
            k <= parts@.len(),
            ps == parts@.map_values(|p: Vec<char>| p@),
            ps == split_nl(source@),
            lines_view(lines@) == plain_text_lines(source@).take(k as int),
        decreases parts@.len() - k,
    {
        let mut line: Vec<Span> = Vec::new();
        if parts[k].len() > 0 {
            line.push(Span { text: string_of(&parts[k]), class: Class::Plain });
        }
        let ghost before = lines_view(lines@);
        assert(plain_text_lines(source@)[k as int] == (if ps[k as int].len() == 0 {
            Seq::<(Seq<char>, Class)>::empty()
        } else {
            seq![(ps[k as int], Class::Plain)]
        }));
        assert(line_view(line) =~= plain_text_lines(source@)[k as int]);
        lines.push(line);
        assert(lines_view(lines@) =~= before.push(line_view(line)));
        assert(plain_text_lines(source@).take(k + 1) =~= plain_text_lines(source@).take(
            k as int,
        ).push(plain_text_lines(source@)[k as int]));
        k += 1;
    }
    lines
}

/// Highlight Rust source into per-line spans; when the highlighter cannot
/// run, the source comes back as one plain span per line.
pub fn highlight_rust(source: &str) -> (lines: Vec<Vec<Span>>)
    ensures
        lines_view(lines@) == match rust_lines(source@) {
            Some(l) => l,
            None => plain_text_lines(source@),
        },
{
    let names = captures();
    match highlight_steps(source, &names) {
        Some(steps) => paint_steps(source, &names, steps.as_slice()),
        None => plain_lines(source),
    }
}

/// What the syntax layer paints for `source`: the highlighter's spans, or one
/// plain span per line when it cannot run.
pub open spec fn syntax_lines(source: Seq<char>) -> Seq<Seq<(Seq<char>, Class)>> {
    match rust_lines(source) {
        Some(l) => l,
        None => plain_text_lines(source),
    }
}

/// A diff line's marker, for an added or removed line: its first character.
pub open spec fn diff_marker(line: Seq<char>) -> Option<Seq<char>> {
    if tag_of(line) is Added || tag_of(line) is Removed {
        Some(line.take(1))
    } else {
        None
    }
}

/// A diff line's code: an added or removed line without its marker.
pub open spec fn diff_code(line: Seq<char>) -> Seq<char> {
    if tag_of(line) is Added || tag_of(line) is Removed {
        line.skip(1)
    } else {
        line
    }
}

/// `lines` cut or padded with empty lines to exactly `n` lines.
pub open spec fn resized(lines: Seq<Seq<(Seq<char>, Class)>>, n: nat) -> Seq<Seq<(Seq<char>, Class)>> {
    Seq::new(n, |k: int| if k < lines.len() { lines[k] } else { seq![] })
}

/// The two layers composed over a patch: the markers peeled off, the code
/// highlighted as one document, each marker put back as a plain span at the
/// head of its line.
pub open spec fn diff_lines(source: Seq<char>) -> Seq<Seq<(Seq<char>, Class)>> {
    let ls = split_nl(source);
    let code = join(ls.map_values(|l: Seq<char>| diff_code(l)), "\n"@);
    let sized = resized(syntax_lines(code), ls.len());
    Seq::new(
        ls.len(),
        |k: int|
            match diff_marker(ls[k]) {
                Some(m) => seq![(m, Class::Plain)] + sized[k],
                None => sized[k],
            },
    )
}

/// Highlight a patch (or ordinary text) into per-line spans, **on top of**
/// the diff layer: a removed `fn` is both a removal and a keyword.
pub fn highlight_diff(source: &str) -> (lines: Vec<Vec<Span>>)
    ensures
        lines_view(lines@) == diff_lines(source@),
{
    let t = chars_of(source);
    let parts = split_newlines(&t);
    let ghost ls = parts@.map_values(|p: Vec<char>| p@);
    let n = parts.len();
    let mut code = String::new();
    let mut i: usize = 0;
    let ghost codes = ls.map_values(|l: Seq<char>| diff_code(l));
    while i < n
        invariant
            n == parts@.len(),
            ls == parts@.map_values(|p: Vec<char>| p@),
            codes == ls.map_values(|l: Seq<char>| diff_code(l)),
            i <= n,
            code@ == join(codes.take(i as int), "\n"@),
        decreases n - i,
    {
        proof {
            lemma_join_step(codes, "\n"@, i as int);
        }
        if i > 0 {
            push_str(&mut code, "\n");
        }
        let line = string_of(&parts[i]);
        let tag = diff_tag(line.as_str());
        match tag {
            DiffTag::Added | DiffTag::Removed => {
                let rest = string_of_range(&parts[i], 1, parts[i].len());
                assert(rest@ =~= ls[i as int].skip(1));
                push_str(&mut code, rest.as_str());
            },
            _ => {
                push_str(&mut code, line.as_str());
            },
        }
        i += 1;
    }
    assert(codes.take(n as int) =~= codes);
    let highlighted = highlight_rust(code.as_str());
    let ghost sized = resized(syntax_lines(code@), n as nat);
    let mut lines: Vec<Vec<Span>> = Vec::new();
    let mut k: usize = 0;
    while k < n
        invariant
            n == parts@.len(),
            ls == parts@.map_values(|p: Vec<char>| p@),
            ls == split_nl(source@),
            code@ == join(codes, "\n"@),
            codes == ls.map_values(|l: Seq<char>| diff_code(l)),
            lines_view(highlighted@) == syntax_lines(code@),
            sized == resized(syntax_lines(code@), n as nat),
            k <= n,
            lines_view(lines@) == diff_lines(source@).take(k as int),
        decreases n - k,
    {
        let mut line: Vec<Span> = Vec::new();
        let text = string_of(&parts[k]);
        let tag = diff_tag(text.as_str());
        match tag {
            DiffTag::Added | DiffTag::Removed => {
                let marker = string_of_range(&parts[k], 0, 1);
                assert(marker@ =~= ls[k as int].take(1));
                line.push(Span { text: marker, class: Class::Plain });
            },
            _ => {},
        }
        let ghost head = line_view(line);
        if k < highlighted.len() {
            let src = &highlighted[k];
            let mut j: usize = 0;
            while j < src.len()
                invariant
                    j <= src@.len(),
                    line_view(line) == head + line_view(*src).take(j as int),
                decreases src@.len() - j,
            {
                let sp = &src[j];
                let copy = Span { text: sp.text.clone(), class: sp.class };
                let ghost before = line_view(line);
                line.push(copy);
                assert(line_view(line) =~= before.push(span_view(*sp)));
                assert(line_view(*src).take(j + 1) =~= line_view(*src).take(j as int).push(
                    span_view(*sp),
                ));
                j += 1;
            }
            assert(line_view(*src).take(src@.len() as int) =~= line_view(*src));
            assert(sized[k as int] == syntax_lines(code@)[k as int]);
        } else {
            assert(sized[k as int] == Seq::<(Seq<char>, Class)>::empty());
            assert(line_view(line) =~= head + sized[k as int]);
        }
        let ghost before = lines_view(lines@);
        assert(line_view(line) =~= diff_lines(source@)[k as int]);
        lines.push(line);
        assert(lines_view(lines@) =~= before.push(diff_lines(source@)[k as int]));
        assert(diff_lines(source@).take(k + 1) =~= diff_lines(source@).take(k as int).push(
            diff_lines(source@)[k as int],
        ));
        k += 1;
    }
    assert(diff_lines(source@).take(n as int) =~= diff_lines(source@));
    lines
}

/// A line's spans painted for a terminal: a colored span carries its code and
/// a reset, a span without color is its text alone.
pub open spec fn paint_spans(spans: Seq<(Seq<char>, Class)>) -> Seq<char>
    decreases spans.len(),
{
    if spans.len() == 0 {
        seq![]
    } else {
        let (text, class) = spans.last();
        paint_spans(spans.drop_last()) + if class_ansi(class).len() == 0 {
            text
        } else {
            class_ansi(class) + text + "\x1b[0m"@
        }
    }
}

/// Lines of spans painted one after another, with nothing between them.
pub open spec fn paint_all(lines: Seq<Seq<(Seq<char>, Class)>>) -> Seq<char>
    decreases lines.len(),
{
    if lines.len() == 0 {
        seq![]
    } else {
        paint_all(lines.drop_last()) + paint_spans(lines.last())
    }
}

/// Paint one line for a terminal: the diff tag wins when the line is part of
/// a diff, and the syntax layer colors context lines. The two are computed
/// independently — neither one is derived from the other.
pub fn ansi_line(line: &str, color: bool) -> (s: String)
    ensures
        s@ == if !color {
            line@
        } else if !(tag_of(line@) is Context) {
            tag_ansi(tag_of(line@)) + line@ + "\x1b[0m"@
        } else {
            paint_all(diff_lines(line@))
        },
{
    if !color {
        return line.to_string();
    }
    let tag = diff_tag(line);
    match tag {
        DiffTag::Context => {},
        _ => {
            let mut s = String::new();
            push_str(&mut s, tag.ansi());
            push_str(&mut s, line);
            push_str(&mut s, "\x1b[0m");
            return s;
        },
    }
    let lines = highlight_diff(line);
    let ghost lv = lines_view(lines@);
    let mut out = String::new();
    let mut i: usize = 0;
    while i < lines.len()
        invariant
            i <= lines@.len(),
            lv == lines_view(lines@),
            out@ == paint_all(lv.take(i as int)),
        decreases lines@.len() - i,
    {
        let spans = &lines[i];
        let ghost sv = line_view(*spans);
        let ghost head = out@;
        let mut j: usize = 0;
        while j < spans.len()
            invariant
                j <= spans@.len(),
                sv == line_view(*spans),
                out@ == head + paint_spans(sv.take(j as int)),
            decreases spans@.len() - j,
        {
            let sp = &spans[j];
            let code = sp.class.ansi();
            assert(sv.take(j + 1).drop_last() =~= sv.take(j as int));
            assert(sv.take(j + 1).last() == span_view(*sp));
            if code.unicode_len() == 0 {
                push_str(&mut out, sp.text.as_str());
            } else {
                push_str(&mut out, code);
                push_str(&mut out, sp.text.as_str());
                push_str(&mut out, "\x1b[0m");
            }
            j += 1;
        }
        assert(sv.take(spans@.len() as int) =~= sv);
        assert(lv.take(i + 1).drop_last() =~= lv.take(i as int));
        assert(lv.take(i + 1).last() == sv);
        i += 1;
    }
    assert(lv.take(lines@.len() as int) =~= lv);
    out
}

} // verus!
