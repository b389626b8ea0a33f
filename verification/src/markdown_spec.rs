//! What the Markdown renderer produces, stated over character sequences.
//!
//! The renderer is a hand-written scanner over the constructs a coding agent
//! emits, not CommonMark. These functions are its meaning: a line of text is
//! a sequence of runs, each run some characters and the look they are drawn
//! with.

use vstd::prelude::*;

use crate::text::{first_occurrence, join};

verus! {

/// The colours the renderer draws with beside the terminal's default.
#[derive(Clone, Copy, Debug, PartialEq, Eq)]
pub enum Ink {
    /// Inline code and fenced blocks.
    Code,
    /// Muted structure: blockquote bars, rules, link targets.
    Muted,
    /// The top two heading levels.
    Heading,
}

/// How a run of text is drawn.
#[derive(Clone, Copy, Debug, PartialEq, Eq)]
pub struct Look {
    pub ink: Option<Ink>,
    pub bold: bool,
    pub italic: bool,
    pub crossed: bool,
    pub underlined: bool,
}

/// A run as the contracts see it: its characters and its look.
pub type Run = (Seq<char>, Look);

/// The terminal's default look.
pub open spec fn plain_look() -> Look {
    Look { ink: None, bold: false, italic: false, crossed: false, underlined: false }
}

/// `l` drawn in `ink`.
pub open spec fn inked(l: Look, ink: Ink) -> Look {
    Look { ink: Some(ink), bold: l.bold, italic: l.italic, crossed: l.crossed, underlined: l.underlined }
}

pub open spec fn bolded(l: Look) -> Look {
    Look { ink: l.ink, bold: true, italic: l.italic, crossed: l.crossed, underlined: l.underlined }
}

pub open spec fn italicized(l: Look) -> Look {
    Look { ink: l.ink, bold: l.bold, italic: true, crossed: l.crossed, underlined: l.underlined }
}

pub open spec fn crossed_out(l: Look) -> Look {
    Look { ink: l.ink, bold: l.bold, italic: l.italic, crossed: true, underlined: l.underlined }
}

pub open spec fn underlined(l: Look) -> Look {
    Look { ink: l.ink, bold: l.bold, italic: l.italic, crossed: l.crossed, underlined: true }
}

/// Whether Unicode gives `c` the White_Space property, which is what `str`'s
/// trimming strips.
pub open spec fn white_space(c: char) -> bool {
    let u = c as u32;
    ||| 0x09 <= u <= 0x0d
    ||| u == 0x20
    ||| u == 0x85
    ||| u == 0xa0
    ||| u == 0x1680
    ||| 0x2000 <= u <= 0x200a
    ||| u == 0x2028
    ||| u == 0x2029
    ||| u == 0x202f
    ||| u == 0x205f
    ||| u == 0x3000
}

/// Whether Unicode counts `c` as alphabetic or numeric.
pub uninterp spec fn alphanumeric(c: char) -> bool;

/// How many whitespace characters `s` starts with.
pub open spec fn lead_ws(s: Seq<char>) -> nat
    decreases s.len(),
{
    if s.len() > 0 && white_space(s[0]) {
        1 + lead_ws(s.drop_first())
    } else {
        0
    }
}

/// How many whitespace characters `s` ends with.
pub open spec fn trail_ws(s: Seq<char>) -> nat
    decreases s.len(),
{
    if s.len() > 0 && white_space(s.last()) {
        1 + trail_ws(s.drop_last())
    } else {
        0
    }
}

/// How many copies of `c` `s` starts with.
pub open spec fn lead_run(s: Seq<char>, c: char) -> nat
    decreases s.len(),
{
    if s.len() > 0 && s[0] == c {
        1 + lead_run(s.drop_first(), c)
    } else {
        0
    }
}

/// How many copies of `c` `s` ends with.
pub open spec fn trail_run(s: Seq<char>, c: char) -> nat
    decreases s.len(),
{
    if s.len() > 0 && s.last() == c {
        1 + trail_run(s.drop_last(), c)
    } else {
        0
    }
}

/// How many ASCII digits `s` starts with.
pub open spec fn lead_digits(s: Seq<char>) -> nat
    decreases s.len(),
{
    if s.len() > 0 && '0' <= s[0] <= '9' {
        1 + lead_digits(s.drop_first())
    } else {
        0
    }
}

pub open spec fn trim_start(s: Seq<char>) -> Seq<char> {
    s.skip(lead_ws(s) as int)
}

pub open spec fn trim_end(s: Seq<char>) -> Seq<char> {
    s.take(s.len() - trail_ws(s))
}

pub open spec fn trim(s: Seq<char>) -> Seq<char> {
    trim_end(trim_start(s))
}

/// `s` cut at every `sep`, as `str::split` cuts it: one piece more than there
/// are separators.
pub open spec fn split_on(s: Seq<char>, sep: char) -> Seq<Seq<char>>
    decreases s.len(),
{
    match first_occurrence(s, seq![sep]) {
        Some(i) => if 0 <= i < s.len() {
            seq![s.take(i)] + split_on(s.skip(i + 1), sep)
        } else {
            seq![s]
        },
        None => seq![s],
    }
}

/// `s` without one trailing carriage return.
pub open spec fn strip_cr(s: Seq<char>) -> Seq<char> {
    if s.len() > 0 && s.last() == '\r' {
        s.drop_last()
    } else {
        s
    }
}

/// The first two characters of `s` are `a` then `b`.
pub open spec fn opens_with(s: Seq<char>, a: char, b: char) -> bool {
    s.len() >= 2 && s[0] == a && s[1] == b
}

/// Where `pat` next occurs in `s` from position `from`, counted from `from`.
pub open spec fn next_at(s: Seq<char>, from: int, pat: Seq<char>) -> Option<int> {
    match first_occurrence(s.skip(from), pat) {
        Some(e) => if 0 <= from && 0 <= e && from + e + pat.len() <= s.len() {
            Some(e)
        } else {
            None
        },
        None => None,
    }
}

/// A code span at the start of `rest`: the length of its content.
pub open spec fn code_close(rest: Seq<char>) -> Option<int> {
    if rest.len() > 0 && rest[0] == '`' {
        next_at(rest, 1, seq!['`'])
    } else {
        None
    }
}

/// The doubled marker that opens strong text here: `**`, or `__` where the
/// character before is not alphanumeric (so `__init__` stays a name).
pub open spec fn strong_char(rest: Seq<char>, prev: char) -> Option<char> {
    if opens_with(rest, '*', '*') {
        Some('*')
    } else if opens_with(rest, '_', '_') && !alphanumeric(prev) {
        Some('_')
    } else {
        None
    }
}

/// Strong text at the start of `rest`: the length of its content.
pub open spec fn strong_close(rest: Seq<char>, prev: char) -> Option<int> {
    match strong_char(rest, prev) {
        Some(m) => next_at(rest, 2, seq![m, m]),
        None => None,
    }
}

/// Struck-out text at the start of `rest`: the length of its content.
pub open spec fn strike_close(rest: Seq<char>) -> Option<int> {
    if opens_with(rest, '~', '~') {
        next_at(rest, 2, seq!['~', '~'])
    } else {
        None
    }
}

/// The single marker that opens emphasis here: a lone `*`, or a lone `_`
/// where the character before is not alphanumeric.
pub open spec fn emphasis_char(rest: Seq<char>, prev: char) -> Option<char> {
    if rest.len() > 0 && rest[0] == '*' && !opens_with(rest, '*', '*') {
        Some('*')
    } else if rest.len() > 0 && rest[0] == '_' && !opens_with(rest, '_', '_') && !alphanumeric(
        prev,
    ) {
        Some('_')
    } else {
        None
    }
}

/// Emphasis at the start of `rest`: the length of its content.
pub open spec fn emphasis_close(rest: Seq<char>, prev: char) -> Option<int> {
    match emphasis_char(rest, prev) {
        Some(m) => next_at(rest, 1, seq![m]),
        None => None,
    }
}

/// A link `[label](url)` at the start of `rest`: the lengths of label and url.
pub open spec fn link_close(rest: Seq<char>) -> Option<(int, int)> {
    if rest.len() > 0 && rest[0] == '[' {
        match next_at(rest, 1, seq![']', '(']) {
            Some(c) => match next_at(rest, c + 3, seq![')']) {
                Some(u) => Some((c, u)),
                None => None,
            },
            None => None,
        }
    } else {
        None
    }
}

/// Pending plain text, as a run when there is any.
pub open spec fn flushed(plain: Seq<char>, base: Look) -> Seq<Run> {
    if plain.len() == 0 {
        seq![]
    } else {
        seq![(plain, base)]
    }
}

/// The runs of `rest`, after `plain` has been collected and with `prev` the
/// character before `rest`.
#[verifier::opaque]
pub open spec fn inline_from(rest: Seq<char>, plain: Seq<char>, prev: char, base: Look) -> Seq<
    Run,
>
    decreases rest.len(),
{
    if rest.len() == 0 {
        flushed(plain, base)
    } else if let Some(e) = code_close(rest) {
        flushed(plain, base) + seq![(rest.subrange(1, 1 + e), inked(base, Ink::Code))]
            + inline_from(rest.skip(e + 2), seq![], '`', base)
    } else if let Some(e) = strong_close(rest, prev) {
        flushed(plain, base) + inline_from(rest.subrange(2, 2 + e), seq![], '\n', bolded(base))
            + inline_from(rest.skip(e + 4), seq![], '*', base)
    } else if let Some(e) = strike_close(rest) {
        flushed(plain, base) + inline_from(rest.subrange(2, 2 + e), seq![], '\n', crossed_out(base))
            + inline_from(rest.skip(e + 4), seq![], '~', base)
    } else if let Some(e) = emphasis_close(rest, prev) {
        flushed(plain, base) + inline_from(rest.subrange(1, 1 + e), seq![], '\n', italicized(base))
            + inline_from(rest.skip(e + 2), seq![], '*', base)
    } else if let Some((c, u)) = link_close(rest) {
        let label = rest.subrange(1, 1 + c);
        let url = rest.subrange(c + 3, c + 3 + u);
        let target = if url != label {
            seq![(seq![' ', '('] + url + seq![')'], inked(base, Ink::Muted))]
        } else {
            seq![]
        };
        flushed(plain, base) + inline_from(label, seq![], '\n', underlined(base)) + target
            + inline_from(rest.skip(c + u + 4), seq![], ')', base)
    } else {
        inline_from(rest.drop_first(), plain.push(rest[0]), rest[0], base)
    }
}

pub proof fn lemma_inline_end(plain: Seq<char>, prev: char, base: Look)
    ensures
        inline_from(seq![], plain, prev, base) == flushed(plain, base),
{
    reveal(inline_from);
}

pub proof fn lemma_inline_code(rest: Seq<char>, plain: Seq<char>, prev: char, base: Look, e: int)
    requires
        rest.len() > 0,
        code_close(rest) == Some(e),
    ensures
        inline_from(rest, plain, prev, base) == flushed(plain, base) + seq![
            (rest.subrange(1, 1 + e), inked(base, Ink::Code)),
        ] + inline_from(rest.skip(e + 2), seq![], '`', base),
{
    reveal(inline_from);
}

pub proof fn lemma_inline_strong(rest: Seq<char>, plain: Seq<char>, prev: char, base: Look, e: int)
    requires
        rest.len() > 0,
        code_close(rest) is None,
        strong_close(rest, prev) == Some(e),
    ensures
        inline_from(rest, plain, prev, base) == flushed(plain, base) + inline_from(
            rest.subrange(2, 2 + e),
            seq![],
            '\n',
            bolded(base),
        ) + inline_from(rest.skip(e + 4), seq![], '*', base),
{
    reveal(inline_from);
}

pub proof fn lemma_inline_strike(rest: Seq<char>, plain: Seq<char>, prev: char, base: Look, e: int)
    requires
        rest.len() > 0,
        code_close(rest) is None,
        strong_close(rest, prev) is None,
        strike_close(rest) == Some(e),
    ensures
        inline_from(rest, plain, prev, base) == flushed(plain, base) + inline_from(
            rest.subrange(2, 2 + e),
            seq![],
            '\n',
            crossed_out(base),
        ) + inline_from(rest.skip(e + 4), seq![], '~', base),
{
    reveal(inline_from);
}

pub proof fn lemma_inline_emphasis(
    rest: Seq<char>,
    plain: Seq<char>,
    prev: char,
    base: Look,
    e: int,
)
    requires
        rest.len() > 0,
        code_close(rest) is None,
        strong_close(rest, prev) is None,
        strike_close(rest) is None,
        emphasis_close(rest, prev) == Some(e),
    ensures
        inline_from(rest, plain, prev, base) == flushed(plain, base) + inline_from(
            rest.subrange(1, 1 + e),
            seq![],
            '\n',
            italicized(base),
        ) + inline_from(rest.skip(e + 2), seq![], '*', base),
{
    reveal(inline_from);
}

/// The link target shown after a label, when it differs from the label.
pub open spec fn link_target(label: Seq<char>, url: Seq<char>, base: Look) -> Seq<Run> {
    if url != label {
        seq![(seq![' ', '('] + url + seq![')'], inked(base, Ink::Muted))]
    } else {
        seq![]
    }
}

pub proof fn lemma_inline_link(
    rest: Seq<char>,
    plain: Seq<char>,
    prev: char,
    base: Look,
    c: int,
    u: int,
)
    requires
        rest.len() > 0,
        code_close(rest) is None,
        strong_close(rest, prev) is None,
        strike_close(rest) is None,
        emphasis_close(rest, prev) is None,
        link_close(rest) == Some((c, u)),
    ensures
        inline_from(rest, plain, prev, base) == flushed(plain, base) + inline_from(
            rest.subrange(1, 1 + c),
            seq![],
            '\n',
            underlined(base),
        ) + link_target(rest.subrange(1, 1 + c), rest.subrange(c + 3, c + 3 + u), base)
            + inline_from(rest.skip(c + u + 4), seq![], ')', base),
{
    reveal(inline_from);
}

pub proof fn lemma_inline_plain(rest: Seq<char>, plain: Seq<char>, prev: char, base: Look)
    requires
        rest.len() > 0,
        code_close(rest) is None,
        strong_close(rest, prev) is None,
        strike_close(rest) is None,
        emphasis_close(rest, prev) is None,
        link_close(rest) is None,
    ensures
        inline_from(rest, plain, prev, base) == inline_from(
            rest.drop_first(),
            plain.push(rest[0]),
            rest[0],
            base,
        ),
{
    reveal(inline_from);
}

/// The runs one line of Markdown text is drawn as, in the look `base`.
pub open spec fn inline_runs(text: Seq<char>, base: Look) -> Seq<Run> {
    inline_from(text, seq![], '\n', base)
}

/// A fence that opens a code block: three or more backticks or tildes, as
/// the character and how many.
pub open spec fn opening_fence(t: Seq<char>) -> Option<(char, nat)> {
    if lead_run(t, '`') >= 3 {
        Some(('`', lead_run(t, '`')))
    } else if lead_run(t, '~') >= 3 {
        Some(('~', lead_run(t, '~')))
    } else {
        None
    }
}

/// Whether `raw` closes a block opened by `len` copies of `ch`: at least as
/// many of them, then nothing but more of them or spaces.
pub open spec fn closes_fence(raw: Seq<char>, ch: char, len: nat) -> bool {
    let t = trim(raw);
    let c = lead_run(t, ch);
    c >= len && forall|k: int| c <= k < t.len() ==> (#[trigger] t[k] == ch || t[k] == ' ')
}

/// A heading `# Title` to `###### Title`: its level and its text, with the
/// closing hashes cut.
pub open spec fn heading(t: Seq<char>) -> Option<(nat, Seq<char>)> {
    let level = lead_run(t, '#');
    if 1 <= level <= 6 && level < t.len() && t[level as int] == ' ' {
        let a = trim_end(t.skip(level + 1int));
        let b = a.take(a.len() - trail_run(a, '#'));
        Some((level, trim_end(b)))
    } else {
        None
    }
}

/// How many copies of `c` `s` holds.
pub open spec fn count_of(s: Seq<char>, c: char) -> nat
    decreases s.len(),
{
    if s.len() == 0 {
        0
    } else {
        count_of(s.drop_last(), c) + if s.last() == c {
            1nat
        } else {
            0nat
        }
    }
}

/// `t` is a thematic break drawn with `m`: nothing but `m` and spaces, and at
/// least three `m`.
pub open spec fn rule_of(t: Seq<char>, m: char) -> bool {
    &&& forall|i: int| 0 <= i < t.len() ==> (#[trigger] t[i] == ' ' || t[i] == m)
    &&& count_of(t, m) >= 3
}

/// A thematic break: three or more of `-`, `*` or `_`, spaces allowed.
pub open spec fn is_rule(t: Seq<char>) -> bool {
    rule_of(t, '-') || rule_of(t, '*') || rule_of(t, '_')
}

/// The text of a blockquote line `> text`.
pub open spec fn blockquote(t: Seq<char>) -> Option<Seq<char>> {
    if t.len() > 0 && t[0] == '>' {
        let rest = t.skip(1);
        if rest.len() > 0 && rest[0] == ' ' {
            Some(rest.skip(1))
        } else {
            Some(rest)
        }
    } else {
        None
    }
}

/// The marker a bullet's text begins with: a task box becomes a ticked or an
/// empty box, anything else a dot.
pub open spec fn task_box(r: Seq<char>) -> (Seq<char>, Seq<char>) {
    if r.len() >= 4 && r[0] == '[' && (r[1] == 'x' || r[1] == 'X') && r[2] == ']' && r[3] == ' ' {
        (seq!['\u{2611}', ' '], r.skip(4))
    } else if r.len() >= 4 && r[0] == '[' && r[1] == ' ' && r[2] == ']' && r[3] == ' ' {
        (seq!['\u{2610}', ' '], r.skip(4))
    } else {
        (seq!['\u{2022}', ' '], r)
    }
}

/// A list item: its indent and marker as drawn, and its text.
pub open spec fn list_item(raw: Seq<char>) -> Option<(Seq<char>, Seq<char>)> {
    let k = lead_ws(raw);
    let t = raw.skip(k as int);
    if t.len() >= 2 && (t[0] == '-' || t[0] == '*' || t[0] == '+') && t[1] == ' ' {
        let (m, r) = task_box(t.skip(2));
        Some((raw.take(k as int) + m, r))
    } else {
        let d = lead_digits(t);
        if d > 0 && d + 2 <= t.len() && t[d as int] == '.' && t[d + 1int] == ' ' {
            Some((raw.take(k as int) + t.take(d as int) + seq!['.', ' '], t.skip(d + 2int)))
        } else {
            None
        }
    }
}

/// The cells of a table row `| a | b |`, each trimmed.
pub open spec fn table_cells(t: Seq<char>) -> Option<Seq<Seq<char>>> {
    if t.len() >= 2 && t[0] == '|' && t.last() == '|' {
        Some(split_on(t.subrange(1, t.len() - 1), '|').map_values(|c: Seq<char>| trim(c)))
    } else {
        None
    }
}

/// A cell of the `|---|:--:|` row under a table's header.
pub open spec fn separator_cell(c: Seq<char>) -> bool {
    c.len() > 0 && forall|k: int|
        0 <= k < c.len() ==> (#[trigger] c[k] == '-' || c[k] == ':' || c[k] == ' ')
}

/// The alignment row under a table's header, which carries no content.
pub open spec fn is_separator(cells: Seq<Seq<char>>) -> bool {
    cells.len() > 0 && forall|j: int| 0 <= j < cells.len() ==> separator_cell(#[trigger] cells[j])
}

/// What a table row's cells are joined with.
pub open spec fn cell_gap() -> Seq<char> {
    seq![' ', '\u{2502}', ' ']
}

/// A line inside a fenced block: indented, in the code colour, kept as it is.
pub open spec fn code_row(raw: Seq<char>) -> Seq<Run> {
    seq![(seq![' ', ' '] + raw, inked(plain_look(), Ink::Code))]
}

/// A heading's line: the top two levels stand out in colour, all are bold.
pub open spec fn heading_row(level: nat, text: Seq<char>) -> Seq<Run> {
    let ink = if level <= 2 {
        Some(Ink::Heading)
    } else {
        None
    };
    seq![(text, Look { ink, bold: true, italic: false, crossed: false, underlined: false })]
}

/// A thematic break's line.
pub open spec fn rule_row() -> Seq<Run> {
    seq![(Seq::new(24, |i: int| '\u{2500}'), inked(plain_look(), Ink::Muted))]
}

/// A blockquote's line: a bar, then the text, all muted.
pub open spec fn quote_row(rest: Seq<char>) -> Seq<Run> {
    seq![(seq!['\u{2502}', ' '], inked(plain_look(), Ink::Muted))] + inline_runs(
        rest,
        inked(plain_look(), Ink::Muted),
    )
}

/// The line one row of text outside a fenced block is drawn as; `None` for the
/// alignment row of a table, which is not drawn.
#[verifier::opaque]
pub open spec fn block_line(raw: Seq<char>) -> Option<Seq<Run>> {
    let t = trim_start(raw);
    if t.len() == 0 {
        Some(seq![])
    } else if let Some((level, text)) = heading(t) {
        Some(heading_row(level, text))
    } else if is_rule(t) {
        Some(rule_row())
    } else if let Some(rest) = blockquote(t) {
        Some(quote_row(rest))
    } else if let Some((lead, rest)) = list_item(raw) {
        Some(seq![(lead, plain_look())] + inline_runs(rest, plain_look()))
    } else if let Some(cells) = table_cells(t) {
        if is_separator(cells) {
            None
        } else {
            Some(seq![(join(cells, cell_gap()), plain_look())])
        }
    } else {
        Some(inline_runs(raw, plain_look()))
    }
}

/// The code block open after the line `raw`, when `fence` was open before it.
pub open spec fn next_fence(raw: Seq<char>, fence: Option<(char, nat)>) -> Option<(char, nat)> {
    match fence {
        Some((ch, n)) => if closes_fence(raw, ch, n) {
            None
        } else {
            fence
        },
        None => opening_fence(trim_start(raw)),
    }
}

/// What the line `raw` draws, when `fence` was open before it: a fence line
/// draws nothing, a line inside a block draws as code.
pub open spec fn rows_of(raw: Seq<char>, fence: Option<(char, nat)>) -> Seq<Seq<Run>> {
    match fence {
        Some((ch, n)) => if closes_fence(raw, ch, n) {
            seq![]
        } else {
            seq![code_row(raw)]
        },
        None => if opening_fence(trim_start(raw)) is Some {
            seq![]
        } else {
            match block_line(raw) {
                Some(line) => seq![line],
                None => seq![],
            }
        },
    }
}

/// The lines `lines` are drawn as, with `fence` the code block open before
/// them.
pub open spec fn render_from(lines: Seq<Seq<char>>, fence: Option<(char, nat)>) -> Seq<Seq<Run>>
    decreases lines.len(),
{
    if lines.len() == 0 {
        seq![]
    } else {
        let raw = strip_cr(lines[0]);
        rows_of(raw, fence) + render_from(lines.drop_first(), next_fence(raw, fence))
    }
}

/// The lines a block of Markdown text is drawn as.
pub open spec fn markdown_lines(text: Seq<char>) -> Seq<Seq<Run>> {
    render_from(split_on(text, '\n'), None)
}

/// `c` can open inline markup: a code span, emphasis, strike-through or a
/// link.
pub open spec fn markup_char(c: char) -> bool {
    c == '`' || c == '*' || c == '_' || c == '~' || c == '['
}

proof fn lemma_plain_rest(rest: Seq<char>, plain: Seq<char>, prev: char, base: Look)
    requires
        forall|i: int| 0 <= i < rest.len() ==> !markup_char(#[trigger] rest[i]),
    ensures
        inline_from(rest, plain, prev, base) == flushed(plain + rest, base),
    decreases rest.len(),
{
    if rest.len() == 0 {
        lemma_inline_end(plain, prev, base);
        assert(rest =~= Seq::<char>::empty());
        assert(plain + rest =~= plain);
    } else {
        assert(!markup_char(rest[0]));
        lemma_inline_plain(rest, plain, prev, base);
        lemma_plain_rest(rest.drop_first(), plain.push(rest[0]), rest[0], base);
        assert(plain.push(rest[0]) + rest.drop_first() =~= plain + rest);
    }
}

/// Text that holds no inline markup is drawn as itself, in one run of the
/// look it was given.
pub proof fn plain_text_passes_through(text: Seq<char>, base: Look)
    requires
        text.len() > 0,
        forall|i: int| 0 <= i < text.len() ==> !markup_char(#[trigger] text[i]),
    ensures
        inline_runs(text, base) == seq![(text, base)],
{
    lemma_plain_rest(text, seq![], '\n', base);
    assert(seq![] + text =~= text);
}


/// `k` copies of `#`.
pub open spec fn hashes(k: nat) -> Seq<char> {
    Seq::new(k, |i: int| '#')
}

proof fn lemma_lead_hashes(k: nat, rest: Seq<char>)
    requires
        rest.len() > 0,
        rest[0] != '#',
    ensures
        lead_run(hashes(k) + rest, '#') == k,
    decreases k,
{
    if k > 0 {
        assert((hashes(k) + rest).drop_first() =~= hashes((k - 1) as nat) + rest);
        lemma_lead_hashes((k - 1) as nat, rest);
    } else {
        assert(hashes(0) + rest =~= rest);
    }
}

proof fn lemma_trail_hashes(k: nat, before: Seq<char>)
    requires
        before.len() > 0,
        before.last() != '#',
    ensures
        trail_run(before + hashes(k), '#') == k,
    decreases k,
{
    if k > 0 {
        assert((before + hashes(k)).drop_last() =~= before + hashes((k - 1) as nat));
        lemma_trail_hashes((k - 1) as nat, before);
    } else {
        assert(before + hashes(0) =~= before);
    }
}

/// The look a heading of level `k` is drawn in: bold, and coloured for the
/// top two levels.
pub open spec fn heading_look(k: nat) -> Look {
    Look {
        ink: if k <= 2 {
            Some(Ink::Heading)
        } else {
            None
        },
        bold: true,
        italic: false,
        crossed: false,
        underlined: false,
    }
}

/// A line of one to six `#`, a space and some text — closed or not by a
/// space and more `#` — is a heading of that many levels at every level from
/// one to six: it is drawn as one bold run of the text alone, the hashes
/// before it and the closing hashes after it cut.
pub proof fn one_to_six_hashes_make_a_heading(k: nat, text: Seq<char>, closing: nat)
    requires
        1 <= k <= 6,
        text.len() > 0,
        !white_space(text.last()),
        text.last() != '#',
    ensures
        block_line(
            hashes(k) + seq![' '] + text + if closing > 0 {
                seq![' '] + hashes(closing)
            } else {
                seq![]
            },
        ) == Some(seq![(text, heading_look(k))]),
{
    reveal(block_line);
    let tail = if closing > 0 {
        seq![' '] + hashes(closing)
    } else {
        seq![]
    };
    let raw = hashes(k) + seq![' '] + text + tail;
    assert(raw[0] == '#');
    assert(!white_space('#'));
    assert(lead_ws(raw) == 0);
    assert(raw.skip(0) =~= raw);
    let t = trim_start(raw);
    assert(t == raw);
    assert(hashes(k) + seq![' '] + text + tail =~= hashes(k) + (seq![' '] + text + tail));
    lemma_lead_hashes(k, seq![' '] + text + tail);
    assert(lead_run(t, '#') == k);
    assert(t[k as int] == ' ');
    let body = text + tail;
    assert(t.skip(k + 1int) =~= body);
    if closing > 0 {
        assert(body.last() == '#');
        assert(!white_space('#'));
        assert(trail_ws(body) == 0);
        assert(body.take(body.len() - 0) =~= body);
        assert(body =~= (text + seq![' ']) + hashes(closing));
        lemma_trail_hashes(closing, text + seq![' ']);
        let b = body.take(body.len() - closing);
        assert(b =~= text + seq![' ']);
        assert(white_space(' '));
        assert(b.drop_last() =~= text);
        assert(b.last() == ' ');
        assert(trail_ws(text) == 0);
        assert(trail_ws(b) == 1 + trail_ws(b.drop_last()));
        assert(trail_ws(b) == 1);
        assert(trim_end(b) =~= text);
    } else {
        assert(body =~= text);
        assert(trail_ws(text) == 0);
        assert(text.take(text.len() - 0) =~= text);
        assert(trail_run(text, '#') == 0);
        assert(trim_end(text.take(text.len() - 0)) =~= text);
    }
    assert(heading(t) == Some((k, text)));
}


/// Seven or more `#` before the space make no heading.
pub proof fn seven_hashes_make_no_heading(k: nat, rest: Seq<char>)
    requires
        k > 6,
    ensures
        heading(hashes(k) + seq![' '] + rest) is None,
{
    assert(hashes(k) + seq![' '] + rest =~= hashes(k) + (seq![' '] + rest));
    lemma_lead_hashes(k, seq![' '] + rest);
}

} // verus!
