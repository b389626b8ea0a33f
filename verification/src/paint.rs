//! The transcript's painter: one finished block becomes styled lines. The
//! block was decided once by the transcript; only the painting happens here.
//!
//! A model's answer is drawn as Markdown at full brightness and only the
//! speaker's `[name]` is tinted; narration is dim, and a line that carries a
//! stopping point wears its severity's colour. A tool call is one line the
//! reader can open, with the whole call behind it.

use vstd::prelude::*;

use crate::args::{parsed_args, shape_text, summarize_args, SUMMARY_MAX};
use crate::events::{Role, SpeakerId, StopReason};
use crate::speaker_colors::{SpeakerColor, SpeakerColors};
use crate::transcript::{truncated, Block, ToolBlock};
use crate::wording::{
    agent_error, context_source, context_source_text, decision_source_text, decision_text,
    diagnostic, divergence, executor_finished, executor_spawned, history, history_reason_text,
    hook, hook_feedback, hook_point_text, permission_asked, permission_asked_text,
    permission_decided, round_ended, round_mode_text, round_section, session_ended,
    session_error, session_error_code_text, speaker_label, speaker_label_text,
    stop_reason_text, tool_call, turn_ended, turn_started, usage_summary,
};
use crate::markdown::{pieces_view, to_lines, Piece};
use crate::markdown_spec::{markdown_lines, Ink, Look, Run};
use crate::placeholder::{char_line_end, lemma_char_line_end, line_span, line_text};
use crate::severity::{severity_of, Severity};
use crate::style::{
    lines_view, plain_style, spans_view, Color, LineView, Style, TextLine, TextSpan, BOLD,
    CROSSED_OUT, ITALIC, UNDERLINED,
};
use crate::text::{chars_of, decimal, push_char, push_str, string_of_range};
use crate::width::{cell_width, text_columns};

verus! {

broadcast use vstd::seq::group_seq_axioms;

/// A style that only sets the foreground.
pub open spec fn fg(c: Color) -> Style {
    Style { fg: Some(c), bg: None, underline_color: None, add_modifier: 0, sub_modifier: 0 }
}

/// A bold style in one foreground.
pub open spec fn fg_bold(c: Color) -> Style {
    Style { fg: Some(c), bg: None, underline_color: None, add_modifier: BOLD, sub_modifier: 0 }
}

fn fg_style(c: Color) -> (s: Style)
    ensures
        s == fg(c),
{
    Style { fg: Some(c), bg: None, underline_color: None, add_modifier: 0, sub_modifier: 0 }
}

fn fg_bold_style(c: Color) -> (s: Style)
    ensures
        s == fg_bold(c),
{
    Style { fg: Some(c), bg: None, underline_color: None, add_modifier: BOLD, sub_modifier: 0 }
}

/// The colour a stopping point paints its line in: success green, a normal
/// end cyan, an early stop yellow, and a failure bold red.
pub open spec fn severity_look(reason: StopReason) -> Style {
    match severity_of(reason) {
        Severity::Good => fg(Color::Green),
        Severity::Note => fg(Color::Cyan),
        Severity::Warn => fg(Color::Yellow),
        Severity::Bad => fg_bold(Color::Red),
    }
}

/// The colour a stopping point paints its line in.
pub fn severity_style(reason: StopReason) -> (s: Style)
    ensures
        s == severity_look(reason),
{
    match Severity::of(reason) {
        Severity::Good => fg_style(Color::Green),
        Severity::Note => fg_style(Color::Cyan),
        Severity::Warn => fg_style(Color::Yellow),
        Severity::Bad => fg_bold_style(Color::Red),
    }
}

/// The modifier bits a Markdown look adds.
pub open spec fn look_bits(l: Look) -> u16 {
    ((if l.bold {
        BOLD as int
    } else {
        0
    }) + (if l.italic {
        ITALIC as int
    } else {
        0
    }) + (if l.crossed {
        CROSSED_OUT as int
    } else {
        0
    }) + (if l.underlined {
        UNDERLINED as int
    } else {
        0
    })) as u16
}

/// How a Markdown look is drawn: code yellow, muted structure grey, the top
/// headings cyan, and each emphasis its modifier.
pub open spec fn look_style(l: Look) -> Style {
    Style {
        fg: match l.ink {
            Some(Ink::Code) => Some(Color::Yellow),
            Some(Ink::Muted) => Some(Color::Gray),
            Some(Ink::Heading) => Some(Color::Cyan),
            None => None,
        },
        bg: None,
        underline_color: None,
        add_modifier: look_bits(l),
        sub_modifier: 0,
    }
}

/// How a Markdown look is drawn.
pub fn style_of_look(l: Look) -> (s: Style)
    ensures
        s == look_style(l),
{
    let fg = match l.ink {
        Some(Ink::Code) => Some(Color::Yellow),
        Some(Ink::Muted) => Some(Color::Gray),
        Some(Ink::Heading) => Some(Color::Cyan),
        None => None,
    };
    let mut bits: u16 = 0;
    if l.bold {
        bits = bits + BOLD;
    }
    if l.italic {
        bits = bits + ITALIC;
    }
    if l.crossed {
        bits = bits + CROSSED_OUT;
    }
    if l.underlined {
        bits = bits + UNDERLINED;
    }
    Style { fg, bg: None, underline_color: None, add_modifier: bits, sub_modifier: 0 }
}

/// A line of one span.
pub open spec fn one_span(text: Seq<char>, style: Style) -> LineView {
    LineView { spans: seq![(text, style)], style: plain_style(), alignment: None }
}

/// A line of one span.
fn line_of(text: String, style: Style) -> (r: TextLine)
    ensures
        r@ == one_span(text@, style),
{
    let spans = vec![TextSpan { content: text, style }];
    assert(spans_view(spans@) =~= seq![(spans@[0].content@, style)]);
    TextLine { spans, style: Style::plain(), alignment: None }
}

/// A rendered Markdown line: each run in its look's style.
pub open spec fn md_row(runs: Seq<Run>) -> LineView {
    LineView {
        spans: runs.map_values(|r: Run| (r.0, look_style(r.1))),
        style: plain_style(),
        alignment: None,
    }
}

/// A rendered Markdown line as a styled line.
pub fn markdown_text_line(pieces: &Vec<Piece>) -> (r: TextLine)
    ensures
        r@ == md_row(pieces_view(pieces@)),
{
    let mut spans: Vec<TextSpan> = Vec::new();
    let mut i: usize = 0;
    while i < pieces.len()
        invariant
            i <= pieces@.len(),
            spans_view(spans@) == pieces_view(pieces@).take(i as int).map_values(
                |r: Run| (r.0, look_style(r.1)),
            ),
        decreases pieces@.len() - i,
    {
        let ghost before = spans@;
        let span = TextSpan { content: pieces[i].text.clone(), style: style_of_look(pieces[i].look) };
        spans.push(span);
        assert(spans_view(spans@) =~= spans_view(before).push((span.content@, span.style)));
        assert(pieces_view(pieces@).take(i + 1) =~= pieces_view(pieces@).take(i as int).push(
            (pieces@[i as int].text@, pieces@[i as int].look),
        ));
        i += 1;
    }
    assert(pieces_view(pieces@).take(pieces@.len() as int) =~= pieces_view(pieces@));
    TextLine { spans, style: Style::plain(), alignment: None }
}

/// The lines of `s` as `str::lines` yields them, from character `pos` on.
pub open spec fn lines_from(s: Seq<char>, pos: int) -> Seq<Seq<char>>
    decreases s.len() - pos,
{
    if pos < 0 || pos >= s.len() {
        seq![]
    } else {
        proof {
            lemma_char_line_end(s, pos);
        }
        seq![line_text(s, pos)] + lines_from(s, char_line_end(s, pos))
    }
}

/// Text made into a line the way a plain string becomes one: each of its
/// lines a span of its own, unstyled, and no span at all for empty text.
pub open spec fn raw_row(text: Seq<char>) -> LineView {
    LineView {
        spans: lines_from(text, 0).map_values(|l: Seq<char>| (l, plain_style())),
        style: plain_style(),
        alignment: None,
    }
}

/// Text made into a line the way a plain string becomes one.
fn raw_line(text: &str) -> (r: TextLine)
    ensures
        r@ == raw_row(text@),
{
    let v = chars_of(text);
    let mut spans: Vec<TextSpan> = Vec::new();
    let mut pos: usize = 0;
    assert(lines_from(v@, 0) =~= lines_from(v@, 0));
    while pos < v.len()
        invariant
            v@ == text@,
            pos <= v@.len(),
            lines_from(v@, 0).map_values(|l: Seq<char>| (l, plain_style())) == spans_view(spans@)
                + lines_from(v@, pos as int).map_values(|l: Seq<char>| (l, plain_style())),
        decreases v@.len() - pos,
    {
        let (hi, next) = line_span(&v, pos);
        let piece = string_of_range(&v, pos, hi);
        let ghost before = spans@;
        let span = TextSpan { content: piece, style: Style::plain() };
        spans.push(span);
        proof {
            lemma_char_line_end(v@, pos as int);
            let rest = lines_from(v@, pos as int);
            assert(rest == seq![line_text(v@, pos as int)] + lines_from(v@, next as int));
            assert(rest.map_values(|l: Seq<char>| (l, plain_style())) =~= seq![
                (line_text(v@, pos as int), plain_style()),
            ] + lines_from(v@, next as int).map_values(|l: Seq<char>| (l, plain_style())));
            assert(spans_view(spans@) =~= spans_view(before).push((span.content@, span.style)));
        }
        pos = next;
    }
    assert(lines_from(v@, pos as int) =~= Seq::<Seq<char>>::empty());
    TextLine { spans, style: Style::plain(), alignment: None }
}

/// `s` cut at each newline, as `str::split('\n')` cuts it.
pub open spec fn split_lines(s: Seq<char>) -> Seq<Seq<char>>
    decreases s.len(),
{
    if s.len() == 0 {
        seq![seq![]]
    } else {
        let rest = split_lines(s.drop_last());
        if s.last() == '\n' {
            rest.push(seq![])
        } else {
            rest.update(rest.len() - 1, rest.last().push(s.last()))
        }
    }
}

proof fn lemma_split_lines_len(s: Seq<char>)
    ensures
        split_lines(s).len() >= 1,
    decreases s.len(),
{
    if s.len() > 0 {
        lemma_split_lines_len(s.drop_last());
    }
}

/// The texts of a list of strings.
pub open spec fn texts_of(v: Seq<String>) -> Seq<Seq<char>> {
    v.map_values(|s: String| s@)
}

/// Text cut at each newline.
fn split_text_lines(text: &str) -> (r: Vec<String>)
    ensures
        texts_of(r@) == split_lines(text@),
{
    let v = chars_of(text);
    let mut done: Vec<String> = Vec::new();
    let mut current = String::new();
    let mut i: usize = 0;
    while i < v.len()
        invariant
            v@ == text@,
            i <= v@.len(),
            split_lines(v@.take(i as int)) == texts_of(done@).push(current@),
        decreases v@.len() - i,
    {
        let c = v[i];
        proof {
            assert(v@.take(i + 1).drop_last() =~= v@.take(i as int));
            assert(v@.take(i + 1).last() == c);
            lemma_split_lines_len(v@.take(i as int));
        }
        if c == '\n' {
            let ghost before = done@;
            let finished = current;
            done.push(finished);
            current = String::new();
            assert(texts_of(done@) =~= texts_of(before).push(finished@));
            assert(split_lines(v@.take(i + 1)) =~= texts_of(done@).push(current@));
        } else {
            let ghost cur = current@;
            push_char(&mut current, c);
            assert(split_lines(v@.take(i + 1)) =~= texts_of(done@).push(current@));
        }
        i += 1;
    }
    assert(v@.take(v@.len() as int) =~= v@);
    let ghost before = done@;
    let last = current;
    done.push(last);
    assert(texts_of(done@) =~= texts_of(before).push(last@));
    done
}

/// `n` spaces.
pub open spec fn spaces(n: nat) -> Seq<char> {
    Seq::new(n, |i: int| ' ')
}

fn space_string(n: usize) -> (s: String)
    ensures
        s@ == spaces(n as nat),
{
    let mut s = String::new();
    let mut i: usize = 0;
    while i < n
        invariant
            i <= n,
            s@ == spaces(i as nat),
        decreases n - i,
    {
        push_char(&mut s, ' ');
        assert(s@ =~= spaces((i + 1) as nat));
        i += 1;
    }
    s
}

/// The colour a speaker's name is painted in.
pub open spec fn ink(c: SpeakerColor) -> Color {
    match c {
        SpeakerColor::LightCyan => Color::LightCyan,
        SpeakerColor::LightMagenta => Color::LightMagenta,
        SpeakerColor::LightYellow => Color::LightYellow,
        SpeakerColor::LightGreen => Color::LightGreen,
        SpeakerColor::Gray => Color::Gray,
        SpeakerColor::DarkGray => Color::DarkGray,
    }
}

/// The colour a speaker's name is painted in.
pub fn ink_of(c: SpeakerColor) -> (r: Color)
    ensures
        r == ink(c),
{
    match c {
        SpeakerColor::LightCyan => Color::LightCyan,
        SpeakerColor::LightMagenta => Color::LightMagenta,
        SpeakerColor::LightYellow => Color::LightYellow,
        SpeakerColor::LightGreen => Color::LightGreen,
        SpeakerColor::Gray => Color::Gray,
        SpeakerColor::DarkGray => Color::DarkGray,
    }
}

/// A speaker's `[name]`, in the speaker's colour, then the narration in the
/// body's style.
pub open spec fn speaker_row(sp: SpeakerId, text: Seq<char>, body: Style, name: Color) -> LineView {
    LineView {
        spans: seq![(speaker_label_text(sp), fg(name)), (" "@ + text, body)],
        style: plain_style(),
        alignment: None,
    }
}

/// One narration line whose text begins with a speaker's `[name]`.
fn speaker_line(speaker: &SpeakerId, text: String, body: Style, name: Color) -> (r: TextLine)
    ensures
        r@ == speaker_row(*speaker, text@, body, name),
{
    let mut rest = String::new();
    push_str(&mut rest, " ");
    push_str(&mut rest, text.as_str());
    let spans = vec![
        TextSpan { content: speaker_label(speaker), style: fg_style(name) },
        TextSpan { content: rest, style: body },
    ];
    assert(spans_view(spans@) =~= seq![
        (spans@[0].content@, spans@[0].style),
        (spans@[1].content@, spans@[1].style),
    ]);
    TextLine { spans, style: Style::plain(), alignment: None }
}

/// Rows drawn under a speaker: the first led by `[name] `, every later one by
/// as many spaces, so continuations line up under the body; the lead is in
/// the speaker's colour.
pub open spec fn attributed(sp: SpeakerId, rows: Seq<LineView>, name: Color) -> Seq<LineView> {
    let prefix = speaker_label_text(sp) + " "@;
    Seq::new(
        rows.len(),
        |i: int|
            LineView {
                spans: seq![
                    (if i == 0 {
                        prefix
                    } else {
                        spaces(cell_width(prefix))
                    }, fg(name)),
                ] + rows[i].spans,
                style: rows[i].style,
                alignment: rows[i].alignment,
            },
    )
}

/// Rows drawn under a speaker.
fn attribute(speaker: &SpeakerId, rows: &Vec<TextLine>, name: Color) -> (r: Vec<TextLine>)
    ensures
        lines_view(r@) == attributed(*speaker, lines_view(rows@), name),
{
    let mut prefix = speaker_label(speaker);
    push_str(&mut prefix, " ");
    proof {
        reveal_strlit(" ");
        reveal_strlit("[");
        reveal_strlit("]");
        reveal_strlit("[执行者 ");
        reveal_strlit("[用户]");
        reveal_strlit("[系统]");
        assert(prefix@.len() >= 2);
    }
    let columns = text_columns(prefix.as_str());
    let indent = space_string(columns);
    let ghost want = attributed(*speaker, lines_view(rows@), name);
    let mut out: Vec<TextLine> = Vec::new();
    let mut i: usize = 0;
    while i < rows.len()
        invariant
            i <= rows@.len(),
            want == attributed(*speaker, lines_view(rows@), name),
            prefix@ == speaker_label_text(*speaker) + " "@,
            indent@ == spaces(cell_width(prefix@)),
            lines_view(out@) == want.take(i as int),
        decreases rows@.len() - i,
    {
        let lead = if i == 0 {
            prefix.clone()
        } else {
            indent.clone()
        };
        let mut copy = rows[i].copied();
        let mut spans = vec![TextSpan { content: lead, style: fg_style(name) }];
        let ghost head = spans@;
        let ghost tail = copy.spans@;
        spans.append(&mut copy.spans);
        let line = TextLine { spans, style: rows[i].style, alignment: rows[i].alignment };
        proof {
            assert(spans_view(head + tail) =~= spans_view(head) + spans_view(tail));
            assert(spans_view(head) =~= seq![(lead@, fg(name))]);
            assert(line@ == want[i as int]);
        }
        let ghost before = out@;
        out.push(line);
        assert(lines_view(out@) =~= lines_view(before).push(line@));
        assert(want.take(i + 1) =~= want.take(i as int).push(want[i as int]));
        i += 1;
    }
    assert(want.take(rows@.len() as int) =~= want);
    out
}

/// The word a failed call's line ends with.
pub const TOOL_FAILED: &'static str = "失败";

/// The texts of an optional string.
pub open spec fn opt_view(o: Option<String>) -> Option<Seq<char>> {
    match o {
        Some(s) => Some(s@),
        None => None,
    }
}

/// The one-line summary of a call's JSON arguments, when it has any.
pub open spec fn args_summary(args: Option<String>) -> Seq<char> {
    match args {
        Some(j) => match parsed_args(j@) {
            Some(v) => truncated(shape_text(v), SUMMARY_MAX as nat),
            None => seq![],
        },
        None => seq![],
    }
}

pub(crate) fn summary_of(args: &Option<String>) -> (s: String)
    ensures
        s@ == args_summary(*args),
{
    match args {
        Some(j) => summarize_args(j.as_str()),
        None => String::new(),
    }
}

/// What a tool call's line says it was: the tool, by name, and its
/// arguments on one line; a result whose start never arrived names `?`.
pub open spec fn call_text(t: ToolBlock) -> Seq<char> {
    "调用 "@ + match t.tool {
        Some(n) => n@,
        None => "?"@,
    } + "("@ + args_summary(t.args) + ")"@
}

/// Whether a call finished and failed.
pub open spec fn failed(t: ToolBlock) -> bool {
    t.outcome matches Some(o) && !o.ok
}

/// A call's line: who made it, the marker that says the line opens, what
/// the call was, and `失败` at its end when it failed.
pub open spec fn tool_spans(t: ToolBlock, name: Color) -> Seq<(Seq<char>, Style)> {
    seq![
        (speaker_label_text(t.speaker) + " "@, fg(name)),
        ("▸ "@, fg(Color::DarkGray)),
        (call_text(t), fg_bold(Color::DarkGray)),
    ] + if failed(t) {
        seq![(" "@ + TOOL_FAILED@, fg(Color::Red))]
    } else {
        seq![]
    }
}

/// The text of a line's spans, one after another.
pub open spec fn spans_text(spans: Seq<(Seq<char>, Style)>) -> Seq<char>
    decreases spans.len(),
{
    if spans.len() == 0 {
        seq![]
    } else {
        spans_text(spans.drop_last()) + spans.last().0
    }
}

/// What a clickable transcript line opens: a frozen thought, or a tool call's
/// arguments and whatever it produced.
#[derive(Debug, Clone, PartialEq, Eq)]
pub enum DetailKind {
    Thinking { text: Option<String> },
    Tool {
        tool_call_id: String,
        output: Option<String>,
        error: Option<String>,
        args: Option<String>,
        no_result: bool,
    },
}

/// A detail: the clicked line's own text as its title, the speaker's colour
/// for its border, and what it shows.
#[derive(Debug, Clone, PartialEq, Eq)]
pub struct Detail {
    pub title: String,
    pub color: Color,
    pub kind: DetailKind,
}

/// What a detail shows, as the contracts see it.
pub enum DetailKindView {
    Thinking(Option<Seq<char>>),
    Tool {
        tool_call_id: Seq<char>,
        output: Option<Seq<char>>,
        error: Option<Seq<char>>,
        args: Option<Seq<char>>,
        no_result: bool,
    },
}

/// A detail as the contracts see it.
pub open spec fn detail_view(d: Detail) -> (Seq<char>, Color, DetailKindView) {
    (
        d.title@,
        d.color,
        match d.kind {
            DetailKind::Thinking { text } => DetailKindView::Thinking(opt_view(text)),
            DetailKind::Tool { tool_call_id, output, error, args, no_result } => DetailKindView::Tool {
                tool_call_id: tool_call_id@,
                output: opt_view(output),
                error: opt_view(error),
                args: opt_view(args),
                no_result,
            },
        },
    )
}

/// The detail behind a call's line.
pub open spec fn tool_detail(t: ToolBlock, name: Color) -> (Seq<char>, Color, DetailKindView) {
    (
        spans_text(tool_spans(t, name)),
        name,
        DetailKindView::Tool {
            tool_call_id: t.tool_call_id@,
            output: match t.outcome {
                Some(o) => opt_view(o.output),
                None => None,
            },
            error: match t.outcome {
                Some(o) => opt_view(o.error),
                None => None,
            },
            args: opt_view(t.args),
            no_result: t.outcome is None,
        },
    )
}

/// One painted line, and where clicking it leads.
#[derive(Debug)]
pub struct RenderedLine {
    pub line: TextLine,
    pub link: Option<Detail>,
}

/// A painted line as the contracts see it.
pub open spec fn rendered_view(r: RenderedLine) -> (LineView, Option<(Seq<char>, Color, DetailKindView)>) {
    (
        r.line@,
        match r.link {
            Some(d) => Some(detail_view(d)),
            None => None,
        },
    )
}

/// Painted lines as the contracts see them.
pub open spec fn rendered_views(v: Seq<RenderedLine>) -> Seq<(LineView, Option<(Seq<char>, Color, DetailKindView)>)> {
    v.map_values(|r: RenderedLine| rendered_view(r))
}

/// The text of a painted line, for a title.
fn line_text_of(line: &TextLine) -> (s: String)
    ensures
        s@ == spans_text(line@.spans),
{
    let mut s = String::new();
    let mut k: usize = 0;
    while k < line.spans.len()
        invariant
            k <= line.spans@.len(),
            s@ == spans_text(spans_view(line.spans@).take(k as int)),
        decreases line.spans@.len() - k,
    {
        push_str(&mut s, line.spans[k].content.as_str());
        proof {
            let v = spans_view(line.spans@);
            assert(v.take(k + 1).drop_last() =~= v.take(k as int));
        }
        k += 1;
    }
    assert(spans_view(line.spans@).take(line.spans@.len() as int) =~= spans_view(line.spans@));
    s
}

fn copy_opt(o: &Option<String>) -> (r: Option<String>)
    ensures
        opt_view(r) == opt_view(*o),
{
    match o {
        Some(s) => Some(s.clone()),
        None => None,
    }
}

/// A finished tool call, folded to one line the reader can open, with the
/// whole call behind it.
fn tool_block_lines(tool: &ToolBlock, name: Color) -> (r: Vec<RenderedLine>)
    ensures
        rendered_views(r@) == seq![
            (
                LineView { spans: tool_spans(*tool, name), style: plain_style(), alignment: None },
                Some(tool_detail(*tool, name)),
            ),
        ],
{
    let mut lead = speaker_label(&tool.speaker);
    push_str(&mut lead, " ");
    let mut call = String::new();
    push_str(&mut call, "调用 ");
    match &tool.tool {
        Some(n) => push_str(&mut call, n.as_str()),
        None => push_str(&mut call, "?"),
    }
    push_str(&mut call, "(");
    let summary = summary_of(&tool.args);
    push_str(&mut call, summary.as_str());
    push_str(&mut call, ")");
    let mut spans = vec![
        TextSpan { content: lead, style: fg_style(name) },
        TextSpan { content: String::from_str("▸ "), style: fg_style(Color::DarkGray) },
        TextSpan { content: call, style: fg_bold_style(Color::DarkGray) },
    ];
    let ghost three = spans@;
    let is_failed = match &tool.outcome {
        Some(o) => !o.ok,
        None => false,
    };
    if is_failed {
        let mut tail = String::new();
        push_str(&mut tail, " ");
        push_str(&mut tail, TOOL_FAILED);
        spans.push(TextSpan { content: tail, style: fg_style(Color::Red) });
    }
    assert(spans_view(spans@) =~= tool_spans(*tool, name));
    let line = TextLine { spans, style: Style::plain(), alignment: None };
    let title = line_text_of(&line);
    let (output, error) = match &tool.outcome {
        Some(o) => (copy_opt(&o.output), copy_opt(&o.error)),
        None => (None, None),
    };
    let kind = DetailKind::Tool {
        tool_call_id: tool.tool_call_id.clone(),
        output,
        error,
        args: copy_opt(&tool.args),
        no_result: tool.outcome.is_none(),
    };
    let r = vec![RenderedLine { line, link: Some(Detail { title, color: name, kind }) }];
    assert(rendered_views(r@) =~= seq![rendered_view(r@[0])]);
    r
}

/// A painted line that leads nowhere.
pub open spec fn unlinked(ls: Seq<LineView>) -> Seq<(LineView, Option<(Seq<char>, Color, DetailKindView)>)> {
    ls.map_values(|l: LineView| (l, None::<(Seq<char>, Color, DetailKindView)>))
}

fn one(line: TextLine) -> (r: Vec<RenderedLine>)
    ensures
        rendered_views(r@) == unlinked(seq![line@]),
{
    let r = vec![RenderedLine { line, link: None }];
    assert(rendered_views(r@) =~= unlinked(seq![r@[0].line@]));
    r
}

fn unlinked_lines(lines: &Vec<TextLine>) -> (r: Vec<RenderedLine>)
    ensures
        rendered_views(r@) == unlinked(lines_view(lines@)),
{
    let mut r: Vec<RenderedLine> = Vec::new();
    let mut i: usize = 0;
    while i < lines.len()
        invariant
            i <= lines@.len(),
            rendered_views(r@) == unlinked(lines_view(lines@)).take(i as int),
        decreases lines@.len() - i,
    {
        let ghost before = r@;
        let line = lines[i].copied();
        r.push(RenderedLine { line, link: None });
        assert(rendered_views(r@) =~= rendered_views(before).push((line@, None)));
        assert(unlinked(lines_view(lines@)).take(i + 1) =~= unlinked(lines_view(lines@)).take(
            i as int,
        ).push((lines@[i as int]@, None)));
        i += 1;
    }
    assert(unlinked(lines_view(lines@)).take(lines@.len() as int) =~= unlinked(lines_view(lines@)));
    r
}

/// An answer's rows: its Markdown, drawn line by line.
fn markdown_rows(text: &str) -> (r: Vec<TextLine>)
    ensures
        lines_view(r@) == markdown_lines(text@).map_values(|l: Seq<Run>| md_row(l)),
{
    let lines = to_lines(text);
    let ghost want = markdown_lines(text@).map_values(|l: Seq<Run>| md_row(l));
    let mut r: Vec<TextLine> = Vec::new();
    let mut i: usize = 0;
    while i < lines.len()
        invariant
            i <= lines@.len(),
            crate::markdown::lines_view(lines@) == markdown_lines(text@),
            want == markdown_lines(text@).map_values(|l: Seq<Run>| md_row(l)),
            lines_view(r@) == want.take(i as int),
        decreases lines@.len() - i,
    {
        let ghost before = r@;
        let row = markdown_text_line(&lines[i]);
        r.push(row);
        assert(crate::markdown::lines_view(lines@)[i as int] == pieces_view(lines@[i as int]@));
        assert(lines_view(r@) =~= lines_view(before).push(row@));
        assert(want.take(i + 1) =~= want.take(i as int).push(want[i as int]));
        i += 1;
    }
    assert(want.take(lines@.len() as int) =~= want);
    r
}

/// A message shown as it was written: every line, no Markdown.
fn raw_rows(text: &str) -> (r: Vec<TextLine>)
    ensures
        lines_view(r@) == split_lines(text@).map_values(|l: Seq<char>| raw_row(l)),
{
    let parts = split_text_lines(text);
    let ghost want = split_lines(text@).map_values(|l: Seq<char>| raw_row(l));
    let mut r: Vec<TextLine> = Vec::new();
    let mut i: usize = 0;
    while i < parts.len()
        invariant
            i <= parts@.len(),
            texts_of(parts@) == split_lines(text@),
            want == split_lines(text@).map_values(|l: Seq<char>| raw_row(l)),
            lines_view(r@) == want.take(i as int),
        decreases parts@.len() - i,
    {
        let ghost before = r@;
        let row = raw_line(parts[i].as_str());
        r.push(row);
        assert(texts_of(parts@)[i as int] == parts@[i as int]@);
        assert(lines_view(r@) =~= lines_view(before).push(row@));
        assert(want.take(i + 1) =~= want.take(i as int).push(want[i as int]));
        i += 1;
    }
    assert(want.take(parts@.len() as int) =~= want);
    r
}

/// A divergence: its heading, then one plain row per position.
fn divergence_lines(topic: &str, positions: &Vec<String>) -> (r: Vec<RenderedLine>)
    ensures
        rendered_views(r@) == unlinked(
            seq![one_span("!! "@ + ("分歧："@ + topic@), fg_bold(Color::Magenta))]
                + positions@.map_values(|p: String| raw_row("  - "@ + p@)),
        ),
{
    let mut head = String::new();
    push_str(&mut head, "!! ");
    let heading = divergence(topic);
    push_str(&mut head, heading.as_str());
    let mut lines: Vec<TextLine> = Vec::new();
    lines.push(line_of(head, fg_bold_style(Color::Magenta)));
    let ghost first = lines_view(lines@);
    let mut i: usize = 0;
    while i < positions.len()
        invariant
            i <= positions@.len(),
            lines_view(lines@) == first + positions@.take(i as int).map_values(
                |p: String| raw_row("  - "@ + p@),
            ),
        decreases positions@.len() - i,
    {
        let mut text = String::new();
        push_str(&mut text, "  - ");
        push_str(&mut text, positions[i].as_str());
        let ghost before = lines@;
        let row = raw_line(text.as_str());
        lines.push(row);
        assert(lines_view(lines@) =~= lines_view(before).push(row@));
        assert(positions@.take(i + 1).map_values(|p: String| raw_row("  - "@ + p@)) =~= positions@.take(
            i as int,
        ).map_values(|p: String| raw_row("  - "@ + p@)).push(raw_row("  - "@ + positions@[i as int]@)));
        i += 1;
    }
    assert(positions@.take(positions@.len() as int) =~= positions@);
    unlinked_lines(&lines)
}

/// Whose name a block's painting asks the palette for, if anyone's: every
/// block that speaks for someone, except an answer with nothing in it.
pub open spec fn painted_speaker(b: Block) -> Option<SpeakerId> {
    match b {
        Block::Message { speaker, role, text, .. } => if role == Role::Assistant && text@.len() == 0 {
            None
        } else {
            Some(speaker)
        },
        Block::Tool(t) => Some(t.speaker),
        Block::TurnStarted { speaker, .. } => Some(speaker),
        Block::TurnEnded { speaker, .. } => Some(speaker),
        Block::PermissionAsked { speaker, .. } => Some(speaker),
        Block::PermissionDecided { speaker, .. } => Some(speaker),
        Block::Hook { speaker, .. } => Some(speaker),
        Block::ExecutorSpawned { speaker, .. } => Some(speaker),
        Block::Usage { speaker, .. } => Some(speaker),
        Block::AgentError { speaker, .. } => Some(speaker),
        _ => None,
    }
}

/// The lines one block paints, its speaker's name being drawn in `name`.
///
/// An answer is its Markdown under the speaker's name; any other message is
/// shown as written, every line. A round opening is a bold cyan section line,
/// a divergence a bold magenta heading with one row per position, a hook's
/// feedback a yellow indented line and a diagnostic a yellow one; a stopping
/// point wears its severity's colour; the rest is dim narration, led by the
/// speaker's name where there is one. A tool call is one line that opens its
/// detail.
pub open spec fn block_paint(b: Block, name: Color) -> Seq<(LineView, Option<(Seq<char>, Color, DetailKindView)>)> {
    let dim = fg(Color::DarkGray);
    match b {
        Block::Message { speaker, role, text, .. } => if role == Role::Assistant {
            if text@.len() == 0 {
                seq![]
            } else {
                unlinked(attributed(speaker, markdown_lines(text@).map_values(|l: Seq<Run>| md_row(l)), name))
            }
        } else {
            unlinked(attributed(speaker, split_lines(text@).map_values(|l: Seq<char>| raw_row(l)), name))
        },
        Block::Delta { .. } => seq![],
        Block::RoundStarted { round, mode } => unlinked(
            seq![
                one_span(
                    "── 第 "@ + decimal(round as nat) + " 轮（"@ + round_mode_text(mode) + "）──"@,
                    fg_bold(Color::Cyan),
                ),
            ],
        ),
        Block::RoundEnded { round, reason } => unlinked(
            seq![
                one_span(
                    "第 "@ + decimal(round as nat) + " 轮结束："@ + stop_reason_text(reason),
                    severity_look(reason),
                ),
            ],
        ),
        Block::Divergence { topic, positions } => unlinked(
            seq![one_span("!! "@ + ("分歧："@ + topic@), fg_bold(Color::Magenta))]
                + positions@.map_values(|p: String| raw_row("  - "@ + p@)),
        ),
        Block::Tool(t) => seq![
            (
                LineView { spans: tool_spans(*t, name), style: plain_style(), alignment: None },
                Some(tool_detail(*t, name)),
            ),
        ],
        Block::ToolFeedback { outcome } => unlinked(
            seq![one_span("  "@ + ("[钩子] "@ + outcome@), fg(Color::Yellow))],
        ),
        Block::TurnStarted { speaker, iteration } => unlinked(
            seq![
                speaker_row(
                    speaker,
                    "回合开始（第 "@ + decimal(iteration as nat) + " 次迭代）"@,
                    dim,
                    name,
                ),
            ],
        ),
        Block::TurnEnded { speaker, reason } => unlinked(
            seq![speaker_row(speaker, "回合结束："@ + stop_reason_text(reason), severity_look(reason), name)],
        ),
        Block::PermissionAsked { speaker, tool_name, args } => unlinked(
            seq![
                speaker_row(
                    speaker,
                    permission_asked_text(opt_view(tool_name), args_summary(args)),
                    dim,
                    name,
                ),
            ],
        ),
        Block::PermissionDecided { speaker, decision, source, reason } => unlinked(
            seq![
                speaker_row(
                    speaker,
                    "权限裁决："@ + decision_text(decision) + "（"@ + decision_source_text(source) + "）"@
                        + match reason {
                        Some(r) => "："@ + r@,
                        None => seq![],
                    },
                    dim,
                    name,
                ),
            ],
        ),
        Block::Hook { speaker, point, outcome } => unlinked(
            seq![speaker_row(speaker, "钩子 "@ + hook_point_text(point@) + "："@ + outcome@, dim, name)],
        ),
        Block::ExecutorSpawned { speaker, executor_id } => unlinked(
            seq![speaker_row(speaker, "派出执行者 "@ + executor_id@, dim, name)],
        ),
        Block::ExecutorFinished { executor_id, reason, summary } => unlinked(
            seq![
                one_span(
                    "执行者 "@ + executor_id@ + " 收尾："@ + stop_reason_text(reason) + " — "@ + summary@,
                    severity_look(reason),
                ),
            ],
        ),
        Block::Usage { speaker, usage } => unlinked(
            seq![
                speaker_row(
                    speaker,
                    "用量 in="@ + decimal(usage.input_tokens as nat) + " out="@ + decimal(
                        usage.output_tokens as nat,
                    ) + " cached="@ + decimal(usage.cached_tokens as nat) + " miss="@ + decimal(
                        usage.miss_tokens as nat,
                    ),
                    dim,
                    name,
                ),
            ],
        ),
        Block::AgentError { speaker, message } => unlinked(
            seq![speaker_row(speaker, "错误："@ + message@, severity_look(StopReason::Error), name)],
        ),
        Block::SessionError { code, detail } => unlinked(
            seq![
                one_span(
                    "[会话错误："@ + session_error_code_text(code@) + "] "@ + detail@,
                    severity_look(StopReason::Error),
                ),
            ],
        ),
        Block::SessionEnded { reason } => unlinked(
            seq![one_span("会话结束："@ + stop_reason_text(reason), severity_look(reason))],
        ),
        Block::ContextInjected { source } => unlinked(
            seq![one_span("[上下文注入："@ + context_source_text(source) + "]"@, dim)],
        ),
        Block::History { reason, summary } => unlinked(
            seq![
                one_span(
                    "[历史："@ + history_reason_text(reason) + "] "@ + match summary {
                        Some(t) => t@,
                        None => "历史已被取代"@,
                    },
                    dim,
                ),
            ],
        ),
        Block::Diagnostic(m) => unlinked(seq![one_span("[诊断] "@ + m@, fg(Color::Yellow))]),
        Block::Notice(m) => unlinked(seq![one_span(m@, dim)]),
    }
}

pub(crate) fn opt_str(o: &Option<String>) -> (r: Option<&str>)
    ensures
        match r {
            Some(t) => o matches Some(s) && t@ == s@,
            None => o is None,
        },
{
    match o {
        Some(s) => Some(s.as_str()),
        None => None,
    }
}

/// Paint the narration blocks that speak for someone: one line, led by the
/// speaker's name drawn in `name`.
fn speaker_narration(block: &Block, name: Color) -> (r: Vec<RenderedLine>)
    requires
        block is TurnStarted || block is TurnEnded || block is PermissionAsked || block is PermissionDecided
            || block is Hook || block is ExecutorSpawned || block is Usage || block is AgentError,
    ensures
        rendered_views(r@) == block_paint(*block, name),
{
    let dim = fg_style(Color::DarkGray);
    let line = match block {
        Block::TurnStarted { speaker, iteration } => speaker_line(speaker, turn_started(*iteration), dim, name),
        Block::TurnEnded { speaker, reason } => speaker_line(
            speaker,
            turn_ended(*reason),
            severity_style(*reason),
            name,
        ),
        Block::PermissionAsked { speaker, tool_name, args } => {
            let summary = summary_of(args);
            let text = permission_asked(opt_str(tool_name), summary.as_str());
            speaker_line(speaker, text, dim, name)
        },
        Block::PermissionDecided { speaker, decision, source, reason } => speaker_line(
            speaker,
            permission_decided(*decision, *source, opt_str(reason)),
            dim,
            name,
        ),
        Block::Hook { speaker, point, outcome } => speaker_line(
            speaker,
            hook(point.as_str(), outcome.as_str()),
            dim,
            name,
        ),
        Block::ExecutorSpawned { speaker, executor_id } => speaker_line(
            speaker,
            executor_spawned(executor_id.as_str()),
            dim,
            name,
        ),
        Block::Usage { speaker, usage } => speaker_line(speaker, usage_summary(usage), dim, name),
        Block::AgentError { speaker, message } => speaker_line(
            speaker,
            agent_error(message.as_str()),
            severity_style(StopReason::Error),
            name,
        ),
        _ => {
            assert(false);
            line_of(String::new(), dim)
        },
    };
    one(line)
}

/// Paint the blocks that speak for no one: one line each, a divergence
/// excepted.
fn plain_narration(block: &Block) -> (r: Vec<RenderedLine>)
    requires
        painted_speaker(*block) is None,
        !(block is Message),
    ensures
        rendered_views(r@) == block_paint(*block, Color::Reset),
{
    let dim = fg_style(Color::DarkGray);
    match block {
        Block::Delta { .. } => Vec::new(),
        Block::RoundStarted { round, mode } => one(line_of(round_section(*round, *mode), fg_bold_style(Color::Cyan))),
        Block::RoundEnded { round, reason } => one(line_of(round_ended(*round, *reason), severity_style(*reason))),
        Block::Divergence { topic, positions } => divergence_lines(topic.as_str(), positions),
        Block::ToolFeedback { outcome } => {
            let mut text = String::new();
            push_str(&mut text, "  ");
            let feedback = hook_feedback(outcome.as_str());
            push_str(&mut text, feedback.as_str());
            one(line_of(text, fg_style(Color::Yellow)))
        },
        Block::ExecutorFinished { executor_id, reason, summary } => one(
            line_of(executor_finished(executor_id.as_str(), *reason, summary.as_str()), severity_style(*reason)),
        ),
        Block::SessionError { code, detail } => one(
            line_of(session_error(code.as_str(), detail.as_str()), severity_style(StopReason::Error)),
        ),
        Block::SessionEnded { reason } => one(line_of(session_ended(*reason), severity_style(*reason))),
        Block::ContextInjected { source } => {
            let mut text = String::new();
            push_str(&mut text, "[上下文注入：");
            let named = context_source(source);
            push_str(&mut text, named.as_str());
            push_str(&mut text, "]");
            one(line_of(text, dim))
        },
        Block::History { reason, summary } => one(line_of(history(*reason, opt_str(summary)), dim)),
        Block::Diagnostic(m) => one(line_of(diagnostic(m.as_str()), fg_style(Color::Yellow))),
        Block::Notice(m) => one(line_of(m.clone(), dim)),
        _ => {
            assert(false);
            Vec::new()
        },
    }
}

/// Paint one block, keeping each line's link. The palette is asked once,
/// for the speaker the block speaks for, if any.
pub fn paint_block(block: &Block, colors: &mut SpeakerColors) -> (r: Vec<RenderedLine>)
    requires
        old(colors).wf(),
    ensures
        final(colors).wf(),
        final(colors).roster_view() == old(colors).roster_view(),
        final(colors).free_view() == old(colors).free_view(),
        final(colors).uncoloured() == old(colors).uncoloured(),
        match painted_speaker(*block) {
            Some(sp) => final(colors).extra_view() == old(colors).color_for(sp).1 && rendered_views(r@)
                == block_paint(*block, ink(old(colors).color_for(sp).0)),
            None => final(colors).extra_view() == old(colors).extra_view() && rendered_views(r@)
                == block_paint(*block, Color::Reset),
        },
{
    match block {
        Block::Message { speaker, role, text, .. } => {
            let answer = match role {
                Role::Assistant => true,
                _ => false,
            };
            if answer && text.as_str().unicode_len() == 0 {
                let r: Vec<RenderedLine> = Vec::new();
                assert(rendered_views(r@) =~= seq![]);
                return r;
            }
            let c = colors.of(speaker);
            let rows = if answer {
                markdown_rows(text.as_str())
            } else {
                raw_rows(text.as_str())
            };
            unlinked_lines(&attribute(speaker, &rows, ink_of(c)))
        },
        Block::Tool(t) => {
            let c = colors.of(&t.speaker);
            tool_block_lines(&**t, ink_of(c))
        },
        Block::TurnStarted { speaker, .. } | Block::TurnEnded { speaker, .. } | Block::PermissionAsked {
            speaker,
            ..
        } | Block::PermissionDecided { speaker, .. } | Block::Hook { speaker, .. } | Block::ExecutorSpawned {
            speaker,
            ..
        } | Block::Usage { speaker, .. } | Block::AgentError { speaker, .. } => {
            let c = colors.of(speaker);
            speaker_narration(block, ink_of(c))
        },
        _ => plain_narration(block),
    }
}

/// Paint one block into lines, dropping the links.
pub fn render_block(block: &Block, colors: &mut SpeakerColors) -> (r: Vec<TextLine>)
    requires
        old(colors).wf(),
    ensures
        final(colors).wf(),
        final(colors).roster_view() == old(colors).roster_view(),
        final(colors).free_view() == old(colors).free_view(),
        final(colors).uncoloured() == old(colors).uncoloured(),
        match painted_speaker(*block) {
            Some(sp) => final(colors).extra_view() == old(colors).color_for(sp).1 && lines_view(r@)
                == block_paint(*block, ink(old(colors).color_for(sp).0)).map_values(
                |x: (LineView, Option<(Seq<char>, Color, DetailKindView)>)| x.0,
            ),
            None => final(colors).extra_view() == old(colors).extra_view() && lines_view(r@)
                == block_paint(*block, Color::Reset).map_values(
                |x: (LineView, Option<(Seq<char>, Color, DetailKindView)>)| x.0,
            ),
        },
{
    let painted = paint_block(block, colors);
    let ghost pv = rendered_views(painted@);
    let mut r: Vec<TextLine> = Vec::new();
    let mut i: usize = 0;
    while i < painted.len()
        invariant
            i <= painted@.len(),
            pv == rendered_views(painted@),
            lines_view(r@) == pv.take(i as int).map_values(
                |x: (LineView, Option<(Seq<char>, Color, DetailKindView)>)| x.0,
            ),
        decreases painted@.len() - i,
    {
        let ghost before = r@;
        let line = painted[i].line.copied();
        r.push(line);
        assert(lines_view(r@) =~= lines_view(before).push(line@));
        assert(pv.take(i + 1).map_values(
            |x: (LineView, Option<(Seq<char>, Color, DetailKindView)>)| x.0,
        ) =~= pv.take(i as int).map_values(
            |x: (LineView, Option<(Seq<char>, Color, DetailKindView)>)| x.0,
        ).push(pv[i as int].0));
        i += 1;
    }
    assert(pv.take(painted@.len() as int) =~= pv);
    r
}

/// Paint one block with no roster: every speaker's name grey.
pub fn render_block_uncoloured(block: &Block) -> (r: Vec<TextLine>)
    ensures
        lines_view(r@) == block_paint(
            *block,
            if painted_speaker(*block) is Some {
                Color::DarkGray
            } else {
                Color::Reset
            },
        ).map_values(|x: (LineView, Option<(Seq<char>, Color, DetailKindView)>)| x.0),
{
    let empty: Vec<String> = Vec::new();
    let mut colors = SpeakerColors::new(empty.as_slice());
    render_block(block, &mut colors)
}

/// Whether a block is the user's own message: what a rail cell jumps to.
pub fn is_user_message(block: &Block) -> (r: bool)
    ensures
        r == (block matches Block::Message { speaker, .. } && speaker == SpeakerId::User),
{
    match block {
        Block::Message { speaker: SpeakerId::User, .. } => true,
        _ => false,
    }
}

/// Whether a block ends the unit the rail counts: a round in a discussion,
/// a turn otherwise.
pub fn is_boundary(block: &Block, discussion: bool) -> (r: bool)
    ensures
        r == if discussion {
            block is RoundEnded
        } else {
            block is TurnEnded
        },
{
    if discussion {
        match block {
            Block::RoundEnded { .. } => true,
            _ => false,
        }
    } else {
        match block {
            Block::TurnEnded { .. } => true,
            _ => false,
        }
    }
}

} // verus!
