//! The plain renderer: the human transcript for a pipe or a simple terminal.
//!
//! It paints the shared blocks as text, with a speaker prefix repeated on
//! every streamed line, so interleaved debaters stay readable, and a severity
//! colour on every stopping point. The narration goes to the diagnostic sink;
//! the final product of a discussion also goes to the result sink.

use vstd::prelude::*;

use crate::events::{Role, SpeakerId, StopReason};
use crate::severity::severity_of;
use crate::text::decimal;
use crate::transcript::{flushed, push_step, Block, RenderEvent, Transcript};
use crate::paint::opt_view;
use crate::wording::{
    agent_error, context_source, context_source_text, decision_source_text, decision_text,
    diagnostic, divergence, executor_finished, executor_spawned, history, history_reason_text,
    hook, hook_feedback, hook_point_text, permission_asked, permission_asked_text,
    permission_decided, round_ended, round_mode_text, round_section, session_ended,
    session_error, session_error_code_text, stop_reason_text, turn_ended, turn_started,
    usage_summary,
};
use crate::markdown_spec::trim;
use crate::paint::{args_summary, call_text, lines_from, summary_of};
use crate::placeholder::{lemma_char_line_end, line_span, char_line_end, line_text};
use crate::questions::trimmed;
use crate::severity::Severity;
use crate::text::{chars_of, join, push_char, push_str, string_of_range};
use crate::transcript::{DeltaKind, ToolBlock};
use crate::paint::opt_str;
use crate::wording::{no_message, no_tool_result, reasoning_label, speaker_label, speaker_label_text, tool_output_preview};

verus! {

broadcast use vstd::seq::group_seq_axioms;

/// How much of one tool result the plain transcript shows before eliding.
pub const TOOL_PREVIEW: usize = 2000;

/// The line state of the plain transcript.
pub struct LineState {
    /// Whether stopping points and reasoning are painted with ANSI escapes.
    pub color: bool,
    /// The speaker whose text stream is open.
    pub open_speaker: Option<SpeakerId>,
    /// Whether a new prefix is owed before the next character.
    pub at_line_start: bool,
    /// Whether the reasoning marker is open.
    pub in_reasoning: bool,
    /// Whether deltas already produced the current message's body.
    pub streamed: bool,
}

/// An open reasoning stream closed: a line break, and a fresh line owed.
pub open spec fn closed_reasoning(v: LineState) -> (LineState, Seq<char>) {
    if v.in_reasoning {
        (LineState { in_reasoning: false, at_line_start: true, ..v }, "\n"@)
    } else {
        (v, seq![])
    }
}

/// The open line finished, if any.
pub open spec fn ended_line(v: LineState) -> (LineState, Seq<char>) {
    let (a, w) = closed_reasoning(v);
    if !a.at_line_start {
        (LineState { at_line_start: true, ..a }, w + "\n"@)
    } else {
        (a, w)
    }
}

/// A whole line of narration, ending the current one first.
pub open spec fn lined(v: LineState, text: Seq<char>) -> (LineState, Seq<char>) {
    let (a, w) = ended_line(v);
    (LineState { at_line_start: true, ..a }, w + text + "\n"@)
}

/// Characters streamed with `prefix` at the start of every line that has
/// text, from a line start or not; and whether a line start is owed after.
pub open spec fn streamed_chars(prefix: Seq<char>, at_start: bool, text: Seq<char>) -> (Seq<char>, bool)
    decreases text.len(),
{
    if text.len() == 0 {
        (seq![], at_start)
    } else {
        let (w, a) = streamed_chars(prefix, at_start, text.drop_last());
        let ch = text.last();
        (w + (if a && ch != '\n' {
            prefix
        } else {
            seq![]
        }) + seq![ch], ch == '\n')
    }
}

/// Whether two speakers are the same one.
pub open spec fn same_speaker(a: SpeakerId, b: SpeakerId) -> bool {
    match (a, b) {
        (SpeakerId::Debater(x), SpeakerId::Debater(y)) => x@ == y@,
        (SpeakerId::Executor(x), SpeakerId::Executor(y)) => x@ == y@,
        (SpeakerId::User, SpeakerId::User) => true,
        (SpeakerId::System, SpeakerId::System) => true,
        _ => false,
    }
}

/// Whether the open stream is `speaker`'s.
pub open spec fn is_open(open: Option<SpeakerId>, speaker: SpeakerId) -> bool {
    open matches Some(o) && same_speaker(o, speaker)
}

/// Text streamed for `speaker`: a different speaker mid-line starts a new
/// line, and every line that has text gets the `[speaker] ` prefix.
pub open spec fn streamed_text(v: LineState, speaker: SpeakerId, text: Seq<char>) -> (LineState, Seq<char>) {
    let (a, w) = if !is_open(v.open_speaker, speaker) && !v.at_line_start {
        (LineState { at_line_start: true, ..v }, "\n"@)
    } else {
        (v, seq![])
    };
    let (w2, at) = streamed_chars(speaker_label_text(speaker) + " "@, a.at_line_start, text);
    (LineState { open_speaker: Some(speaker), at_line_start: at, ..a }, w + w2)
}

/// The ANSI colour a severity paints with.
pub open spec fn ansi_text(s: Severity) -> Seq<char> {
    match s {
        Severity::Good => "\x1b[32m"@,
        Severity::Note => "\x1b[36m"@,
        Severity::Warn => "\x1b[33m"@,
        Severity::Bad => "\x1b[31m"@,
    }
}

/// Text in a severity's colour, when colour is on.
pub open spec fn severity_painted(color: bool, s: Severity, text: Seq<char>) -> Seq<char> {
    if color {
        ansi_text(s) + text + "\x1b[0m"@
    } else {
        text
    }
}

/// Reasoning dimmed, when colour is on.
pub open spec fn reasoning_painted(color: bool, text: Seq<char>) -> Seq<char> {
    if color {
        "\x1b[2m"@ + text + "\x1b[0m"@
    } else {
        text
    }
}

/// Every line of `text` behind two spaces, joined by newlines.
pub open spec fn indented(text: Seq<char>) -> Seq<char> {
    join(lines_from(text, 0).map_values(|l: Seq<char>| "  "@ + l), "\n"@)
}

impl LineState {
    /// A fresh transcript: at a line start, nothing open.
    pub fn new(color: bool) -> (s: LineState)
        ensures
            s == (LineState {
                color,
                open_speaker: None,
                at_line_start: true,
                in_reasoning: false,
                streamed: false,
            }),
    {
        LineState { color, open_speaker: None, at_line_start: true, in_reasoning: false, streamed: false }
    }

    fn close_reasoning(&mut self, err: &mut String)
        ensures
            (*final(self), final(err)@) == ({
                let (v, w) = closed_reasoning(*old(self));
                (v, old(err)@ + w)
            }),
    {
        if self.in_reasoning {
            push_str(err, "\n");
            self.in_reasoning = false;
            self.at_line_start = true;
        }
    }

    /// Finish the open line, if any.
    pub fn end_line(&mut self, err: &mut String)
        ensures
            (*final(self), final(err)@) == ({
                let (v, w) = ended_line(*old(self));
                (v, old(err)@ + w)
            }),
    {
        self.close_reasoning(err);
        if !self.at_line_start {
            push_str(err, "\n");
            self.at_line_start = true;
        }
    }

    /// A whole line of narration, ending the current one first.
    pub fn line(&mut self, err: &mut String, text: &str)
        ensures
            (*final(self), final(err)@) == ({
                let (v, w) = lined(*old(self), text@);
                (v, old(err)@ + w)
            }),
    {
        self.end_line(err);
        push_str(err, text);
        push_str(err, "\n");
        self.at_line_start = true;
    }

    /// Write `text` for `speaker`, with a fresh `[speaker] ` prefix at the start
    /// of every line.
    pub fn stream(&mut self, err: &mut String, speaker: &SpeakerId, text: &str)
        ensures
            (*final(self), final(err)@) == ({
                let (v, w) = streamed_text(*old(self), *speaker, text@);
                (v, old(err)@ + w)
            }),
    {
        let same = match &self.open_speaker {
            Some(open) => speaker_eq(open, speaker),
            None => false,
        };
        if !same && !self.at_line_start {
            push_str(err, "\n");
            self.at_line_start = true;
        }
        let ghost base = err@;
        let ghost start = self.at_line_start;
        self.open_speaker = Some(speaker.copied());
        let mut prefix = speaker_label(speaker);
        push_str(&mut prefix, " ");
        let v = chars_of(text);
        let ghost s0 = *self;
        let mut i: usize = 0;
        while i < v.len()
            invariant
                v@ == text@,
                i <= v@.len(),
                *self == (LineState { at_line_start: self.at_line_start, ..s0 }),
                prefix@ == speaker_label_text(*speaker) + " "@,
                (err@, self.at_line_start) == ({
                    let (w, a) = streamed_chars(prefix@, start, text@.take(i as int));
                    (base + w, a)
                }),
            decreases v@.len() - i,
        {
            let ch = v[i];
            proof {
                assert(text@.take(i + 1).drop_last() =~= text@.take(i as int));
                assert(text@.take(i + 1).last() == ch);
            }
            if self.at_line_start {
                self.at_line_start = false;
                if ch != '\n' {
                    push_str(err, prefix.as_str());
                }
            }
            if ch == '\n' {
                self.at_line_start = true;
            }
            push_char(err, ch);
            i += 1;
        }
        assert(text@.take(v@.len() as int) =~= text@);
    }

    /// Text in a severity's colour, when colour is on.
    pub fn paint_severity(&self, severity: Severity, text: &str) -> (s: String)
        ensures
            s@ == severity_painted(self.color, severity, text@),
    {
        let mut s = String::new();
        if self.color {
            push_str(&mut s, severity.ansi(true));
            push_str(&mut s, text);
            push_str(&mut s, Severity::ansi_reset(true));
        } else {
            push_str(&mut s, text);
        }
        s
    }

    /// Reasoning dimmed, when colour is on.
    pub fn paint_reasoning(&self, text: &str) -> (s: String)
        ensures
            s@ == reasoning_painted(self.color, text@),
    {
        let mut s = String::new();
        if self.color {
            push_str(&mut s, "\x1b[2m");
            push_str(&mut s, text);
            push_str(&mut s, "\x1b[0m");
        } else {
            push_str(&mut s, text);
        }
        s
    }
}

/// Whether two speakers are the same.
fn speaker_eq(a: &SpeakerId, b: &SpeakerId) -> (r: bool)
    ensures
        r == same_speaker(*a, *b),
{
    match (a, b) {
        (SpeakerId::Debater(x), SpeakerId::Debater(y)) => crate::text::str_eq(x.as_str(), y.as_str()),
        (SpeakerId::Executor(x), SpeakerId::Executor(y)) => crate::text::str_eq(x.as_str(), y.as_str()),
        (SpeakerId::User, SpeakerId::User) => true,
        (SpeakerId::System, SpeakerId::System) => true,
        _ => false,
    }
}

/// Every line of `text` behind two spaces.
pub fn indent(text: &str) -> (s: String)
    ensures
        s@ == indented(text@),
{
    let v = chars_of(text);
    let ghost parts = lines_from(v@, 0).map_values(|l: Seq<char>| "  "@ + l);
    let mut s = String::new();
    let mut pos: usize = 0;
    let mut k: usize = 0;
    while pos < v.len()
        invariant
            v@ == text@,
            pos <= v@.len(),
            parts == lines_from(v@, 0).map_values(|l: Seq<char>| "  "@ + l),
            k <= pos,
            k <= parts.len(),
            lines_from(v@, 0) == lines_from(v@, 0).take(k as int) + lines_from(v@, pos as int),
            s@ == join(parts.take(k as int), "\n"@),
        decreases v@.len() - pos,
    {
        let (hi, next) = line_span(&v, pos);
        proof {
            lemma_char_line_end(v@, pos as int);
            assert(lines_from(v@, pos as int) == seq![line_text(v@, pos as int)] + lines_from(v@, next as int));
            assert(lines_from(v@, 0)[k as int] == line_text(v@, pos as int));
            assert(lines_from(v@, 0).take(k + 1) =~= lines_from(v@, 0).take(k as int).push(line_text(v@, pos as int)));
            assert(lines_from(v@, 0) =~= lines_from(v@, 0).take(k + 1) + lines_from(v@, next as int));
            crate::text::lemma_join_step(parts, "\n"@, k as int);
        }
        let ghost before = s@;
        if k > 0 {
            push_str(&mut s, "\n");
        }
        push_str(&mut s, "  ");
        let piece = string_of_range(&v, pos, hi);
        push_str(&mut s, piece.as_str());
        proof {
            assert(parts[k as int] == "  "@ + line_text(v@, pos as int));
            if k == 0 {
                assert(s@ =~= parts[0]);
            } else {
                assert(s@ =~= before + "\n"@ + parts[k as int]);
            }
        }
        pos = next;
        k += 1;
    }
    proof {
        assert(lines_from(v@, pos as int) =~= Seq::<Seq<char>>::empty());
        assert(lines_from(v@, 0).take(k as int) =~= lines_from(v@, 0));
        assert(parts.take(k as int) =~= parts);
    }
    s
}

/// What one delta writes: text streams under its speaker's prefix; a
/// reasoning trace opens once with the speaker and the reasoning label,
/// dimmed, and then runs on as it comes.
pub open spec fn delta_painted(v: LineState, speaker: SpeakerId, kind: DeltaKind, text: Seq<char>) -> (LineState, Seq<char>) {
    match kind {
        DeltaKind::Text => {
            let (a, w) = closed_reasoning(v);
            let (b, w2) = streamed_text(a, speaker, text);
            (LineState { streamed: true, ..b }, w + w2)
        },
        DeltaKind::Reasoning => {
            let (a, w) = if !v.in_reasoning {
                let (e, we) = ended_line(v);
                (
                    LineState {
                        open_speaker: Some(speaker),
                        at_line_start: false,
                        in_reasoning: true,
                        ..e
                    },
                    we + reasoning_painted(v.color, speaker_label_text(speaker) + " "@ + "（思考）"@ + " "@),
                )
            } else {
                (v, seq![])
            };
            (a, w + text)
        },
    }
}

/// What a completed message writes: its body only when no delta streamed it,
/// then the line is finished; the harness's own answer is also the product.
pub open spec fn message_painted(v: LineState, speaker: SpeakerId, role: Role, text: Seq<char>) -> (
    LineState,
    Seq<char>,
    Seq<char>,
) {
    let (a, w) = closed_reasoning(v);
    let (b, w2) = if !a.streamed && text.len() > 0 {
        streamed_text(a, speaker, text)
    } else {
        (a, seq![])
    };
    let (d, w3) = ended_line(LineState { streamed: false, ..b });
    (d, w + w2 + w3, if speaker is System && role == Role::Assistant {
        text + "\n"@
    } else {
        seq![]
    })
}

/// A tool result cut to the preview length, marking the cut.
pub open spec fn preview(text: Seq<char>) -> Seq<char> {
    if text.len() <= TOOL_PREVIEW {
        text
    } else {
        text.take(TOOL_PREVIEW as int) + "…（结果已省略）"@
    }
}

/// The line under a call: its output when it has any, its error in the
/// failure colour, or the note that no result arrived.
pub open spec fn tool_body(color: bool, t: ToolBlock) -> Option<Seq<char>> {
    match t.outcome {
        Some(o) => if o.ok {
            match o.output {
                Some(out) => if trim(out@).len() > 0 {
                    Some(indented(preview(out@)))
                } else {
                    None
                },
                None => None,
            }
        } else {
            Some(
                severity_painted(
                    color,
                    Severity::Bad,
                    indented(
                        preview(
                            match o.error {
                                Some(e) => e@,
                                None => "（没有消息）"@,
                            },
                        ),
                    ),
                ),
            )
        },
        None => Some("  "@ + "（流上没有结果）"@),
    }
}

/// What a call writes: `[speaker] → 调用 tool(args)`, then its body.
pub open spec fn tool_painted(v: LineState, t: ToolBlock) -> (LineState, Seq<char>) {
    let (a, w) = lined(v, speaker_label_text(t.speaker) + " → "@ + call_text(t));
    match tool_body(v.color, t) {
        Some(l) => {
            let (b, w2) = lined(a, l);
            (b, w + w2)
        },
        None => (a, w),
    }
}

/// Several lines of narration, one after another.
pub open spec fn lined_all(v: LineState, texts: Seq<Seq<char>>) -> (LineState, Seq<char>)
    decreases texts.len(),
{
    if texts.len() == 0 {
        (v, seq![])
    } else {
        let (a, w) = lined_all(v, texts.drop_last());
        let (b, w2) = lined(a, texts.last());
        (b, w + w2)
    }
}

/// A line that names its speaker first.
pub open spec fn said(speaker: SpeakerId, text: Seq<char>) -> Seq<char> {
    speaker_label_text(speaker) + " "@ + text
}

/// The line a narration block writes.
pub open spec fn narration_line(c: bool, b: Block) -> Seq<char> {
    match b {
        Block::RoundStarted { round, mode } => "\n"@ + ("── 第 "@ + decimal(round as nat) + " 轮（"@
            + round_mode_text(mode) + "）──"@),
        Block::RoundEnded { round, reason } => severity_painted(
            c,
            severity_of(reason),
            "第 "@ + decimal(round as nat) + " 轮结束："@ + stop_reason_text(reason),
        ),
        Block::ToolFeedback { outcome } => indented("[钩子] "@ + outcome@),
        Block::TurnStarted { speaker, iteration } => said(
            speaker,
            "回合开始（第 "@ + decimal(iteration as nat) + " 次迭代）"@,
        ),
        Block::TurnEnded { speaker, reason } => severity_painted(
            c,
            severity_of(reason),
            said(speaker, "回合结束："@ + stop_reason_text(reason)),
        ),
        Block::PermissionAsked { speaker, tool_name, args } => said(
            speaker,
            permission_asked_text(opt_view(tool_name), args_summary(args)),
        ),
        Block::PermissionDecided { speaker, decision, source, reason } => said(
            speaker,
            "权限裁决："@ + decision_text(decision) + "（"@ + decision_source_text(source) + "）"@ + match reason {
                Some(r) => "："@ + r@,
                None => seq![],
            },
        ),
        Block::Hook { speaker, point, outcome } => said(
            speaker,
            "钩子 "@ + hook_point_text(point@) + "："@ + outcome@,
        ),
        Block::ExecutorSpawned { speaker, executor_id } => said(speaker, "派出执行者 "@ + executor_id@),
        Block::ExecutorFinished { executor_id, reason, summary } => severity_painted(
            c,
            severity_of(reason),
            "执行者 "@ + executor_id@ + " 收尾："@ + stop_reason_text(reason) + " — "@ + summary@,
        ),
        Block::Usage { speaker, usage } => said(
            speaker,
            "用量 in="@ + decimal(usage.input_tokens as nat) + " out="@ + decimal(usage.output_tokens as nat)
                + " cached="@ + decimal(usage.cached_tokens as nat) + " miss="@ + decimal(
                usage.miss_tokens as nat,
            ),
        ),
        Block::AgentError { speaker, message } => severity_painted(
            c,
            Severity::Bad,
            said(speaker, "错误："@ + message@),
        ),
        Block::SessionError { code, detail } => severity_painted(
            c,
            Severity::Bad,
            "[会话错误："@ + session_error_code_text(code@) + "] "@ + detail@,
        ),
        Block::SessionEnded { reason } => severity_painted(
            c,
            severity_of(reason),
            "会话结束："@ + stop_reason_text(reason),
        ),
        Block::ContextInjected { source } => "[上下文注入："@ + context_source_text(source) + "]"@,
        Block::History { reason, summary } => "[历史："@ + history_reason_text(reason) + "] "@ + match summary {
            Some(t) => t@,
            None => "历史已被取代"@,
        },
        Block::Diagnostic(m) => "[诊断] "@ + m@,
        Block::Notice(m) => m@,
        _ => seq![],
    }
}

/// What one block writes to the diagnostic sink, and to the result sink:
/// a delta streams, a message closes its stream, a divergence is its heading
/// and one line per position, a call is its line and its body, and every
/// other block is one line of narration, a stopping point in its severity's
/// colour.
pub open spec fn block_painted(v: LineState, b: Block) -> (LineState, Seq<char>, Seq<char>) {
    match b {
        Block::Delta { speaker, kind, text } => {
            let (a, w) = delta_painted(v, speaker, kind, text@);
            (a, w, seq![])
        },
        Block::Message { speaker, role, text, .. } => message_painted(v, speaker, role, text@),
        Block::Divergence { topic, positions } => {
            let (a, w) = lined_all(
                v,
                seq!["!! "@ + ("分歧："@ + topic@)] + positions@.map_values(|p: String| "  - "@ + p@),
            );
            (a, w, seq![])
        },
        Block::Tool(t) => {
            let (a, w) = tool_painted(v, *t);
            (a, w, seq![])
        },
        _ => {
            let (a, w) = lined(v, narration_line(v.color, b));
            (a, w, seq![])
        },
    }
}

impl LineState {
    /// Stream one delta.
    fn delta(&mut self, err: &mut String, speaker: &SpeakerId, kind: DeltaKind, text: &str)
        ensures
            (*final(self), final(err)@) == ({
                let (v, w) = delta_painted(*old(self), *speaker, kind, text@);
                (v, old(err)@ + w)
            }),
    {
        match kind {
            DeltaKind::Text => {
                self.close_reasoning(err);
                self.stream(err, speaker, text);
                self.streamed = true;
            },
            DeltaKind::Reasoning => {
                if !self.in_reasoning {
                    self.end_line(err);
                    let mut marker = speaker_label(speaker);
                    push_str(&mut marker, " ");
                    push_str(&mut marker, reasoning_label());
                    push_str(&mut marker, " ");
                    let painted = self.paint_reasoning(marker.as_str());
                    push_str(err, painted.as_str());
                    self.open_speaker = Some(speaker.copied());
                    self.at_line_start = false;
                    self.in_reasoning = true;
                }
                push_str(err, text);
            },
        }
    }

    /// Close a completed message.
    fn message(&mut self, err: &mut String, out: &mut String, speaker: &SpeakerId, role: Role, text: &str)
        ensures
            (*final(self), final(err)@, final(out)@) == ({
                let (v, w, o) = message_painted(*old(self), *speaker, role, text@);
                (v, old(err)@ + w, old(out)@ + o)
            }),
    {
        self.close_reasoning(err);
        if !self.streamed && text.unicode_len() > 0 {
            self.stream(err, speaker, text);
        }
        self.streamed = false;
        self.end_line(err);
        let answer = match role {
            Role::Assistant => true,
            _ => false,
        };
        let system = match speaker {
            SpeakerId::System => true,
            _ => false,
        };
        if system && answer {
            push_str(out, text);
            push_str(out, "\n");
        }
    }

    /// The line under a call, if it has one.
    fn tool_body_line(&self, tool: &ToolBlock) -> (r: Option<String>)
        ensures
            opt_view(r) == tool_body(self.color, *tool),
    {
        match &tool.outcome {
            Some(o) => {
                if o.ok {
                    match &o.output {
                        Some(output) => {
                            let t = trimmed(output.as_str());
                            if t.as_str().unicode_len() > 0 {
                                let cut = tool_output_preview(output.as_str(), TOOL_PREVIEW);
                                Some(indent(cut.as_str()))
                            } else {
                                None
                            }
                        },
                        None => None,
                    }
                } else {
                    let error = match &o.error {
                        Some(e) => e.as_str(),
                        None => no_message(),
                    };
                    let cut = tool_output_preview(error, TOOL_PREVIEW);
                    let body = indent(cut.as_str());
                    Some(self.paint_severity(Severity::Bad, body.as_str()))
                }
            },
            None => {
                let mut body = String::new();
                push_str(&mut body, "  ");
                push_str(&mut body, no_tool_result());
                Some(body)
            },
        }
    }

    /// A call and what it produced.
    fn tool(&mut self, err: &mut String, tool: &ToolBlock)
        ensures
            (*final(self), final(err)@) == ({
                let (v, w) = tool_painted(*old(self), *tool);
                (v, old(err)@ + w)
            }),
    {
        let mut head = speaker_label(&tool.speaker);
        push_str(&mut head, " → ");
        push_str(&mut head, "调用 ");
        match &tool.tool {
            Some(n) => push_str(&mut head, n.as_str()),
            None => push_str(&mut head, "?"),
        }
        push_str(&mut head, "(");
        let summary = summary_of(&tool.args);
        push_str(&mut head, summary.as_str());
        push_str(&mut head, ")");
        let body = self.tool_body_line(tool);
        self.line(err, head.as_str());
        match body {
            Some(l) => self.line(err, l.as_str()),
            None => {},
        }
    }
}

impl LineState {
    /// The line a narration block writes.
    fn narration(&self, block: &Block) -> (s: String)
        ensures
            s@ == narration_line(self.color, *block),
    {
        let c = self.color;
        let said_by = |speaker: &SpeakerId, text: String| -> (s: String)
            ensures
                s@ == said(*speaker, text@),
            {
                let mut s = speaker_label(speaker);
                push_str(&mut s, " ");
                push_str(&mut s, text.as_str());
                s
            };
        match block {
            Block::RoundStarted { round, mode } => {
                let mut s = String::new();
                push_str(&mut s, "\n");
                let t = round_section(*round, *mode);
                push_str(&mut s, t.as_str());
                s
            },
            Block::RoundEnded { round, reason } => {
                let t = round_ended(*round, *reason);
                self.paint_severity(Severity::of(*reason), t.as_str())
            },
            Block::ToolFeedback { outcome } => {
                let t = hook_feedback(outcome.as_str());
                indent(t.as_str())
            },
            Block::TurnStarted { speaker, iteration } => said_by(speaker, turn_started(*iteration)),
            Block::TurnEnded { speaker, reason } => {
                let t = said_by(speaker, turn_ended(*reason));
                self.paint_severity(Severity::of(*reason), t.as_str())
            },
            Block::PermissionAsked { speaker, tool_name, args } => {
                let summary = summary_of(args);
                said_by(speaker, permission_asked(opt_str(tool_name), summary.as_str()))
            },
            Block::PermissionDecided { speaker, decision, source, reason } => said_by(
                speaker,
                permission_decided(*decision, *source, opt_str(reason)),
            ),
            Block::Hook { speaker, point, outcome } => said_by(
                speaker,
                hook(point.as_str(), outcome.as_str()),
            ),
            Block::ExecutorSpawned { speaker, executor_id } => said_by(
                speaker,
                executor_spawned(executor_id.as_str()),
            ),
            Block::ExecutorFinished { executor_id, reason, summary } => {
                let t = executor_finished(executor_id.as_str(), *reason, summary.as_str());
                self.paint_severity(Severity::of(*reason), t.as_str())
            },
            Block::Usage { speaker, usage } => said_by(speaker, usage_summary(usage)),
            Block::AgentError { speaker, message } => {
                let t = said_by(speaker, agent_error(message.as_str()));
                self.paint_severity(Severity::Bad, t.as_str())
            },
            Block::SessionError { code, detail } => {
                let t = session_error(code.as_str(), detail.as_str());
                self.paint_severity(Severity::Bad, t.as_str())
            },
            Block::SessionEnded { reason } => {
                let t = session_ended(*reason);
                self.paint_severity(Severity::of(*reason), t.as_str())
            },
            Block::ContextInjected { source } => {
                let mut s = String::new();
                push_str(&mut s, "[上下文注入：");
                let named = context_source(source);
                push_str(&mut s, named.as_str());
                push_str(&mut s, "]");
                s
            },
            Block::History { reason, summary } => history(*reason, opt_str(summary)),
            Block::Diagnostic(m) => diagnostic(m.as_str()),
            Block::Notice(m) => m.clone(),
            _ => String::new(),
        }
    }

    /// A divergence: its heading, then one line per position.
    fn divergence(&mut self, err: &mut String, topic: &str, positions: &Vec<String>)
        ensures
            (*final(self), final(err)@) == ({
                let (v, w) = lined_all(
                    *old(self),
                    seq!["!! "@ + ("分歧："@ + topic@)] + positions@.map_values(|p: String| "  - "@ + p@),
                );
                (v, old(err)@ + w)
            }),
    {
        let ghost texts = seq!["!! "@ + ("分歧："@ + topic@)] + positions@.map_values(|p: String| "  - "@ + p@);
        let mut head = String::new();
        push_str(&mut head, "!! ");
        let d = divergence(topic);
        push_str(&mut head, d.as_str());
        proof {
            assert(texts.take(1).drop_last() =~= Seq::<Seq<char>>::empty());
            assert(texts.take(1).last() == texts[0]);
        }
        self.line(err, head.as_str());
        proof {
            let (a0, w0) = lined_all(*old(self), texts.take(0));
            assert(texts.take(1).drop_last() =~= texts.take(0));
            assert(a0 == *old(self) && w0 == Seq::<char>::empty());
            let (b, w2) = lined(a0, texts[0]);
            assert(w0 + w2 =~= w2);
            assert(lined_all(*old(self), texts.take(1)) == (b, w0 + w2));
        }
        let mut i: usize = 0;
        while i < positions.len()
            invariant
                i <= positions@.len(),
                texts == seq!["!! "@ + ("分歧："@ + topic@)] + positions@.map_values(|p: String| "  - "@ + p@),
                (*self, err@) == ({
                    let (v, w) = lined_all(*old(self), texts.take(i + 1));
                    (v, old(err)@ + w)
                }),
            decreases positions@.len() - i,
        {
            let mut text = String::new();
            push_str(&mut text, "  - ");
            push_str(&mut text, positions[i].as_str());
            proof {
                assert(texts.take(i + 2).drop_last() =~= texts.take(i + 1));
                assert(texts.take(i + 2).last() == texts[i + 1]);
                assert(texts[i + 1] == "  - "@ + positions@[i as int]@);
            }
            self.line(err, text.as_str());
            i += 1;
        }
        assert(texts.take(positions@.len() + 1int) =~= texts);
    }

    /// Paint one block: the narration to `err`, the final product to `out`.
    pub fn paint(&mut self, err: &mut String, out: &mut String, block: &Block)
        ensures
            (*final(self), final(err)@, final(out)@) == ({
                let (v, w, o) = block_painted(*old(self), *block);
                (v, old(err)@ + w, old(out)@ + o)
            }),
    {
        match block {
            Block::Delta { speaker, kind, text } => self.delta(err, speaker, *kind, text.as_str()),
            Block::Message { speaker, role, text, .. } => self.message(err, out, speaker, *role, text.as_str()),
            Block::Divergence { topic, positions } => self.divergence(err, topic.as_str(), positions),
            Block::Tool(t) => self.tool(err, &**t),
            _ => {
                let text = self.narration(block);
                self.line(err, text.as_str());
            },
        }
    }
}

/// Blocks painted one after another.
pub open spec fn painted_all(v: LineState, blocks: Seq<Block>) -> (LineState, Seq<char>, Seq<char>)
    decreases blocks.len(),
{
    if blocks.len() == 0 {
        (v, seq![], seq![])
    } else {
        let (a, w, o) = painted_all(v, blocks.drop_last());
        let (b, w2, o2) = block_painted(a, blocks.last());
        (b, w + w2, o + o2)
    }
}

/// The plain renderer: the shared transcript, and the line state it paints
/// with.
pub struct Plain {
    transcript: Transcript,
    lines: LineState,
}

impl Plain {
    /// The line state.
    pub closed spec fn state(&self) -> LineState {
        self.lines
    }

    /// The call the transcript holds open, if any.
    pub closed spec fn pending(&self) -> Option<ToolBlock> {
        self.transcript.pending()
    }

    /// Whether the transcript awaits a post-hook.
    pub closed spec fn awaiting(&self) -> bool {
        self.transcript.awaiting()
    }

    /// A fresh renderer; `color` says whether to paint with ANSI escapes.
    pub fn new(color: bool) -> (p: Plain)
        ensures
            p.state() == (LineState {
                color,
                open_speaker: None,
                at_line_start: true,
                in_reasoning: false,
                streamed: false,
            }),
            p.pending() is None,
            !p.awaiting(),
    {
        Plain { transcript: Transcript::new(), lines: LineState::new(color) }
    }

    fn paint_all(&mut self, err: &mut String, out: &mut String, blocks: &Vec<Block>)
        ensures
            final(self).pending() == old(self).pending(),
            final(self).awaiting() == old(self).awaiting(),
            (final(self).state(), final(err)@, final(out)@) == ({
                let (v, w, o) = painted_all(old(self).state(), blocks@);
                (v, old(err)@ + w, old(out)@ + o)
            }),
    {
        let mut i: usize = 0;
        while i < blocks.len()
            invariant
                i <= blocks@.len(),
                self.pending() == old(self).pending(),
                self.awaiting() == old(self).awaiting(),
                (self.state(), err@, out@) == ({
                    let (v, w, o) = painted_all(old(self).state(), blocks@.take(i as int));
                    (v, old(err)@ + w, old(out)@ + o)
                }),
            decreases blocks@.len() - i,
        {
            proof {
                assert(blocks@.take(i + 1).drop_last() =~= blocks@.take(i as int));
                assert(blocks@.take(i + 1).last() == blocks@[i as int]);
                let (a, w, o) = painted_all(old(self).state(), blocks@.take(i as int));
                let (b, w2, o2) = block_painted(a, blocks@[i as int]);
                assert(old(err)@ + w + w2 =~= old(err)@ + (w + w2));
                assert(old(out)@ + o + o2 =~= old(out)@ + (o + o2));
            }
            self.lines.paint(err, out, &blocks[i]);
            i += 1;
        }
        assert(blocks@.take(blocks@.len() as int) =~= blocks@);
    }

    /// Feed one render event: the transcript turns it into blocks, and each is
    /// painted as it comes.
    pub fn emit(&mut self, err: &mut String, out: &mut String, event: RenderEvent)
        ensures
            ({
                let (p, a, bs) = push_step(old(self).pending(), old(self).awaiting(), event);
                &&& final(self).pending() == p
                &&& final(self).awaiting() == a
                &&& (final(self).state(), final(err)@, final(out)@) == ({
                    let (v, w, o) = painted_all(old(self).state(), bs);
                    (v, old(err)@ + w, old(out)@ + o)
                })
            }),
    {
        let blocks = self.transcript.push(event);
        self.paint_all(err, out, &blocks);
    }

    /// The stream has ended: a call whose result never arrived is still
    /// shown, and the open line is finished.
    pub fn finish(&mut self, err: &mut String, out: &mut String)
        ensures
            final(self).pending() is None,
            ({
                let (v, w, o) = painted_all(old(self).state(), flushed(old(self).pending()));
                let (e, we) = ended_line(v);
                &&& final(self).state() == e
                &&& final(err)@ == old(err)@ + w + we
                &&& final(out)@ == old(out)@ + o
            }),
    {
        let blocks = self.transcript.flush();
        self.paint_all(err, out, &blocks);
        self.lines.end_line(err);
    }
}

} // verus!
