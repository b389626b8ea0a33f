//! The shared presentation layer: events become [`Block`]s once, and each
//! front end paints those blocks its own way.
//!
//! Two rules make this more than a formatting pass:
//!
//! * **A tool call and its result are one block, painted on the result.** A
//!   post-hook's feedback carries no call id — it is emitted immediately after
//!   the result it annotates — so it travels as its own small block, aimed at
//!   the call just painted.
//! * **Incremental text passes straight through.** Deltas bypass the log, so a
//!   renderer paints them as they arrive.

use vstd::prelude::*;

use crate::events::{
    ContextSource, Decision, DecisionSource, Event, EventPayload, HistoryReason, Role, RoundMode,
    SpeakerId, StopReason, Usage, POINT_POST,
};
use crate::text::{chars_of, push_char, str_eq, string_of_range};

verus! {

broadcast use vstd::seq::group_seq_axioms;

/// Text that bypasses the event log on its way to the renderer.
#[derive(Debug, Clone, Copy, PartialEq, Eq, Structural)]
pub enum DeltaKind {
    Text,
    Reasoning,
}

/// Anything a renderer may observe: incremental model output, or a completed
/// unit that landed in the event log.
#[derive(Debug, Clone)]
pub enum RenderEvent {
    Delta { speaker: SpeakerId, kind: DeltaKind, text: String },
    Logged(Event),
    /// Renderer-only narration that is not an event.
    Diagnostic(String),
    /// A front-end line that speaks for no event.
    Notice(String),
}

/// What a finished (or abandoned) tool call produced.
#[derive(Debug, Clone, PartialEq, Eq)]
pub struct ToolOutcome {
    pub ok: bool,
    pub output: Option<String>,
    pub error: Option<String>,
    pub duration_ms: u64,
}

/// One tool call, held open until its result has arrived.
#[derive(Debug, Clone, PartialEq, Eq)]
pub struct ToolBlock {
    pub speaker: SpeakerId,
    pub tool_call_id: String,
    /// The tool the call named; `None` for a result whose start never arrived.
    pub tool: Option<String>,
    /// The call's arguments, as JSON text; `None` when none were recorded.
    pub args: Option<String>,
    pub outcome: Option<ToolOutcome>,
}

/// One display-ready unit of the transcript.
#[derive(Debug, Clone, PartialEq, Eq)]
pub enum Block {
    /// Incremental model output, on its way to the renderer.
    Delta { speaker: SpeakerId, kind: DeltaKind, text: String },
    /// A completed message; its text was already streamed as deltas.
    Message { speaker: SpeakerId, role: Role, text: String, reasoning: Option<String> },
    RoundStarted { round: u32, mode: RoundMode },
    RoundEnded { round: u32, reason: StopReason },
    Divergence { topic: String, positions: Vec<String> },
    /// A tool call and its result: one block, emitted as soon as the result
    /// lands.
    Tool(Box<ToolBlock>),
    /// A post-hook's feedback for the call it annotates.
    ToolFeedback { outcome: String },
    TurnStarted { speaker: SpeakerId, iteration: u32 },
    TurnEnded { speaker: SpeakerId, reason: StopReason },
    PermissionAsked { speaker: SpeakerId, tool_name: Option<String>, args: Option<String> },
    PermissionDecided {
        speaker: SpeakerId,
        decision: Decision,
        source: DecisionSource,
        reason: Option<String>,
    },
    /// A pre-hook outcome.
    Hook { speaker: SpeakerId, point: String, outcome: String },
    ExecutorSpawned { speaker: SpeakerId, executor_id: String },
    ExecutorFinished { executor_id: String, reason: StopReason, summary: String },
    Usage { speaker: SpeakerId, usage: Usage },
    AgentError { speaker: SpeakerId, message: String },
    SessionError { code: String, detail: String },
    SessionEnded { reason: StopReason },
    ContextInjected { source: ContextSource },
    History { reason: HistoryReason, summary: Option<String> },
    Diagnostic(String),
    /// A line that speaks for no speaker and narrates no event.
    Notice(String),
}

/// The block a still-open call becomes when it is closed, if one is open.
pub open spec fn flushed(pending: Option<ToolBlock>) -> Seq<Block> {
    match pending {
        Some(t) => seq![Block::Tool(Box::new(t))],
        None => seq![],
    }
}

/// Events that belong to the interval between a call's start and its result:
/// they are narrated but do not close the open call.
pub open spec fn inside_a_call(p: EventPayload) -> bool {
    ||| p is ToolCallCompleted
    ||| p is PermissionAsked
    ||| p is PermissionDecided
    ||| p is HookExecuted
}

/// The narration block of a logged event that neither opens nor closes a
/// call, if it has one.
pub open spec fn narration(speaker: SpeakerId, p: EventPayload) -> Seq<Block> {
    match p {
        EventPayload::MessageCompleted { role, text, reasoning } => seq![
            Block::Message { speaker, role, text, reasoning },
        ],
        EventPayload::RoundStarted { round, mode } => seq![Block::RoundStarted { round, mode }],
        EventPayload::RoundEnded { round, reason } => seq![Block::RoundEnded { round, reason }],
        EventPayload::DivergenceRecorded { topic, positions } => seq![
            Block::Divergence { topic, positions },
        ],
        EventPayload::TurnStarted { iteration } => seq![Block::TurnStarted { speaker, iteration }],
        EventPayload::TurnEnded { reason } => seq![Block::TurnEnded { speaker, reason }],
        EventPayload::PermissionAsked { tool_name, args } => seq![
            Block::PermissionAsked { speaker, tool_name, args },
        ],
        EventPayload::PermissionDecided { decision, source, reason } => seq![
            Block::PermissionDecided { speaker, decision, source, reason },
        ],
        EventPayload::HookExecuted { point, outcome } => seq![Block::Hook { speaker, point, outcome }],
        EventPayload::ExecutorSpawned { executor_id } => seq![
            Block::ExecutorSpawned { speaker, executor_id },
        ],
        EventPayload::ExecutorFinished { executor_id, reason, summary } => seq![
            Block::ExecutorFinished { executor_id, reason, summary },
        ],
        EventPayload::UsageRecorded { usage } => seq![Block::Usage { speaker, usage }],
        EventPayload::AgentError { message } => seq![Block::AgentError { speaker, message }],
        EventPayload::SessionError { code, detail } => seq![Block::SessionError { code, detail }],
        EventPayload::SessionEnded { reason } => seq![Block::SessionEnded { reason }],
        EventPayload::ContextInjected { source } => seq![Block::ContextInjected { source }],
        EventPayload::HistorySuperseded { reason, summary } => seq![
            Block::History { reason, summary },
        ],
        _ => seq![],
    }
}

/// What one logged event does to the open call and the awaited post-hook, and
/// the blocks it produces.
pub open spec fn logged_step(pending: Option<ToolBlock>, awaiting: bool, event: Event) -> (
    Option<ToolBlock>,
    bool,
    Seq<Block>,
) {
    let speaker = event.speaker_id;
    let p = event.payload;
    let feedback = match p {
        EventPayload::HookExecuted { point, outcome } => if point@ == POINT_POST@ && (awaiting
            || pending is Some) {
            Some(outcome)
        } else {
            None
        },
        _ => None,
    };
    if let Some(outcome) = feedback {
        (None, false, flushed(pending).push(Block::ToolFeedback { outcome }))
    } else {
        let kept = if inside_a_call(p) {
            pending
        } else {
            None
        };
        let closed = if inside_a_call(p) {
            seq![]
        } else {
            flushed(pending)
        };
        match p {
            EventPayload::ToolCallStarted { tool_call_id, tool_name, args } => (
                Some(
                    ToolBlock {
                        speaker,
                        tool_call_id,
                        tool: Some(tool_name),
                        args: Some(args),
                        outcome: None,
                    },
                ),
                false,
                closed,
            ),
            EventPayload::ToolCallCompleted { tool_call_id, ok, output, error, duration_ms } => {
                let outcome = ToolOutcome { ok, output, error, duration_ms };
                match kept {
                    Some(t) => if t.tool_call_id@ == tool_call_id@ {
                        (
                            None,
                            true,
                            seq![
                                Block::Tool(
                                    Box::new(
                                        ToolBlock {
                                            speaker: t.speaker,
                                            tool_call_id: t.tool_call_id,
                                            tool: t.tool,
                                            args: t.args,
                                            outcome: Some(outcome),
                                        },
                                    ),
                                ),
                            ],
                        )
                    } else {
                        (
                            None,
                            false,
                            flushed(kept).push(
                                Block::Tool(
                                    Box::new(
                                        ToolBlock {
                                            speaker,
                                            tool_call_id,
                                            tool: None,
                                            args: None,
                                            outcome: Some(outcome),
                                        },
                                    ),
                                ),
                            ),
                        )
                    },
                    None => (
                        None,
                        false,
                        seq![
                            Block::Tool(
                                Box::new(
                                    ToolBlock {
                                        speaker,
                                        tool_call_id,
                                        tool: None,
                                        args: None,
                                        outcome: Some(outcome),
                                    },
                                ),
                            ),
                        ],
                    ),
                }
            },
            _ => (kept, false, closed + narration(speaker, p)),
        }
    }
}

/// What one render event does to the open call and the awaited post-hook,
/// and the blocks it produces. Incremental text and front-end lines close an
/// open call (its result will not come before them) and pass through.
pub open spec fn push_step(pending: Option<ToolBlock>, awaiting: bool, event: RenderEvent) -> (
    Option<ToolBlock>,
    bool,
    Seq<Block>,
) {
    match event {
        RenderEvent::Delta { speaker, kind, text } => (
            None,
            awaiting,
            flushed(pending).push(Block::Delta { speaker, kind, text }),
        ),
        RenderEvent::Diagnostic(m) => (None, awaiting, flushed(pending).push(Block::Diagnostic(m))),
        RenderEvent::Notice(m) => (None, awaiting, flushed(pending).push(Block::Notice(m))),
        RenderEvent::Logged(e) => logged_step(pending, awaiting, e),
    }
}

/// The incremental event-to-block state machine.
#[derive(Debug)]
pub struct Transcript {
    /// The call whose result has not arrived yet.
    pending_tool: Option<ToolBlock>,
    /// A call has been painted and its post-hook may still be on its way.
    awaiting_hook: bool,
}

impl Transcript {
    /// The call held open, if any.
    pub closed spec fn pending(&self) -> Option<ToolBlock> {
        self.pending_tool
    }

    /// Whether the next post-hook annotates the call just painted.
    pub closed spec fn awaiting(&self) -> bool {
        self.awaiting_hook
    }

    /// Nothing open, nothing awaited.
    pub fn new() -> (t: Transcript)
        ensures
            t.pending() is None,
            !t.awaiting(),
    {
        Transcript { pending_tool: None, awaiting_hook: false }
    }

    /// Close an open tool block, if any: the fallback for a call whose result
    /// never arrived, such as a stream that died mid-call.
    pub fn flush(&mut self) -> (blocks: Vec<Block>)
        ensures
            blocks@ == flushed(old(self).pending()),
            final(self).pending() is None,
            final(self).awaiting() == old(self).awaiting(),
    {
        let mut blocks: Vec<Block> = Vec::new();
        match self.pending_tool.take() {
            Some(tool) => {
                blocks.push(Block::Tool(Box::new(tool)));
                assert(blocks@ =~= flushed(old(self).pending()));
            },
            None => {},
        }
        blocks
    }

    /// Feed one render event and take the blocks it produced. A tool call is
    /// painted as soon as its result arrives.
    pub fn push(&mut self, event: RenderEvent) -> (blocks: Vec<Block>)
        ensures
            (final(self).pending(), final(self).awaiting(), blocks@) == push_step(
                old(self).pending(),
                old(self).awaiting(),
                event,
            ),
    {
        match event {
            RenderEvent::Delta { speaker, kind, text } => {
                let mut blocks = self.flush();
                blocks.push(Block::Delta { speaker, kind, text });
                blocks
            },
            RenderEvent::Diagnostic(message) => {
                let mut blocks = self.flush();
                blocks.push(Block::Diagnostic(message));
                blocks
            },
            RenderEvent::Notice(message) => {
                let mut blocks = self.flush();
                blocks.push(Block::Notice(message));
                blocks
            },
            RenderEvent::Logged(event) => self.push_logged(event),
        }
    }

    fn push_logged(&mut self, event: Event) -> (blocks: Vec<Block>)
        ensures
            (final(self).pending(), final(self).awaiting(), blocks@) == logged_step(
                old(self).pending(),
                old(self).awaiting(),
                event,
            ),
    {
        let ghost ev = event;
        let speaker = event.speaker_id;
        let payload = event.payload;
        let expected_hook = self.awaiting_hook;
        self.awaiting_hook = false;
        let is_post = match &payload {
            EventPayload::HookExecuted { point, .. } => str_eq(point.as_str(), POINT_POST),
            _ => false,
        };
        if is_post {
            let mut blocks = self.flush();
            if expected_hook || blocks.len() > 0 {
                match payload {
                    EventPayload::HookExecuted { outcome, .. } => {
                        blocks.push(Block::ToolFeedback { outcome });
                    },
                    _ => {},
                }
                return blocks;
            }
        }
        let inside = match &payload {
            EventPayload::ToolCallCompleted { .. } => true,
            EventPayload::PermissionAsked { .. } => true,
            EventPayload::PermissionDecided { .. } => true,
            EventPayload::HookExecuted { .. } => true,
            _ => false,
        };
        let mut blocks = if inside {
            Vec::new()
        } else {
            self.flush()
        };
        match payload {
            EventPayload::ToolCallStarted { tool_call_id, tool_name, args } => {
                self.pending_tool = Some(
                    ToolBlock {
                        speaker,
                        tool_call_id,
                        tool: Some(tool_name),
                        args: Some(args),
                        outcome: None,
                    },
                );
                return blocks;
            },
            EventPayload::ToolCallCompleted { tool_call_id, ok, output, error, duration_ms } => {
                let outcome = ToolOutcome { ok, output, error, duration_ms };
                let matched = match &self.pending_tool {
                    Some(t) => str_eq(t.tool_call_id.as_str(), tool_call_id.as_str()),
                    None => false,
                };
                if matched {
                    match self.pending_tool.take() {
                        Some(t) => {
                            self.awaiting_hook = true;
                            blocks.push(
                                Block::Tool(
                                    Box::new(
                                        ToolBlock {
                                            speaker: t.speaker,
                                            tool_call_id: t.tool_call_id,
                                            tool: t.tool,
                                            args: t.args,
                                            outcome: Some(outcome),
                                        },
                                    ),
                                ),
                            );
                        },
                        None => {},
                    }
                    return blocks;
                }
                let mut blocks = self.flush();
                blocks.push(
                    Block::Tool(
                        Box::new(
                            ToolBlock {
                                speaker,
                                tool_call_id,
                                tool: None,
                                args: None,
                                outcome: Some(outcome),
                            },
                        ),
                    ),
                );
                return blocks;
            },
            EventPayload::MessageCompleted { role, text, reasoning } => {
                blocks.push(Block::Message { speaker, role, text, reasoning });
            },
            EventPayload::RoundStarted { round, mode } => {
                blocks.push(Block::RoundStarted { round, mode });
            },
            EventPayload::RoundEnded { round, reason } => {
                blocks.push(Block::RoundEnded { round, reason });
            },
            EventPayload::DivergenceRecorded { topic, positions } => {
                blocks.push(Block::Divergence { topic, positions });
            },
            EventPayload::TurnStarted { iteration } => {
                blocks.push(Block::TurnStarted { speaker, iteration });
            },
            EventPayload::TurnEnded { reason } => {
                blocks.push(Block::TurnEnded { speaker, reason });
            },
            EventPayload::PermissionAsked { tool_name, args } => {
                blocks.push(Block::PermissionAsked { speaker, tool_name, args });
            },
            EventPayload::PermissionDecided { decision, source, reason } => {
                blocks.push(Block::PermissionDecided { speaker, decision, source, reason });
            },
            EventPayload::HookExecuted { point, outcome } => {
                blocks.push(Block::Hook { speaker, point, outcome });
            },
            EventPayload::ExecutorSpawned { executor_id } => {
                blocks.push(Block::ExecutorSpawned { speaker, executor_id });
            },
            EventPayload::ExecutorFinished { executor_id, reason, summary } => {
                blocks.push(Block::ExecutorFinished { executor_id, reason, summary });
            },
            EventPayload::UsageRecorded { usage } => {
                blocks.push(Block::Usage { speaker, usage });
            },
            EventPayload::AgentError { message } => {
                blocks.push(Block::AgentError { speaker, message });
            },
            EventPayload::SessionError { code, detail } => {
                blocks.push(Block::SessionError { code, detail });
            },
            EventPayload::SessionEnded { reason } => {
                blocks.push(Block::SessionEnded { reason });
            },
            EventPayload::ContextInjected { source } => {
                blocks.push(Block::ContextInjected { source });
            },
            EventPayload::HistorySuperseded { reason, summary } => {
                blocks.push(Block::History { reason, summary });
            },
            EventPayload::SessionStarted => {},
        }
        blocks
    }
}

impl Default for Transcript {
    /// Nothing open, nothing awaited.
    fn default() -> (t: Transcript)
        ensures
            t.pending() is None,
            !t.awaiting(),
    {
        Transcript::new()
    }
}

/// A tool call and its result are one block, painted on the result: starting
/// a call paints nothing, and its result paints the call with its outcome and
/// waits for the post-hook that may annotate it.
pub proof fn call_is_painted_on_its_result(
    awaiting: bool,
    speaker: SpeakerId,
    id: String,
    id2: String,
    tool: String,
    args: String,
    ok: bool,
    output: Option<String>,
    error: Option<String>,
    duration_ms: u64,
    later: SpeakerId,
)
    requires
        id@ == id2@,
    ensures
        ({
            let start = Event {
                seq: 0,
                speaker_id: speaker,
                payload: EventPayload::ToolCallStarted { tool_call_id: id, tool_name: tool, args },
            };
            let s1 = logged_step(None, awaiting, start);
            let result = Event {
                seq: 1,
                speaker_id: later,
                payload: EventPayload::ToolCallCompleted {
                    tool_call_id: id2,
                    ok,
                    output,
                    error,
                    duration_ms,
                },
            };
            let s2 = logged_step(s1.0, s1.1, result);
            &&& s1.2 == Seq::<Block>::empty()
            &&& s2.0 is None
            &&& s2.1
            &&& s2.2 == seq![
                Block::Tool(
                    Box::new(
                        ToolBlock {
                            speaker,
                            tool_call_id: id,
                            tool: Some(tool),
                            args: Some(args),
                            outcome: Some(ToolOutcome { ok, output, error, duration_ms }),
                        },
                    ),
                ),
            ]
        }),
{
}

/// The expectation of a post-hook lasts exactly one event: any logged event
/// other than a call's result leaves no hook awaited.
pub proof fn hook_expectation_lasts_one_event(
    pending: Option<ToolBlock>,
    awaiting: bool,
    event: Event,
)
    requires
        !(event.payload is ToolCallCompleted),
    ensures
        !logged_step(pending, awaiting, event).1,
{
}

/// The post-hook that follows a call's result annotates that call.
pub proof fn post_hook_annotates_the_call(
    seq: u64,
    speaker: SpeakerId,
    point: String,
    outcome: String,
)
    requires
        point@ == POINT_POST@,
    ensures
        logged_step(
            None,
            true,
            Event {
                seq,
                speaker_id: speaker,
                payload: EventPayload::HookExecuted { point, outcome },
            },
        ) == (None::<ToolBlock>, false, seq![Block::ToolFeedback { outcome }]),
{
}

/// What happens between a call's start and its result — permission
/// questions and verdicts, pre-hooks — is narrated without closing the call.
pub proof fn interval_events_keep_the_call_open(t: ToolBlock, awaiting: bool, event: Event)
    requires
        event.payload is PermissionAsked || event.payload is PermissionDecided || (
        event.payload matches EventPayload::HookExecuted { point, .. } && point@ != POINT_POST@),
    ensures
        logged_step(Some(t), awaiting, event).0 == Some(t),
        logged_step(Some(t), awaiting, event).2 == narration(event.speaker_id, event.payload),
{
}

/// Logged events taken one after another, from an open call and an awaited
/// post-hook: where the call and the hook end up, and every block produced.
pub open spec fn run_logged(pending: Option<ToolBlock>, awaiting: bool, events: Seq<Event>) -> (
    Option<ToolBlock>,
    bool,
    Seq<Block>,
)
    decreases events.len(),
{
    if events.len() == 0 {
        (pending, awaiting, seq![])
    } else {
        let (p, a, b) = run_logged(pending, awaiting, events.drop_last());
        let (p2, a2, b2) = logged_step(p, a, events.last());
        (p2, a2, b + b2)
    }
}

/// An event of the interval between a call's start and its result: a
/// permission question or verdict, or a hook that is not the post-hook.
pub open spec fn between_start_and_result(e: Event) -> bool {
    ||| e.payload is PermissionAsked
    ||| e.payload is PermissionDecided
    ||| (e.payload matches EventPayload::HookExecuted { point, .. } && point@ != POINT_POST@)
}

proof fn lemma_interval_run(t: ToolBlock, awaiting: bool, between: Seq<Event>)
    requires
        forall|i: int| 0 <= i < between.len() ==> between_start_and_result(#[trigger] between[i]),
    ensures
        run_logged(Some(t), awaiting, between).0 == Some(t),
        forall|k: int|
            0 <= k < run_logged(Some(t), awaiting, between).2.len() ==> !(#[trigger] run_logged(
                Some(t),
                awaiting,
                between,
            ).2[k] is Tool),
    decreases between.len(),
{
    if between.len() > 0 {
        let rest = between.drop_last();
        assert forall|i: int| 0 <= i < rest.len() implies between_start_and_result(#[trigger] rest[i]) by {
            assert(rest[i] == between[i]);
        }
        lemma_interval_run(t, awaiting, rest);
        let (p, a, b) = run_logged(Some(t), awaiting, rest);
        let e = between.last();
        assert(between_start_and_result(between[between.len() - 1]));
        let (p2, a2, b2) = logged_step(p, a, e);
        assert(b2 == narration(e.speaker_id, e.payload));
        let all = b + b2;
        assert forall|k: int| 0 <= k < all.len() implies !(#[trigger] all[k] is Tool) by {
            if k >= b.len() {
                assert(all[k] == b2[k - b.len()]);
            }
        }
    }
}

/// A call and its result are one block, painted on the result: the start
/// paints nothing, the permission and pre-hook events between them keep the
/// call open and paint no call, and the result with the call's id paints the
/// whole call — its speaker, tool and arguments from the start, its outcome
/// from the result.
pub proof fn a_call_and_its_result_are_one_block(
    awaiting: bool,
    start: Event,
    between: Seq<Event>,
    result: Event,
)
    requires
        start.payload is ToolCallStarted,
        result.payload is ToolCallCompleted,
        result.payload->ToolCallCompleted_tool_call_id@ == start.payload->ToolCallStarted_tool_call_id@,
        forall|i: int| 0 <= i < between.len() ==> between_start_and_result(#[trigger] between[i]),
    ensures
        ({
            let s1 = logged_step(None, awaiting, start);
            let s2 = run_logged(s1.0, s1.1, between);
            let s3 = logged_step(s2.0, s2.1, result);
            &&& s1.2 == Seq::<Block>::empty()
            &&& forall|k: int| 0 <= k < s2.2.len() ==> !(#[trigger] s2.2[k] is Tool)
            &&& s3.0 is None
            &&& s3.2 == seq![
                Block::Tool(
                    Box::new(
                        ToolBlock {
                            speaker: start.speaker_id,
                            tool_call_id: start.payload->ToolCallStarted_tool_call_id,
                            tool: Some(start.payload->ToolCallStarted_tool_name),
                            args: Some(start.payload->ToolCallStarted_args),
                            outcome: Some(
                                ToolOutcome {
                                    ok: result.payload->ToolCallCompleted_ok,
                                    output: result.payload->ToolCallCompleted_output,
                                    error: result.payload->ToolCallCompleted_error,
                                    duration_ms: result.payload->ToolCallCompleted_duration_ms,
                                },
                            ),
                        },
                    ),
                ),
            ]
        }),
{
    let s1 = logged_step(None, awaiting, start);
    let t = s1.0->0;
    assert(s1.2 =~= Seq::<Block>::empty());
    lemma_interval_run(t, s1.1, between);
}

/// `text` cut to `max` characters, with `…` marking that it happened.
pub open spec fn truncated(text: Seq<char>, max: nat) -> Seq<char> {
    if text.len() <= max {
        text
    } else {
        text.take(max as int).push('…')
    }
}

/// Truncate to `max` characters, marking that it happened.
pub fn truncate(text: &str, max: usize) -> (s: String)
    ensures
        s@ == truncated(text@, max as nat),
{
    let chars = chars_of(text);
    if chars.len() <= max {
        return string_of_range(&chars, 0, chars.len());
    }
    let mut s = string_of_range(&chars, 0, max);
    push_char(&mut s, '…');
    s
}


/// The event a narration block tells of, read back from the block's own
/// fields; `None` for the blocks that narrate no single logged event.
pub open spec fn told_event(b: Block) -> Option<EventPayload> {
    match b {
        Block::Message { role, text, reasoning, .. } => Some(
            EventPayload::MessageCompleted { role, text, reasoning },
        ),
        Block::RoundStarted { round, mode } => Some(EventPayload::RoundStarted { round, mode }),
        Block::RoundEnded { round, reason } => Some(EventPayload::RoundEnded { round, reason }),
        Block::Divergence { topic, positions } => Some(
            EventPayload::DivergenceRecorded { topic, positions },
        ),
        Block::TurnStarted { iteration, .. } => Some(EventPayload::TurnStarted { iteration }),
        Block::TurnEnded { reason, .. } => Some(EventPayload::TurnEnded { reason }),
        Block::PermissionAsked { tool_name, args, .. } => Some(
            EventPayload::PermissionAsked { tool_name, args },
        ),
        Block::PermissionDecided { decision, source, reason, .. } => Some(
            EventPayload::PermissionDecided { decision, source, reason },
        ),
        Block::Hook { point, outcome, .. } => Some(EventPayload::HookExecuted { point, outcome }),
        Block::ExecutorSpawned { executor_id, .. } => Some(
            EventPayload::ExecutorSpawned { executor_id },
        ),
        Block::ExecutorFinished { executor_id, reason, summary } => Some(
            EventPayload::ExecutorFinished { executor_id, reason, summary },
        ),
        Block::Usage { usage, .. } => Some(EventPayload::UsageRecorded { usage }),
        Block::AgentError { message, .. } => Some(EventPayload::AgentError { message }),
        Block::SessionError { code, detail } => Some(EventPayload::SessionError { code, detail }),
        Block::SessionEnded { reason } => Some(EventPayload::SessionEnded { reason }),
        Block::ContextInjected { source } => Some(EventPayload::ContextInjected { source }),
        Block::History { reason, summary } => Some(
            EventPayload::HistorySuperseded { reason, summary },
        ),
        _ => None,
    }
}

/// The speaker a block names, for the blocks that name one.
pub open spec fn named_speaker(b: Block) -> Option<SpeakerId> {
    match b {
        Block::Delta { speaker, .. } => Some(speaker),
        Block::Message { speaker, .. } => Some(speaker),
        Block::TurnStarted { speaker, .. } => Some(speaker),
        Block::TurnEnded { speaker, .. } => Some(speaker),
        Block::PermissionAsked { speaker, .. } => Some(speaker),
        Block::PermissionDecided { speaker, .. } => Some(speaker),
        Block::Hook { speaker, .. } => Some(speaker),
        Block::ExecutorSpawned { speaker, .. } => Some(speaker),
        Block::Usage { speaker, .. } => Some(speaker),
        Block::AgentError { speaker, .. } => Some(speaker),
        _ => None,
    }
}

/// Every logged event other than a session's start, a call's start and a
/// call's result (and a post-hook that annotates a call) is narrated by
/// exactly one block, after the open call it closes if it closes one: a block
/// whose fields give back the event's payload whole and which names the
/// event's speaker wherever it names one. Nothing is dropped and nothing is
/// narrated twice — an agent's error, for one, is one `AgentError` block with
/// its speaker and message.
pub proof fn every_narrated_event_is_one_block(pending: Option<ToolBlock>, awaiting: bool, event: Event)
    requires
        !(event.payload is SessionStarted),
        !(event.payload is ToolCallStarted),
        !(event.payload is ToolCallCompleted),
        !(event.payload is HookExecuted && event.payload->HookExecuted_point@ == POINT_POST@ && (
        awaiting || pending is Some)),
    ensures
        ({
            let blocks = logged_step(pending, awaiting, event).2;
            let closed = if inside_a_call(event.payload) {
                Seq::<Block>::empty()
            } else {
                flushed(pending)
            };
            &&& blocks.len() == closed.len() + 1
            &&& blocks.drop_last() == closed
            &&& told_event(blocks.last()) == Some(event.payload)
            &&& named_speaker(blocks.last()) is Some ==> named_speaker(blocks.last()) == Some(
                event.speaker_id,
            )
        }),
{
    let blocks = logged_step(pending, awaiting, event).2;
    let closed = if inside_a_call(event.payload) {
        Seq::<Block>::empty()
    } else {
        flushed(pending)
    };
    assert(blocks == closed + narration(event.speaker_id, event.payload));
    assert(narration(event.speaker_id, event.payload).len() == 1);
    assert((closed + narration(event.speaker_id, event.payload)).drop_last() =~= closed);
}

} // verus!
