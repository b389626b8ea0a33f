//! The machine mode's decisions: what reaches `stdout` and what is narrated
//! on `stderr`, one render event at a time.
//!
//! `stdout` receives the final product and nothing else: the completed turn
//! of a single-agent session, or, inside a discussion, the synthesizer's
//! `System`-attributed message. Every debater turn also ends `Completed`, so a
//! round boundary is what tells the two apart; and an executor's turn is never
//! the session's product, so it neither prints nor overwrites the text the
//! dispatcher's turn will print.

use vstd::prelude::*;

use crate::events::{EventPayload, Role, RoundMode, SpeakerId, StopReason};
use crate::transcript::{DeltaKind, RenderEvent};

verus! {

/// One thing the machine mode writes to its diagnostic sink.
#[derive(Debug, Clone, PartialEq, Eq)]
pub enum Narration {
    /// Text written as it is.
    Raw(String),
    /// A line break closing an open reasoning stream.
    LineBreak,
    /// The marker that opens a reasoning stream.
    ReasoningMarker,
    /// A renderer diagnostic, on a line of its own.
    Diagnostic(String),
    /// A turn started.
    TurnIteration { speaker: SpeakerId, iteration: u32 },
    /// A message completed.
    MessageComplete { speaker: SpeakerId },
    /// A turn ended.
    TurnEnded { reason: StopReason },
    /// A discussion round opened.
    RoundStarted { round: u32, mode: RoundMode },
    /// A discussion round closed.
    RoundEnded { round: u32, reason: StopReason },
    /// Any other logged event, named by who it is attributed to.
    Logged { speaker: SpeakerId },
}

/// What one render event makes the machine mode write.
#[derive(Debug, Clone, PartialEq, Eq)]
pub struct HeadlessOutput {
    /// The final product, when this event completes one.
    pub stdout: Option<String>,
    /// The narration, in order.
    pub stderr: Vec<Narration>,
}

/// The machine mode's state between events.
#[derive(Debug)]
pub struct HeadlessState {
    /// The text the current non-executor turn would print.
    final_text: String,
    /// Whether a reasoning stream is open on the diagnostic sink.
    in_reasoning: bool,
    /// Whether a discussion round is open.
    in_round: bool,
}

/// Whether a speaker is an executor.
pub open spec fn is_executor(s: SpeakerId) -> bool {
    s is Executor
}

/// What one event does to the product text, the reasoning flag and the round
/// flag, and the product it prints, if any; the narration is `narration_of`.
pub open spec fn headless_step(text: Seq<char>, in_reasoning: bool, in_round: bool, event: RenderEvent) -> (
    Seq<char>,
    bool,
    bool,
    Option<Seq<char>>,
) {
    match event {
        RenderEvent::Delta { kind, .. } => (text, kind is Reasoning, in_round, None),
        RenderEvent::Diagnostic(_) => (text, false, in_round, None),
        RenderEvent::Notice(_) => (text, in_reasoning, in_round, None),
        RenderEvent::Logged(e) => match e.payload {
            EventPayload::TurnStarted { .. } => (
                if is_executor(e.speaker_id) {
                    text
                } else {
                    seq![]
                },
                false,
                in_round,
                None,
            ),
            EventPayload::MessageCompleted { role, text: t, .. } => if role == Role::Assistant {
                (
                    if is_executor(e.speaker_id) {
                        text
                    } else {
                        t@
                    },
                    false,
                    in_round,
                    if e.speaker_id == SpeakerId::System {
                        Some(t@ + "\n"@)
                    } else {
                        None
                    },
                )
            } else {
                (text, false, in_round, None)
            },
            EventPayload::TurnEnded { reason } => (
                text,
                false,
                in_round,
                if reason == StopReason::Completed && !in_round && !is_executor(e.speaker_id) {
                    Some(text + "\n"@)
                } else {
                    None
                },
            ),
            EventPayload::RoundStarted { .. } => (text, false, true, None),
            EventPayload::RoundEnded { .. } => (text, false, false, None),
            _ => (text, false, in_round, None),
        },
    }
}

/// What one event narrates on the diagnostic sink, given whether a reasoning
/// stream is open: an open stream is closed by a line break before anything
/// else, and a reasoning delta opens one with its marker.
pub open spec fn narration_of(in_reasoning: bool, event: RenderEvent) -> Seq<Narration> {
    let close = if in_reasoning {
        seq![Narration::LineBreak]
    } else {
        seq![]
    };
    match event {
        RenderEvent::Delta { kind, text, .. } => match kind {
            DeltaKind::Text => close.push(Narration::Raw(text)),
            DeltaKind::Reasoning => if in_reasoning {
                seq![Narration::Raw(text)]
            } else {
                seq![Narration::ReasoningMarker, Narration::Raw(text)]
            },
        },
        RenderEvent::Diagnostic(m) => close.push(Narration::Diagnostic(m)),
        RenderEvent::Notice(_) => seq![],
        RenderEvent::Logged(e) => close.push(
            match e.payload {
                EventPayload::TurnStarted { iteration } => Narration::TurnIteration {
                    speaker: e.speaker_id,
                    iteration,
                },
                EventPayload::MessageCompleted { role, .. } => if role == Role::Assistant {
                    Narration::MessageComplete { speaker: e.speaker_id }
                } else {
                    Narration::Logged { speaker: e.speaker_id }
                },
                EventPayload::TurnEnded { reason } => Narration::TurnEnded { reason },
                EventPayload::RoundStarted { round, mode } => Narration::RoundStarted { round, mode },
                EventPayload::RoundEnded { round, reason } => Narration::RoundEnded { round, reason },
                _ => Narration::Logged { speaker: e.speaker_id },
            },
        ),
    }
}

impl HeadlessState {
    /// The product text the current turn would print.
    pub closed spec fn product(&self) -> Seq<char> {
        self.final_text@
    }

    /// Whether a reasoning stream is open.
    pub closed spec fn reasoning(&self) -> bool {
        self.in_reasoning
    }

    /// Whether a discussion round is open.
    pub closed spec fn round_open(&self) -> bool {
        self.in_round
    }

    /// Nothing written yet.
    pub fn new() -> (s: HeadlessState)
        ensures
            s.product() == Seq::<char>::empty(),
            !s.reasoning(),
            !s.round_open(),
    {
        HeadlessState { final_text: String::new(), in_reasoning: false, in_round: false }
    }

    /// Close an open reasoning stream before other output.
    fn close_reasoning(&mut self, stderr: &mut Vec<Narration>)
        ensures
            !final(self).reasoning(),
            final(self).product() == old(self).product(),
            final(self).round_open() == old(self).round_open(),
            final(stderr)@ == if old(self).reasoning() {
                old(stderr)@.push(Narration::LineBreak)
            } else {
                old(stderr)@
            },
    {
        if self.in_reasoning {
            stderr.push(Narration::LineBreak);
            self.in_reasoning = false;
        }
    }

    /// Take one render event: what it writes to `stdout`, if anything, and
    /// what it narrates.
    pub fn step(&mut self, event: &RenderEvent) -> (out: HeadlessOutput)
        ensures
            ({
                let (t, r, g, o) = headless_step(
                    old(self).product(),
                    old(self).reasoning(),
                    old(self).round_open(),
                    *event,
                );
                &&& final(self).product() == t
                &&& final(self).reasoning() == r
                &&& final(self).round_open() == g
                &&& match o {
                    Some(p) => out.stdout matches Some(s) && s@ == p,
                    None => out.stdout is None,
                }
            }),
            out.stderr@ == narration_of(old(self).reasoning(), *event),
    {
        let mut stderr: Vec<Narration> = Vec::new();
        let mut stdout: Option<String> = None;
        match event {
            RenderEvent::Delta { kind, text, .. } => {
                match kind {
                    DeltaKind::Text => {
                        self.close_reasoning(&mut stderr);
                    },
                    DeltaKind::Reasoning => {
                        if !self.in_reasoning {
                            stderr.push(Narration::ReasoningMarker);
                            self.in_reasoning = true;
                        }
                    },
                }
                stderr.push(Narration::Raw(text.clone()));
            },
            RenderEvent::Diagnostic(message) => {
                self.close_reasoning(&mut stderr);
                stderr.push(Narration::Diagnostic(message.clone()));
            },
            RenderEvent::Notice(_) => {},
            RenderEvent::Logged(e) => {
                self.close_reasoning(&mut stderr);
                let executor = match &e.speaker_id {
                    SpeakerId::Executor(_) => true,
                    _ => false,
                };
                match &e.payload {
                    EventPayload::TurnStarted { iteration } => {
                        if !executor {
                            self.final_text = String::new();
                        }
                        stderr.push(
                            Narration::TurnIteration {
                                speaker: e.speaker_id.copied(),
                                iteration: *iteration,
                            },
                        );
                    },
                    EventPayload::MessageCompleted { role, text, .. } => {
                        match role {
                            Role::Assistant => {
                                if !executor {
                                    self.final_text = text.clone();
                                }
                                match &e.speaker_id {
                                    SpeakerId::System => {
                                        let mut s = text.clone();
                                        crate::text::push_str(&mut s, "\n");
                                        stdout = Some(s);
                                    },
                                    _ => {},
                                }
                                stderr.push(
                                    Narration::MessageComplete { speaker: e.speaker_id.copied() },
                                );
                            },
                            _ => {
                                stderr.push(Narration::Logged { speaker: e.speaker_id.copied() });
                            },
                        }
                    },
                    EventPayload::TurnEnded { reason } => {
                        let completed = match reason {
                            StopReason::Completed => true,
                            _ => false,
                        };
                        if completed && !self.in_round && !executor {
                            let mut s = self.final_text.clone();
                            crate::text::push_str(&mut s, "\n");
                            stdout = Some(s);
                        }
                        stderr.push(Narration::TurnEnded { reason: *reason });
                    },
                    EventPayload::RoundStarted { round, mode } => {
                        self.in_round = true;
                        stderr.push(Narration::RoundStarted { round: *round, mode: *mode });
                    },
                    EventPayload::RoundEnded { round, reason } => {
                        self.in_round = false;
                        stderr.push(Narration::RoundEnded { round: *round, reason: *reason });
                    },
                    _ => {
                        stderr.push(Narration::Logged { speaker: e.speaker_id.copied() });
                    },
                }
            },
        }
        HeadlessOutput { stdout, stderr }
    }
}

/// An executor's events never reach `stdout` and never touch the text the
/// dispatcher's turn will print.
pub proof fn executor_never_prints(
    text: Seq<char>,
    in_reasoning: bool,
    in_round: bool,
    event: crate::events::Event,
)
    requires
        is_executor(event.speaker_id),
    ensures
        headless_step(text, in_reasoning, in_round, RenderEvent::Logged(event)).0 == text,
        headless_step(text, in_reasoning, in_round, RenderEvent::Logged(event)).3 is None,
{
}

/// Inside a discussion round a completed turn is one debater's answer, not the
/// session's product: it prints nothing.
pub proof fn debater_turns_do_not_print(
    text: Seq<char>,
    in_reasoning: bool,
    event: crate::events::Event,
)
    requires
        event.payload is TurnEnded,
    ensures
        headless_step(text, in_reasoning, true, RenderEvent::Logged(event)).3 is None,
{
}

/// A single-agent turn prints its final message and nothing else: a turn
/// starts, the assistant's message completes, and the turn ends `Completed`
/// outside any round — `stdout` gets that message and a newline.
pub proof fn single_agent_turn_prints_its_answer(
    speaker: SpeakerId,
    text: Seq<char>,
    in_reasoning: bool,
    iteration: u32,
    answer: String,
    reasoning: Option<String>,
)
    requires
        speaker is Debater || speaker is User,
    ensures
        ({
            let s1 = headless_step(
                text,
                in_reasoning,
                false,
                RenderEvent::Logged(
                    crate::events::Event {
                        seq: 0,
                        speaker_id: speaker,
                        payload: EventPayload::TurnStarted { iteration },
                    },
                ),
            );
            let s2 = headless_step(
                s1.0,
                s1.1,
                s1.2,
                RenderEvent::Logged(
                    crate::events::Event {
                        seq: 1,
                        speaker_id: speaker,
                        payload: EventPayload::MessageCompleted {
                            role: Role::Assistant,
                            text: answer,
                            reasoning,
                        },
                    },
                ),
            );
            let s3 = headless_step(
                s2.0,
                s2.1,
                s2.2,
                RenderEvent::Logged(
                    crate::events::Event {
                        seq: 2,
                        speaker_id: speaker,
                        payload: EventPayload::TurnEnded { reason: StopReason::Completed },
                    },
                ),
            );
            &&& s1.3 is None
            &&& s2.3 is None
            &&& s3.3 == Some(answer@ + "\n"@)
        }),
{
}

} // verus!
