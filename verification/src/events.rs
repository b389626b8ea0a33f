//! The event vocabulary the wording, classification and statistics layers
//! name: why things stop, who speaks, what a round is, what a verdict was.

use vstd::prelude::*;

verus! {

/// Why an agent turn, a round, a discussion or a session stopped.
#[derive(Debug, Clone, Copy, PartialEq, Eq, Structural)]
pub enum StopReason {
    Completed,
    MaxIterations,
    Aborted,
    MistakeLimit,
    Error,
    Consensus,
    NoDivergence,
    RoundsExhausted,
    BudgetExhausted,
}

/// What a discussion round is for.
#[derive(Debug, Clone, Copy, PartialEq, Eq, Structural)]
pub enum RoundMode {
    Independent,
    Targeted,
    Synthesis,
}

/// Who an event is attributed to.
#[derive(Debug, Clone, PartialEq, Eq)]
pub enum SpeakerId {
    Debater(String),
    Executor(String),
    User,
    System,
}

impl SpeakerId {
    /// A copy of this speaker.
    pub fn copied(&self) -> (r: SpeakerId)
        ensures
            r == *self,
    {
        match self {
            SpeakerId::Debater(name) => SpeakerId::Debater(name.clone()),
            SpeakerId::Executor(id) => SpeakerId::Executor(id.clone()),
            SpeakerId::User => SpeakerId::User,
            SpeakerId::System => SpeakerId::System,
        }
    }
}

/// Where a pinned context injection came from.
#[derive(Debug, Clone, PartialEq, Eq)]
pub enum ContextSource {
    AgentsMd,
    SkillsCatalog,
    Skill,
    PlanMode,
    /// A persona given to one participant, by name.
    Persona(String),
}

/// Why a range of history stopped being authoritative.
#[derive(Debug, Clone, Copy, PartialEq, Eq, Structural)]
pub enum HistoryReason {
    Regenerate,
    Undo,
    Compaction,
    ModeChange,
}

/// A permission verdict.
#[derive(Debug, Clone, Copy, PartialEq, Eq, Structural)]
pub enum Decision {
    Allow,
    Ask,
    Deny,
}

/// Where a permission verdict came from.
#[derive(Debug, Clone, Copy, PartialEq, Eq, Structural)]
pub enum DecisionSource {
    User,
    Hook,
    Policy,
}

/// The permission mode a session runs under.
#[derive(Debug, Clone, Copy, PartialEq, Eq, Structural)]
pub enum Mode {
    Readonly,
    Ask,
    Auto,
    Plan,
}

/// The provider's own terminal label for one call.
#[derive(Debug, Clone, PartialEq, Eq)]
pub enum FinishReason {
    Stop,
    Length,
    ToolCalls,
    ContentFilter,
    InsufficientSystemResource,
    Aborted,
    Other(String),
}

/// The token accounting of one call.
#[derive(Debug, Clone, Copy, PartialEq, Eq, Default, Structural)]
pub struct Usage {
    pub input_tokens: u64,
    pub output_tokens: u64,
    pub cached_tokens: u64,
    pub miss_tokens: u64,
}

/// The mount point a hook runs before a tool call.
pub const POINT_PRE: &'static str = "pre";

/// The mount point a hook runs after a tool call.
pub const POINT_POST: &'static str = "post";

/// Who wrote a message.
#[derive(Debug, Clone, Copy, PartialEq, Eq, Structural)]
pub enum Role {
    System,
    User,
    Assistant,
    Tool,
}

/// What one logged event records. Tool arguments travel as their JSON text.
#[derive(Debug, Clone, PartialEq, Eq)]
pub enum EventPayload {
    SessionStarted,
    MessageCompleted { role: Role, text: String, reasoning: Option<String> },
    ToolCallStarted { tool_call_id: String, tool_name: String, args: String },
    ToolCallCompleted {
        tool_call_id: String,
        ok: bool,
        output: Option<String>,
        error: Option<String>,
        duration_ms: u64,
    },
    RoundStarted { round: u32, mode: RoundMode },
    RoundEnded { round: u32, reason: StopReason },
    DivergenceRecorded { topic: String, positions: Vec<String> },
    TurnStarted { iteration: u32 },
    TurnEnded { reason: StopReason },
    /// A permission question; the tool and the arguments it is about, when the
    /// stream recorded them.
    PermissionAsked { tool_name: Option<String>, args: Option<String> },
    PermissionDecided { decision: Decision, source: DecisionSource, reason: Option<String> },
    HookExecuted { point: String, outcome: String },
    ExecutorSpawned { executor_id: String },
    ExecutorFinished { executor_id: String, reason: StopReason, summary: String },
    UsageRecorded { usage: Usage },
    AgentError { message: String },
    SessionError { code: String, detail: String },
    SessionEnded { reason: StopReason },
    ContextInjected { source: ContextSource },
    HistorySuperseded { reason: HistoryReason, summary: Option<String> },
}

/// One entry of the event log: its place in the log, who it is attributed
/// to, and what it records.
#[derive(Debug, Clone, PartialEq, Eq)]
pub struct Event {
    /// The event's identity: its position in the session's log.
    pub seq: u64,
    pub speaker_id: SpeakerId,
    pub payload: EventPayload,
}

} // verus!
