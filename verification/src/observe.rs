//! Views over a session's event stream: every one is a group-by over the
//! stream, never a new capture point, so the stream stays the single source of
//! truth.

use vstd::prelude::*;

use crate::events::{Event, EventPayload, RoundMode, SpeakerId, StopReason, Usage};
use crate::file_edit::WROTE_PATH_PREFIX;
use crate::placeholder::{line_span, line_text};
use crate::text::{chars_of, occurs_at, occurs_at_exec, push_char, str_eq, string_of, string_of_range};

verus! {

broadcast use vstd::seq::group_seq_axioms;

/// An ASCII letter or digit.
pub open spec fn is_ascii_alnum(c: char) -> bool {
    let u = c as u32;
    (48 <= u && u <= 57) || (65 <= u && u <= 90) || (97 <= u && u <= 122)
}

/// ASCII lowercase of one letter or digit.
pub open spec fn lower_alnum(c: char) -> char {
    if 65 <= (c as u32) <= 90 {
        ((c as u32) + 32) as char
    } else {
        c
    }
}

/// A kind name with every character but ASCII letters and digits dropped, and
/// letters lowercased.
pub open spec fn folded(s: Seq<char>) -> Seq<char>
    decreases s.len(),
{
    if s.len() == 0 {
        seq![]
    } else if is_ascii_alnum(s.last()) {
        folded(s.drop_last()).push(lower_alnum(s.last()))
    } else {
        folded(s.drop_last())
    }
}

/// The one form `--kind` compares in: case, underscores and dashes are all
/// decoration, and a merged tool row answers to any of the names it replaces.
pub open spec fn canonical_kind_text(kind: Seq<char>) -> Seq<char> {
    let f = folded(kind);
    if f == "tool"@ || f == "toolcall"@ || f == "toolcallstarted"@ || f == "toolcallcompleted"@ {
        "tool"@
    } else {
        f
    }
}

/// Fold a kind name to the one form `--kind` compares in.
pub fn canonical_kind(kind: &str) -> (s: String)
    ensures
        s@ == canonical_kind_text(kind@),
{
    let v = chars_of(kind);
    let mut out = String::new();
    let mut i: usize = 0;
    while i < v.len()
        invariant
            v@ == kind@,
            i <= v@.len(),
            out@ == folded(v@.take(i as int)),
        decreases v@.len() - i,
    {
        let c = v[i];
        let u = c as u32;
        assert(v@.take(i + 1).drop_last() =~= v@.take(i as int));
        if (48 <= u && u <= 57) || (65 <= u && u <= 90) || (97 <= u && u <= 122) {
            let l = if 65 <= u && u <= 90 {
                let low = (u + 32) as u8;
                low as char
            } else {
                c
            };
            assert(l == lower_alnum(c)) by {
                if 65 <= u && u <= 90 {
                    assert(((u + 32) as u8) as char == ((u + 32) as char));
                }
            }
            push_char(&mut out, l);
        }
        i += 1;
    }
    assert(v@.take(v@.len() as int) =~= v@);
    let s = out.as_str();
    if str_eq(s, "tool") || str_eq(s, "toolcall") || str_eq(s, "toolcallstarted") || str_eq(
        s,
        "toolcallcompleted",
    ) {
        "tool".to_string()
    } else {
        out
    }
}

/// Filters over a session's transcript (`sessions show`).
#[derive(Debug, Clone, PartialEq)]
pub struct Filter {
    pub round: Option<u32>,
    pub speaker: Option<SpeakerId>,
    pub kind: Option<String>,
    pub tool: Option<String>,
    pub only_error: bool,
}

impl Filter {
    /// Whether this filter names nothing, in which case the caller can use the
    /// transcript it already built.
    pub fn is_empty(&self) -> (r: bool)
        ensures
            r == (self.round is None && self.speaker is None && self.kind is None
                && self.tool is None && !self.only_error),
    {
        self.round.is_none() && self.speaker.is_none() && self.kind.is_none()
            && self.tool.is_none() && !self.only_error
    }
}

/// One changed file, attributed to the agent and round that changed it.
#[derive(Debug, Clone, PartialEq, Eq)]
pub struct FileChange {
    pub path: String,
    pub tool: String,
    pub speaker: SpeakerId,
    pub round: Option<u32>,
    pub seq: u64,
}

/// The path a successful write's result names: its first line after the
/// `wrote:` prefix, when there is such a line.
pub open spec fn written_path(output: Seq<char>) -> Option<Seq<char>> {
    let p = WROTE_PATH_PREFIX@;
    if output.len() >= p.len() && output.take(p.len() as int) == p && output.len() > p.len() {
        Some(line_text(output.skip(p.len() as int), 0))
    } else {
        None
    }
}

/// The round open after the first `n` events.
pub open spec fn round_after(events: Seq<Event>, n: int) -> Option<u32>
    decreases n,
{
    if n <= 0 {
        None
    } else {
        match events[n - 1].payload {
            EventPayload::RoundStarted { round, .. } => Some(round),
            EventPayload::RoundEnded { .. } => None,
            _ => round_after(events, n - 1),
        }
    }
}

/// The tool name the last call started among the first `n` events under `id`
/// gave, if any did.
pub open spec fn started_name(events: Seq<Event>, n: int, id: Seq<char>) -> Option<Seq<char>>
    decreases n,
{
    if n <= 0 {
        None
    } else {
        match events[n - 1].payload {
            EventPayload::ToolCallStarted { tool_call_id, tool_name, .. } => if tool_call_id@
                == id {
                Some(tool_name@)
            } else {
                started_name(events, n - 1, id)
            },
            _ => started_name(events, n - 1, id),
        }
    }
}

/// A file change as plain values: path, tool, speaker, round, seq.
pub open spec fn change_view(c: FileChange) -> (Seq<char>, Seq<char>, SpeakerId, Option<u32>, u64) {
    (c.path@, c.tool@, c.speaker, c.round, c.seq)
}

/// The changes the first `n` events record, in stream order.
pub open spec fn changes_in(events: Seq<Event>, n: int) -> Seq<
    (Seq<char>, Seq<char>, SpeakerId, Option<u32>, u64),
>
    decreases n,
{
    if n <= 0 {
        seq![]
    } else {
        let e = events[n - 1];
        let before = changes_in(events, n - 1);
        match e.payload {
            EventPayload::ToolCallCompleted { tool_call_id, ok, output, .. } => if ok
                && output is Some && written_path(output->0@) is Some {
                before.push(
                    (
                        written_path(output->0@)->0,
                        match started_name(events, n - 1, tool_call_id@) {
                            Some(t) => t,
                            None => seq![],
                        },
                        e.speaker_id,
                        round_after(events, n - 1),
                        e.seq,
                    ),
                )
            } else {
                before
            },
            _ => before,
        }
    }
}

/// The name the call `id` was started under, among the first `n` events.
fn name_started(events: &[Event], n: usize, id: &str) -> (r: Option<String>)
    requires
        n <= events@.len(),
    ensures
        match r {
            Some(t) => started_name(events@, n as int, id@) == Some(t@),
            None => started_name(events@, n as int, id@) is None,
        },
{
    let mut k = n;
    while k > 0
        invariant
            k <= n <= events@.len(),
            started_name(events@, n as int, id@) == started_name(events@, k as int, id@),
        decreases k,
    {
        match &events[k - 1].payload {
            EventPayload::ToolCallStarted { tool_call_id, tool_name, .. } => {
                if str_eq(tool_call_id.as_str(), id) {
                    return Some(tool_name.clone());
                }
            },
            _ => {},
        }
        k -= 1;
    }
    None
}

/// The path a successful write's result names, if it names one.
fn written_path_of(output: &str) -> (r: Option<String>)
    ensures
        match r {
            Some(p) => written_path(output@) == Some(p@),
            None => written_path(output@) is None,
        },
{
    let v = chars_of(output);
    let prefix = chars_of(WROTE_PATH_PREFIX);
    let n = prefix.len();
    if v.len() <= n || !occurs_at_exec(&v, 0, &prefix) {
        proof {
            if v@.len() >= n && v@.take(n as int) == prefix@ {
                assert(v@.subrange(0, n as int) =~= v@.take(n as int));
            }
        }
        return None;
    }
    assert(v@.take(n as int) =~= v@.subrange(0, n as int));
    let rest = string_of_range(&v, n, v.len());
    let rv = chars_of(rest.as_str());
    assert(rv@ =~= v@.skip(n as int));
    let (hi, _) = line_span(&rv, 0);
    Some(string_of_range(&rv, 0, hi))
}

/// The workspace-object view: every file a successful write or edit landed
/// on, attributed to the speaker and the round. The path comes from the
/// result line, not the call's arguments: a pre-hook may have rewritten the
/// arguments, so the result is the only record of what was written.
pub fn file_history(events: &[Event]) -> (changes: Vec<FileChange>)
    ensures
        changes@.map_values(|c: FileChange| change_view(c)) == changes_in(
            events@,
            events@.len() as int,
        ),
{
    let mut round: Option<u32> = None;
    let mut changes: Vec<FileChange> = Vec::new();
    let mut i: usize = 0;
    while i < events.len()
        invariant
            i <= events@.len(),
            round == round_after(events@, i as int),
            changes@.map_values(|c: FileChange| change_view(c)) == changes_in(events@, i as int),
        decreases events@.len() - i,
    {
        let event = &events[i];
        let ghost before = changes@;
        match &event.payload {
            EventPayload::RoundStarted { round: started, .. } => {
                round = Some(*started);
            },
            EventPayload::RoundEnded { .. } => {
                round = None;
            },
            EventPayload::ToolCallCompleted { tool_call_id, ok, output, .. } => {
                if *ok {
                    match output {
                        Some(text) => {
                            match written_path_of(text.as_str()) {
                                Some(path) => {
                                    let tool = match name_started(events, i, tool_call_id.as_str()) {
                                        Some(t) => t,
                                        None => String::new(),
                                    };
                                    changes.push(
                                        FileChange {
                                            path,
                                            tool,
                                            speaker: event.speaker_id.copied(),
                                            round,
                                            seq: event.seq,
                                        },
                                    );
                                    assert(changes@.map_values(|c: FileChange| change_view(c))
                                        =~= before.map_values(|c: FileChange| change_view(c)).push(
                                        change_view(changes@.last()),
                                    ));
                                },
                                None => {},
                            }
                        },
                        None => {},
                    }
                }
            },
            _ => {},
        }
        i += 1;
    }
    changes
}

/// One named count, so a reader can take a distribution without depending on
/// a map's ordering.
#[derive(Debug, Clone, PartialEq, Eq)]
pub struct Count {
    pub name: String,
    pub count: usize,
}

/// One round: the calls it cost and how it was closed.
#[derive(Debug, Clone, PartialEq, Eq)]
pub struct RoundStats {
    pub round: u32,
    pub mode: RoundMode,
    pub calls: usize,
    pub ended: Option<StopReason>,
}

/// The executors a session dispatched and why they stopped.
#[derive(Debug, Clone, PartialEq, Eq)]
pub struct ExecutorStats {
    pub spawned: usize,
    pub finished: usize,
    pub by_reason: Vec<Count>,
    pub tokens: Usage,
}

/// The edit ladder's outcome: how many edits landed and at which level.
#[derive(Debug, Clone, PartialEq, Eq)]
pub struct EditStats {
    pub succeeded: usize,
    /// The ladder's downgrade distribution.
    pub levels: Vec<Count>,
    /// Edits refused because no ladder level matched.
    pub failed_matches: usize,
}

/// The two guardrails whose refusals are otherwise invisible.
#[derive(Debug, Clone, PartialEq, Eq)]
pub struct GuardStats {
    pub read_before_write: usize,
    pub invalidated_reads: usize,
}

/// Permission questions asked and how they were decided.
#[derive(Debug, Clone, PartialEq, Eq)]
pub struct PermissionStats {
    pub asked: usize,
    pub decided: Vec<Count>,
}

/// What the mounted hooks did over the session.
#[derive(Debug, Clone, PartialEq, Eq)]
pub struct HookStats {
    pub executed: usize,
    pub pre: usize,
    pub post: usize,
    /// Post-hook outcomes that carried feedback to the model.
    pub feedback: usize,
    /// Hook failures or timeouts.
    pub failed: usize,
    pub outcomes: Vec<Count>,
}

} // verus!
