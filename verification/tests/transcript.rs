use fs_agent::events::{Decision, DecisionSource, Event, EventPayload, SpeakerId, StopReason};
use fs_agent::transcript::{truncate, Block, DeltaKind, RenderEvent, ToolBlock, ToolOutcome, Transcript};

fn agent() -> SpeakerId {
    SpeakerId::Debater("kimi".to_string())
}

fn logged(payload: EventPayload) -> RenderEvent {
    RenderEvent::Logged(Event { seq: 0, speaker_id: agent(), payload })
}

fn started(id: &str) -> RenderEvent {
    logged(EventPayload::ToolCallStarted {
        tool_call_id: id.to_string(),
        tool_name: "bash".to_string(),
        args: "{\"command\":\"ls\"}".to_string(),
    })
}

fn completed(id: &str) -> RenderEvent {
    logged(EventPayload::ToolCallCompleted {
        tool_call_id: id.to_string(),
        ok: true,
        output: Some("a.txt".to_string()),
        error: None,
        duration_ms: 7,
    })
}

fn post_hook(outcome: &str) -> RenderEvent {
    logged(EventPayload::HookExecuted { point: "post".to_string(), outcome: outcome.to_string() })
}

fn outcome() -> ToolOutcome {
    ToolOutcome { ok: true, output: Some("a.txt".to_string()), error: None, duration_ms: 7 }
}

fn call(id: &str, outcome: Option<ToolOutcome>) -> Block {
    Block::Tool(Box::new(ToolBlock {
        speaker: agent(),
        tool_call_id: id.to_string(),
        tool: Some("bash".to_string()),
        args: Some("{\"command\":\"ls\"}".to_string()),
        outcome,
    }))
}

#[test]
fn a_call_is_painted_when_its_result_lands() {
    let mut transcript = Transcript::new();
    assert_eq!(transcript.push(started("c1")), vec![]);
    assert_eq!(transcript.push(completed("c1")), vec![call("c1", Some(outcome()))]);
    assert_eq!(transcript.flush(), vec![]);
}

#[test]
fn the_post_hook_right_after_a_result_annotates_it() {
    let mut transcript = Transcript::new();
    transcript.push(started("c1"));
    transcript.push(completed("c1"));
    assert_eq!(
        transcript.push(post_hook("looks fine")),
        vec![Block::ToolFeedback { outcome: "looks fine".to_string() }]
    );
    assert_eq!(
        transcript.push(post_hook("late")),
        vec![Block::Hook { speaker: agent(), point: "post".to_string(), outcome: "late".to_string() }]
    );
}

#[test]
fn a_permission_verdict_does_not_split_the_call() {
    let mut transcript = Transcript::new();
    transcript.push(started("c1"));
    let decided = logged(EventPayload::PermissionDecided {
        decision: Decision::Allow,
        source: DecisionSource::Policy,
        reason: None,
    });
    assert_eq!(
        transcript.push(decided),
        vec![Block::PermissionDecided {
            speaker: agent(),
            decision: Decision::Allow,
            source: DecisionSource::Policy,
            reason: None,
        }]
    );
    assert_eq!(transcript.push(completed("c1")), vec![call("c1", Some(outcome()))]);
}

#[test]
fn a_result_without_its_start_is_still_shown() {
    let mut transcript = Transcript::new();
    assert_eq!(
        transcript.push(completed("lost")),
        vec![Block::Tool(Box::new(ToolBlock {
            speaker: agent(),
            tool_call_id: "lost".to_string(),
            tool: None,
            args: None,
            outcome: Some(outcome()),
        }))]
    );
}

#[test]
fn unrelated_output_closes_an_open_call_first() {
    let mut transcript = Transcript::new();
    transcript.push(started("c1"));
    let delta = RenderEvent::Delta { speaker: agent(), kind: DeltaKind::Text, text: "hi".to_string() };
    assert_eq!(
        transcript.push(delta),
        vec![
            call("c1", None),
            Block::Delta { speaker: agent(), kind: DeltaKind::Text, text: "hi".to_string() },
        ]
    );
    transcript.push(started("c2"));
    assert_eq!(transcript.flush(), vec![call("c2", None)]);
    assert_eq!(transcript.flush(), vec![]);
}

#[test]
fn the_session_skeleton_is_not_narrated() {
    let mut transcript = Transcript::new();
    assert_eq!(transcript.push(logged(EventPayload::SessionStarted)), vec![]);
    assert_eq!(
        transcript.push(logged(EventPayload::TurnEnded { reason: StopReason::Completed })),
        vec![Block::TurnEnded { speaker: agent(), reason: StopReason::Completed }]
    );
    assert_eq!(
        transcript.push(RenderEvent::Notice("n".to_string())),
        vec![Block::Notice("n".to_string())]
    );
}

#[test]
fn truncation_marks_the_cut() {
    assert_eq!(truncate("abc", 3), "abc");
    assert_eq!(truncate("abcdef", 3), "abc…");
    assert_eq!(truncate("你好世界", 1), "你…");
    assert_eq!(truncate("", 0), "");
}
