use fs_agent::events::{Event, EventPayload, Role, RoundMode, SpeakerId, StopReason};
use fs_agent::headless::{HeadlessState, Narration};
use fs_agent::transcript::{DeltaKind, RenderEvent};

fn logged(speaker: SpeakerId, payload: EventPayload) -> RenderEvent {
    RenderEvent::Logged(Event { seq: 1, speaker_id: speaker, payload })
}

fn answer(speaker: SpeakerId, text: &str) -> RenderEvent {
    logged(speaker, EventPayload::MessageCompleted { role: Role::Assistant, text: text.to_owned(), reasoning: None })
}

fn ended(speaker: SpeakerId) -> RenderEvent {
    logged(speaker, EventPayload::TurnEnded { reason: StopReason::Completed })
}

#[test]
fn inside_a_round_only_the_synthesis_reaches_stdout() {
    let first = SpeakerId::Debater("甲".to_owned());
    let mut state = HeadlessState::new();
    state.step(&logged(SpeakerId::System, EventPayload::RoundStarted { round: 1, mode: RoundMode::Independent }));
    state.step(&answer(first.clone(), "mine"));
    assert_eq!(state.step(&ended(first)).stdout, None);
    state.step(&logged(SpeakerId::System, EventPayload::RoundEnded { round: 1, reason: StopReason::NoDivergence }));
    let out = state.step(&answer(SpeakerId::System, "consensus: yes"));
    assert_eq!(out.stdout, Some("consensus: yes\n".to_owned()));
}

#[test]
fn an_executor_does_not_overwrite_the_turn_it_works_for() {
    let agent = SpeakerId::Debater("a".to_owned());
    let executor = SpeakerId::Executor("e1".to_owned());
    let mut state = HeadlessState::new();
    state.step(&logged(agent.clone(), EventPayload::TurnStarted { iteration: 1 }));
    state.step(&answer(agent.clone(), "dispatching"));
    state.step(&logged(executor.clone(), EventPayload::TurnStarted { iteration: 1 }));
    state.step(&answer(executor.clone(), "sub result"));
    assert_eq!(state.step(&ended(executor)).stdout, None);
    assert_eq!(state.step(&ended(agent.clone())).stdout, Some("dispatching\n".to_owned()));
    state.step(&logged(agent.clone(), EventPayload::TurnStarted { iteration: 2 }));
    assert_eq!(state.step(&ended(agent)).stdout, Some("\n".to_owned()));
}

#[test]
fn a_reasoning_stream_is_marked_and_closed() {
    let agent = SpeakerId::Debater("a".to_owned());
    let mut state = HeadlessState::new();
    let out = state.step(&RenderEvent::Delta { speaker: agent.clone(), kind: DeltaKind::Reasoning, text: "hm".to_owned() });
    assert_eq!(out.stderr, vec![Narration::ReasoningMarker, Narration::Raw("hm".to_owned())]);
    let out = state.step(&RenderEvent::Delta { speaker: agent.clone(), kind: DeltaKind::Reasoning, text: "m".to_owned() });
    assert_eq!(out.stderr, vec![Narration::Raw("m".to_owned())]);
    let out = state.step(&RenderEvent::Delta { speaker: agent.clone(), kind: DeltaKind::Text, text: "ok".to_owned() });
    assert_eq!(out.stderr, vec![Narration::LineBreak, Narration::Raw("ok".to_owned())]);
    let out = state.step(&RenderEvent::Diagnostic("slow".to_owned()));
    assert_eq!(out.stderr, vec![Narration::Diagnostic("slow".to_owned())]);
    assert_eq!(out.stdout, None);
}
