use fs_agent::events::{Event, EventPayload, Role, SpeakerId, StopReason};
use fs_agent::headless::HeadlessState;
use fs_agent::input::{permission_answer, plan_answer, trim_line_ending, Answer, PlanConflict};
use fs_agent::observe::canonical_kind;
use fs_agent::severity::Severity;
use fs_agent::todo::{receipt, Item, Status};
use fs_agent::tool::ReadSet;
use fs_agent::tool_names::{custom_tool_parts, is_custom_tool};
use fs_agent::transcript::{DeltaKind, RenderEvent};
use fs_agent::width::{text_columns, truncate_columns};

#[test]
fn severities_classify_stopping_points() {
    assert_eq!(Severity::of(StopReason::Completed), Severity::Good);
    assert_eq!(Severity::of(StopReason::RoundsExhausted), Severity::Note);
    assert_eq!(Severity::of(StopReason::Aborted), Severity::Warn);
    assert_eq!(Severity::of(StopReason::BudgetExhausted), Severity::Bad);
    assert_eq!(Severity::Bad.label(), "error");
    assert_eq!(Severity::Good.ansi(true), "\x1b[32m");
    assert_eq!(Severity::Bad.ansi(false), "");
    assert_eq!(Severity::ansi_reset(true), "\x1b[0m");
    assert_eq!(Severity::ansi_reset(false), "");
}

#[test]
fn the_todo_receipt_counts_without_repeating_the_list() {
    assert_eq!(receipt(&[]), "todo: cleared");
    let items = vec![
        Item { content: "a".to_owned(), status: Status::Completed },
        Item { content: "b".to_owned(), status: Status::Pending },
    ];
    assert_eq!(receipt(&items), "todo: 2 items (1 completed)");
    assert_eq!(receipt(&items[..1]), "todo: 1 item (1 completed)");
    assert_eq!(Status::parse("in_progress"), Some(Status::InProgress));
    assert_eq!(Status::parse("done"), None);
    assert_eq!(Status::Completed.as_str(), "completed");
}

#[test]
fn only_an_explicit_yes_allows() {
    assert_eq!(permission_answer(Some("y")), Answer::Allow);
    assert_eq!(permission_answer(Some("yes")), Answer::Allow);
    assert_eq!(permission_answer(Some("always")), Answer::AlwaysAllow);
    assert_eq!(permission_answer(Some("Y")), Answer::Deny);
    assert_eq!(permission_answer(Some("")), Answer::Deny);
    assert_eq!(permission_answer(None), Answer::Deny);
    assert_eq!(plan_answer(Some("o")), PlanConflict::Overwrite);
    assert_eq!(plan_answer(Some("append")), PlanConflict::Append);
    assert_eq!(plan_answer(None), PlanConflict::Keep);
    assert_eq!(trim_line_ending("abc\r\n"), "abc");
    assert_eq!(trim_line_ending("a b"), "a b");
}

#[test]
fn kinds_fold_to_one_form_and_tool_rows_merge() {
    assert_eq!(canonical_kind("Tool_Call-Started"), "tool");
    assert_eq!(canonical_kind("tool"), "tool");
    assert_eq!(canonical_kind("Usage-Recorded"), "usagerecorded");
}

#[test]
fn declared_tool_names_split_into_namespace_and_tool() {
    assert!(is_custom_tool("custom__srv__tool"));
    assert!(!is_custom_tool("bash"));
    assert_eq!(custom_tool_parts("custom__srv__tool"), Some(("srv", "tool")));
    assert_eq!(custom_tool_parts("custom____tool"), None);
}

#[test]
fn widths_count_columns() {
    assert_eq!(text_columns("中a"), 3);
    assert_eq!(truncate_columns("中文字", 3), "中");
    assert_eq!(truncate_columns("abc", 10), "abc");
}

#[test]
fn the_read_set_records_each_path_once() {
    let mut reads = ReadSet::new();
    assert!(reads.is_empty());
    reads.record("a.rs".to_owned());
    reads.record("a.rs".to_owned());
    reads.record("b.rs".to_owned());
    assert_eq!(reads.len(), 2);
    assert!(reads.contains("a.rs"));
    reads.invalidate("a.rs");
    assert!(!reads.contains("a.rs"));
    assert!(reads.contains("b.rs"));
}

fn logged(speaker: SpeakerId, payload: EventPayload) -> RenderEvent {
    RenderEvent::Logged(Event { seq: 1, speaker_id: speaker, payload })
}

#[test]
fn a_single_agent_turn_prints_its_answer_once() {
    let agent = SpeakerId::Debater("a".to_owned());
    let mut state = HeadlessState::new();
    let out = state.step(&RenderEvent::Delta { speaker: agent.clone(), kind: DeltaKind::Text, text: "he".to_owned() });
    assert_eq!(out.stdout, None);
    state.step(&logged(
        agent.clone(),
        EventPayload::MessageCompleted { role: Role::Assistant, text: "hello".to_owned(), reasoning: None },
    ));
    let out = state.step(&logged(agent.clone(), EventPayload::TurnEnded { reason: StopReason::Completed }));
    assert_eq!(out.stdout, Some("hello\n".to_owned()));
}

#[test]
fn an_executor_never_prints() {
    let executor = SpeakerId::Executor("e1".to_owned());
    let mut state = HeadlessState::new();
    state.step(&logged(
        executor.clone(),
        EventPayload::MessageCompleted { role: Role::Assistant, text: "sub".to_owned(), reasoning: None },
    ));
    let out = state.step(&logged(executor, EventPayload::TurnEnded { reason: StopReason::Completed }));
    assert_eq!(out.stdout, None);
}
