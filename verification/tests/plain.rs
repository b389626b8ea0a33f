use fs_agent::events::{Event, EventPayload, Role, SpeakerId, StopReason};
use fs_agent::plain::{indent, Plain};
use fs_agent::transcript::{DeltaKind, RenderEvent};

fn debater(name: &str) -> SpeakerId {
    SpeakerId::Debater(name.to_string())
}

fn logged(speaker: SpeakerId, payload: EventPayload) -> RenderEvent {
    RenderEvent::Logged(Event { seq: 0, speaker_id: speaker, payload })
}

fn delta(speaker: SpeakerId, kind: DeltaKind, text: &str) -> RenderEvent {
    RenderEvent::Delta { speaker, kind, text: text.to_string() }
}

fn started() -> RenderEvent {
    logged(
        debater("甲"),
        EventPayload::ToolCallStarted {
            tool_call_id: "c1".to_string(),
            tool_name: "bash".to_string(),
            args: "{\"command\":\"ls\"}".to_string(),
        },
    )
}

fn completed(ok: bool, output: Option<&str>, error: Option<&str>) -> RenderEvent {
    logged(
        debater("甲"),
        EventPayload::ToolCallCompleted {
            tool_call_id: "c1".to_string(),
            ok,
            output: output.map(str::to_string),
            error: error.map(str::to_string),
            duration_ms: 1,
        },
    )
}

fn run(color: bool, events: Vec<RenderEvent>) -> (String, String) {
    let mut plain = Plain::new(color);
    let (mut err, mut out) = (String::new(), String::new());
    for event in events {
        plain.emit(&mut err, &mut out, event);
    }
    (err, out)
}

#[test]
fn every_streamed_line_carries_its_speaker() {
    let (err, out) = run(
        false,
        vec![
            delta(debater("甲"), DeltaKind::Text, "a\nb"),
            logged(
                debater("甲"),
                EventPayload::MessageCompleted { role: Role::Assistant, text: "a\nb".to_string(), reasoning: None },
            ),
        ],
    );
    assert_eq!(err, "[甲] a\n[甲] b\n");
    assert_eq!(out, "");
    let (err, _) = run(false, vec![delta(debater("甲"), DeltaKind::Text, "x"), delta(debater("乙"), DeltaKind::Text, "y")]);
    assert_eq!(err, "[甲] x\n[乙] y");
}

#[test]
fn the_synthesis_also_reaches_the_result_sink() {
    let (err, out) = run(
        false,
        vec![logged(
            SpeakerId::System,
            EventPayload::MessageCompleted { role: Role::Assistant, text: "final".to_string(), reasoning: None },
        )],
    );
    assert_eq!(err, "[系统] final\n");
    assert_eq!(out, "final\n");
}

#[test]
fn a_reasoning_trace_is_marked_and_closed() {
    let (err, _) = run(
        false,
        vec![delta(debater("甲"), DeltaKind::Reasoning, "hm"), delta(debater("甲"), DeltaKind::Text, "ok")],
    );
    assert_eq!(err, "[甲] （思考） hm\n[甲] ok");
    let (err, _) = run(true, vec![delta(debater("甲"), DeltaKind::Reasoning, "hm")]);
    assert_eq!(err, "\x1b[2m[甲] （思考） \x1b[0mhm");
}

#[test]
fn a_call_is_shown_with_its_output_or_its_error() {
    let (err, _) = run(false, vec![started(), completed(true, Some("line1\nline2"), None)]);
    assert_eq!(err, "[甲] → 调用 bash(command=ls)\n  line1\n  line2\n");
    let (err, _) = run(false, vec![started(), completed(true, Some("  \n"), None)]);
    assert_eq!(err, "[甲] → 调用 bash(command=ls)\n");
    let (err, _) = run(true, vec![started(), completed(false, None, Some("boom"))]);
    assert_eq!(err, "[甲] → 调用 bash(command=ls)\n\x1b[31m  boom\x1b[0m\n");
    let (err, _) = run(false, vec![started(), completed(false, None, None)]);
    assert_eq!(err, "[甲] → 调用 bash(command=ls)\n  （没有消息）\n");
}

#[test]
fn stopping_points_are_coloured_by_severity() {
    let (err, _) = run(true, vec![logged(debater("甲"), EventPayload::TurnEnded { reason: StopReason::Completed })]);
    assert_eq!(err, "\x1b[32m[甲] 回合结束：完成\x1b[0m\n");
    let (err, _) = run(false, vec![logged(SpeakerId::System, EventPayload::SessionEnded { reason: StopReason::Error })]);
    assert_eq!(err, "会话结束：出错\n");
}

#[test]
fn a_call_cut_off_by_the_end_of_the_stream_is_still_shown() {
    let mut plain = Plain::new(false);
    let (mut err, mut out) = (String::new(), String::new());
    plain.emit(&mut err, &mut out, started());
    assert_eq!(err, "");
    plain.finish(&mut err, &mut out);
    assert_eq!(err, "[甲] → 调用 bash(command=ls)\n  （流上没有结果）\n");
}

#[test]
fn indentation_goes_line_by_line() {
    assert_eq!(indent("a\nb"), "  a\n  b");
    assert_eq!(indent("a\r\nb\n"), "  a\n  b");
    assert_eq!(indent(""), "");
}
