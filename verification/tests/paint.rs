use fs_agent::args::{summarize_args, summarize_shape, ArgValue, ArgsShape};
use fs_agent::events::{Role, SpeakerId, StopReason};
use fs_agent::paint::{
    is_boundary, is_user_message, markdown_text_line, paint_block, render_block,
    render_block_uncoloured, Detail, DetailKind,
};
use fs_agent::markdown::to_lines;
use fs_agent::speaker_colors::SpeakerColors;
use fs_agent::style::{Color, Style, TextLine, BOLD};
use fs_agent::transcript::{Block, ToolBlock, ToolOutcome};

fn fg(color: Color) -> Style {
    Style { fg: Some(color), bg: None, underline_color: None, add_modifier: 0, sub_modifier: 0 }
}

fn fg_bold(color: Color) -> Style {
    Style { add_modifier: BOLD, ..fg(color) }
}

fn plain() -> Style {
    Style::plain()
}

fn spans(line: &TextLine) -> Vec<(String, Style)> {
    line.spans.iter().map(|span| (span.content.clone(), span.style)).collect()
}

fn all(lines: &[TextLine]) -> Vec<Vec<(String, Style)>> {
    lines.iter().map(spans).collect()
}

fn s(text: &str, style: Style) -> (String, Style) {
    (text.to_string(), style)
}

fn debater(name: &str) -> SpeakerId {
    SpeakerId::Debater(name.to_string())
}

#[test]
fn arguments_read_as_one_line() {
    assert_eq!(summarize_args("{\"command\":\"ls -la\",\"timeout\":30}"), "command=ls -la, timeout=30");
    assert_eq!(summarize_args("{\"b\":\"x\\ny\",\"a\":[1,2]}"), "a=[1,2], b=x\\ny");
    assert_eq!(summarize_args("null"), "");
    assert_eq!(summarize_args("\"just text\""), "just text");
    assert_eq!(summarize_args("42"), "42");
    assert_eq!(summarize_args("not json"), "");
    let long = format!("{{\"v\":\"{}\"}}", "a".repeat(200));
    assert_eq!(summarize_args(&long), format!("v={}…", "a".repeat(158)));
    let shape = ArgsShape::Object(vec![
        ("path".to_string(), ArgValue::Text("a\nb".to_string())),
        ("n".to_string(), ArgValue::Json("{\"k\":1}".to_string())),
    ]);
    assert_eq!(summarize_shape(&shape), "path=a\\nb, n={\"k\":1}");
    assert_eq!(summarize_shape(&ArgsShape::Null), "");
}

#[test]
fn a_stopping_point_wears_its_severity_and_the_name_its_colour() {
    let block = Block::TurnEnded { speaker: debater("甲"), reason: StopReason::Completed };
    assert_eq!(
        all(&render_block_uncoloured(&block)),
        vec![vec![s("[甲]", fg(Color::DarkGray)), s(" 回合结束：完成", fg(Color::Green))]]
    );
    let mut colors = SpeakerColors::new(&["甲".to_string()]);
    let block = Block::AgentError { speaker: debater("甲"), message: "boom".to_string() };
    assert_eq!(
        all(&render_block(&block, &mut colors)),
        vec![vec![s("[甲]", fg(Color::LightCyan)), s(" 错误：boom", fg_bold(Color::Red))]]
    );
    let block = Block::SessionEnded { reason: StopReason::Aborted };
    assert_eq!(all(&render_block(&block, &mut colors)), vec![vec![s("会话结束：已取消", fg(Color::Yellow))]]);
}

#[test]
fn an_answer_is_markdown_under_the_speaker_name() {
    let mut colors = SpeakerColors::new(&["甲".to_string()]);
    let block = Block::Message {
        speaker: debater("甲"),
        role: Role::Assistant,
        text: "**hi**\nthere".to_string(),
        reasoning: None,
    };
    assert_eq!(
        all(&render_block(&block, &mut colors)),
        vec![
            vec![s("[甲] ", fg(Color::LightCyan)), s("hi", Style { add_modifier: BOLD, ..plain() })],
            vec![s("     ", fg(Color::LightCyan)), s("there", plain())],
        ]
    );
    let empty = Block::Message { speaker: debater("甲"), role: Role::Assistant, text: String::new(), reasoning: None };
    assert!(render_block(&empty, &mut colors).is_empty());
}

#[test]
fn the_users_message_is_shown_as_written() {
    let block = Block::Message { speaker: SpeakerId::User, role: Role::User, text: "a\n\nb".to_string(), reasoning: None };
    let mut colors = SpeakerColors::new(&["甲".to_string()]);
    assert_eq!(
        all(&render_block(&block, &mut colors)),
        vec![
            vec![s("[用户] ", fg(Color::LightGreen)), s("a", plain())],
            vec![s("       ", fg(Color::LightGreen))],
            vec![s("       ", fg(Color::LightGreen)), s("b", plain())],
        ]
    );
    assert!(is_user_message(&block));
    let other = Block::Message { speaker: debater("甲"), role: Role::User, text: "x".to_string(), reasoning: None };
    assert!(!is_user_message(&other));
}

#[test]
fn a_tool_call_is_one_line_that_opens_its_detail() {
    let tool = ToolBlock {
        speaker: debater("甲"),
        tool_call_id: "c1".to_string(),
        tool: Some("bash".to_string()),
        args: Some("{\"command\":\"ls\"}".to_string()),
        outcome: Some(ToolOutcome { ok: false, output: None, error: Some("boom".to_string()), duration_ms: 3 }),
    };
    let mut colors = SpeakerColors::new(&["甲".to_string()]);
    let painted = paint_block(&Block::Tool(Box::new(tool)), &mut colors);
    assert_eq!(painted.len(), 1);
    assert_eq!(
        spans(&painted[0].line),
        vec![
            s("[甲] ", fg(Color::LightCyan)),
            s("▸ ", fg(Color::DarkGray)),
            s("调用 bash(command=ls)", fg_bold(Color::DarkGray)),
            s(" 失败", fg(Color::Red)),
        ]
    );
    assert_eq!(
        painted[0].link,
        Some(Detail {
            title: "[甲] ▸ 调用 bash(command=ls) 失败".to_string(),
            color: Color::LightCyan,
            kind: DetailKind::Tool {
                tool_call_id: "c1".to_string(),
                output: None,
                error: Some("boom".to_string()),
                args: Some("{\"command\":\"ls\"}".to_string()),
                no_result: false,
            },
        })
    );
    let lost = ToolBlock { speaker: SpeakerId::User, tool_call_id: "c2".to_string(), tool: None, args: None, outcome: None };
    let painted = paint_block(&Block::Tool(Box::new(lost)), &mut colors);
    assert_eq!(spans(&painted[0].line)[2], s("调用 ?()", fg_bold(Color::DarkGray)));
    assert_eq!(spans(&painted[0].line).len(), 3);
}

#[test]
fn a_divergence_lists_its_positions() {
    let block = Block::Divergence { topic: "t".to_string(), positions: vec!["x".to_string(), "y".to_string()] };
    assert_eq!(
        all(&render_block_uncoloured(&block)),
        vec![
            vec![s("!! 分歧：t", fg_bold(Color::Magenta))],
            vec![s("  - x", plain())],
            vec![s("  - y", plain())],
        ]
    );
    let feedback = Block::ToolFeedback { outcome: "ok".to_string() };
    assert_eq!(all(&render_block_uncoloured(&feedback)), vec![vec![s("  [钩子] ok", fg(Color::Yellow))]]);
}

#[test]
fn latecomers_take_the_free_colour_and_keep_it() {
    let mut colors = SpeakerColors::new(&["甲".to_string()]);
    let started = |name: &str| Block::TurnStarted { speaker: debater(name), iteration: 1 };
    assert_eq!(spans(&render_block(&started("乙"), &mut colors)[0])[0], s("[乙]", fg(Color::LightMagenta)));
    assert_eq!(spans(&render_block(&started("丙"), &mut colors)[0])[0], s("[丙]", fg(Color::Gray)));
    assert_eq!(spans(&render_block(&started("乙"), &mut colors)[0])[0], s("[乙]", fg(Color::LightMagenta)));
}

#[test]
fn the_rail_counts_rounds_in_a_discussion_and_turns_otherwise() {
    let round = Block::RoundEnded { round: 1, reason: StopReason::Consensus };
    let turn = Block::TurnEnded { speaker: debater("甲"), reason: StopReason::Completed };
    assert!(is_boundary(&round, true));
    assert!(!is_boundary(&turn, true));
    assert!(is_boundary(&turn, false));
    assert!(!is_boundary(&round, false));
}

#[test]
fn markdown_looks_become_styles() {
    let lines = to_lines("`code` and ~~gone~~");
    let line = markdown_text_line(&lines[0]);
    let yellow = fg(Color::Yellow);
    assert!(spans(&line).contains(&s("code", yellow)));
    assert!(spans(&line).contains(&s("gone", Style { add_modifier: fs_agent::style::CROSSED_OUT, ..plain() })));
}
