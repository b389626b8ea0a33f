use fs_agent::events::{Event, EventPayload, RoundMode, SpeakerId, StopReason};
use fs_agent::observe::{file_history, FileChange, Filter};
use fs_agent::speaker_colors::{SpeakerColor, SpeakerColors};
use fs_agent::text::{decimal_string, find_chars, text_of_bytes};

fn event(seq: u64, speaker: SpeakerId, payload: EventPayload) -> Event {
    Event { seq, speaker_id: speaker, payload }
}

fn debater(name: &str) -> SpeakerId {
    SpeakerId::Debater(name.to_string())
}

fn started(seq: u64, id: &str, tool: &str) -> Event {
    event(
        seq,
        debater("kimi"),
        EventPayload::ToolCallStarted {
            tool_call_id: id.to_string(),
            tool_name: tool.to_string(),
            args: "{}".to_string(),
        },
    )
}

fn completed(seq: u64, id: &str, ok: bool, output: &str) -> Event {
    event(
        seq,
        debater("kimi"),
        EventPayload::ToolCallCompleted {
            tool_call_id: id.to_string(),
            ok,
            output: Some(output.to_string()),
            error: None,
            duration_ms: 1,
        },
    )
}

#[test]
fn the_file_view_takes_paths_from_the_result_line() {
    let events = vec![
        started(1, "c1", "write_file"),
        completed(2, "c1", true, "wrote: src/a.rs\r\n12 bytes"),
        event(3, SpeakerId::System, EventPayload::RoundStarted { round: 2, mode: RoundMode::Targeted }),
        started(4, "c2", "edit_file"),
        completed(5, "c2", true, "wrote: src/b.rs"),
        started(6, "c3", "edit_file"),
        completed(7, "c3", false, "wrote: src/c.rs"),
        completed(8, "c4", true, "read 3 lines"),
        event(9, SpeakerId::System, EventPayload::RoundEnded { round: 2, reason: StopReason::Consensus }),
        completed(10, "lost", true, "wrote: src/d.rs"),
        completed(11, "c5", true, "wrote: "),
    ];
    assert_eq!(
        file_history(&events),
        vec![
            FileChange {
                path: "src/a.rs".to_string(),
                tool: "write_file".to_string(),
                speaker: debater("kimi"),
                round: None,
                seq: 2,
            },
            FileChange {
                path: "src/b.rs".to_string(),
                tool: "edit_file".to_string(),
                speaker: debater("kimi"),
                round: Some(2),
                seq: 5,
            },
            FileChange {
                path: "src/d.rs".to_string(),
                tool: String::new(),
                speaker: debater("kimi"),
                round: None,
                seq: 10,
            },
        ]
    );
    assert_eq!(file_history(&[]), vec![]);
}

#[test]
fn an_empty_filter_names_nothing() {
    let mut filter = Filter { round: None, speaker: None, kind: None, tool: None, only_error: false };
    assert!(filter.is_empty());
    filter.only_error = true;
    assert!(!filter.is_empty());
    filter.only_error = false;
    filter.round = Some(1);
    assert!(!filter.is_empty());
}

#[test]
fn roster_debaters_keep_their_slots_and_latecomers_take_the_free_ones() {
    let mut colors = SpeakerColors::new(&["甲".to_string()]);
    assert_eq!(colors.of(&debater("甲")), SpeakerColor::LightCyan);
    assert_eq!(colors.of(&debater("乙")), SpeakerColor::LightMagenta);
    assert_eq!(colors.of(&debater("丙")), SpeakerColor::Gray);
    assert_eq!(colors.of(&debater("乙")), SpeakerColor::LightMagenta);
    assert_eq!(colors.of(&SpeakerId::Executor("e1".to_string())), SpeakerColor::LightYellow);
    assert_eq!(colors.of(&SpeakerId::User), SpeakerColor::LightGreen);
    assert_eq!(colors.of(&SpeakerId::System), SpeakerColor::Gray);

    let mut pair = SpeakerColors::new(&["a".to_string(), "b".to_string(), "c".to_string()]);
    assert_eq!(pair.of(&debater("b")), SpeakerColor::LightMagenta);
    assert_eq!(pair.of(&debater("c")), SpeakerColor::LightCyan);
    assert_eq!(pair.of(&debater("z")), SpeakerColor::Gray);
}

#[test]
fn without_a_roster_every_name_is_grey() {
    let mut colors = SpeakerColors::new(&[]);
    assert_eq!(colors.of(&debater("甲")), SpeakerColor::DarkGray);
    assert_eq!(colors.of(&SpeakerId::User), SpeakerColor::DarkGray);
}

#[test]
fn text_helpers() {
    assert_eq!(decimal_string(0), "0");
    assert_eq!(decimal_string(90210), "90210");
    assert_eq!(text_of_bytes("héllo".as_bytes().to_vec()), "héllo");
    let hay: Vec<char> = "abcabc".chars().collect();
    let needle: Vec<char> = "ca".chars().collect();
    assert_eq!(find_chars(&hay, &needle), Some(2));
    let missing: Vec<char> = "x".chars().collect();
    assert_eq!(find_chars(&hay, &missing), None);
}
