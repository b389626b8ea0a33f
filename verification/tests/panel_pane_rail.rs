use fs_agent::events::{SpeakerId, StopReason, Usage};
use fs_agent::layout::Rect;
use fs_agent::pane::{wrap_line, wrap_text, Pane, CAP};
use fs_agent::panel::{Panel, SessionFacts};
use fs_agent::rail::{rail_rows, Rail, RailRow};
use fs_agent::style::{Style, TextLine, TextSpan};
use fs_agent::transcript::Block;

fn facts() -> SessionFacts {
    SessionFacts {
        session_id: "s1".to_owned(),
        session_dir: "/tmp/s1".to_owned(),
        model: "deepseek".to_owned(),
        context_window: 128_000,
        budget_limit: None,
        speaker_order: vec!["deepseek".to_owned()],
    }
}

fn row_text(line: &TextLine) -> String {
    line.spans.iter().map(|span| span.content.as_str()).collect()
}

#[test]
fn an_empty_panel_shows_the_core_rows() {
    let rows = Panel::new().lines(&facts(), Rect::new(0, 0, 40, 20));
    // Model, context, tokens, turns, input, output, cache.
    assert_eq!(rows.len(), 7);
    assert_eq!(rows[0].label, "模型  ");
    assert_eq!(rows[0].value, format!("deepseek{}", " ".repeat(25)));
    assert_eq!(rows[1].value.trim_start(), "—");
    assert_eq!(rows[2].label, "token ");
    assert_eq!(rows[2].value.trim_start(), "0");
    assert_eq!(rows[6].value.trim_start(), "0 / 0");
}

#[test]
fn usage_is_summed_and_a_turn_counted() {
    let mut panel = Panel::new();
    let usage = Usage { input_tokens: 1200, output_tokens: 300, cached_tokens: 1000, miss_tokens: 200 };
    panel.observe(&Block::Usage { speaker: SpeakerId::User, usage });
    panel.observe(&Block::Usage { speaker: SpeakerId::User, usage });
    panel.observe(&Block::TurnEnded { speaker: SpeakerId::User, reason: StopReason::Completed });
    let rows = panel.lines(&facts(), Rect::new(0, 0, 40, 20));
    assert_eq!(rows[1].value.trim_start(), "1,200 / 128,000（0%）");
    assert_eq!(rows[2].value.trim_start(), "3,000");
    assert_eq!(rows[3].value.trim_start(), "1");
    assert_eq!(rows[4].value.trim_start(), "2,400");
    assert_eq!(rows[5].value.trim_start(), "600");
    assert_eq!(rows[6].value.trim_start(), "2,000 / 400");
}

#[test]
fn a_narrow_panel_drops_the_share_and_the_cache_row_and_cuts_the_model() {
    let mut panel = Panel::new();
    let usage = Usage { input_tokens: 1200, output_tokens: 300, cached_tokens: 1000, miss_tokens: 200 };
    panel.observe(&Block::Usage { speaker: SpeakerId::User, usage });
    let rows = panel.lines(&facts(), Rect::new(0, 0, 22, 20));
    // 22 columns leave 15 for a value: the share goes, the cache row stays.
    assert_eq!(rows.len(), 7);
    assert_eq!(rows[1].value, "1,200 / 128,000");
    // 12 columns leave 5: the cache row goes and the model is cut.
    let narrow = panel.lines(&facts(), Rect::new(0, 0, 12, 20));
    assert_eq!(narrow.len(), 6);
    assert_eq!(narrow[0].value, "deep…");
    assert_eq!(narrow[1].value, "1,20…");
}

fn line(text: &str) -> TextLine {
    TextLine::raw(text.to_owned())
}

#[test]
fn wrapping_counts_columns_and_keeps_styles() {
    let rows = wrap_line(&line("abcdefghij"), 4);
    assert_eq!(rows.iter().map(row_text).collect::<Vec<_>>(), vec!["abcd", "efgh", "ij"]);
    let cjk = wrap_line(&line("中文字"), 4);
    assert_eq!(cjk.iter().map(row_text).collect::<Vec<_>>(), vec!["中文", "字"]);
    let empty = wrap_line(&line(""), 4);
    assert_eq!(empty.len(), 1);
    assert!(empty[0].spans.is_empty());

    let red = Style { fg: Some(fs_agent::style::Color::Red), ..Style::plain() };
    let styled = TextLine {
        spans: vec![
            TextSpan { content: "ab".to_owned(), style: Style::plain() },
            TextSpan { content: "cd".to_owned(), style: Style::plain() },
            TextSpan { content: "ef".to_owned(), style: red },
        ],
        style: Style::plain(),
        alignment: None,
    };
    let rows = wrap_line(&styled, 10);
    // Neighbouring runs in the same style share a span.
    assert_eq!(rows[0].spans.len(), 2);
    assert_eq!(rows[0].spans[0].content, "abcd");
    assert_eq!(rows[0].spans[1].style, red);
}

#[test]
fn wrapped_text_has_a_run_of_rows_per_logical_line() {
    assert_eq!(wrap_text("", 5).len(), 0);
    let rows = wrap_text("ab\r\ncdefgh", 5);
    assert_eq!(rows.iter().map(row_text).collect::<Vec<_>>(), vec!["ab", "cdefg", "h"]);
}

#[test]
fn a_following_pane_shows_the_newest_rows() {
    let mut pane = Pane::new();
    for text in ["one", "two", "three"] {
        pane.push(line(text));
    }
    let rows = pane.frame_rows(10, 2, "");
    assert_eq!(rows.iter().map(row_text).collect::<Vec<_>>(), vec!["two", "three"]);
    assert_eq!(pane.total(), 3);
    assert_eq!(pane.top(), 1);
    assert!(pane.following());
    let with_live = pane.frame_rows(10, 2, "typing");
    assert_eq!(with_live.iter().map(row_text).collect::<Vec<_>>(), vec!["three", "typing"]);
}

#[test]
fn scrolling_up_stops_following_and_counts_what_arrives() {
    let mut pane = Pane::new();
    for text in ["one", "two", "three"] {
        pane.push(line(text));
    }
    pane.frame_rows(10, 2, "");
    pane.scroll(-1);
    assert!(!pane.following());
    assert_eq!(pane.top(), 0);
    assert_eq!(pane.fresh(), 0);
    pane.push(line("four"));
    let rows = pane.frame_rows(10, 2, "");
    assert_eq!(rows.iter().map(row_text).collect::<Vec<_>>(), vec!["one", "two"]);
    assert_eq!(pane.fresh(), 1);
    pane.to_bottom();
    assert!(pane.following());
    assert_eq!(pane.top(), 2);
    assert_eq!(pane.fresh(), 0);
}

#[test]
fn scrolling_is_clamped_and_reaching_the_bottom_follows() {
    let mut pane = Pane::new();
    for index in 0..10 {
        pane.push(line(&format!("line {index}")));
    }
    pane.frame_rows(20, 4, "");
    pane.scroll(-100);
    assert_eq!(pane.top(), 0);
    pane.page(false);
    assert_eq!(pane.top(), 2);
    pane.wheel(false);
    assert_eq!(pane.top(), 5);
    assert!(!pane.following());
    pane.scroll(100);
    assert_eq!(pane.top(), 6);
    assert!(pane.following());
}

#[test]
fn a_rewrap_keeps_the_source_line_in_view() {
    let mut pane = Pane::new();
    for text in ["aaaa", "bbbb", "cccc", "dddd"] {
        pane.push(line(text));
    }
    pane.frame_rows(10, 1, "");
    pane.scroll(-2);
    assert_eq!(pane.top(), 1);
    // At width two every line takes two rows; the viewport stays on "bbbb".
    let rows = pane.frame_rows(2, 1, "");
    assert_eq!(rows.iter().map(row_text).collect::<Vec<_>>(), vec!["bb"]);
    assert_eq!(pane.top(), 2);
    assert_eq!(pane.source_at(3), Some(1));
    assert_eq!(pane.source_at(7), Some(3));
    assert_eq!(pane.source_at(8), None);
}

#[test]
fn the_newest_line_can_be_rewritten() {
    let mut pane = Pane::new();
    pane.push(line("first"));
    pane.push(line("thinking"));
    pane.frame_rows(20, 5, "");
    pane.replace_last(line("thought for 2s"));
    let rows = pane.frame_rows(20, 5, "");
    assert_eq!(rows.iter().map(row_text).collect::<Vec<_>>(), vec!["first", "thought for 2s"]);
}

#[test]
fn the_pane_keeps_at_most_its_cap() {
    let mut pane = Pane::new();
    for index in 0..(CAP + 5) {
        pane.push(line(&index.to_string()));
    }
    assert_eq!(pane.len(), CAP);
    let rows = pane.frame_rows(10, 1, "");
    assert_eq!(row_text(&rows[0]), (CAP + 4).to_string());
}

#[test]
fn the_rail_shows_every_unit_when_they_fit() {
    assert_eq!(
        rail_rows(5, 3, 0),
        vec![RailRow::Blank, RailRow::Blank, RailRow::Unit(0), RailRow::Unit(1), RailRow::Unit(2)]
    );
    assert_eq!(rail_rows(0, 5, 0), vec![]);
    assert_eq!(rail_rows(3, 0, 0), vec![RailRow::Blank; 3]);
}

#[test]
fn a_cut_rail_keeps_the_focus_and_marks_its_cut_ends() {
    assert_eq!(
        rail_rows(5, 10, 9),
        vec![RailRow::Cut, RailRow::Unit(6), RailRow::Unit(7), RailRow::Unit(8), RailRow::Unit(9)]
    );
    assert_eq!(
        rail_rows(5, 10, 5),
        vec![RailRow::Cut, RailRow::Unit(4), RailRow::Unit(5), RailRow::Unit(6), RailRow::Cut]
    );
    // A focus past the end is the newest unit.
    assert_eq!(rail_rows(1, 10, 99), vec![RailRow::Unit(9)]);
    // Every unit above the focus fits, so no mark above: the slot goes below.
    assert_eq!(
        rail_rows(6, 7, 1),
        vec![
            RailRow::Unit(0),
            RailRow::Unit(1),
            RailRow::Unit(2),
            RailRow::Unit(3),
            RailRow::Unit(4),
            RailRow::Cut,
        ]
    );
    // Every unit below the focus fits, so no mark below.
    assert_eq!(
        rail_rows(6, 7, 5),
        vec![
            RailRow::Cut,
            RailRow::Unit(2),
            RailRow::Unit(3),
            RailRow::Unit(4),
            RailRow::Unit(5),
            RailRow::Unit(6),
        ]
    );
}

#[test]
fn a_unit_starts_at_its_first_user_message() {
    let mut rail = Rail::new();
    rail.push_line(false);
    rail.push_line(true);
    rail.push_line(false);
    rail.close_unit();
    rail.push_line(false);
    rail.close_unit();
    assert_eq!(rail.units(), 2);
    assert_eq!(rail.head(0), Some(1));
    assert_eq!(rail.head(1), Some(3));
    rail.prune(2);
    assert_eq!(rail.head(0), Some(0));
    assert_eq!(rail.head(1), Some(1));
    assert_eq!(rail.unit_of(0), 0);
    assert_eq!(rail.unit_of(1), 1);
    assert_eq!(rail.unit_of(5), 2);
    assert_eq!(rail.head(2), None);
}
