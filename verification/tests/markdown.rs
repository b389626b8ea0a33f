use fs_agent::markdown::{to_lines, Piece};
use fs_agent::markdown_spec::{Ink, Look};

fn plain() -> Look {
    Look { ink: None, bold: false, italic: false, crossed: false, underlined: false }
}

fn texts(line: &[Piece]) -> Vec<String> {
    line.iter().map(|p| p.text.clone()).collect()
}

#[test]
fn a_heading_is_bold_and_the_top_levels_are_coloured() {
    let lines = to_lines("# Title");
    assert_eq!(lines.len(), 1);
    assert_eq!(texts(&lines[0]), vec!["Title"]);
    assert!(lines[0][0].look.bold);
    assert_eq!(lines[0][0].look.ink, Some(Ink::Heading));

    let deep = to_lines("### Deeper ##");
    assert_eq!(texts(&deep[0]), vec!["Deeper"]);
    assert!(deep[0][0].look.bold);
    assert_eq!(deep[0][0].look.ink, None);
}

#[test]
fn a_hash_without_a_space_is_not_a_heading() {
    let lines = to_lines("#hashtag");
    assert_eq!(texts(&lines[0]), vec!["#hashtag"]);
    assert_eq!(lines[0][0].look, plain());
}

#[test]
fn a_fenced_block_is_kept_verbatim_and_indented() {
    let lines = to_lines("```rust\nlet x = **1**;\n```\nafter");
    assert_eq!(lines.len(), 2);
    assert_eq!(texts(&lines[0]), vec!["  let x = **1**;"]);
    assert_eq!(lines[0][0].look.ink, Some(Ink::Code));
    assert_eq!(texts(&lines[1]), vec!["after"]);
}

#[test]
fn a_longer_fence_needs_a_longer_close() {
    let lines = to_lines("````\n```\n````");
    assert_eq!(lines.len(), 1);
    assert_eq!(texts(&lines[0]), vec!["  ```"]);
}

#[test]
fn inline_code_bold_italic_and_strike() {
    let lines = to_lines("a `b` **c** *d* ~~e~~");
    let line = &lines[0];
    assert_eq!(texts(line), vec!["a ", "b", " ", "c", " ", "d", " ", "e"]);
    assert_eq!(line[1].look.ink, Some(Ink::Code));
    assert!(line[3].look.bold);
    assert!(line[5].look.italic);
    assert!(line[7].look.crossed);
    assert_eq!(line[0].look, plain());
}

#[test]
fn identifiers_with_underscores_are_not_emphasis() {
    let lines = to_lines("call snake_case_name here");
    assert_eq!(texts(&lines[0]), vec!["call snake_case_name here"]);
    // At a word boundary the same markers do open emphasis.
    let strong = to_lines("a __b__ c");
    assert_eq!(texts(&strong[0]), vec!["a ", "b", " c"]);
    assert!(strong[0][1].look.bold);
}

#[test]
fn an_unclosed_marker_is_plain_text() {
    let lines = to_lines("**open and `tick");
    assert_eq!(texts(&lines[0]), vec!["**open and `tick"]);
}

#[test]
fn a_link_shows_its_target_unless_it_is_the_label() {
    let lines = to_lines("see [docs](http://x.io) now");
    let line = &lines[0];
    assert_eq!(texts(line), vec!["see ", "docs", " (http://x.io)", " now"]);
    assert!(line[1].look.underlined);
    assert_eq!(line[2].look.ink, Some(Ink::Muted));

    let same = to_lines("[u](u)");
    assert_eq!(texts(&same[0]), vec!["u"]);
}

#[test]
fn list_items_and_task_boxes() {
    assert_eq!(texts(&to_lines("- item")[0]), vec!["• ", "item"]);
    assert_eq!(texts(&to_lines("- [x] done")[0]), vec!["☑ ", "done"]);
    assert_eq!(texts(&to_lines("* [ ] todo")[0]), vec!["☐ ", "todo"]);
    assert_eq!(texts(&to_lines("12. twelve")[0]), vec!["12. ", "twelve"]);
    assert_eq!(texts(&to_lines("  + nested")[0]), vec!["  • ", "nested"]);
}

#[test]
fn a_thematic_break_is_a_muted_rule() {
    for text in ["---", "- - -", "***", "___"] {
        let lines = to_lines(text);
        assert_eq!(lines[0].len(), 1);
        assert_eq!(lines[0][0].text, "─".repeat(24));
        assert_eq!(lines[0][0].look.ink, Some(Ink::Muted));
    }
    // Mixed markers are not a rule.
    assert_eq!(texts(&to_lines("-*-")[0]), vec!["-*-"]);
}

#[test]
fn a_blockquote_is_muted_behind_a_bar() {
    let lines = to_lines("> quoted");
    assert_eq!(texts(&lines[0]), vec!["│ ", "quoted"]);
    assert_eq!(lines[0][1].look.ink, Some(Ink::Muted));
}

#[test]
fn a_table_drops_its_alignment_row() {
    let lines = to_lines("| a | b |\n|---|:-:|\n| 1 | 2 |");
    assert_eq!(lines.len(), 2);
    assert_eq!(texts(&lines[0]), vec!["a │ b"]);
    assert_eq!(texts(&lines[1]), vec!["1 │ 2"]);
}

#[test]
fn blank_lines_and_carriage_returns() {
    let lines = to_lines("a\r\n\r\nb");
    assert_eq!(lines.len(), 3);
    assert_eq!(texts(&lines[0]), vec!["a"]);
    assert!(lines[1].is_empty());
    assert_eq!(texts(&lines[2]), vec!["b"]);
    assert_eq!(to_lines("").len(), 1);
}
