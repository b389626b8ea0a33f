use fs_agent::editor::{normalize_paste, Input, Placed};

fn typed(text: &str) -> Input {
    let mut input = Input::new();
    input.insert_str(text);
    input
}

#[test]
fn typing_and_erasing_at_the_cursor() {
    let mut input = Input::new();
    input.insert_char('a');
    input.insert_char('b');
    input.insert_char('c');
    assert_eq!(input.text(), "abc");
    input.backspace();
    assert_eq!(input.text(), "ab");
    input.left();
    input.left();
    input.left();
    input.insert_char('x');
    assert_eq!(input.text(), "xab");
    input.delete_forward();
    assert_eq!(input.text(), "xb");
    input.right();
    input.right();
    input.delete_forward();
    assert_eq!(input.text(), "xb");
    input.backspace();
    input.backspace();
    input.backspace();
    assert_eq!(input.text(), "");
}

#[test]
fn home_and_end_act_on_the_cursor_line() {
    let mut input = typed("ab\ncd");
    assert!(input.has_multiple_lines());
    input.home();
    input.insert_char('X');
    assert_eq!(input.text(), "ab\nXcd");
    input.end();
    input.insert_char('Y');
    assert_eq!(input.text(), "ab\nXcdY");
    assert!(!typed("one line").has_multiple_lines());
}

#[test]
fn the_kill_chords_stay_inside_the_line() {
    let mut input = typed("ab\ncd");
    input.kill_to_line_start();
    assert_eq!(input.text(), "ab\n");
    let mut input = typed("ab\ncd");
    input.up();
    input.home();
    input.right();
    input.kill_to_line_end();
    assert_eq!(input.text(), "a\ncd");
    let mut input = typed("x\nfoo bar  ");
    input.kill_word();
    assert_eq!(input.text(), "x\nfoo ");
    input.kill_word();
    assert_eq!(input.text(), "x\n");
    input.kill_word();
    assert_eq!(input.text(), "x\n");
}

#[test]
fn up_and_down_hold_the_visual_column() {
    let mut input = typed("abcdef\nxy\nabcdef");
    input.up();
    input.up();
    input.insert_char('Z');
    assert_eq!(input.text(), "abcdefZ\nxy\nabcdef");
    let mut input = typed("abc\nxyz");
    input.up();
    input.left();
    input.down();
    input.insert_char('_');
    assert_eq!(input.text(), "abc\nxy_z");
    let mut input = typed("top");
    input.up();
    input.insert_char('!');
    assert_eq!(input.text(), "top!");
}

#[test]
fn a_submission_is_trimmed_cleared_and_remembered_once() {
    let mut input = typed("  hi  \n");
    assert_eq!(input.submitted(), "hi");
    assert_eq!(input.text(), "");
    let mut input = Input::new();
    input.insert_str("one");
    assert_eq!(input.submitted(), "one");
    input.insert_str("two");
    assert_eq!(input.submitted(), "two");
    input.insert_str("two");
    assert_eq!(input.submitted(), "two");
    input.insert_str("   ");
    assert_eq!(input.submitted(), "");
    input.insert_str("dr");
    input.history_previous();
    assert_eq!(input.text(), "two");
    input.history_previous();
    assert_eq!(input.text(), "one");
    input.history_previous();
    assert_eq!(input.text(), "one");
    input.history_next();
    assert_eq!(input.text(), "two");
    input.history_next();
    assert_eq!(input.text(), "dr");
    input.history_next();
    assert_eq!(input.text(), "dr");
}

#[test]
fn the_view_wraps_by_columns_and_places_the_cursor() {
    let input = typed("abcdefghij");
    assert_eq!(input.rows(4), 3);
    let (lines, placed) = input.view(4, 10);
    assert_eq!(lines, vec!["> abcd".to_string(), "  efgh".to_string(), "  ij".to_string()]);
    assert_eq!(placed, Placed { row: 2, column: 4 });
    let (lines, placed) = input.view(4, 2);
    assert_eq!(lines, vec!["  efgh".to_string(), "  ij".to_string()]);
    assert_eq!(placed, Placed { row: 1, column: 4 });
}

#[test]
fn a_cursor_after_a_full_row_gets_a_row_of_its_own() {
    let input = typed("abcd");
    assert_eq!(input.rows(4), 2);
    let (lines, placed) = input.view(4, 10);
    assert_eq!(lines, vec!["> abcd".to_string(), "  ".to_string()]);
    assert_eq!(placed, Placed { row: 1, column: 2 });
}

#[test]
fn the_cursor_row_sits_right_after_the_full_row_it_ends() {
    let mut input = typed("abcd\nx");
    input.up();
    input.end();
    let (lines, placed) = input.view(4, 10);
    assert_eq!(lines, vec!["> abcd".to_string(), "  ".to_string(), "  x".to_string()]);
    assert_eq!(placed, Placed { row: 1, column: 2 });
    assert_eq!(input.rows(4), 3);
}

#[test]
fn wide_characters_take_two_columns() {
    let input = typed("你好");
    let (lines, placed) = input.view(3, 10);
    assert_eq!(lines, vec!["> 你".to_string(), "  好".to_string()]);
    assert_eq!(placed, Placed { row: 1, column: 4 });
    assert_eq!(typed("ab").rows(0), 3);
}

#[test]
fn a_paste_is_normalised() {
    assert_eq!(normalize_paste("a\r\nb\rc\u{7}\td"), "a\nb\nc\td");
    let mut input = Input::new();
    input.insert_str(&normalize_paste("x\r\ny"));
    assert_eq!(input.text(), "x\ny");
}
