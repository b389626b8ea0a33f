use fs_agent::keys::{agrees, map_key, Key, KeyCode, KeyPress};
use fs_agent::questions::{
    check_questions, option_window_start, Choice, Questionnaire, RawChoice, RawQuestion,
    UserQuestion,
};
use fs_agent::tool::ToolError;

fn raw(id: &str, question: &str, labels: &[&str]) -> RawQuestion {
    RawQuestion {
        id: id.to_owned(),
        question: question.to_owned(),
        header: None,
        options: labels
            .iter()
            .map(|label| RawChoice { label: (*label).to_owned(), description: None })
            .collect(),
        multi_select: false,
    }
}

fn message(result: Result<Vec<UserQuestion>, ToolError>) -> String {
    match result {
        Err(ToolError::Message(m)) => m,
        other => panic!("expected a refusal, got {other:?}"),
    }
}

fn question(id: &str, labels: &[&str], multi_select: bool) -> UserQuestion {
    UserQuestion {
        id: id.to_owned(),
        question: format!("{id}?"),
        header: None,
        options: labels
            .iter()
            .map(|label| Choice { label: (*label).to_owned(), description: None })
            .collect(),
        multi_select,
    }
}

#[test]
fn questions_are_trimmed_and_kept_in_order() {
    let checked = check_questions(&vec![raw(" a ", "  Pick one ", &[" x ", "y"]), raw("b", "Why?", &[])])
        .expect("valid");
    assert_eq!(checked.len(), 2);
    assert_eq!(checked[0].id, "a");
    assert_eq!(checked[0].question, "Pick one");
    assert_eq!(checked[0].options[0].label, "x");
    assert_eq!(checked[1].options.len(), 0);
}

#[test]
fn an_empty_call_is_refused() {
    assert_eq!(
        message(check_questions(&vec![])),
        "ask_user_question: `questions` must hold at least one question"
    );
}

#[test]
fn each_question_problem_has_its_refusal() {
    assert_eq!(
        message(check_questions(&vec![raw("  ", "q", &[])])),
        "ask_user_question: every question needs a non-empty `id`"
    );
    assert_eq!(
        message(check_questions(&vec![raw("a", "q", &[]), raw(" a", "r", &[])])),
        "ask_user_question: duplicate question id `a`; ids must be unique"
    );
    assert_eq!(
        message(check_questions(&vec![raw("a", " ", &[])])),
        "ask_user_question: question `a` needs a non-empty `question`"
    );
    assert_eq!(
        message(check_questions(&vec![raw("a", "q", &["ok", "  "])])),
        "ask_user_question: question `a` has an option with no `label`"
    );
}

#[test]
fn the_first_problem_is_the_one_reported() {
    // Question one is fine; question two has both a blank text and a blank
    // label, and the text is checked first.
    assert_eq!(
        message(check_questions(&vec![raw("a", "q", &["x"]), raw("b", "", &[""])])),
        "ask_user_question: question `b` needs a non-empty `question`"
    );
}

#[test]
fn enter_confirms_then_submits_only_when_everything_is_handled() {
    let mut form = Questionnaire::new(vec![question("colour", &["red", "blue"], false), question("why", &[], false)]);
    assert!(!form.press(Key::Down));
    assert!(!form.press(Key::Enter));
    // Choosing on a single-select question is the answer, so it moved on.
    assert_eq!(form.index(), 1);
    // A free-text question refuses Enter until something is typed.
    assert!(!form.press(Key::Enter));
    assert_eq!(form.index(), 1);
    assert!(!form.press(Key::Char('h')));
    assert!(!form.press(Key::Char('i')));
    assert!(form.custom_focused());
    assert!(form.press(Key::Enter));
    let answers = form.answers().answers;
    assert_eq!(answers[0].id, "colour");
    assert_eq!(answers[0].selected, vec!["blue".to_owned()]);
    assert_eq!(answers[0].custom, None);
    assert_eq!(answers[1].selected, Vec::<String>::new());
    assert_eq!(answers[1].custom, Some("hi".to_owned()));
}

#[test]
fn a_skip_answers_nothing_even_after_typing() {
    let mut form = Questionnaire::new(vec![question("a", &["x"], false)]);
    form.press(Key::Char('n'));
    form.press(Key::Char('o'));
    form.press(Key::Tab);
    let answers = form.answers().answers;
    assert!(answers[0].selected.is_empty());
    assert_eq!(answers[0].custom, None);
    // Everything is handled now, so Enter submits.
    assert!(form.press(Key::Enter));
}

#[test]
fn typed_text_overrides_a_single_choice_and_supplements_a_multi_choice() {
    let mut single = Questionnaire::new(vec![question("a", &["x", "y"], false), question("b", &["p"], false)]);
    single.press(Key::Char(' '));
    single.press(Key::Left);
    single.press(Key::Char('z'));
    let answers = single.answers().answers;
    assert!(answers[0].selected.is_empty());
    assert_eq!(answers[0].custom, Some("z".to_owned()));

    let mut multi = Questionnaire::new(vec![question("m", &["x", "y"], true)]);
    multi.press(Key::Char(' '));
    multi.press(Key::Down);
    multi.press(Key::Char(' '));
    multi.press(Key::Char('!'));
    let answers = multi.answers().answers;
    assert_eq!(answers[0].selected, vec!["x".to_owned(), "y".to_owned()]);
    assert_eq!(answers[0].custom, Some("!".to_owned()));
}

#[test]
fn confirming_a_multi_select_option_twice_unpicks_it() {
    let mut form = Questionnaire::new(vec![question("m", &["x", "y"], true)]);
    form.press(Key::Char(' '));
    form.press(Key::Char(' '));
    assert!(form.answers().answers[0].selected.is_empty());
}

#[test]
fn the_highlight_stops_at_both_ends() {
    let mut form = Questionnaire::new(vec![question("a", &["x", "y"], false)]);
    form.press(Key::Up);
    assert_eq!(form.draft().highlight, 0);
    form.press(Key::Down);
    form.press(Key::Down);
    form.press(Key::Down);
    assert_eq!(form.draft().highlight, 1);
}

#[test]
fn space_is_text_on_a_free_text_question_and_backspace_takes_it_back() {
    let mut form = Questionnaire::new(vec![question("a", &[], false)]);
    form.press(Key::Char('a'));
    form.press(Key::Char(' '));
    form.press(Key::Char('b'));
    assert_eq!(form.draft().custom, "a b");
    form.press(Key::Backspace);
    assert_eq!(form.draft().custom, "a ");
}

#[test]
fn a_click_answers_a_single_select_question_and_moves_on() {
    let mut form = Questionnaire::new(vec![question("a", &["x", "y"], false), question("b", &["p"], false)]);
    form.select_option(5);
    assert_eq!(form.index(), 0);
    form.select_option(1);
    assert_eq!(form.index(), 1);
    assert_eq!(form.answers().answers[0].selected, vec!["y".to_owned()]);
}

#[test]
fn the_option_window_follows_the_highlight() {
    assert_eq!(option_window_start(0, 10, 3), 0);
    assert_eq!(option_window_start(5, 10, 3), 3);
    assert_eq!(option_window_start(9, 10, 3), 7);
    assert_eq!(option_window_start(2, 2, 3), 0);
    assert_eq!(option_window_start(4, 5, 0), 0);
}

#[test]
fn the_keys_the_pane_answers_to_map_from_crossterm() {
    let plain = |code| map_key(KeyPress { code, control: false });
    assert_eq!(plain(KeyCode::PageUp), Some(Key::PageUp));
    assert_eq!(plain(KeyCode::PageDown), Some(Key::PageDown));
    assert_eq!(map_key(KeyPress { code: KeyCode::Char('g'), control: true }), Some(Key::CtrlG));
    // The newline key: the one the whole multi-line editor hangs on.
    assert_eq!(map_key(KeyPress { code: KeyCode::Char('j'), control: true }), Some(Key::CtrlJ));
    // A bare `g` is text, not a gesture.
    assert_eq!(plain(KeyCode::Char('g')), Some(Key::Char('g')));
}

#[test]
fn control_chords_ignore_case_and_unknown_ones_are_dropped() {
    assert_eq!(map_key(KeyPress { code: KeyCode::Char('C'), control: true }), Some(Key::CtrlC));
    assert_eq!(map_key(KeyPress { code: KeyCode::Char('z'), control: true }), None);
    assert_eq!(map_key(KeyPress { code: KeyCode::Other, control: false }), None);
    assert_eq!(map_key(KeyPress { code: KeyCode::Enter, control: true }), Some(Key::Enter));
}

#[test]
fn only_y_agrees() {
    assert!(agrees(Key::Char('y')));
    assert!(agrees(Key::Char('Y')));
    assert!(!agrees(Key::Enter));
    assert!(!agrees(Key::Esc));
    assert!(!agrees(Key::Char('n')));
}

fn row_text(line: &fs_agent::style::TextLine) -> String {
    line.spans.iter().map(|span| span.content.as_str()).collect()
}

fn drawn_question() -> (UserQuestion, fs_agent::questions::QuestionDraft) {
    let mut q = question("colour", &["red", "blue"], false);
    q.header = Some("  Pick ".to_owned());
    let mut draft = fs_agent::questions::QuestionDraft::new();
    draft.highlight = 1;
    draft.selected = vec!["blue".to_owned()];
    (q, draft)
}

#[test]
fn a_question_draws_header_text_options_and_answer_line() {
    let (q, draft) = drawn_question();
    let rows = fs_agent::question_rows::question_lines(&q, &draft, 40);
    let texts: Vec<String> = rows.iter().map(row_text).collect();
    assert_eq!(texts, vec!["Pick", "colour?", "  ○ 1. red", "> ● 2. blue", "自定义："]);
    assert_eq!(rows[0].style.fg, Some(fs_agent::style::Color::Cyan));
    let picked = rows[3].spans[0].style;
    assert_eq!(picked.fg, Some(fs_agent::style::Color::Yellow));
    assert_eq!(picked.add_modifier, fs_agent::style::BOLD | fs_agent::style::REVERSED);
}

#[test]
fn the_question_window_keeps_the_prefix_and_follows_the_highlight() {
    let (q, draft) = drawn_question();
    let short: Vec<String> =
        fs_agent::question_rows::question_window(&q, &draft, 40, 3).iter().map(row_text).collect();
    assert_eq!(short, vec!["Pick", "colour?", "自定义："]);
    let four: Vec<String> =
        fs_agent::question_rows::question_window(&q, &draft, 40, 4).iter().map(row_text).collect();
    assert_eq!(four, vec!["Pick", "colour?", "> ● 2. blue", "自定义："]);
    let roomy: Vec<String> =
        fs_agent::question_rows::question_window(&q, &draft, 40, 9).iter().map(row_text).collect();
    assert_eq!(roomy.len(), 5);
}
