use fs_agent::input::{AnswerChoice, Answer};
use fs_agent::overlay::{button_regions, centred_inset, modal_rows, HitAction};
use fs_agent::style::BOLD;
use fs_agent::todo::{read_items, FieldValue, Item, RawItem, RawItems, Status, TodoArgs, TodoTool};
use fs_agent::tool::ToolError;
use fs_agent::wording::{exit_choices, permission_choices};
use fs_agent::paths::{is_within, lexical_absolute, show, PathPart, SessionPaths};
use fs_agent::pane::Pane;
use fs_agent::rail::{focused_unit, Rail};

fn item(content: &str, status: &str) -> RawItem {
    RawItem::Object(vec![
        ("content".to_owned(), FieldValue::Text(content.to_owned())),
        ("status".to_owned(), FieldValue::Text(status.to_owned())),
    ])
}

fn args(items: RawItems) -> TodoArgs {
    TodoArgs::Object(vec![("items".to_owned(), items)])
}

fn message(r: Result<Vec<Item>, ToolError>) -> String {
    match r {
        Err(ToolError::Message(m)) => m,
        other => panic!("expected a message, got {other:?}"),
    }
}

#[test]
fn a_well_formed_list_reads_in_order_with_contents_trimmed() {
    let a = args(RawItems::Array(vec![item("  write the test \n", "pending"), item("ship", "completed")]));
    let items = TodoTool::parse(&a).unwrap();
    assert_eq!(
        items,
        vec![
            Item { content: "write the test".to_owned(), status: Status::Pending },
            Item { content: "ship".to_owned(), status: Status::Completed },
        ]
    );
    let out = TodoTool.call(&a).unwrap();
    assert_eq!(out.text, "todo: 2 items (1 completed)");
}

#[test]
fn an_absent_or_null_list_clears() {
    assert_eq!(TodoTool::parse(&TodoArgs::Object(vec![])).unwrap(), vec![]);
    assert_eq!(TodoTool::parse(&args(RawItems::Null)).unwrap(), vec![]);
    assert_eq!(TodoTool.call(&args(RawItems::Array(vec![]))).unwrap().text, "todo: cleared");
}

#[test]
fn each_mistake_is_named() {
    assert_eq!(
        message(TodoTool::parse(&TodoArgs::NotObject)),
        "todo: the arguments must be a JSON object with an `items` array"
    );
    assert_eq!(
        message(TodoTool::parse(&TodoArgs::Object(vec![("list".to_owned(), RawItems::Null)]))),
        "todo: unknown argument `list`; this tool takes `items` and nothing else"
    );
    assert_eq!(
        message(TodoTool::parse(&args(RawItems::Other))),
        "todo: `items` must be an array of `{content, status}` objects; send `[]` to clear the list"
    );
    assert_eq!(
        message(TodoTool::parse(&args(RawItems::Array(vec![item("a", "pending"), RawItem::NotObject])))),
        "todo: item 1 is not an object; every item is `{content, status}`"
    );
    let extra = RawItem::Object(vec![
        ("content".to_owned(), FieldValue::Text("a".to_owned())),
        ("owner".to_owned(), FieldValue::Null),
    ]);
    assert_eq!(
        message(TodoTool::parse(&args(RawItems::Array(vec![extra])))),
        "todo: item 0 has an unknown field `owner`; every item is `{content, status}`"
    );
    assert_eq!(
        message(TodoTool::parse(&args(RawItems::Array(vec![item("   ", "pending")])))),
        "todo: item 0 needs a non-empty `content` — one line saying what it is"
    );
    assert_eq!(
        message(TodoTool::parse(&args(RawItems::Array(vec![item("a", "done")])))),
        "todo: item 0 has `status` = `done`; the three words are `pending`, `in_progress` and `completed`"
    );
    let no_status = RawItem::Object(vec![("content".to_owned(), FieldValue::Text("a".to_owned()))]);
    assert_eq!(
        message(TodoTool::parse(&args(RawItems::Array(vec![no_status])))),
        "todo: item 0 needs a `status` of `pending`, `in_progress` or `completed`"
    );
}

#[test]
fn one_bad_item_refuses_the_whole_list_and_reads_as_empty() {
    let a = args(RawItems::Array(vec![item("a", "pending"), item("b", "later")]));
    assert!(TodoTool::parse(&a).is_err());
    assert!(TodoTool.call(&a).is_err());
    assert_eq!(read_items(&a), vec![]);
    let good = args(RawItems::Array(vec![item("a", "in_progress")]));
    assert_eq!(
        read_items(&good),
        vec![Item { content: "a".to_owned(), status: Status::InProgress }]
    );
}

#[test]
fn buttons_are_three_columns_apart_and_default_to_dismiss() {
    let actions = [HitAction::Answer(AnswerChoice::Permission(Answer::Allow))];
    let regions = button_regions(&permission_choices(), &actions);
    assert_eq!(
        regions,
        vec![
            (0, 8, HitAction::Answer(AnswerChoice::Permission(Answer::Allow))),
            (11, 12, HitAction::Dismiss),
            (26, 8, HitAction::Dismiss),
        ]
    );
    let exit = button_regions(&exit_choices(), &[HitAction::Quit, HitAction::Dismiss]);
    assert_eq!(exit, vec![(0, 8, HitAction::Quit), (11, 8, HitAction::Dismiss)]);
}

#[test]
fn a_row_is_centred_by_its_own_width() {
    assert_eq!(centred_inset(10, Some(4)), 3);
    assert_eq!(centred_inset(3, Some(10)), 0);
    assert_eq!(centred_inset(5, None), 2);
}

fn texts(rows: &[fs_agent::style::TextLine]) -> Vec<String> {
    rows.iter().map(|l| l.spans.iter().map(|s| s.content.as_str()).collect::<String>()).collect()
}

#[test]
fn the_overlay_keeps_the_button_row_and_sets_it_apart() {
    let (rows, body) = modal_rows("  权限询问：bash ", Some("调用 bash"), Some("bash ls"), 20, 10).unwrap();
    assert_eq!(texts(&rows), vec!["权限询问：bash", "调用 bash", "bash ls", "", ""]);
    assert_eq!(body, 4);
    assert_eq!(rows[0].style.add_modifier, BOLD);
    assert_eq!(rows[1].style.add_modifier, 0);
    // Two rows: no room for the blank, the title keeps one row and the buttons the other.
    let (rows, body) = modal_rows("退出？", None, Some("会话会结束"), 20, 2).unwrap();
    assert_eq!(texts(&rows), vec!["退出？", ""]);
    assert_eq!(body, 1);
    // Three rows: the blank costs one, so only the title is left of the body.
    let (rows, body) = modal_rows("退出？", None, Some("会话会结束"), 20, 3).unwrap();
    assert_eq!(texts(&rows), vec!["退出？", "", ""]);
    assert_eq!(body, 2);
    assert!(modal_rows("退出？", None, None, 0, 5).is_none());
    assert!(modal_rows("退出？", None, None, 5, 0).is_none());
}

fn parts(text: &str) -> Vec<PathPart> {
    let mut out = Vec::new();
    if text.starts_with('/') {
        out.push(PathPart::Root);
    }
    for name in text.split('/').filter(|n| !n.is_empty()) {
        out.push(match name {
            "." => PathPart::Here,
            ".." => PathPart::Up,
            other => PathPart::Name(other.to_owned()),
        });
    }
    out
}

#[test]
fn containment_compares_whole_components() {
    let work = parts("/work");
    assert!(is_within(&parts("/work"), &work));
    assert!(is_within(&parts("/work/src/main.rs"), &work));
    assert!(!is_within(&parts("/work-evil"), &work));
    assert!(!is_within(&parts("/"), &work));
    assert!(!is_within(&parts("/home/me/.key"), &work));
}

#[test]
fn a_path_outside_the_workspace_is_refused_naming_both() {
    let paths = SessionPaths::new(parts("/work"));
    assert_eq!(show(paths.cwd()), "/work");
    assert!(paths.check_contained(&parts("/work/a")).is_ok());
    match paths.check_contained(&parts("/etc/passwd")) {
        Err(ToolError::Message(m)) => assert_eq!(
            m,
            "path /etc/passwd is outside the session workspace /work; file tools are confined to \
             the workspace (a permission rule is how you widen this)"
        ),
        other => panic!("expected a refusal, got {other:?}"),
    }
    assert_eq!(paths.join(&parts("src/lib.rs")), parts("/work/src/lib.rs"));
    assert_eq!(paths.join(&parts("/tmp/x")), parts("/tmp/x"));
}

#[test]
fn dots_fold_lexically_and_never_climb_past_the_root() {
    assert_eq!(lexical_absolute(&parts("/a/./b/../c")), parts("/a/c"));
    assert_eq!(lexical_absolute(&parts("/a/../../..")), parts("/"));
    assert_eq!(show(&parts("/")), "/");
    assert_eq!(show(&parts("a/../b")), "a/../b");
}

#[test]
fn a_following_pane_focuses_the_newest_unit() {
    let pane = Pane::new();
    let mut rail = Rail::new();
    assert_eq!(focused_unit(&pane, &rail), None);
    rail.push_line(true);
    rail.close_unit();
    rail.push_line(true);
    rail.close_unit();
    assert_eq!(focused_unit(&pane, &rail), Some(1));
}
