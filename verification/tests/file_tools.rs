use fs_agent::edit::{EditError, MatchLevel, RevertError};
use fs_agent::file_edit::{declared_targets, plan_file_edit, read_listing, required_path, write_report};
use fs_agent::tool::ToolError;

#[test]
fn an_edit_plan_reports_its_level_and_the_sizes() {
    let plan = match plan_file_edit(
        "f.rs",
        "fn main() {\n    run();\n}\n",
        "    run();\n",
        "    run_twice();\n",
        false,
    ) {
        Ok(plan) => plan,
        Err(error) => panic!("refused: {error:?}"),
    };
    assert_eq!(plan.updated, "fn main() {\n    run_twice();\n}\n");
    assert_eq!(plan.replaced, "    run();\n");
    assert_eq!(plan.report, "edit match level:  exact: 1 replacement in f.rs (25 bytes -> 31 bytes)");
}

#[test]
fn a_downgraded_edit_keeps_the_bytes_it_really_replaced() {
    let plan = match plan_file_edit("f.rs", "fn main() {\n\trun();\n}\n", "    run();", "    go();", false) {
        Ok(plan) => plan,
        Err(error) => panic!("refused: {error:?}"),
    };
    assert_eq!(plan.updated, "fn main() {\n    go();\n}\n");
    assert_eq!(plan.replaced, "\trun();");
    assert_eq!(plan.report, "edit match level:  line-trim: 1 replacement in f.rs (22 bytes -> 24 bytes)");
}

#[test]
fn replace_all_reports_every_replacement() {
    let plan = match plan_file_edit("a.rs", "let a = 1;\nlet b = 1;\n", "= 1;", "= 2;", true) {
        Ok(plan) => plan,
        Err(error) => panic!("refused: {error:?}"),
    };
    assert_eq!(plan.updated, "let a = 2;\nlet b = 2;\n");
    assert_eq!(plan.replaced, "= 1;= 1;");
    assert_eq!(plan.report, "edit match level:  exact: 2 replacements in a.rs (22 bytes -> 22 bytes)");
}

#[test]
fn a_failed_match_withdraws_the_read_and_other_refusals_do_not() {
    match plan_file_edit("f.rs", "abc\n", "xyz", "q", false) {
        Err(error) => assert_eq!(
            error,
            ToolError::InvalidatesReads {
                message: "f.rs: no match found at any level of the ladder (exact, line-end-whitespace-insensitive, line-trim)".to_string(),
                path: "f.rs".to_string(),
            }
        ),
        Ok(_) => panic!("an absent string was edited"),
    }
    match plan_file_edit("a.rs", "let a = 1;\nlet b = 1;\n", "= 1;", "= 2;", false) {
        Err(error) => assert_eq!(
            error,
            ToolError::Message(
                "a.rs: `old_string` matches 2 times; include more surrounding context to make it unique, or pass replace_all to change every occurrence".to_string()
            )
        ),
        Ok(_) => panic!("a non-unique string was edited"),
    }
}

#[test]
fn error_texts_match_the_tool_results() {
    assert_eq!(
        EditError::NoMatch.message(),
        "no match found at any level of the ladder (exact, line-end-whitespace-insensitive, line-trim)"
    );
    assert_eq!(RevertError::Stale.message(), "the file no longer contains the region this snapshot replaced");
    assert_eq!(MatchLevel::LineEndWhitespace.as_str(), "line-end-whitespace-insensitive");
    assert_eq!(MatchLevel::LineTrim.as_str(), "line-trim");
}

#[test]
fn every_file_tool_requires_a_path() {
    assert_eq!(
        required_path("read_file", ""),
        Err(ToolError::Message("read_file: `file_path` is required".to_string()))
    );
    assert_eq!(required_path("edit_file", "src/a.rs"), Ok("src/a.rs".to_string()));
    assert_eq!(declared_targets(""), Vec::<String>::new());
    assert_eq!(declared_targets("x.txt"), vec!["x.txt".to_string()]);
}

#[test]
fn a_listing_numbers_every_line() {
    assert_eq!(read_listing("/w/a.txt", "one\r\ntwo\n\nthree"), "/w/a.txt\n1\tone\n2\ttwo\n3\t\n4\tthree\n");
    assert_eq!(read_listing("/w/empty", ""), "/w/empty\n");
    assert_eq!(write_report("/w/a.txt", true, 12), "write_file: replaced /w/a.txt (12 bytes)");
    assert_eq!(write_report("/w/b.txt", false, 0), "write_file: created /w/b.txt (0 bytes)");
}
