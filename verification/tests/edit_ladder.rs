use fs_agent::edit::{find_match, find_matches, revert, EditError, MatchLevel, RevertError};

#[test]
fn an_exact_match_is_found_at_the_exact_level() {
    let content = "fn main() {\n    run();\n}\n";
    let found = find_match(content, "    run();\n", "    run_twice();\n").unwrap();

    assert_eq!(found.level, MatchLevel::Exact);
    assert_eq!(found.old_text, "    run();\n");
    assert_eq!(found.span, 12..23);
}

#[test]
fn trailing_whitespace_at_end_of_line_downgrades_to_the_second_level() {
    let content = "fn main() {\n    run(); \n}\n";
    let found = find_match(content, "    run();\n", "    run_twice();\n").unwrap();

    assert_eq!(found.level, MatchLevel::LineEndWhitespace);
    assert_eq!(found.old_text, "    run(); \n");
    assert_eq!(found.span, 12..24);
}

#[test]
fn indentation_differences_downgrade_to_the_third_level() {
    let content = "fn main() {\n\trun();\n}\n";
    let found = find_match(content, "    run();", "    run_twice();").unwrap();

    assert_eq!(found.level, MatchLevel::LineTrim);
    assert_eq!(found.old_text, "\trun();");
}

#[test]
fn the_ladder_is_first_success_wins_and_reports_the_highest_level() {
    let content = "alpha\n    beta\n";
    let found = find_match(content, "    beta\n", "    gamma\n").unwrap();

    assert_eq!(found.level, MatchLevel::Exact);
}

#[test]
fn a_non_unique_old_string_is_refused_with_its_count() {
    let content = "let a = 1;\nlet b = 1;\n";
    let error = find_match(content, "= 1;", "= 2;").unwrap_err();

    match error {
        EditError::NonUnique { count, .. } => assert_eq!(count, 2),
        other => panic!("expected NonUnique, got {}", other.message()),
    }
}

#[test]
fn replace_all_is_how_a_non_unique_string_is_edited_on_purpose() {
    let content = "let a = 1;\nlet b = 1;\n";
    let edits = find_matches(content, "= 1;", "= 2;", true).unwrap();

    assert_eq!(edits.len(), 2);
    assert_eq!(edits[0].span, 6..10);
    assert_eq!(edits[1].span, 17..21);
}

#[test]
fn a_match_that_spans_much_more_than_the_search_is_refused() {
    let content = format!("{}\n{}\n", "x".repeat(40), "x".repeat(40));
    let error = find_match(&content, "x", "y").unwrap_err();

    match error {
        EditError::MatchTooLarge {
            bytes,
            lines,
            old_bytes,
        } => {
            assert_eq!(bytes, 81, "the envelope from the first to the last hit");
            assert_eq!(lines, 1, "newlines inside the envelope, not lines touched");
            assert_eq!(old_bytes, 1);
        }
        other => panic!("expected MatchTooLarge, got {}", other.message()),
    }
}

#[test]
fn a_comment_shaped_placeholder_is_refused() {
    let error = find_match("fn main() {}\n", "// ...\n", "fn main() { run() }\n").unwrap_err();

    match error {
        EditError::Placeholder { phrase } => assert!(phrase.contains("..."), "{phrase}"),
        other => panic!("expected Placeholder, got {}", other.message()),
    }
}

#[test]
fn a_doc_comment_placeholder_is_refused() {
    for old_string in ["/// ...", "//! ...", "/** ... */", "# ..."] {
        let error = find_match("fn main() {}\n", old_string, "x").unwrap_err();
        assert!(
            matches!(error, EditError::Placeholder { .. }),
            "{old_string:?} should be a placeholder, got {}",
            error.message()
        );
    }
}

#[test]
fn ordinary_comments_are_not_placeholders() {
    let content = "// the rest is computed below\nlet x = 1;\n";
    assert!(find_match(content, "let x = 1;", "let x = 2;").is_ok());
    let content = "// keep the remaining bytes\n";
    assert!(find_match(content, "// keep the remaining bytes", "// done").is_ok());
}

#[test]
fn rust_range_syntax_is_not_mistaken_for_a_placeholder() {
    let content = "let tail = &items[1..];\nlet all = &items[..=9];\n";
    assert!(find_match(content, "items[1..]", "items[0..]").is_ok());
    assert!(find_match(content, "items[..=9]", "items[..=8]").is_ok());
}

#[test]
fn revert_restores_an_exact_edit_from_its_snapshot() {
    let restored = revert("uno\ntwo\n", "one\n", "one\n", "uno\n", false).unwrap();

    assert_eq!(restored, "one\ntwo\n");
}

#[test]
fn revert_restores_the_bytes_a_downgraded_match_replaced() {
    let restored = revert(
        "fn main() {\n    run_twice();\n}\n",
        "\trun();",
        "    run();",
        "    run_twice();",
        false,
    )
    .unwrap();

    assert_eq!(restored, "fn main() {\n\trun();\n}\n");
}

#[test]
fn revert_undoes_replace_all_from_the_repeated_snapshot() {
    let restored = revert("let a = 2;\nlet b = 2;\n", "= 1;= 1;", "= 1;", "= 2;", true).unwrap();

    assert_eq!(restored, "let a = 1;\nlet b = 1;\n");
}

#[test]
fn revert_refuses_when_the_file_no_longer_holds_the_edit() {
    let error = revert("something else\n", "one\n", "one\n", "uno\n", false).unwrap_err();

    assert_eq!(error, RevertError::Stale);
}

#[test]
fn revert_refuses_when_two_regions_could_be_the_one_replaced() {
    let error = revert("b b", "a", "a", "b", false).unwrap_err();

    assert_eq!(error, RevertError::Ambiguous);
}

#[test]
fn revert_refuses_a_pure_deletion() {
    let error = revert("two\n", "one\n", "one\n", "", false).unwrap_err();

    assert_eq!(error, RevertError::CannotLocateDeletion);
}

#[test]
fn revert_refuses_when_the_replacement_also_occurs_outside_the_edit() {
    let error = revert(
        "let a = 2;\nlet c = 2;\nlet b = 2;\n",
        "= 1;= 1;",
        "= 1;",
        "= 2;",
        true,
    )
    .unwrap_err();

    assert_eq!(error, RevertError::Stale);
}
