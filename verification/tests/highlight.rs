use fs_agent::highlight::{
    ansi_line, captures, diff_tag, highlight_diff, highlight_rust, paint_steps, Class, DiffTag,
    HighlightStep, Span,
};

fn span(text: &str, class: Class) -> Span {
    Span { text: text.to_string(), class }
}

/// Adjacent pieces of the same class joined, so a comparison does not depend
/// on where the highlighter happens to cut a run.
fn merged(line: &[Span]) -> Vec<Span> {
    let mut out: Vec<Span> = Vec::new();
    for piece in line {
        match out.last_mut() {
            Some(last) if last.class == piece.class => last.text.push_str(&piece.text),
            _ => out.push(piece.clone()),
        }
    }
    out
}

#[test]
fn capture_names_fold_into_families() {
    assert_eq!(Class::of("function.method"), Class::Function);
    assert_eq!(Class::of("escape"), Class::String);
    assert_eq!(Class::of("string.special"), Class::String);
    assert_eq!(Class::of("constructor"), Class::Type);
    assert_eq!(Class::of("boolean"), Class::Constant);
    assert_eq!(Class::of("constant.builtin"), Class::Constant);
    assert_eq!(Class::of("label"), Class::Variable);
    assert_eq!(Class::of("property"), Class::Variable);
    assert_eq!(Class::of("comment.documentation"), Class::Comment);
    assert_eq!(Class::of("punctuation.bracket"), Class::Punctuation);
    assert_eq!(Class::of("embedded"), Class::Plain);
    assert_eq!(Class::Keyword.ansi(), "\x1b[35m");
    assert_eq!(Class::Variable.ansi(), "");
    assert_eq!(Class::Number.ansi(), Class::Constant.ansi());
    assert_eq!(captures().len(), 27);
    assert_eq!(captures()[12], "keyword");
}

#[test]
fn diff_lines_are_tagged_by_their_marker() {
    assert_eq!(diff_tag("+++ b/src/main.rs"), DiffTag::Hunk);
    assert_eq!(diff_tag("--- a/src/main.rs"), DiffTag::Hunk);
    assert_eq!(diff_tag("@@ -1,2 +1,2 @@"), DiffTag::Hunk);
    assert_eq!(diff_tag("+added"), DiffTag::Added);
    assert_eq!(diff_tag("-removed"), DiffTag::Removed);
    assert_eq!(diff_tag(" context"), DiffTag::Context);
    assert_eq!(diff_tag(""), DiffTag::Context);
    assert_eq!(DiffTag::Removed.ansi(), "\x1b[31m");
    assert_eq!(DiffTag::Context.ansi(), "");
}

#[test]
fn steps_paint_spans_line_by_line() {
    let names = ["keyword", "comment"];
    let source = "fn x\n// c";
    let steps = [
        HighlightStep::Start(0),
        HighlightStep::Source { start: 0, end: 2 },
        HighlightStep::End,
        HighlightStep::Source { start: 2, end: 5 },
        HighlightStep::Start(1),
        HighlightStep::Source { start: 5, end: 9 },
        HighlightStep::End,
    ];
    assert_eq!(
        paint_steps(source, &names, &steps),
        vec![
            vec![span("fn", Class::Keyword), span(" x", Class::Plain)],
            vec![span("// c", Class::Comment)],
        ]
    );
    let unknown = [HighlightStep::Start(9), HighlightStep::Source { start: 0, end: 2 }];
    assert_eq!(paint_steps(source, &names, &unknown), vec![vec![span("fn", Class::Plain)]]);
    let inside_a_character = [HighlightStep::Source { start: 0, end: 1 }];
    assert_eq!(paint_steps("你", &names, &inside_a_character), vec![Vec::<Span>::new()]);
}

#[test]
fn rust_is_coloured_by_the_grammar() {
    let lines = highlight_rust("fn main() {}");
    assert_eq!(lines.len(), 1);
    assert_eq!(
        merged(&lines[0]),
        vec![
            span("fn", Class::Keyword),
            span(" ", Class::Plain),
            span("main", Class::Function),
            span("()", Class::Punctuation),
            span(" ", Class::Plain),
            span("{}", Class::Punctuation),
        ]
    );
    let lines = highlight_rust("let s = \"a\";\n// done\n");
    assert_eq!(lines.len(), 3);
    assert_eq!(lines[0][0], span("let", Class::Keyword));
    assert!(merged(&lines[0]).contains(&span("\"a\"", Class::String)));
    assert_eq!(merged(&lines[1]), vec![span("// done", Class::Comment)]);
    assert_eq!(lines[2], Vec::<Span>::new());
}

#[test]
fn a_diff_keeps_its_markers_beside_the_colouring() {
    let lines = highlight_diff("+fn a() {}\n-let b = 2;\n ctx");
    assert_eq!(lines.len(), 3);
    assert_eq!(lines[0][0], span("+", Class::Plain));
    assert_eq!(lines[0][1], span("fn", Class::Keyword));
    assert_eq!(lines[1][0], span("-", Class::Plain));
    assert_eq!(lines[1][1], span("let", Class::Keyword));
    assert!(lines[1].contains(&span("2", Class::Constant)));
}

#[test]
fn a_terminal_line_is_painted_by_one_layer() {
    assert_eq!(ansi_line("+added", true), "\x1b[32m+added\x1b[0m");
    assert_eq!(ansi_line("@@ -1 +1 @@", true), "\x1b[36m@@ -1 +1 @@\x1b[0m");
    assert_eq!(ansi_line("+added", false), "+added");
    assert_eq!(
        ansi_line("fn f() {}", true),
        "\x1b[35mfn\x1b[0m \x1b[34mf\x1b[0m\x1b[37m(\x1b[0m\x1b[37m)\x1b[0m \x1b[37m{\x1b[0m\x1b[37m}\x1b[0m"
    );
}

fn joined_text(lines: &[Vec<fs_agent::highlight::Span>]) -> String {
    lines
        .iter()
        .map(|l| l.iter().map(|s| s.text.as_str()).collect::<String>())
        .collect::<Vec<_>>()
        .join("\n")
}

#[test]
fn tiled_steps_paint_the_text_back_whole() {
    let source = "let é = 1;\n// 注\n";
    let names = captures();
    let steps = [
        HighlightStep::Start(12),
        HighlightStep::Source { start: 0, end: 3 },
        HighlightStep::End,
        HighlightStep::Source { start: 3, end: 12 },
        HighlightStep::Start(2),
        HighlightStep::Source { start: 12, end: source.len() },
        HighlightStep::End,
    ];
    let lines = paint_steps(source, &names, &steps);
    assert_eq!(joined_text(&lines), source);
    assert_eq!(lines[0][0].class, Class::of("keyword"));
    let real = "fn main() {\n    let x = \"a\\nb\";\n}\n";
    assert_eq!(joined_text(&highlight_rust(real)), real);
}
