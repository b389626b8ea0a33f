//! How a questionnaire question is drawn in the bottom input area: its pinned
//! header and text, its numbered options, and the line an answer is typed
//! on, with the option window scrolled so the highlight is always visible.

use vstd::prelude::*;

use crate::markdown_spec::trim;
use crate::pane::{sat_sub, wrap_text, wrappable, wrapped_text};
use crate::questions::{option_window_start, strings, window_start, QuestionDraft, UserQuestion};
use crate::style::{
    lines_view, plain_style, spans_view, Color, LineView, Style, TextLine, TextSpan, BOLD, REVERSED,
};
use crate::text::push_str;
use crate::width::{cell_width, fitting_prefix, no_controls, text_columns, truncate_columns};
use crate::wording::{
    opt_text, questionnaire_answer_label, questionnaire_custom_label, questionnaire_multi_marker,
    questionnaire_option, questionnaire_option_text,
};

verus! {

/// The style a question's header is drawn in.
pub open spec fn header_style() -> Style {
    Style { fg: Some(Color::Cyan), add_modifier: BOLD, ..plain_style() }
}

/// The style of an option: picked ones stand out, the highlighted one is
/// reversed.
pub open spec fn option_style(picked: bool, highlighted: bool) -> Style {
    let base = if picked {
        Style { fg: Some(Color::Yellow), add_modifier: BOLD, ..plain_style() }
    } else {
        plain_style()
    };
    if highlighted {
        Style { add_modifier: base.add_modifier | REVERSED, ..base }
    } else {
        base
    }
}

/// The style of the answer line's label.
pub open spec fn label_style() -> Style {
    Style { fg: Some(Color::DarkGray), ..plain_style() }
}

/// The header's rows, when the question has a header with text in it.
pub open spec fn header_rows(q: UserQuestion, width: nat) -> Seq<LineView> {
    match q.header {
        Some(h) => if trim(h@).len() > 0 {
            wrapped_text(trim(h@), width).map_values(
                |r: LineView| LineView { spans: r.spans, style: header_style(), alignment: r.alignment },
            )
        } else {
            seq![]
        },
        None => seq![],
    }
}

/// The question's own text, with the multi-select marker when it has one.
pub open spec fn title_text(q: UserQuestion) -> Seq<char> {
    trim(
        q.question@ + if q.multi_select {
            "（可多选）"@
        } else {
            seq![]
        },
    )
}

/// The text of option `i`: the cursor, whether it is picked, and the option.
pub open spec fn option_text(q: UserQuestion, d: QuestionDraft, i: int) -> Seq<char> {
    let label = q.options@[i].label@;
    let picked = strings(d.selected@).contains(label);
    let marker = if q.multi_select {
        if picked {
            "[x]"@
        } else {
            "[ ]"@
        }
    } else if picked {
        "●"@
    } else {
        "○"@
    };
    let cursor = if i == d.highlight {
        ">"@
    } else {
        " "@
    };
    cursor + " "@ + marker + " "@ + questionnaire_option_text(
        (i + 1) as nat,
        label,
        match q.options@[i].description {
            Some(s) => Some(s@),
            None => None,
        },
    )
}

/// `text` cut to `width` columns.
pub open spec fn cut(text: Seq<char>, width: nat) -> Seq<char> {
    text.take(fitting_prefix(text, width as int, 0))
}

/// Option `i`'s row.
pub open spec fn option_row(q: UserQuestion, d: QuestionDraft, i: int, width: nat) -> LineView {
    let picked = strings(d.selected@).contains(q.options@[i].label@);
    LineView {
        spans: seq![(cut(option_text(q, d, i), width), option_style(picked, i == d.highlight))],
        style: plain_style(),
        alignment: None,
    }
}

/// The line an answer is typed on.
pub open spec fn custom_row(q: UserQuestion, d: QuestionDraft, width: nat) -> LineView {
    let label = if q.options.len() == 0 {
        "回答："@
    } else {
        "自定义："@
    };
    LineView {
        spans: seq![
            (label, label_style()),
            (cut(d.custom@, sat_sub(width, cell_width(label))), plain_style()),
        ],
        style: plain_style(),
        alignment: None,
    }
}

/// What a question can be drawn from: its header, its text and each
/// option's text can be measured.
pub open spec fn drawable_question(q: UserQuestion, d: QuestionDraft) -> bool {
    &&& match q.header {
        Some(h) => wrappable(trim(h@)),
        None => true,
    }
    &&& wrappable(title_text(q))
    &&& forall|i: int| 0 <= i < q.options.len() ==> no_controls(#[trigger] option_text(q, d, i))
    &&& no_controls(d.custom@)
}

/// One question split into its pinned prefix (header and text), its option
/// rows, and the typed-answer row. The full list and the scrolled window are
/// both made from this, so they cannot disagree about what an option reads
/// as.
pub fn question_parts(question: &UserQuestion, draft: &QuestionDraft, width: usize) -> (r: (
    Vec<TextLine>,
    Vec<TextLine>,
    TextLine,
))
    requires
        drawable_question(*question, *draft),
    ensures
        lines_view(r.0@) == header_rows(*question, width as nat) + wrapped_text(
            title_text(*question),
            width as nat,
        ),
        r.1.len() == question.options.len(),
        forall|i: int|
            0 <= i < r.1.len() ==> (#[trigger] r.1@[i])@ == option_row(
                *question,
                *draft,
                i,
                width as nat,
            ),
        r.2@ == custom_row(*question, *draft, width as nat),
{
    let mut prefix: Vec<TextLine> = Vec::new();
    match &question.header {
        Some(h) => {
            let header = crate::questions::trimmed(h.as_str());
            if crate::text::chars_of(header.as_str()).len() > 0 {
                let rows = wrap_text(header.as_str(), width);
                let mut k: usize = 0;
                while k < rows.len()
                    invariant
                        k <= rows.len(),
                        lines_view(prefix@) == lines_view(rows@).take(k as int).map_values(
                            |r: LineView|
                                LineView {
                                    spans: r.spans,
                                    style: header_style(),
                                    alignment: r.alignment,
                                },
                        ),
                    decreases rows.len() - k,
                {
                    let row = rows[k].copied();
                    let styled = TextLine {
                        spans: row.spans,
                        style: Style {
                            fg: Some(Color::Cyan),
                            bg: None,
                            underline_color: None,
                            add_modifier: BOLD,
                            sub_modifier: 0,
                        },
                        alignment: row.alignment,
                    };
                    let ghost before = prefix@;
                    prefix.push(styled);
                    k += 1;
                    proof {
                        assert(lines_view(before.push(styled)) =~= lines_view(before).push(styled@));
                        assert(lines_view(rows@).take(k as int) =~= lines_view(rows@).take(
                            k - 1,
                        ).push(lines_view(rows@)[k - 1]));
                        assert(lines_view(prefix@) =~= lines_view(rows@).take(k as int).map_values(
                            |r: LineView|
                                LineView {
                                    spans: r.spans,
                                    style: header_style(),
                                    alignment: r.alignment,
                                },
                        ));
                    }
                }
                assert(lines_view(rows@).take(rows.len() as int) =~= lines_view(rows@));
            } else {
                assert(lines_view(prefix@) =~= Seq::<LineView>::empty());
            }
        },
        None => {
            assert(lines_view(prefix@) =~= Seq::<LineView>::empty());
        },
    }
    let ghost head = lines_view(prefix@);
    let mut title = String::new();
    push_str(&mut title, question.question.as_str());
    if question.multi_select {
        push_str(&mut title, questionnaire_multi_marker());
    } else {
        assert(title@ =~= question.question@ + Seq::<char>::empty());
    }
    let title = crate::questions::trimmed(title.as_str());
    let mut title_rows = wrap_text(title.as_str(), width);
    proof {
        assert(lines_view(prefix@ + title_rows@) =~= lines_view(prefix@) + lines_view(title_rows@));
    }
    prefix.append(&mut title_rows);
    let mut options: Vec<TextLine> = Vec::new();
    let mut i: usize = 0;
    while i < question.options.len()
        invariant
            i <= question.options.len(),
            options.len() == i,
            drawable_question(*question, *draft),
            forall|j: int|
                0 <= j < i ==> (#[trigger] options@[j])@ == option_row(
                    *question,
                    *draft,
                    j,
                    width as nat,
                ),
        decreases question.options.len() - i,
    {
        let choice = &question.options[i];
        let mut picked = false;
        let mut k: usize = 0;
        while k < draft.selected.len()
            invariant
                k <= draft.selected.len(),
                picked == strings(draft.selected@).take(k as int).contains(choice.label@),
            decreases draft.selected.len() - k,
        {
            let same = crate::text::str_eq(draft.selected[k].as_str(), choice.label.as_str());
            proof {
                let s = strings(draft.selected@);
                assert(s.take(k + 1) =~= s.take(k as int).push(s[k as int]));
                if same {
                    assert(s.take(k + 1)[k as int] == choice.label@);
                }
                if s.take(k + 1).contains(choice.label@) && !same {
                    let w = choose|w: int| 0 <= w < k + 1 && #[trigger] s.take(k + 1)[w] == choice.label@;
                    assert(s.take(k as int)[w] == choice.label@);
                }
            }
            picked = picked || same;
            k += 1;
        }
        assert(strings(draft.selected@).take(draft.selected.len() as int) =~= strings(
            draft.selected@,
        ));
        let highlighted = i == draft.highlight;
        let marker = if question.multi_select {
            if picked {
                "[x]"
            } else {
                "[ ]"
            }
        } else if picked {
            "●"
        } else {
            "○"
        };
        let cursor = if highlighted {
            ">"
        } else {
            " "
        };
        let mut text = String::new();
        push_str(&mut text, cursor);
        push_str(&mut text, " ");
        push_str(&mut text, marker);
        push_str(&mut text, " ");
        let description = match &choice.description {
            Some(s) => Some(s.as_str()),
            None => None,
        };
        let body = questionnaire_option(i + 1, choice.label.as_str(), description);
        push_str(&mut text, body.as_str());
        proof {
            assert(opt_text(description) == match choice.description {
                Some(s) => Some(s@),
                None => None::<Seq<char>>,
            });
            assert(text@ =~= option_text(*question, *draft, i as int));
        }
        let base = if picked {
            Style { fg: Some(Color::Yellow), bg: None, underline_color: None, add_modifier: BOLD, sub_modifier: 0 }
        } else {
            Style::plain()
        };
        let style = if highlighted {
            Style { add_modifier: base.add_modifier | REVERSED, ..base }
        } else {
            base
        };
        let shown = truncate_columns(text.as_str(), width);
        let spans = vec![TextSpan { content: shown, style }];
        let row = TextLine { spans, style: Style::plain(), alignment: None };
        proof {
            assert(spans_view(row.spans@) =~= seq![(row.spans@[0].content@, style)]);
        }
        options.push(row);
        i += 1;
    }
    let label = if question.options.len() == 0 {
        questionnaire_answer_label()
    } else {
        questionnaire_custom_label()
    };
    proof {
        reveal_strlit("回答：");
        reveal_strlit("自定义：");
        assert(label@.len() > 1);
    }
    let used = text_columns(label);
    let room = if width >= used {
        width - used
    } else {
        0
    };
    let typed = truncate_columns(draft.custom.as_str(), room);
    let mut label_text = String::new();
    push_str(&mut label_text, label);
    let spans = vec![
        TextSpan {
            content: label_text,
            style: Style { fg: Some(Color::DarkGray), bg: None, underline_color: None, add_modifier: 0, sub_modifier: 0 },
        },
        TextSpan { content: typed, style: Style::plain() },
    ];
    let custom = TextLine { spans, style: Style::plain(), alignment: None };
    proof {
        assert(spans_view(custom.spans@) =~= seq![
            (custom.spans@[0].content@, custom.spans@[0].style),
            (custom.spans@[1].content@, custom.spans@[1].style),
        ]);
    }
    (prefix, options, custom)
}

/// Every row of one question: its header, its text, its numbered options,
/// and the line an answer is typed on.
pub fn question_lines(question: &UserQuestion, draft: &QuestionDraft, width: usize) -> (r: Vec<
    TextLine,
>)
    requires
        drawable_question(*question, *draft),
    ensures
        lines_view(r@) == header_rows(*question, width as nat) + wrapped_text(
            title_text(*question),
            width as nat,
        ) + question.options@.map(|i: int, c| option_row(*question, *draft, i, width as nat))
            + seq![custom_row(*question, *draft, width as nat)],
{
    let (mut rows, mut options, custom) = question_parts(question, draft, width);
    let ghost opts = options@;
    proof {
        assert(lines_view(opts) =~= question.options@.map(
            |i: int, c| option_row(*question, *draft, i, width as nat),
        ));
        assert(lines_view(rows@ + options@) =~= lines_view(rows@) + lines_view(options@));
    }
    rows.append(&mut options);
    let ghost before = rows@;
    rows.push(custom);
    proof {
        assert(lines_view(before.push(custom)) =~= lines_view(before).push(custom@));
    }
    rows
}

/// The rows of one question that fit in `height`, the option window
/// scrolled so the highlighted option is always visible.
///
/// The header and the question text are pinned: they say what is being
/// asked. The typed-answer line is pinned at the bottom for the same reason.
/// A terminal with no room for either shows the prefix, the part that must
/// not be lost.
pub fn question_window(
    question: &UserQuestion,
    draft: &QuestionDraft,
    width: usize,
    height: usize,
) -> (r: Vec<TextLine>)
    requires
        drawable_question(*question, *draft),
    ensures
        ({
            let prefix = header_rows(*question, width as nat) + wrapped_text(
                title_text(*question),
                width as nat,
            );
            let options = question.options@.map(
                |i: int, c| option_row(*question, *draft, i, width as nat),
            );
            let custom = custom_row(*question, *draft, width as nat);
            lines_view(r@) == if prefix.len() + options.len() < height {
                prefix + options + seq![custom]
            } else {
                let room = sat_sub(height as nat, prefix.len() + 1);
                let start = window_start(draft.highlight as nat, options.len(), room);
                let shown = options.skip(start as int).take(
                    if room <= options.len() - start {
                        room as int
                    } else {
                        options.len() - start
                    },
                );
                (prefix + shown + seq![custom]).take(height as int)
            }
        }),
{
    let (mut rows, options, custom) = question_parts(question, draft, width);
    let ghost prefix = lines_view(rows@);
    let ghost opts = lines_view(options@);
    proof {
        assert(opts =~= question.options@.map(
            |i: int, c| option_row(*question, *draft, i, width as nat),
        ));
    }
    if rows.len() < height && options.len() < height - rows.len() {
        let mut options = options;
        proof {
            assert(lines_view(rows@ + options@) =~= lines_view(rows@) + lines_view(options@));
        }
        rows.append(&mut options);
        let ghost before = rows@;
        rows.push(custom);
        proof {
            assert(lines_view(before.push(custom)) =~= lines_view(before).push(custom@));
        }
        return rows;
    }
    let room = if height > rows.len() {
        height - rows.len() - 1
    } else {
        0
    };
    let start = option_window_start(draft.highlight, options.len(), room);
    let ghost count: int = if room <= options.len() - start {
        room as int
    } else {
        options.len() - start
    };
    proof {
        assert(start <= options.len()) by {
            if !(room == 0 || options.len() <= room) {
                assert(window_start(draft.highlight as nat, options.len() as nat, room as nat)
                    <= options.len() - room);
            }
        }
    }
    let mut k = start;
    let ghost head = rows@;
    while k < options.len() && k - start < room
        invariant
            start <= k <= options.len(),
            k - start <= room,
            lines_view(rows@) == lines_view(head) + opts.subrange(start as int, k as int),
            opts == lines_view(options@),
        decreases options.len() - k,
    {
        let line = options[k].copied();
        let ghost before = rows@;
        rows.push(line);
        proof {
            assert(lines_view(before.push(line)) =~= lines_view(before).push(line@));
            assert(opts.subrange(start as int, k + 1) =~= opts.subrange(start as int, k as int).push(
                opts[k as int],
            ));
        }
        k += 1;
    }
    proof {
        assert(opts.subrange(start as int, k as int) =~= opts.skip(start as int).take(count));
    }
    let ghost before = rows@;
    rows.push(custom);
    proof {
        assert(lines_view(before.push(custom)) =~= lines_view(before).push(custom@));
    }
    if rows.len() > height {
        rows.truncate(height);
    }
    proof {
        assert(lines_view(rows@) =~= (prefix + opts.skip(start as int).take(count) + seq![custom@]).take(
            height as int,
        ));
    }
    rows
}

} // verus!
