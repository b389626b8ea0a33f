//! The question overlay's plan: the rows a question is asked in, the button
//! row's clickable columns, and how far the row is inset to sit centred.
//!
//! The overlay is painted by the front end; what it paints, and where a click
//! on it lands, is decided here, so the painter and the hit test cannot drift
//! apart.

use vstd::prelude::*;

use crate::input::AnswerChoice;
use crate::pane::{wrap_text, wrappable, wrapped_text};
use crate::placeholder::{trim_by, trim_space, Trimmed};
use crate::style::{lines_view, plain_style, LineView, Style, TextLine, BOLD};
use crate::text::{push_char, push_str};
use crate::width::{cell_width, measurable, text_columns};
use crate::wording::{choice_text, opt_text, Choice};

verus! {

/// Which sidebar page is showing. Clicked, never keyed.
#[derive(Debug, Clone, Copy, PartialEq, Eq, Structural)]
pub enum Tab {
    /// The session's readings.
    Usage,
    /// The call trace.
    Trace,
    /// The files the session touched.
    Files,
}

/// What a click on a question's painted part does.
#[derive(Debug, Clone, Copy, PartialEq, Eq, Structural)]
pub enum HitAction {
    /// Answer the loop's question with this choice, as pressing its key would.
    Answer(AnswerChoice),
    /// Confirm the oversized paste.
    Paste,
    /// Confirm clearing the draft.
    ClearDraft,
    /// Confirm quitting.
    Quit,
    /// Close the question without doing anything, as `Esc` does.
    Dismiss,
    /// Step back one question.
    Previous,
    /// Step forward one question.
    Next,
    /// Submit the questionnaire.
    Submit,
    /// Show this sidebar page.
    SwitchTab(Tab),
    /// Jump to the start of this unit.
    RailUnit(usize),
}

/// The columns between two buttons.
pub const BUTTON_GAP: usize = 3;

/// The display width of one button, `[key] label`.
pub open spec fn button_width(c: Choice) -> nat {
    cell_width(choice_text(c))
}

/// The columns the buttons of `cs` take, gaps left out.
pub open spec fn buttons_width(cs: Seq<Choice>) -> nat
    decreases cs.len(),
{
    if cs.len() == 0 {
        0
    } else {
        buttons_width(cs.drop_last()) + button_width(cs.last())
    }
}

/// Where the `i`th button starts: the buttons before it and one gap after
/// each of them.
pub open spec fn button_offset(cs: Seq<Choice>, i: int) -> nat {
    buttons_width(cs.take(i)) + (BUTTON_GAP as nat) * (i as nat)
}

/// What a click on the `i`th button does: the action listed for it, or
/// closing the question where none is.
pub open spec fn action_at(actions: Seq<HitAction>, i: int) -> HitAction {
    if 0 <= i < actions.len() {
        actions[i]
    } else {
        HitAction::Dismiss
    }
}

/// The button row as `(offset, width, action)` triples, one per choice, the
/// offset in columns from the start of the row.
pub open spec fn button_regions_of(cs: Seq<Choice>, actions: Seq<HitAction>) -> Seq<
    (nat, nat, HitAction),
> {
    Seq::new(cs.len(), |i: int| (button_offset(cs, i), button_width(cs[i]), action_at(actions, i)))
}

/// The text of one button, `[key] label`.
fn button_text(c: Choice) -> (s: String)
    ensures
        s@ == choice_text(c),
{
    let mut s = String::new();
    push_str(&mut s, "[");
    push_char(&mut s, c.key);
    push_str(&mut s, "] ");
    push_str(&mut s, c.label);
    s
}

/// The keys that answer a question as `(offset, width, action)` triples: one
/// `[key] label` per choice, three columns between them, each paired with
/// what a click on it does. The row holds fewer than 65535 buttons, so its
/// columns fit in a `usize` on every target.
pub fn button_regions(choices: &[Choice], actions: &[HitAction]) -> (r: Vec<(usize, usize, HitAction)>)
    requires
        choices@.len() < 65535,
        forall|i: int| 0 <= i < choices@.len() ==> measurable(#[trigger] choice_text(choices@[i])),
    ensures
        r@.len() == choices@.len(),
        forall|i: int|
            0 <= i < r@.len() ==> {
                let (o, w, a) = #[trigger] r@[i];
                (o as nat, w as nat, a) == button_regions_of(choices@, actions@)[i]
            },
{
    let n = choices.len();
    let mut regions: Vec<(usize, usize, HitAction)> = Vec::new();
    let mut end: usize = 0;
    let mut index: usize = 0;
    while index < n
        invariant
            n == choices@.len(),
            n < 65535,
            index <= n,
            forall|i: int| 0 <= i < n ==> measurable(#[trigger] choice_text(choices@[i])),
            end <= index * 65538,
            end as nat + (if index > 0 { BUTTON_GAP as nat } else { 0 }) == button_offset(
                choices@,
                index as int,
            ),
            regions@.len() == index,
            forall|i: int|
                0 <= i < index ==> {
                    let (o, w, a) = #[trigger] regions@[i];
                    (o as nat, w as nat, a) == button_regions_of(choices@, actions@)[i]
                },
        decreases n - index,
    {
        let start = if index > 0 {
            end + BUTTON_GAP
        } else {
            end
        };
        let c = choices[index];
        let text = button_text(c);
        let width = text_columns(text.as_str());
        let action = if index < actions.len() {
            actions[index]
        } else {
            HitAction::Dismiss
        };
        proof {
            let cs = choices@;
            let i = index as int;
            assert(cs.take(i + 1).drop_last() =~= cs.take(i));
            assert(cs.take(i + 1).last() == cs[i]);
            assert(buttons_width(cs.take(i + 1)) == buttons_width(cs.take(i)) + button_width(cs[i]));
            assert(index * 65538 + 65538 == (index + 1) * 65538) by (nonlinear_arith);
            assert((index + 1) * 65538 <= 65534 * 65538) by (nonlinear_arith)
                requires
                    index < n,
                    n < 65535,
            ;
        }
        regions.push((start, width, action));
        end = start + width;
        index += 1;
    }
    regions
}

/// How far a row `width` columns wide is inset to sit centred in `room`
/// columns; a row wider than the room is not inset at all.
pub open spec fn centred_inset_of(room: u16, width: Option<usize>) -> u16 {
    let w: nat = match width {
        Some(w) => w as nat,
        None => 0,
    };
    let w = if w < room { w } else { room as nat };
    ((room - w) / 2) as u16
}

/// How far a row `width` columns wide is inset to sit centred in `room`
/// columns. No width at all is no row, and is inset as an empty one.
pub fn centred_inset(room: u16, width: Option<usize>) -> (r: u16)
    ensures
        r == centred_inset_of(room, width),
{
    let w: usize = match width {
        Some(w) => w,
        None => 0,
    };
    let w: u16 = if w < room as usize {
        w as u16
    } else {
        room
    };
    (room - w) / 2
}

/// The style a question's title rows are drawn in.
pub open spec fn title_style() -> Style {
    Style { add_modifier: BOLD, ..plain_style() }
}

/// The rows `rows`, each drawn in the title style.
pub open spec fn emboldened(rows: Seq<LineView>) -> Seq<LineView> {
    rows.map_values(|l: LineView| LineView { style: title_style(), ..l })
}

/// An empty row.
pub open spec fn blank_row() -> LineView {
    LineView { spans: seq![], style: plain_style(), alignment: None }
}

/// The rows of one part of a question, trimmed and wrapped; an absent part
/// has none.
pub open spec fn part_rows(text: Option<Seq<char>>, inner: nat) -> Seq<LineView> {
    match text {
        Some(t) => wrapped_text(trim_by(t, Trimmed::Space), inner),
        None => seq![],
    }
}

/// A question's text rows: the title in bold, then what the action is, then
/// the concrete call, each wrapped at the overlay's inner width.
pub open spec fn question_rows(
    title: Seq<char>,
    description: Option<Seq<char>>,
    detail: Option<Seq<char>>,
    inner: nat,
) -> Seq<LineView> {
    emboldened(wrapped_text(trim_by(title, Trimmed::Space), inner)) + part_rows(description, inner)
        + part_rows(detail, inner)
}

/// The overlay's rows and how many of them are body: the question's rows cut
/// to what fits above the button row, a blank row setting the buttons apart
/// when there is room for one and something above it, and the button row last.
/// No room across or down is no overlay.
pub open spec fn modal_plan(
    title: Seq<char>,
    description: Option<Seq<char>>,
    detail: Option<Seq<char>>,
    inner: nat,
    available: nat,
) -> Option<(Seq<LineView>, nat)> {
    if inner == 0 || available == 0 {
        None
    } else {
        let rows = question_rows(title, description, detail, inner);
        let separated = available >= 3 && rows.len() > 0;
        let keep: nat = if separated {
            (available - 2) as nat
        } else {
            (available - 1) as nat
        };
        let kept = if keep < rows.len() {
            rows.take(keep as int)
        } else {
            rows
        };
        let body = if separated {
            kept.push(blank_row())
        } else {
            kept
        };
        Some((body.push(blank_row()), body.len()))
    }
}

/// Text that wraps once trimmed.
pub open spec fn wraps_trimmed(text: Option<Seq<char>>) -> bool {
    match text {
        Some(t) => wrappable(trim_by(t, Trimmed::Space)),
        None => true,
    }
}

/// An empty row.
fn blank() -> (l: TextLine)
    ensures
        l@ == blank_row(),
{
    let l = TextLine { spans: Vec::new(), style: Style::plain(), alignment: None };
    assert(l@.spans =~= seq![]);
    l
}

/// The rows of one part of a question, trimmed and wrapped.
fn part(text: Option<&str>, inner: u16) -> (r: Vec<TextLine>)
    requires
        wraps_trimmed(opt_text(text)),
    ensures
        lines_view(r@) == part_rows(opt_text(text), inner as nat),
{
    match text {
        Some(t) => {
            let s = trim_space(t);
            wrap_text(s.as_str(), inner as usize)
        },
        None => {
            let r: Vec<TextLine> = Vec::new();
            assert(lines_view(r@) =~= seq![]);
            r
        },
    }
}

/// The rows a question is asked in, with how many of them are its body: the
/// title (bold), what the action is and the call itself, each trimmed and
/// wrapped at `inner` columns, cut to the `available` rows so the button row
/// always keeps its own; a blank row sets the buttons apart when there are at
/// least three rows and something above them; the last row is the buttons'.
/// `None` when the overlay has no columns or no rows inside its border.
pub fn modal_rows(
    title: &str,
    description: Option<&str>,
    detail: Option<&str>,
    inner: u16,
    available: u16,
) -> (r: Option<(Vec<TextLine>, u16)>)
    requires
        wrappable(trim_by(title@, Trimmed::Space)),
        wraps_trimmed(opt_text(description)),
        wraps_trimmed(opt_text(detail)),
    ensures
        match (r, modal_plan(title@, opt_text(description), opt_text(detail), inner as nat, available as nat)) {
            (None, None) => true,
            (Some((rows, body)), Some((plan, plan_body))) => lines_view(rows@) == plan && body as nat
                == plan_body,
            _ => false,
        },
{
    if inner == 0 || available == 0 {
        return None;
    }
    let ghost w = inner as nat;
    let t = trim_space(title);
    let plain_title = wrap_text(t.as_str(), inner as usize);
    let mut rows: Vec<TextLine> = Vec::new();
    let mut k: usize = 0;
    while k < plain_title.len()
        invariant
            k <= plain_title.len(),
            lines_view(rows@) == emboldened(lines_view(plain_title@).take(k as int)),
        decreases plain_title.len() - k,
    {
        let l = plain_title[k].copied();
        let bold = TextLine {
            spans: l.spans,
            style: Style { fg: None, bg: None, underline_color: None, add_modifier: BOLD, sub_modifier: 0 },
            alignment: l.alignment,
        };
        let ghost before = rows@;
        rows.push(bold);
        assert(lines_view(plain_title@).take(k + 1) =~= lines_view(plain_title@).take(k as int).push(
            plain_title@[k as int]@,
        ));
        assert(lines_view(rows@) =~= lines_view(before).push(bold@));
        k += 1;
    }
    assert(lines_view(plain_title@).take(plain_title.len() as int) =~= lines_view(plain_title@));
    let mut more = part(description, inner);
    let ghost a = rows@;
    let ghost b = more@;
    rows.append(&mut more);
    assert(lines_view(a + b) =~= lines_view(a) + lines_view(b));
    let mut last = part(detail, inner);
    let ghost a2 = rows@;
    let ghost b2 = last@;
    rows.append(&mut last);
    assert(lines_view(a2 + b2) =~= lines_view(a2) + lines_view(b2));
    let ghost all = lines_view(rows@);
    assert(all == question_rows(title@, opt_text(description), opt_text(detail), w));
    let separated = available >= 3 && rows.len() > 0;
    let keep: u16 = if separated {
        available - 2
    } else {
        available - 1
    };
    let ghost before_cut = rows@;
    rows.truncate(keep as usize);
    assert(lines_view(rows@) == if (keep as nat) < all.len() {
        all.take(keep as int)
    } else {
        all
    }) by {
        if (keep as nat) < all.len() {
            assert(lines_view(before_cut.subrange(0, keep as int)) =~= all.take(keep as int));
        }
    }
    if separated {
        let ghost b3 = rows@;
        let s = blank();
        rows.push(s);
        assert(lines_view(b3.push(s)) =~= lines_view(b3).push(blank_row()));
    }
    let body_rows = rows.len() as u16;
    let ghost b4 = rows@;
    let s = blank();
    rows.push(s);
    assert(lines_view(b4.push(s)) =~= lines_view(b4).push(blank_row()));
    Some((rows, body_rows))
}


/// The button row is budgeted first: whenever there is an overlay, it never
/// has more rows than are available, its last row is the buttons', and the
/// body is everything above it.
pub proof fn the_button_row_always_keeps_its_row(
    title: Seq<char>,
    description: Option<Seq<char>>,
    detail: Option<Seq<char>>,
    inner: nat,
    available: nat,
)
    requires
        inner > 0,
        available > 0,
    ensures
        match modal_plan(title, description, detail, inner, available) {
            Some((rows, body)) => rows.len() <= available && body + 1 == rows.len() && rows.last()
                == blank_row(),
            None => false,
        },
{
}

} // verus!
