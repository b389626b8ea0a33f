//! The information panel: what the session is and what it has cost.
//!
//! The panel is a pure function of the injected facts and the counters this
//! module keeps off the stream. Nothing is remembered between frames except
//! the counts themselves, so there is no second ledger to drift from the sums
//! a finished stream gives.
//!
//! A row is a six-column label, a space, then a value that numbers fill from
//! the right and text from the left. The percentage and the cache row go by
//! width; the detail rows are last, so a short panel clips them first.

use vstd::prelude::*;

use crate::events::Usage;
use crate::layout::Rect;
use crate::text::{decimal, digit, push_char, push_str};
use crate::transcript::Block;
use crate::width::{cell_width, fitting_prefix, measurable, no_controls, text_columns, truncate_columns};
use crate::wording::{
    cache_pair, context_pair, grouped_from, pair_text, share_percent, thousands, thousands_text,
    token_pair, PANEL_CACHE, PANEL_CONTEXT, PANEL_INPUT, PANEL_MODEL, PANEL_OUTPUT, PANEL_TOKENS,
    PANEL_TURNS, PANEL_UNKNOWN,
};

verus! {

/// The label column: `上下文` is the widest label.
pub const LABEL_COLUMNS: usize = 6;

/// What the session is, as the front end was told at assembly.
///
/// Anything that changes mid-session, the mode for one, is deliberately not
/// here: an injected copy would go stale, and the stream carries the change.
#[derive(Debug, Clone, Default, PartialEq, Eq)]
pub struct SessionFacts {
    /// The session this terminal is showing.
    pub session_id: String,
    /// The directory the session's own files live in.
    pub session_dir: String,
    /// The model the session answers with, or in a discussion the two
    /// debaters' models.
    pub model: String,
    /// The input budget of that model's window, output reserve already removed.
    pub context_window: u64,
    /// The session's cumulative token allowance, when it has one.
    pub budget_limit: Option<u64>,
    /// The debaters of this session, in the order they were drawn.
    pub speaker_order: Vec<String>,
}

/// What the panel has counted off the stream.
pub struct PanelView {
    pub input: nat,
    pub output: nat,
    pub cached: nat,
    pub miss: nat,
    pub last_input: Option<nat>,
    pub turns: nat,
}

/// What the panel counts off the stream.
#[derive(Debug, Default, Clone, Copy, PartialEq, Eq)]
pub struct Panel {
    input: u64,
    output: u64,
    cached: u64,
    miss: u64,
    /// The most recent call's input tokens: what the next request would carry.
    last_input: Option<u64>,
    turns: u64,
}

impl View for Panel {
    type V = PanelView;

    closed spec fn view(&self) -> PanelView {
        PanelView {
            input: self.input as nat,
            output: self.output as nat,
            cached: self.cached as nat,
            miss: self.miss as nat,
            last_input: match self.last_input {
                Some(n) => Some(n as nat),
                None => None,
            },
            turns: self.turns as nat,
        }
    }
}

/// `a + b`, stopping at the largest `u64`.
pub open spec fn sat_add(a: nat, b: nat) -> nat {
    if a + b > u64::MAX {
        u64::MAX as nat
    } else {
        a + b
    }
}

/// What a block adds to the counts. `cached` and `miss` are a split of
/// `input`, and reasoning is counted inside `output` already, so neither is
/// added on top.
pub open spec fn observed(p: PanelView, block: Block) -> PanelView {
    match block {
        Block::Usage { usage, .. } => PanelView {
            input: sat_add(p.input, usage.input_tokens as nat),
            output: sat_add(p.output, usage.output_tokens as nat),
            cached: sat_add(p.cached, usage.cached_tokens as nat),
            miss: sat_add(p.miss, usage.miss_tokens as nat),
            last_input: Some(usage.input_tokens as nat),
            turns: p.turns,
        },
        Block::TurnEnded { .. } => PanelView {
            input: p.input,
            output: p.output,
            cached: p.cached,
            miss: p.miss,
            last_input: p.last_input,
            turns: sat_add(p.turns, 1),
        },
        _ => p,
    }
}

/// `text` cut to `width` columns, an ellipsis marking what was left out.
pub open spec fn fit_text(text: Seq<char>, width: nat) -> Seq<char> {
    if cell_width(text) <= width {
        text
    } else {
        let room = if width == 0 {
            0
        } else {
            width - 1
        };
        text.take(fitting_prefix(text, room, 0)).push('\u{2026}')
    }
}

/// `text` followed by spaces out to `width` columns.
pub open spec fn pad_right_text(text: Seq<char>, width: nat) -> Seq<char> {
    if cell_width(text) >= width {
        text
    } else {
        text + Seq::new((width - cell_width(text)) as nat, |i: int| ' ')
    }
}

/// `text` preceded by spaces out to `width` columns.
pub open spec fn pad_left_text(text: Seq<char>, width: nat) -> Seq<char> {
    if cell_width(text) >= width {
        text
    } else {
        Seq::new((width - cell_width(text)) as nat, |i: int| ' ') + text
    }
}

/// One row as drawn: the label in its field, and the value filling what is
/// left, numbers from the right and text from the left.
pub open spec fn row_text(label: Seq<char>, value: Seq<char>, width: nat, right: bool) -> (
    Seq<char>,
    Seq<char>,
) {
    (
        pad_right_text(fit_text(label, LABEL_COLUMNS as nat), LABEL_COLUMNS as nat),
        if right {
            pad_left_text(fit_text(value, width), width)
        } else {
            pad_right_text(fit_text(value, width), width)
        },
    )
}

/// The columns a value gets in a panel `width` columns wide.
pub open spec fn value_columns(width: nat) -> nat {
    if width > LABEL_COLUMNS + 1 {
        (width - LABEL_COLUMNS - 1) as nat
    } else {
        0
    }
}

/// The context row's value: used over usable, with the share when it fits.
pub open spec fn context_value(last: Option<nat>, window: nat, width: nat) -> Seq<char> {
    match last {
        Some(used) => {
            let share = pair_text(used, window) + "（"@ + decimal(share_percent(used, window))
                + "%）"@;
            if cell_width(share) <= width {
                share
            } else {
                pair_text(used, window)
            }
        },
        None => PANEL_UNKNOWN@,
    }
}

/// The panel's rows before they are laid out: label, value, and whether the
/// value is a number, most important first.
pub open spec fn panel_values(p: PanelView, facts: SessionFacts, width: nat) -> Seq<
    (Seq<char>, Seq<char>, bool),
> {
    let vw = value_columns(width);
    let tokens = match facts.budget_limit {
        Some(l) => pair_text(sat_add(p.input, p.output), l as nat),
        None => thousands_text(sat_add(p.input, p.output)),
    };
    let cache = thousands_text(p.cached) + " / "@ + thousands_text(p.miss);
    let core = seq![
        (PANEL_MODEL@, facts.model@, false),
        (PANEL_CONTEXT@, context_value(p.last_input, facts.context_window as nat, vw), true),
        (PANEL_TOKENS@, tokens, true),
        (PANEL_TURNS@, thousands_text(p.turns), true),
        (PANEL_INPUT@, thousands_text(p.input), true),
        (PANEL_OUTPUT@, thousands_text(p.output), true),
    ];
    if cell_width(cache) <= vw {
        core.push((PANEL_CACHE@, cache, true))
    } else {
        core
    }
}

/// One panel row as drawn: the label, dim, then the value.
#[derive(Debug, Clone, PartialEq, Eq)]
pub struct PanelRow {
    pub label: String,
    pub value: String,
}

proof fn lemma_decimal_plain(n: nat)
    ensures
        no_controls(decimal(n)),
    decreases n,
{
    if n >= 10 {
        lemma_decimal_plain(n / 10);
        assert(decimal(n) == decimal(n / 10).push(digit(n % 10)));
        assert forall|i: int| 0 <= i < decimal(n).len() implies !crate::width::is_ascii_control(
            #[trigger] decimal(n)[i],
        ) by {
            if i < decimal(n / 10).len() {
                assert(decimal(n)[i] == decimal(n / 10)[i]);
            }
        }
    }
}

proof fn lemma_grouped_plain(d: Seq<char>, i: int)
    requires
        no_controls(d),
    ensures
        no_controls(grouped_from(d, i)),
    decreases d.len() - i,
{
    if 0 <= i < d.len() {
        lemma_grouped_plain(d, i + 1);
        let head = (if i > 0 && (d.len() - i) % 3 == 0 {
            seq![',']
        } else {
            seq![]
        }) + seq![d[i]];
        assert(no_controls(head));
        lemma_concat_plain(head, grouped_from(d, i + 1));
    }
}

proof fn lemma_concat_plain(a: Seq<char>, b: Seq<char>)
    requires
        no_controls(a),
        no_controls(b),
    ensures
        no_controls(a + b),
{
    assert forall|i: int| 0 <= i < (a + b).len() implies !crate::width::is_ascii_control(
        #[trigger] (a + b)[i],
    ) by {
        if i < a.len() {
            assert((a + b)[i] == a[i]);
        } else {
            assert((a + b)[i] == b[i - a.len()]);
        }
    }
}

proof fn lemma_thousands_plain(n: nat)
    ensures
        no_controls(thousands_text(n)),
{
    lemma_decimal_plain(n);
    lemma_grouped_plain(decimal(n), 0);
}

proof fn lemma_pair_plain(a: nat, b: nat)
    ensures
        no_controls(pair_text(a, b)),
{
    lemma_thousands_plain(a);
    lemma_thousands_plain(b);
    reveal_strlit(" / ");
    lemma_concat_plain(thousands_text(a), " / "@);
    lemma_concat_plain(thousands_text(a) + " / "@, thousands_text(b));
}

proof fn lemma_fitting_prefix_bound(s: Seq<char>, width: int, used: int)
    ensures
        0 <= fitting_prefix(s, width, used) <= s.len(),
    decreases s.len(),
{
    if s.len() > 0 {
        lemma_fitting_prefix_bound(s.drop_first(), width, used + cell_width(seq![s[0]]));
    }
}

/// `text` cut to `width` columns, an ellipsis marking what was left out.
fn fit(text: &str, width: usize) -> (r: String)
    requires
        no_controls(text@),
    ensures
        r@ == fit_text(text@, width as nat),
        no_controls(r@),
        r@.len() > 0 || text@.len() == 0,
{
    proof {
        if text@.len() == 1 {
            assert(!crate::width::is_ascii_control(text@[0]));
        }
    }
    if text_columns(text) <= width {
        return crate::text::string_of(&crate::text::chars_of(text));
    }
    let room = if width == 0 {
        0
    } else {
        width - 1
    };
    let mut cut = truncate_columns(text, room);
    let ghost pre = cut@;
    proof {
        lemma_fitting_prefix_bound(text@, room as int, 0);
    }
    push_char(&mut cut, '\u{2026}');
    assert forall|i: int| 0 <= i < cut@.len() implies !crate::width::is_ascii_control(
        #[trigger] cut@[i],
    ) by {
        if i < pre.len() {
            assert(cut@[i] == pre[i]);
            assert(pre[i] == text@[i]);
        }
    }
    cut
}

/// `text` followed by spaces out to `width` columns.
fn pad_right(text: &str, width: usize) -> (r: String)
    requires
        measurable(text@),
    ensures
        r@ == pad_right_text(text@, width as nat),
{
    let used = text_columns(text);
    let mut out = crate::text::string_of(&crate::text::chars_of(text));
    if used >= width {
        return out;
    }
    let mut k = used;
    while k < width
        invariant
            used <= k <= width,
            used == cell_width(text@),
            out@ == text@ + Seq::new((k - used) as nat, |i: int| ' '),
        decreases width - k,
    {
        push_char(&mut out, ' ');
        k += 1;
        assert(out@ =~= text@ + Seq::new((k - used) as nat, |i: int| ' '));
    }
    out
}

/// `text` preceded by spaces out to `width` columns.
fn pad_left(text: &str, width: usize) -> (r: String)
    requires
        measurable(text@),
    ensures
        r@ == pad_left_text(text@, width as nat),
{
    let used = text_columns(text);
    if used >= width {
        return crate::text::string_of(&crate::text::chars_of(text));
    }
    let mut out = String::new();
    let mut k: usize = 0;
    while k < width - used
        invariant
            k <= width - used,
            out@ == Seq::new(k as nat, |i: int| ' '),
        decreases width - used - k,
    {
        push_char(&mut out, ' ');
        k += 1;
        assert(out@ =~= Seq::new(k as nat, |i: int| ' '));
    }
    push_str(&mut out, text);
    out
}

/// One panel row laid out in `width` value columns.
fn row(label: &str, value: &str, width: usize, right: bool) -> (r: PanelRow)
    requires
        no_controls(label@),
        no_controls(value@),
    ensures
        (r.label@, r.value@) == row_text(label@, value@, width as nat, right),
{
    let label = fit(label, LABEL_COLUMNS);
    proof {
        if label@.len() == 1 {
            assert(!crate::width::is_ascii_control(label@[0]));
        }
    }
    let label = pad_right(label.as_str(), LABEL_COLUMNS);
    let value = fit(value, width);
    proof {
        if value@.len() == 1 {
            assert(!crate::width::is_ascii_control(value@[0]));
        }
    }
    let value = if right {
        pad_left(value.as_str(), width)
    } else {
        pad_right(value.as_str(), width)
    };
    PanelRow { label, value }
}

impl Panel {
    /// A panel that has counted nothing.
    pub fn new() -> (p: Panel)
        ensures
            p@ == (PanelView { input: 0, output: 0, cached: 0, miss: 0, last_input: None, turns: 0 }),
    {
        Panel { input: 0, output: 0, cached: 0, miss: 0, last_input: None, turns: 0 }
    }

    /// Take what this block contributes, if anything.
    pub fn observe(&mut self, block: &Block)
        ensures
            final(self)@ == observed(old(self)@, *block),
    {
        match block {
            Block::Usage { usage, .. } => {
                self.input = self.input.saturating_add(usage.input_tokens);
                self.output = self.output.saturating_add(usage.output_tokens);
                self.cached = self.cached.saturating_add(usage.cached_tokens);
                self.miss = self.miss.saturating_add(usage.miss_tokens);
                self.last_input = Some(usage.input_tokens);
            },
            Block::TurnEnded { .. } => self.turns = self.turns.saturating_add(1),
            _ => {},
        }
    }

    /// The rows to draw in `area`, most important first.
    pub fn lines(&self, facts: &SessionFacts, area: Rect) -> (rows: Vec<PanelRow>)
        requires
            no_controls(facts.model@),
        ensures
            rows.len() == panel_values(self@, *facts, area.width as nat).len(),
            forall|j: int|
                0 <= j < rows.len() ==> ({
                    let v = panel_values(self@, *facts, area.width as nat)[j];
                    (#[trigger] rows@[j].label@, rows@[j].value@) == row_text(
                        v.0,
                        v.1,
                        value_columns(area.width as nat),
                        v.2,
                    )
                }),
    {
        let ghost values = panel_values(self@, *facts, area.width as nat);
        proof {
            reveal_strlit("模型");
            reveal_strlit("上下文");
            reveal_strlit("token");
            reveal_strlit("回合");
            reveal_strlit("输入");
            reveal_strlit("输出");
            reveal_strlit("缓存");
            reveal_strlit("—");
            reveal_strlit("（");
            reveal_strlit("%）");
            reveal_strlit(" / ");
            lemma_thousands_plain(self@.turns);
            lemma_thousands_plain(self@.input);
            lemma_thousands_plain(self@.output);
            lemma_thousands_plain(sat_add(self@.input, self@.output));
            lemma_thousands_plain(self@.cached);
            lemma_thousands_plain(self@.miss);
            lemma_concat_plain(thousands_text(self@.cached), " / "@);
            lemma_concat_plain(thousands_text(self@.cached) + " / "@, thousands_text(self@.miss));
            match facts.budget_limit {
                Some(l) => lemma_pair_plain(sat_add(self@.input, self@.output), l as nat),
                None => {},
            }
        }
        let width = area.width as usize;
        let vw = if width > LABEL_COLUMNS + 1 {
            width - LABEL_COLUMNS - 1
        } else {
            0
        };
        let context = match self.last_input {
            Some(used) => {
                let share = context_pair(Some(used), facts.context_window, true);
                let plain = context_pair(Some(used), facts.context_window, false);
                proof {
                    let w = facts.context_window as nat;
                    assert(plain@ =~= pair_text(used as nat, w));
                    assert(share@ =~= pair_text(used as nat, w) + "（"@ + decimal(
                        share_percent(used as nat, w),
                    ) + "%）"@);
                    lemma_pair_plain(used as nat, w);
                    lemma_decimal_plain(share_percent(used as nat, w));
                    lemma_concat_plain(pair_text(used as nat, w), "（"@);
                    lemma_concat_plain(
                        pair_text(used as nat, w) + "（"@,
                        decimal(share_percent(used as nat, w)),
                    );
                    lemma_concat_plain(
                        pair_text(used as nat, w) + "（"@ + decimal(share_percent(used as nat, w)),
                        "%）"@,
                    );
                    assert(share@.len() > 1);
                }
                if text_columns(share.as_str()) <= vw {
                    share
                } else {
                    plain
                }
            },
            None => context_pair(None, facts.context_window, false),
        };
        assert(context@ == values[1].1);
        let tokens = token_pair(self.input.saturating_add(self.output), facts.budget_limit);
        let cache = cache_pair(self.cached, self.miss);
        proof {
            assert(cache@.len() > 1);
        }
        let mut rows: Vec<PanelRow> = Vec::new();
        rows.push(row(PANEL_MODEL, facts.model.as_str(), vw, false));
        rows.push(row(PANEL_CONTEXT, context.as_str(), vw, true));
        rows.push(row(PANEL_TOKENS, tokens.as_str(), vw, true));
        let turns = thousands(self.turns);
        rows.push(row(PANEL_TURNS, turns.as_str(), vw, true));
        let input = thousands(self.input);
        rows.push(row(PANEL_INPUT, input.as_str(), vw, true));
        let output = thousands(self.output);
        rows.push(row(PANEL_OUTPUT, output.as_str(), vw, true));
        if text_columns(cache.as_str()) <= vw {
            rows.push(row(PANEL_CACHE, cache.as_str(), vw, true));
        }
        rows
    }
}

} // verus!
