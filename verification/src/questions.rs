//! The model's questionnaire: the questions it may put to the user, how a
//! call's arguments become them, and the keyboard state that answers them.
//!
//! A questionnaire is keyboard state, not session state: nothing about it is
//! recorded, and the only durable trace of the exchange is the tool call's
//! arguments and its one result.

use vstd::prelude::*;
use vstd::string::StrSliceExecFns;

use crate::markdown::is_white_space;
use crate::markdown_spec::{trim, trim_start, trim_end, lead_ws, trail_ws};
use crate::text::{chars_of, push_str, str_eq, string_of_range};
use crate::tool::ToolError;
use crate::tool_names::ASK_USER_QUESTION_TOOL;
use crate::keys::Key;

verus! {

/// One option a question offers.
#[derive(Debug, Clone, PartialEq, Eq)]
pub struct Choice {
    /// The choice as shown; this exact string is the answer value when picked.
    pub label: String,
    /// One line explaining the choice. Display only.
    pub description: Option<String>,
}

/// One question the model asks.
#[derive(Debug, Clone, PartialEq, Eq)]
pub struct UserQuestion {
    /// A stable id, echoed in the answer that belongs to it.
    pub id: String,
    /// The question itself.
    pub question: String,
    /// A short label shown above the question. Display only.
    pub header: Option<String>,
    /// The choices to offer; empty asks for free text.
    pub options: Vec<Choice>,
    /// Whether more than one option may be picked.
    pub multi_select: bool,
}

/// The user's answer to one question.
#[derive(Debug, Clone, PartialEq, Eq)]
pub struct UserAnswer {
    pub id: String,
    /// The labels picked, in the order they were picked.
    pub selected: Vec<String>,
    /// Free text typed, when there is any.
    pub custom: Option<String>,
}

/// The answers to a whole questionnaire: the tool call's one result.
#[derive(Debug, Clone, PartialEq, Eq)]
pub struct UserAnswers {
    pub answers: Vec<UserAnswer>,
}

/// The characters of each string.
pub open spec fn strings(v: Seq<String>) -> Seq<Seq<char>> {
    v.map_values(|s: String| s@)
}

/// The labels a question offers.
pub open spec fn labels(q: UserQuestion) -> Seq<Seq<char>> {
    q.options@.map_values(|c: Choice| c.label@)
}

/// `s` with its surrounding whitespace cut.
pub fn trimmed(s: &str) -> (r: String)
    ensures
        r@ == trim(s@),
{
    let v = chars_of(s);
    let n = v.len();
    let mut a: usize = 0;
    assert(v@.skip(0) =~= v@);
    while a < n && is_white_space(v[a])
        invariant
            a <= n == v.len(),
            lead_ws(v@) == a + lead_ws(v@.skip(a as int)),
        decreases n - a,
    {
        assert(v@.skip(a as int).drop_first() =~= v@.skip(a + 1));
        a += 1;
    }
    let ghost t = v@.skip(a as int);
    assert(trim_start(v@) == t);
    let mut b: usize = n;
    while b > a && is_white_space(v[b - 1])
        invariant
            a <= b <= n == v.len(),
            t == v@.skip(a as int),
            trail_ws(t) == (n - b) + trail_ws(v@.subrange(a as int, b as int)),
        decreases b - a,
    {
        assert(v@.subrange(a as int, b as int).drop_last() =~= v@.subrange(a as int, b - 1));
        b -= 1;
    }
    assert(t =~= v@.subrange(a as int, n as int));
    assert(trim_end(t) =~= v@.subrange(a as int, b as int));
    string_of_range(&v, a, b)
}

/// One option as the model sent it, before it is checked.
#[derive(Debug, Clone, PartialEq, Eq)]
pub struct RawChoice {
    pub label: String,
    pub description: Option<String>,
}

/// One question as the model sent it, before it is checked. Missing fields
/// arrive empty.
#[derive(Debug, Clone, PartialEq, Eq)]
pub struct RawQuestion {
    pub id: String,
    pub question: String,
    pub header: Option<String>,
    pub options: Vec<RawChoice>,
    pub multi_select: bool,
}

/// The refusal of an empty list of questions.
pub open spec fn no_questions_message() -> Seq<char> {
    ASK_USER_QUESTION_TOOL@ + ": `questions` must hold at least one question"@
}

/// The refusal of a question with no id.
pub open spec fn empty_id_message() -> Seq<char> {
    ASK_USER_QUESTION_TOOL@ + ": every question needs a non-empty `id`"@
}

/// The refusal of an id used twice.
pub open spec fn duplicate_id_message(id: Seq<char>) -> Seq<char> {
    ASK_USER_QUESTION_TOOL@ + ": duplicate question id `"@ + id + "`; ids must be unique"@
}

/// The refusal of a question with no text.
pub open spec fn empty_question_message(id: Seq<char>) -> Seq<char> {
    ASK_USER_QUESTION_TOOL@ + ": question `"@ + id + "` needs a non-empty `question`"@
}

/// The refusal of an option with no label.
pub open spec fn empty_label_message(id: Seq<char>) -> Seq<char> {
    ASK_USER_QUESTION_TOOL@ + ": question `"@ + id + "` has an option with no `label`"@
}

/// Question `i` reuses the id of an earlier one.
pub open spec fn id_taken(raw: Seq<RawQuestion>, i: int) -> bool {
    exists|j: int| 0 <= j < i && trim(raw[j].id@) == trim(raw[i].id@)
}

/// What is wrong with question `i`, checked in order: its id, the id's
/// uniqueness, its text, its options' labels.
pub open spec fn problem_of(raw: Seq<RawQuestion>, i: int) -> Option<Seq<char>> {
    let id = trim(raw[i].id@);
    if id.len() == 0 {
        Some(empty_id_message())
    } else if id_taken(raw, i) {
        Some(duplicate_id_message(id))
    } else if trim(raw[i].question@).len() == 0 {
        Some(empty_question_message(id))
    } else if exists|k: int|
        0 <= k < raw[i].options.len() && trim(#[trigger] raw[i].options@[k].label@).len() == 0 {
        Some(empty_label_message(id))
    } else {
        None
    }
}

/// The first problem among the questions from `i` on.
pub open spec fn first_problem_from(raw: Seq<RawQuestion>, i: int) -> Option<Seq<char>>
    decreases raw.len() - i,
{
    if i < 0 || i >= raw.len() {
        None
    } else {
        match problem_of(raw, i) {
            Some(m) => Some(m),
            None => first_problem_from(raw, i + 1),
        }
    }
}

/// `q` is the checked form of `raw`: every text trimmed, the rest kept.
pub open spec fn checked_from(raw: RawQuestion, q: UserQuestion) -> bool {
    &&& q.id@ == trim(raw.id@)
    &&& q.question@ == trim(raw.question@)
    &&& q.header == raw.header
    &&& q.multi_select == raw.multi_select
    &&& q.options.len() == raw.options.len()
    &&& forall|k: int|
        0 <= k < q.options.len() ==> (#[trigger] q.options@[k]).label@ == trim(
            raw.options@[k].label@,
        ) && q.options@[k].description == raw.options@[k].description
}

fn copy_option(s: &Option<String>) -> (r: Option<String>)
    ensures
        r == *s,
{
    match s {
        Some(t) => Some(t.clone()),
        None => None,
    }
}

/// The refusal `prefix` + `id` + `suffix`, after the tool's name.
fn refusal(prefix: &str, id: &str, suffix: &str) -> (e: ToolError)
    ensures
        e matches ToolError::Message(m) && m@ == ASK_USER_QUESTION_TOOL@ + prefix@ + id@
            + suffix@,
{
    let mut text = String::new();
    push_str(&mut text, ASK_USER_QUESTION_TOOL);
    push_str(&mut text, prefix);
    push_str(&mut text, id);
    push_str(&mut text, suffix);
    assert(text@ =~= ASK_USER_QUESTION_TOOL@ + prefix@ + id@ + suffix@);
    ToolError::message(text)
}

/// Turn the model's questions into ones the user can be asked, or refuse them
/// with a message the model can act on.
///
/// A missing or duplicated id would make an answer unpairable, and an empty
/// label would put an unselectable row on screen, so both are refused before
/// a person ever sees the call.
pub fn check_questions(raw: &Vec<RawQuestion>) -> (r: Result<Vec<UserQuestion>, ToolError>)
    ensures
        raw.len() == 0 ==> (r matches Err(ToolError::Message(m)) && m@ == no_questions_message()),
        raw.len() > 0 ==> match first_problem_from(raw@, 0) {
            Some(msg) => r matches Err(ToolError::Message(m)) && m@ == msg,
            None => r matches Ok(qs) && qs.len() == raw.len() && forall|i: int|
                0 <= i < raw.len() ==> checked_from(raw@[i], #[trigger] qs@[i]),
        },
{
    if raw.len() == 0 {
        let e = refusal(": `questions` must hold at least one question", "", "");
        assert(ASK_USER_QUESTION_TOOL@ + ": `questions` must hold at least one question"@ + ""@
            + ""@ =~= no_questions_message()) by {
            reveal_strlit("");
        }
        return Err(e);
    }
    let mut seen: Vec<String> = Vec::new();
    let mut out: Vec<UserQuestion> = Vec::new();
    let mut i: usize = 0;
    while i < raw.len()
        invariant
            i <= raw.len(),
            seen.len() == i,
            out.len() == i,
            forall|j: int| 0 <= j < i ==> (#[trigger] seen@[j])@ == trim(raw@[j].id@),
            forall|j: int| 0 <= j < i ==> checked_from(raw@[j], #[trigger] out@[j]),
            forall|j: int| 0 <= j < i ==> problem_of(raw@, j) is None,
            first_problem_from(raw@, 0) == first_problem_from(raw@, i as int),
        decreases raw.len() - i,
    {
        let entry = &raw[i];
        let id = trimmed(entry.id.as_str());
        if id.as_str().unicode_len() == 0 {
            assert(first_problem_from(raw@, i as int) == Some(empty_id_message()));
            let e = refusal(": every question needs a non-empty `id`", "", "");
            assert(ASK_USER_QUESTION_TOOL@ + ": every question needs a non-empty `id`"@ + ""@
                + ""@ =~= empty_id_message()) by {
                reveal_strlit("");
            }
            return Err(e);
        }
        let mut j: usize = 0;
        while j < seen.len()
            invariant
                j <= seen.len() == i < raw.len(),
                id@ == trim(raw@[i as int].id@),
                id@.len() > 0,
                first_problem_from(raw@, 0) == first_problem_from(raw@, i as int),
                forall|k: int| 0 <= k < i ==> (#[trigger] seen@[k])@ == trim(raw@[k].id@),
                forall|k: int| 0 <= k < j ==> trim(raw@[k].id@) != id@,
            decreases seen.len() - j,
        {
            if str_eq(seen[j].as_str(), id.as_str()) {
                assert(id_taken(raw@, i as int));
                assert(first_problem_from(raw@, i as int) == Some(duplicate_id_message(id@)));
                let e = refusal(": duplicate question id `", id.as_str(), "`; ids must be unique");
                return Err(e);
            }
            j += 1;
        }
        assert(!id_taken(raw@, i as int));
        let question = trimmed(entry.question.as_str());
        if question.as_str().unicode_len() == 0 {
            assert(first_problem_from(raw@, i as int) == Some(empty_question_message(id@)));
            let e = refusal(": question `", id.as_str(), "` needs a non-empty `question`");
            return Err(e);
        }
        let mut options: Vec<Choice> = Vec::new();
        let mut k: usize = 0;
        while k < entry.options.len()
            invariant
                k <= entry.options.len(),
                i < raw.len(),
                entry == raw@[i as int],
                id@ == trim(raw@[i as int].id@),
                id@.len() > 0,
                !id_taken(raw@, i as int),
                trim(raw@[i as int].question@).len() > 0,
                first_problem_from(raw@, 0) == first_problem_from(raw@, i as int),
                options.len() == k,
                forall|m: int|
                    0 <= m < k ==> (#[trigger] options@[m]).label@ == trim(entry.options@[m].label@)
                        && options@[m].description == entry.options@[m].description,
                forall|m: int| 0 <= m < k ==> trim(#[trigger] entry.options@[m].label@).len() > 0,
            decreases entry.options.len() - k,
        {
            let label = trimmed(entry.options[k].label.as_str());
            if label.as_str().unicode_len() == 0 {
                assert(trim(entry.options@[k as int].label@).len() == 0);
                assert(first_problem_from(raw@, i as int) == Some(empty_label_message(id@)));
                let e = refusal(": question `", id.as_str(), "` has an option with no `label`");
                return Err(e);
            }
            let description = copy_option(&entry.options[k].description);
            options.push(Choice { label, description });
            k += 1;
        }
        assert(problem_of(raw@, i as int) is None);
        assert(first_problem_from(raw@, i as int) == first_problem_from(raw@, i + 1));
        let q = UserQuestion {
            id: id.clone(),
            question,
            header: copy_option(&entry.header),
            options,
            multi_select: entry.multi_select,
        };
        out.push(q);
        seen.push(id);
        i += 1;
    }
    assert(first_problem_from(raw@, i as int) is None);
    Ok(out)
}

/// What one question's answer looks like so far.
pub struct DraftView {
    pub selected: Seq<Seq<char>>,
    pub custom: Seq<char>,
    pub highlight: nat,
    pub skipped: bool,
}

/// What the user has done to one question so far.
#[derive(Debug)]
pub struct QuestionDraft {
    /// The option labels picked, in the order they were picked.
    pub selected: Vec<String>,
    /// Free text typed. Single-select custom text overrides `selected`;
    /// multi-select custom text supplements it.
    pub custom: String,
    /// Which option the highlight is on.
    pub highlight: usize,
    /// The user pressed the skip key and moved on: a deliberate "no answer",
    /// distinct from a question never reached.
    pub skipped: bool,
}

impl View for QuestionDraft {
    type V = DraftView;

    open spec fn view(&self) -> DraftView {
        DraftView {
            selected: strings(self.selected@),
            custom: self.custom@,
            highlight: self.highlight as nat,
            skipped: self.skipped,
        }
    }
}

/// Where a questionnaire stands: each question's draft, the question on
/// screen, and whether the free-text row has the cursor.
pub struct FormView {
    pub drafts: Seq<DraftView>,
    pub index: nat,
    pub focused: bool,
}

/// The model's questionnaire while it owns the bottom input area.
#[derive(Debug)]
pub struct Questionnaire {
    questions: Vec<UserQuestion>,
    drafts: Vec<QuestionDraft>,
    index: usize,
    custom_focused: bool,
}

impl View for Questionnaire {
    type V = FormView;

    closed spec fn view(&self) -> FormView {
        FormView {
            drafts: self.drafts@.map_values(|d: QuestionDraft| d@),
            index: self.index as nat,
            focused: self.custom_focused,
        }
    }
}

/// A draft nothing has been done to.
pub open spec fn fresh_draft() -> DraftView {
    DraftView { selected: seq![], custom: seq![], highlight: 0, skipped: false }
}

/// Whether a question has been answered or explicitly skipped. Every question
/// must reach this before the questionnaire may be submitted.
pub open spec fn handled(d: DraftView) -> bool {
    d.skipped || d.selected.len() > 0 || trim(d.custom).len() > 0
}

pub open spec fn all_handled(f: FormView) -> bool {
    forall|j: int| 0 <= j < f.drafts.len() ==> handled(#[trigger] f.drafts[j])
}

/// Where `x` first stands in `s`.
pub open spec fn first_index(s: Seq<Seq<char>>, x: Seq<char>) -> Option<int>
    decreases s.len(),
{
    if s.len() == 0 {
        None
    } else if s[0] == x {
        Some(0)
    } else {
        match first_index(s.drop_first(), x) {
            Some(i) => Some(i + 1),
            None => None,
        }
    }
}

/// `label` picked if it was not, unpicked if it was.
pub open spec fn toggled(s: Seq<Seq<char>>, label: Seq<char>) -> Seq<Seq<char>> {
    match first_index(s, label) {
        Some(i) => s.remove(i),
        None => s.push(label),
    }
}

/// The highlighted option confirmed. A single-select question keeps only that
/// option and drops custom text, because the two are alternatives; a
/// multi-select question toggles it, because custom text supplements choices.
pub open spec fn confirmed(q: UserQuestion, d: DraftView) -> DraftView {
    if d.highlight < q.options.len() {
        let label = labels(q)[d.highlight as int];
        if q.multi_select {
            DraftView {
                selected: toggled(d.selected, label),
                custom: d.custom,
                highlight: d.highlight,
                skipped: d.skipped,
            }
        } else {
            DraftView { selected: seq![label], custom: seq![], highlight: d.highlight, skipped: d.skipped }
        }
    } else {
        d
    }
}

/// The highlight moved by `delta` options, never past either end.
pub open spec fn moved(q: UserQuestion, d: DraftView, delta: int) -> DraftView {
    let count = q.options.len() as int;
    if count == 0 {
        d
    } else {
        let next: int = d.highlight + delta;
        let clamped = if next < 0 {
            0
        } else if next > count - 1 {
            count - 1
        } else {
            next
        };
        DraftView { selected: d.selected, custom: d.custom, highlight: clamped as nat, skipped: d.skipped }
    }
}

/// One character of free text typed. On a single-select question it clears
/// the chosen option, which the text is about to override.
pub open spec fn typed(q: UserQuestion, d: DraftView, ch: char) -> DraftView {
    DraftView {
        selected: if q.multi_select {
            d.selected
        } else {
            seq![]
        },
        custom: d.custom.push(ch),
        highlight: d.highlight,
        skipped: d.skipped,
    }
}

/// The last character of free text taken back.
pub open spec fn backspaced(d: DraftView) -> DraftView {
    DraftView {
        selected: d.selected,
        custom: if d.custom.len() > 0 {
            d.custom.drop_last()
        } else {
            d.custom
        },
        highlight: d.highlight,
        skipped: d.skipped,
    }
}

pub open spec fn skipped(d: DraftView) -> DraftView {
    DraftView { selected: d.selected, custom: d.custom, highlight: d.highlight, skipped: true }
}

/// The current question's draft replaced by `d`.
pub open spec fn redraft(f: FormView, d: DraftView) -> FormView {
    FormView { drafts: f.drafts.update(f.index as int, d), index: f.index, focused: f.focused }
}

/// The next question, if there is one; the cursor goes back to the options.
pub open spec fn advanced(n: nat, f: FormView) -> FormView {
    if f.index + 1 < n {
        FormView { drafts: f.drafts, index: f.index + 1, focused: false }
    } else {
        f
    }
}

/// The previous question, if there is one.
pub open spec fn backed(f: FormView) -> FormView {
    if f.index > 0 {
        FormView { drafts: f.drafts, index: (f.index - 1) as nat, focused: false }
    } else {
        f
    }
}

/// The highlighted option confirmed, moving on after a single-select one:
/// choosing is the answer there.
pub open spec fn chose(qs: Seq<UserQuestion>, f: FormView) -> FormView {
    let q = qs[f.index as int];
    let g = redraft(f, confirmed(q, f.drafts[f.index as int]));
    if q.multi_select {
        g
    } else {
        advanced(qs.len(), g)
    }
}

/// What one keypress does, and whether it submits.
///
/// `Enter` submits once everything is handled; before that it moves on from
/// an answered question and confirms the highlight on an unanswered one.
/// `Space` confirms on a question with options. `Tab` skips, `Up`/`Down` move
/// the highlight, `Left`/`Right` page, and every other character is free text.
pub open spec fn pressed(qs: Seq<UserQuestion>, f: FormView, key: Key) -> (FormView, bool) {
    let q = qs[f.index as int];
    let d = f.drafts[f.index as int];
    let has_options = q.options.len() > 0;
    match key {
        Key::Enter => if all_handled(f) {
            (f, true)
        } else if handled(d) {
            (advanced(qs.len(), f), false)
        } else if has_options {
            (chose(qs, f), false)
        } else {
            (f, false)
        },
        Key::Tab => (advanced(qs.len(), redraft(f, skipped(d))), false),
        Key::Up => (redraft(f, moved(q, d, -1)), false),
        Key::Down => (redraft(f, moved(q, d, 1)), false),
        Key::Left => (backed(f), false),
        Key::Right => (advanced(qs.len(), f), false),
        Key::Backspace => (redraft(f, backspaced(d)), false),
        Key::Char(ch) => if ch == ' ' && has_options {
            (chose(qs, f), false)
        } else {
            let g = redraft(f, typed(q, d, ch));
            (FormView { drafts: g.drafts, index: g.index, focused: true }, false)
        },
        _ => (f, false),
    }
}

impl QuestionDraft {
    /// A draft nothing has been done to.
    pub fn new() -> (d: QuestionDraft)
        ensures
            d@ == fresh_draft(),
    {
        let d = QuestionDraft { selected: Vec::new(), custom: String::new(), highlight: 0, skipped: false };
        assert(d@.selected =~= Seq::<Seq<char>>::empty());
        d
    }

    /// Whether this question has been answered or explicitly skipped.
    pub fn handled(&self) -> (r: bool)
        ensures
            r == handled(self@),
    {
        self.skipped || self.selected.len() > 0 || trimmed(self.custom.as_str()).as_str().unicode_len() > 0
    }
}

fn copy_strings(v: &Vec<String>) -> (r: Vec<String>)
    ensures
        strings(r@) == strings(v@),
{
    let mut out: Vec<String> = Vec::new();
    let mut k: usize = 0;
    while k < v.len()
        invariant
            k <= v.len(),
            out@ == v@.take(k as int),
        decreases v.len() - k,
    {
        out.push(v[k].clone());
        assert(out@ =~= v@.take(k + 1));
        k += 1;
    }
    assert(v@.take(v.len() as int) =~= v@);
    out
}

proof fn lemma_first_index(s: Seq<Seq<char>>, x: Seq<char>, k: int)
    requires
        0 <= k <= s.len(),
        forall|j: int| 0 <= j < k ==> s[j] != x,
    ensures
        first_index(s, x) == match first_index(s.skip(k), x) {
            Some(i) => Some(i + k),
            None => None,
        },
    decreases k,
{
    if k > 0 {
        lemma_first_index(s, x, k - 1);
        assert(s.skip(k - 1).drop_first() =~= s.skip(k));
        assert(s.skip(k - 1)[0] == s[k - 1]);
    } else {
        assert(s.skip(0) =~= s);
    }
}

/// Confirm the highlighted option of `q` in `d`.
fn confirm_draft(d: &mut QuestionDraft, q: &UserQuestion)
    ensures
        final(d)@ == confirmed(*q, old(d)@),
{
    let h = d.highlight;
    if h >= q.options.len() {
        return;
    }
    let label = q.options[h].label.clone();
    assert(labels(*q)[h as int] == label@);
    if q.multi_select {
        let ghost sel = strings(d.selected@);
        let mut at: usize = 0;
        while at < d.selected.len()
            invariant
                at <= d.selected.len(),
                sel == strings(d.selected@),
                forall|j: int| 0 <= j < at ==> sel[j] != label@,
            ensures
                at <= d.selected.len(),
                sel == strings(d.selected@),
                forall|j: int| 0 <= j < at ==> sel[j] != label@,
                at < d.selected.len() ==> sel[at as int] == label@,
            decreases d.selected.len() - at,
        {
            if str_eq(d.selected[at].as_str(), label.as_str()) {
                break;
            }
            at += 1;
        }
        proof {
            lemma_first_index(sel, label@, at as int);
            if at < sel.len() {
                assert(sel.skip(at as int)[0] == sel[at as int]);
            } else {
                assert(sel.skip(at as int) =~= Seq::<Seq<char>>::empty());
            }
        }
        if at < d.selected.len() {
            assert(first_index(sel, label@) == Some(at as int));
            d.selected.remove(at);
            assert(strings(d.selected@) =~= sel.remove(at as int));
        } else {
            assert(first_index(sel, label@) is None);
            d.selected.push(label);
            assert(strings(d.selected@) =~= sel.push(label@));
        }
        assert(d@.selected == toggled(old(d)@.selected, label@));
    } else {
        d.selected = vec![label];
        d.custom = String::new();
        assert(strings(d.selected@) =~= seq![label@]);
        assert(d@.custom == Seq::<char>::empty());
    }
}

/// Move the highlight of `d` by `delta` options, clamped to the options.
fn move_draft(d: &mut QuestionDraft, q: &UserQuestion, delta: isize)
    ensures
        final(d)@ == moved(*q, old(d)@, delta as int),
{
    let count = q.options.len();
    if count == 0 {
        return;
    }
    let next: i128 = d.highlight as i128 + delta as i128;
    let last: usize = count - 1;
    if next < 0 {
        d.highlight = 0;
    } else if next > last as i128 {
        d.highlight = last;
    } else {
        d.highlight = next as usize;
    }
}

/// Type one character of free text into `d`.
fn type_draft(d: &mut QuestionDraft, q: &UserQuestion, ch: char)
    ensures
        final(d)@ == typed(*q, old(d)@, ch),
{
    if !q.multi_select {
        d.selected = Vec::new();
        assert(strings(d.selected@) =~= Seq::<Seq<char>>::empty());
    }
    crate::text::push_char(&mut d.custom, ch);
}

/// Take back the last character of free text in `d`.
fn backspace_draft(d: &mut QuestionDraft)
    ensures
        final(d)@ == backspaced(old(d)@),
{
    let chars = chars_of(d.custom.as_str());
    if chars.len() > 0 {
        d.custom = string_of_range(&chars, 0, chars.len() - 1);
        assert(chars@.subrange(0, chars.len() - 1) =~= chars@.drop_last());
    }
}

/// One question's answer as the tool result carries it: its id, the labels
/// picked, and the free text, if any.
pub open spec fn answer_view(a: UserAnswer) -> (Seq<char>, Seq<Seq<char>>, Option<Seq<char>>) {
    (
        a.id@,
        strings(a.selected@),
        match a.custom {
            Some(c) => Some(c@),
            None => None,
        },
    )
}

/// The answer a draft gives its question. A skipped question answers nothing,
/// whatever was typed before the skip; on a single-select question custom
/// text overrides the choice.
pub open spec fn answer_of(q: UserQuestion, d: DraftView) -> (
    Seq<char>,
    Seq<Seq<char>>,
    Option<Seq<char>>,
) {
    if d.skipped {
        (q.id@, seq![], None)
    } else {
        let text = trim(d.custom);
        let custom = if text.len() > 0 {
            Some(text)
        } else {
            None
        };
        let selected = if !q.multi_select && custom is Some {
            seq![]
        } else {
            d.selected
        };
        (q.id@, selected, custom)
    }
}

impl QuestionDraft {
    /// A copy of this draft.
    pub fn copied(&self) -> (d: QuestionDraft)
        ensures
            d@ == self@,
    {
        QuestionDraft {
            selected: copy_strings(&self.selected),
            custom: self.custom.clone(),
            highlight: self.highlight,
            skipped: self.skipped,
        }
    }
}

impl Questionnaire {
    /// The questionnaire is consistent: at least one question, one draft per
    /// question, and the page on screen is one of them.
    pub closed spec fn wf(&self) -> bool {
        &&& self.questions.len() > 0
        &&& self.drafts.len() == self.questions.len()
        &&& self.index < self.questions.len()
    }

    /// The questions, in the order the model sent them.
    pub closed spec fn asked(&self) -> Seq<UserQuestion> {
        self.questions@
    }

    /// A fresh questionnaire over `questions`, on the first one.
    pub fn new(questions: Vec<UserQuestion>) -> (r: Questionnaire)
        requires
            questions.len() > 0,
        ensures
            r.wf(),
            r.asked() == questions@,
            r@.index == 0,
            !r@.focused,
            r@.drafts.len() == questions.len(),
            forall|j: int| 0 <= j < questions.len() ==> r@.drafts[j] == fresh_draft(),
    {
        let mut drafts: Vec<QuestionDraft> = Vec::new();
        let mut k: usize = 0;
        while k < questions.len()
            invariant
                k <= questions.len(),
                drafts.len() == k,
                forall|j: int| 0 <= j < k ==> (#[trigger] drafts@[j])@ == fresh_draft(),
            decreases questions.len() - k,
        {
            drafts.push(QuestionDraft::new());
            k += 1;
        }
        Questionnaire { questions, drafts, index: 0, custom_focused: false }
    }

    /// The question on screen, counted from zero.
    pub fn index(&self) -> (i: usize)
        ensures
            i == self@.index,
    {
        self.index
    }

    /// Whether the free-text row has the cursor.
    pub fn custom_focused(&self) -> (b: bool)
        ensures
            b == self@.focused,
    {
        self.custom_focused
    }

    /// The question on screen.
    pub fn question(&self) -> (q: &UserQuestion)
        requires
            self.wf(),
        ensures
            *q == self.asked()[self@.index as int],
    {
        &self.questions[self.index]
    }

    /// How many questions there are.
    pub fn len(&self) -> (n: usize)
        ensures
            n == self.asked().len(),
    {
        self.questions.len()
    }

    /// The draft of the question on screen.
    pub fn draft(&self) -> (d: &QuestionDraft)
        requires
            self.wf(),
        ensures
            d@ == self@.drafts[self@.index as int],
    {
        &self.drafts[self.index]
    }

    /// Replace the draft of the question on screen.
    fn put_current(&mut self, d: QuestionDraft)
        requires
            old(self).wf(),
        ensures
            final(self).wf(),
            final(self).asked() == old(self).asked(),
            final(self)@ == redraft(old(self)@, d@),
    {
        let ghost before = self@;
        let ghost dv = d@;
        self.drafts.set(self.index, d);
        assert(self@.drafts =~= before.drafts.update(before.index as int, dv));
    }

    /// Whether the question on screen offers options to highlight.
    pub fn has_options(&self) -> (b: bool)
        requires
            self.wf(),
        ensures
            b == (self.asked()[self@.index as int].options.len() > 0),
    {
        self.questions[self.index].options.len() > 0
    }

    /// Whether every question has been answered or explicitly skipped.
    pub fn all_handled(&self) -> (b: bool)
        ensures
            b == all_handled(self@),
    {
        let mut k: usize = 0;
        while k < self.drafts.len()
            invariant
                k <= self.drafts.len(),
                forall|j: int| 0 <= j < k ==> handled(#[trigger] self@.drafts[j]),
            decreases self.drafts.len() - k,
        {
            if !self.drafts[k].handled() {
                assert(!handled(self@.drafts[k as int]));
                return false;
            }
            k += 1;
        }
        true
    }

    /// Turn to the next question, if there is one.
    fn advance(&mut self)
        requires
            old(self).wf(),
        ensures
            final(self).wf(),
            final(self).asked() == old(self).asked(),
            final(self)@ == advanced(old(self).asked().len(), old(self)@),
    {
        if self.index + 1 < self.questions.len() {
            self.index += 1;
            self.custom_focused = false;
        }
    }

    /// Turn back to the previous question, if there is one.
    fn back(&mut self)
        requires
            old(self).wf(),
        ensures
            final(self).wf(),
            final(self).asked() == old(self).asked(),
            final(self)@ == backed(old(self)@),
    {
        if self.index > 0 {
            self.index -= 1;
            self.custom_focused = false;
        }
    }

    /// Confirm the highlighted option of the question on screen.
    fn confirm_highlight(&mut self)
        requires
            old(self).wf(),
        ensures
            final(self).wf(),
            final(self).asked() == old(self).asked(),
            final(self)@ == redraft(
                old(self)@,
                confirmed(old(self).asked()[old(self)@.index as int], old(self)@.drafts[old(self)@.index as int]),
            ),
    {
        let mut d = self.drafts[self.index].copied();
        confirm_draft(&mut d, &self.questions[self.index]);
        self.put_current(d);
    }

    /// Move the highlight of the question on screen by `delta` options.
    fn move_highlight(&mut self, delta: isize)
        requires
            old(self).wf(),
        ensures
            final(self).wf(),
            final(self).asked() == old(self).asked(),
            final(self)@ == redraft(
                old(self)@,
                moved(old(self).asked()[old(self)@.index as int], old(self)@.drafts[old(self)@.index as int], delta as int),
            ),
    {
        let mut d = self.drafts[self.index].copied();
        move_draft(&mut d, &self.questions[self.index], delta);
        self.put_current(d);
    }

    /// Add one character of free text to the question on screen.
    fn type_custom(&mut self, ch: char)
        requires
            old(self).wf(),
        ensures
            final(self).wf(),
            final(self).asked() == old(self).asked(),
            final(self)@ == redraft(
                old(self)@,
                typed(old(self).asked()[old(self)@.index as int], old(self)@.drafts[old(self)@.index as int], ch),
            ),
    {
        let mut d = self.drafts[self.index].copied();
        type_draft(&mut d, &self.questions[self.index], ch);
        self.put_current(d);
    }

    /// Confirm the highlight, moving on after a single-select question.
    fn pick_highlighted(&mut self)
        requires
            old(self).wf(),
        ensures
            final(self).wf(),
            final(self).asked() == old(self).asked(),
            final(self)@ == chose(old(self).asked(), old(self)@),
    {
        let multi = self.questions[self.index].multi_select;
        self.confirm_highlight();
        if !multi {
            self.advance();
        }
    }

    /// Take one keypress. Returns `true` when the questionnaire is submitted.
    ///
    /// `Up`/`Down` move the highlight, `Enter` or `Space` confirms it, `Tab`
    /// skips the question, `Left`/`Right` page, and every printable character
    /// edits the free-text field; digits are text too, so no option is out of
    /// reach. `Enter` submits only once every question is handled; before
    /// that it moves on from an answered question and confirms the highlight
    /// on an unanswered one, never clobbering typed text.
    pub fn press(&mut self, key: Key) -> (submit: bool)
        requires
            old(self).wf(),
        ensures
            final(self).wf(),
            final(self).asked() == old(self).asked(),
            (final(self)@, submit) == pressed(old(self).asked(), old(self)@, key),
    {
        match key {
            Key::Enter => {
                if self.all_handled() {
                    return true;
                }
                if self.drafts[self.index].handled() {
                    self.advance();
                } else if self.has_options() {
                    self.pick_highlighted();
                }
            },
            Key::Tab => {
                let mut d = self.drafts[self.index].copied();
                d.skipped = true;
                self.put_current(d);
                self.advance();
            },
            Key::Up => self.move_highlight(-1),
            Key::Down => self.move_highlight(1),
            Key::Left => self.back(),
            Key::Right => self.advance(),
            Key::Backspace => {
                let mut d = self.drafts[self.index].copied();
                backspace_draft(&mut d);
                self.put_current(d);
            },
            Key::Char(ch) => {
                if ch == ' ' && self.has_options() {
                    self.pick_highlighted();
                } else {
                    self.type_custom(ch);
                    self.custom_focused = true;
                }
            },
            _ => {},
        }
        false
    }

    /// Pick the option at `index` of the question on screen, the way clicking
    /// its row does: a single-select question answers and moves on, a
    /// multi-select one only toggles.
    pub fn select_option(&mut self, index: usize)
        requires
            old(self).wf(),
        ensures
            final(self).wf(),
            final(self).asked() == old(self).asked(),
            index >= old(self).asked()[old(self)@.index as int].options.len() ==> final(self)@
                == old(self)@,
            index < old(self).asked()[old(self)@.index as int].options.len() ==> final(self)@
                == chose(
                old(self).asked(),
                ({
                    let d = old(self)@.drafts[old(self)@.index as int];
                    FormView {
                        drafts: old(self)@.drafts.update(
                            old(self)@.index as int,
                            DraftView {
                                selected: d.selected,
                                custom: d.custom,
                                highlight: index as nat,
                                skipped: d.skipped,
                            },
                        ),
                        index: old(self)@.index,
                        focused: false,
                    }
                }),
            ),
    {
        if index >= self.questions[self.index].options.len() {
            return;
        }
        let mut d = self.drafts[self.index].copied();
        d.highlight = index;
        self.put_current(d);
        self.custom_focused = false;
        self.pick_highlighted();
    }

    /// Hand the cursor to the free-text row.
    pub fn focus_custom(&mut self)
        requires
            old(self).wf(),
        ensures
            final(self).wf(),
            final(self).asked() == old(self).asked(),
            final(self)@ == (FormView { focused: true, ..old(self)@ }),
    {
        self.custom_focused = true;
    }

    /// Take the cursor back from the free-text row.
    pub fn unfocus_custom(&mut self)
        requires
            old(self).wf(),
        ensures
            final(self).wf(),
            final(self).asked() == old(self).asked(),
            final(self)@ == (FormView { focused: false, ..old(self)@ }),
    {
        self.custom_focused = false;
    }

    /// The answers as the tool's one result: a skipped question is
    /// `selected: []` with no `custom`, and single-select custom text
    /// overrides the choice.
    pub fn answers(&self) -> (r: UserAnswers)
        requires
            self.wf(),
        ensures
            r.answers.len() == self.asked().len(),
            forall|j: int|
                0 <= j < r.answers.len() ==> answer_view(#[trigger] r.answers@[j]) == answer_of(
                    self.asked()[j],
                    self@.drafts[j],
                ),
    {
        let mut out: Vec<UserAnswer> = Vec::new();
        let mut k: usize = 0;
        while k < self.questions.len()
            invariant
                self.wf(),
                k <= self.questions.len(),
                out.len() == k,
                forall|j: int|
                    0 <= j < k ==> answer_view(#[trigger] out@[j]) == answer_of(
                        self.asked()[j],
                        self@.drafts[j],
                    ),
            decreases self.questions.len() - k,
        {
            let q = &self.questions[k];
            let d = &self.drafts[k];
            assert(self@.drafts[k as int] == d@);
            let id = q.id.clone();
            let answer = if d.skipped {
                let a = UserAnswer { id, selected: Vec::new(), custom: None };
                assert(strings(a.selected@) =~= Seq::<Seq<char>>::empty());
                a
            } else {
                let text = trimmed(d.custom.as_str());
                let has_text = text.as_str().unicode_len() > 0;
                let custom = if has_text {
                    Some(text)
                } else {
                    None
                };
                let selected = if !q.multi_select && has_text {
                    let v: Vec<String> = Vec::new();
                    assert(strings(v@) =~= Seq::<Seq<char>>::empty());
                    v
                } else {
                    copy_strings(&d.selected)
                };
                UserAnswer { id, selected, custom }
            };
            out.push(answer);
            k += 1;
        }
        UserAnswers { answers: out }
    }
}

/// A keypress submits the questionnaire only when it is `Enter` and every
/// question has been answered or skipped.
pub proof fn only_a_finished_form_submits(qs: Seq<UserQuestion>, f: FormView, key: Key)
    ensures
        pressed(qs, f, key).1 <==> (key == Key::Enter && all_handled(f)),
{
}

/// `Enter` on an answered question moves on and leaves every answer as it
/// was: it never clobbers typed text.
pub proof fn enter_keeps_an_answer(qs: Seq<UserQuestion>, f: FormView)
    requires
        f.index < f.drafts.len(),
        handled(f.drafts[f.index as int]),
    ensures
        pressed(qs, f, Key::Enter).0.drafts == f.drafts,
{
}

/// Moving the highlight keeps it on one of the options.
pub proof fn highlight_stays_on_an_option(q: UserQuestion, d: DraftView, delta: int)
    requires
        q.options.len() > 0,
    ensures
        moved(q, d, delta).highlight < q.options.len(),
{
}

/// Confirming an option of a single-select question leaves exactly that
/// option picked and no free text.
pub proof fn single_select_keeps_one_choice(q: UserQuestion, d: DraftView)
    requires
        !q.multi_select,
        d.highlight < q.options.len(),
    ensures
        confirmed(q, d).selected == seq![labels(q)[d.highlight as int]],
        confirmed(q, d).custom.len() == 0,
{
}

proof fn lemma_first_index_absent(s: Seq<Seq<char>>, x: Seq<char>)
    requires
        !s.contains(x),
    ensures
        first_index(s, x) is None,
    decreases s.len(),
{
    if s.len() > 0 {
        assert(s[0] != x);
        assert forall|j: int| 0 <= j < s.drop_first().len() implies s.drop_first()[j] != x by {
            assert(s.drop_first()[j] == s[j + 1]);
        }
        lemma_first_index_absent(s.drop_first(), x);
    }
}

proof fn lemma_first_index_last(s: Seq<Seq<char>>, x: Seq<char>)
    requires
        !s.contains(x),
    ensures
        first_index(s.push(x), x) == Some(s.len() as int),
    decreases s.len(),
{
    if s.len() == 0 {
        assert(s.push(x)[0] == x);
    } else {
        assert(s.push(x)[0] == s[0]);
        assert(s.push(x).drop_first() =~= s.drop_first().push(x));
        assert forall|j: int| 0 <= j < s.drop_first().len() implies s.drop_first()[j] != x by {
            assert(s.drop_first()[j] == s[j + 1]);
        }
        lemma_first_index_last(s.drop_first(), x);
    }
}

/// On a multi-select question, picking an option that was not picked and
/// then picking it again leaves the selection as it was.
pub proof fn toggling_twice_restores(s: Seq<Seq<char>>, label: Seq<char>)
    requires
        !s.contains(label),
    ensures
        toggled(toggled(s, label), label) == s,
{
    lemma_first_index_absent(s, label);
    lemma_first_index_last(s, label);
    assert(s.push(label).remove(s.len() as int) =~= s);
}

/// A skipped question answers nothing, whatever was typed before the skip.
pub proof fn a_skip_answers_nothing(q: UserQuestion, d: DraftView)
    requires
        d.skipped,
    ensures
        answer_of(q, d).1.len() == 0,
        answer_of(q, d).2 is None,
{
}

/// On a single-select question, typed text overrides any choice in the
/// answer.
pub proof fn typed_text_overrides_a_single_choice(q: UserQuestion, d: DraftView)
    requires
        !q.multi_select,
        !d.skipped,
        trim(d.custom).len() > 0,
    ensures
        answer_of(q, d).1.len() == 0,
        answer_of(q, d).2 == Some(trim(d.custom)),
{
}

/// The first option to draw so that `highlight` is inside a window of `room`
/// options: the top while the highlight fits there, then following it one
/// row at a time, never past the last full window.
pub open spec fn window_start(highlight: nat, count: nat, room: nat) -> nat {
    if room == 0 || count <= room {
        0
    } else {
        let follow: nat = if highlight < room {
            0
        } else {
            (highlight + 1 - room) as nat
        };
        if follow < count - room {
            follow
        } else {
            (count - room) as nat
        }
    }
}

/// The first option to draw so that `highlight` is inside a window of `room`
/// options. The list does not wrap: once the highlight is past the window the
/// window follows it one row at a time.
pub fn option_window_start(highlight: usize, count: usize, room: usize) -> (start: usize)
    ensures
        start == window_start(highlight as nat, count as nat, room as nat),
{
    if room == 0 || count <= room {
        return 0;
    }
    let start = if highlight < room {
        0
    } else {
        highlight - room + 1
    };
    if start < count - room {
        start
    } else {
        count - room
    }
}

/// The option window always shows the highlighted option, when it is one of
/// the options and there is room for any, and it never runs past the end.
pub proof fn the_window_shows_the_highlight(highlight: nat, count: nat, room: nat)
    requires
        highlight < count,
        room > 0,
    ensures
        window_start(highlight, count, room) <= highlight < window_start(highlight, count, room)
            + room,
        count <= room || window_start(highlight, count, room) + room <= count,
{
}

} // verus!
