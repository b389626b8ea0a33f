//! The keyboard seam between the loop and whichever front end owns the
//! terminal: the questions a front end puts to the user, the answers it can
//! give back, and how a typed line is read as one.
//!
//! Anything that is not an explicit yes is read the non-acting way: an answer
//! typed by accident must not approve a write.

use vstd::prelude::*;

use crate::text::{chars_of, str_eq, string_of_range};

verus! {

broadcast use vstd::seq::group_seq_axioms;

/// The user's verdict on one permission question.
#[derive(Debug, Clone, Copy, PartialEq, Eq, Structural)]
pub enum Answer {
    Allow,
    AlwaysAllow,
    Deny,
}

/// What to do when plan mode is entered and the plan file already exists.
#[derive(Debug, Clone, Copy, PartialEq, Eq, Structural)]
pub enum PlanConflict {
    Overwrite,
    Append,
    Keep,
}

/// One permission question: the tool, the arguments of the call (as JSON
/// text), and why it is being asked.
#[derive(Debug, Clone, PartialEq, Eq)]
pub struct PermissionRequest {
    pub tool_name: String,
    pub args: String,
    pub reason: String,
}

/// A question the front end must put to the user.
#[derive(Debug, Clone, PartialEq, Eq)]
pub enum Question {
    /// The permission check answered `Ask`.
    Permission(PermissionRequest),
    /// Plan mode is being entered and the plan file (at this path) already
    /// exists.
    PlanConflict(String),
}

/// The user's answer to a [`Question`].
#[derive(Debug, Clone, Copy, PartialEq, Eq, Structural)]
pub enum AnswerChoice {
    Permission(Answer),
    Plan(PlanConflict),
}

impl AnswerChoice {
    /// The verdict on a permission question. A plan answer cannot arrive for
    /// one — the two are paired by construction — and would read as `Deny`,
    /// the non-acting answer.
    pub fn as_permission(self) -> (a: Answer)
        ensures
            a == match self {
                AnswerChoice::Permission(answer) => answer,
                AnswerChoice::Plan(_) => Answer::Deny,
            },
    {
        match self {
            AnswerChoice::Permission(answer) => answer,
            AnswerChoice::Plan(_) => Answer::Deny,
        }
    }

    /// The answer to a plan conflict; a permission answer would read as
    /// `Keep`, the non-destructive one.
    pub fn as_plan(self) -> (p: PlanConflict)
        ensures
            p == match self {
                AnswerChoice::Plan(conflict) => conflict,
                AnswerChoice::Permission(_) => PlanConflict::Keep,
            },
    {
        match self {
            AnswerChoice::Plan(conflict) => conflict,
            AnswerChoice::Permission(_) => PlanConflict::Keep,
        }
    }
}

/// One name a leading `/` can become, and the line that says what it does.
#[derive(Debug, Clone, PartialEq, Eq)]
pub struct CatalogEntry {
    /// The name without its slash, exactly as it must be typed.
    pub name: String,
    /// One line for a menu's second column; empty when there is nothing to say.
    pub description: String,
}

impl CatalogEntry {
    /// An entry for `name`, described by `description`.
    pub fn new(name: String, description: String) -> (e: CatalogEntry)
        ensures
            e.name@ == name@,
            e.description@ == description@,
    {
        CatalogEntry { name, description }
    }
}

/// A gesture, pushed by the front end on its own schedule.
#[derive(Debug, Clone, Copy, PartialEq, Eq, Structural)]
pub enum FrontEndEvent {
    /// The user interrupted the run.
    Cancel,
    /// Enter plan mode, or leave it if already in it.
    TogglePlan,
    /// The user asked to leave.
    Quit,
}

/// The verdict a typed line gives a permission question: only `y`/`yes`
/// allow once, only `a`/`always` allow from now on; anything else, and no
/// line at all, denies.
pub open spec fn permission_reading(line: Option<Seq<char>>) -> Answer {
    match line {
        Some(l) => if l == "y"@ || l == "yes"@ {
            Answer::Allow
        } else if l == "a"@ || l == "always"@ {
            Answer::AlwaysAllow
        } else {
            Answer::Deny
        },
        None => Answer::Deny,
    }
}

/// Read a typed line as the verdict on a permission question.
pub fn permission_answer(line: Option<&str>) -> (a: Answer)
    ensures
        a == permission_reading(match line {
            Some(l) => Some(l@),
            None => None,
        }),
{
    match line {
        Some(l) => {
            if str_eq(l, "y") || str_eq(l, "yes") {
                Answer::Allow
            } else if str_eq(l, "a") || str_eq(l, "always") {
                Answer::AlwaysAllow
            } else {
                Answer::Deny
            }
        },
        None => Answer::Deny,
    }
}

/// The answer a typed line gives a plan conflict: `o`/`overwrite`,
/// `a`/`append`, and anything else keeps the file.
pub open spec fn plan_reading(line: Option<Seq<char>>) -> PlanConflict {
    match line {
        Some(l) => if l == "o"@ || l == "overwrite"@ {
            PlanConflict::Overwrite
        } else if l == "a"@ || l == "append"@ {
            PlanConflict::Append
        } else {
            PlanConflict::Keep
        },
        None => PlanConflict::Keep,
    }
}

/// Read a typed line as the answer to a plan conflict.
pub fn plan_answer(line: Option<&str>) -> (p: PlanConflict)
    ensures
        p == plan_reading(match line {
            Some(l) => Some(l@),
            None => None,
        }),
{
    match line {
        Some(l) => {
            if str_eq(l, "o") || str_eq(l, "overwrite") {
                PlanConflict::Overwrite
            } else if str_eq(l, "a") || str_eq(l, "append") {
                PlanConflict::Append
            } else {
                PlanConflict::Keep
            }
        },
        None => PlanConflict::Keep,
    }
}

/// `s` without the newlines and carriage returns at its end.
pub open spec fn without_line_ending(s: Seq<char>) -> Seq<char>
    decreases s.len(),
{
    if s.len() > 0 && (s.last() == '\n' || s.last() == '\r') {
        without_line_ending(s.drop_last())
    } else {
        s
    }
}

/// A line as read from a terminal, without its line ending.
pub fn trim_line_ending(line: &str) -> (s: String)
    ensures
        s@ == without_line_ending(line@),
{
    let v = chars_of(line);
    let mut e = v.len();
    assert(v@.subrange(0, e as int) =~= v@);
    while e > 0 && (v[e - 1] == '\n' || v[e - 1] == '\r')
        invariant
            e <= v@.len(),
            v@ == line@,
            without_line_ending(v@.subrange(0, e as int)) == without_line_ending(line@),
        decreases e,
    {
        assert(v@.subrange(0, e as int).drop_last() =~= v@.subrange(0, e - 1));
        e -= 1;
    }
    let s = string_of_range(&v, 0, e);
    proof {
        assert(v@.subrange(0, v@.len() as int) =~= v@);
    }
    s
}

/// Only an explicit yes allows a call: an answer typed by accident never
/// approves one.
pub proof fn only_explicit_yes_allows(line: Option<Seq<char>>)
    ensures
        permission_reading(line) != Answer::Deny ==> (line matches Some(l) && (l == "y"@ || l
            == "yes"@ || l == "a"@ || l == "always"@)),
        plan_reading(line) != PlanConflict::Keep ==> (line matches Some(l) && (l == "o"@ || l
            == "overwrite"@ || l == "a"@ || l == "append"@)),
{
}

} // verus!
