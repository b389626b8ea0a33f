//! How a stop reason should read.
//!
//! `Completed` must not look like `Aborted` or `Error`: a run that hit a wall
//! and a run that finished are the two things a person most needs to tell apart
//! at a glance.

use vstd::prelude::*;

use crate::events::StopReason;

verus! {

/// How prominently a reason should read.
#[derive(Debug, Clone, Copy, PartialEq, Eq, Structural)]
pub enum Severity {
    /// The loop did what it set out to do.
    Good,
    /// A normal end that is not a plain success.
    Note,
    /// The run stopped early for a reason that is not a failure.
    Warn,
    /// Something went wrong, or a hard limit was hit.
    Bad,
}

/// The classification of one reason.
pub open spec fn severity_of(reason: StopReason) -> Severity {
    match reason {
        StopReason::Completed | StopReason::Consensus | StopReason::NoDivergence => Severity::Good,
        StopReason::RoundsExhausted => Severity::Note,
        StopReason::Aborted | StopReason::MaxIterations => Severity::Warn,
        StopReason::Error | StopReason::MistakeLimit | StopReason::BudgetExhausted => Severity::Bad,
    }
}

impl Severity {
    /// Classify one reason.
    pub fn of(reason: StopReason) -> (s: Severity)
        ensures
            s == severity_of(reason),
    {
        match reason {
            StopReason::Completed | StopReason::Consensus | StopReason::NoDivergence => {
                Severity::Good
            },
            StopReason::RoundsExhausted => Severity::Note,
            StopReason::Aborted | StopReason::MaxIterations => Severity::Warn,
            StopReason::Error | StopReason::MistakeLimit | StopReason::BudgetExhausted => {
                Severity::Bad
            },
        }
    }

    /// A short, stable label, for a status line.
    pub fn label(self) -> (s: &'static str)
        ensures
            s@ == (match self {
                Severity::Good => "ok"@,
                Severity::Note => "note"@,
                Severity::Warn => "warn"@,
                Severity::Bad => "error"@,
            }),
    {
        match self {
            Severity::Good => "ok",
            Severity::Note => "note",
            Severity::Warn => "warn",
            Severity::Bad => "error",
        }
    }
    /// The ANSI SGR prefix for this severity, or nothing when color is off.
    /// Each level has a color of its own, so the four never collapse into each
    /// other.
    pub fn ansi(self, color: bool) -> (s: &'static str)
        ensures
            s@ == if !color {
                ""@
            } else {
                match self {
                    Severity::Good => "\x1b[32m"@,
                    Severity::Note => "\x1b[36m"@,
                    Severity::Warn => "\x1b[33m"@,
                    Severity::Bad => "\x1b[31m"@,
                }
            },
    {
        if !color {
            return "";
        }
        match self {
            Severity::Good => "\x1b[32m",
            Severity::Note => "\x1b[36m",
            Severity::Warn => "\x1b[33m",
            Severity::Bad => "\x1b[31m",
        }
    }

    /// The ANSI reset that closes [`Severity::ansi`].
    pub fn ansi_reset(color: bool) -> (s: &'static str)
        ensures
            s@ == if color {
                "\x1b[0m"@
            } else {
                ""@
            },
    {
        if color {
            "\x1b[0m"
        } else {
            ""
        }
    }
}

/// The color a severity is painted with, when color is on.
pub open spec fn severity_color(s: Severity) -> Seq<char> {
    match s {
        Severity::Good => "\x1b[32m"@,
        Severity::Note => "\x1b[36m"@,
        Severity::Warn => "\x1b[33m"@,
        Severity::Bad => "\x1b[31m"@,
    }
}

/// With color on, no two severities are painted alike.
pub proof fn severities_stay_apart(a: Severity, b: Severity)
    requires
        a != b,
    ensures
        severity_color(a) != severity_color(b),
{
    reveal_strlit("\x1b[32m");
    reveal_strlit("\x1b[36m");
    reveal_strlit("\x1b[33m");
    reveal_strlit("\x1b[31m");
    assert(severity_color(a)[3] != severity_color(b)[3]);
}

/// A run that finished never reads like one that was cut short or failed.
pub proof fn completed_reads_apart()
    ensures
        severity_of(StopReason::Completed) != severity_of(StopReason::Aborted),
        severity_of(StopReason::Completed) != severity_of(StopReason::Error),
        severity_of(StopReason::Aborted) != severity_of(StopReason::Error),
{
}

} // verus!
