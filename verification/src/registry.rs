//! The guardrails every tool call passes before it reaches its tool, and what
//! one dispatch produced.
//!
//! The guardrails refuse an unresolvable target and a write whose path exists
//! but has not been read, and hand back the paths a successful call earns. They
//! consult the read set and each target's existence, never the tool table.

use vstd::prelude::*;

use crate::text::push_str;
use crate::tool::{Effect, ReadSet, ToolError, ToolOutput};

verus! {

broadcast use vstd::seq::group_seq_axioms;

/// The text a read-before-write refusal begins with; the observability query
/// that counts these refusals matches on it.
pub const READ_BEFORE_WRITE_PREFIX: &'static str = "read before write: ";

/// The guardrail verdict for one call.
#[derive(Debug, Clone)]
pub enum GuardedCall {
    /// The call may run with these paths.
    Run(AllowedCall),
    /// The call never reaches the tool; the error is the required result.
    Refused(ToolError),
}

/// What an allowed call may touch, already resolved against the session's
/// working directory.
#[derive(Debug, Clone)]
pub struct AllowedCall {
    /// Resolved write targets, locked for the whole call.
    pub write_targets: Vec<String>,
    /// Resolved reads to record in the agent's read set if the call succeeds.
    pub read_paths: Vec<String>,
    /// Whether the call demands the workspace-wide lock.
    pub exclusive: bool,
}

/// One call, resolved: everything the permission check and the guardrails
/// read.
#[derive(Debug, Clone)]
pub struct CallFacts {
    /// The tool name the model asked for.
    pub tool_name: String,
    /// The tool's declared workspace effect.
    pub effect: Effect,
    /// Resolved write targets (empty unless the effect is `WritePaths`); a
    /// target that could not be resolved stays in its lexical form.
    pub write_targets: Vec<String>,
    /// Resolved read paths.
    pub read_paths: Vec<String>,
    /// The argv a command tool will run, when it runs one.
    pub argv: Option<Vec<String>>,
    /// The first target that could not be resolved.
    pub path_error: Option<ToolError>,
}

/// The texts of a list of strings.
pub open spec fn views(v: Seq<String>) -> Seq<Seq<char>> {
    v.map_values(|s: String| s@)
}

/// The refusal for a write to `path`, which exists and has not been read.
pub open spec fn unread_refusal(path: Seq<char>) -> Seq<char> {
    READ_BEFORE_WRITE_PREFIX@ + path + " exists but has not been read in this session; read it first"@
}

/// The first target from `i` on that exists and has not been read.
pub open spec fn first_unread(
    targets: Seq<Seq<char>>,
    exists: Seq<bool>,
    read: Set<Seq<char>>,
    i: int,
) -> Option<int>
    decreases targets.len() - i,
{
    if i < 0 || i >= targets.len() {
        None
    } else if exists[i] && !read.contains(targets[i]) {
        Some(i)
    } else {
        first_unread(targets, exists, read, i + 1)
    }
}

/// A copy of a list of strings.
fn copy_strings(v: &Vec<String>) -> (r: Vec<String>)
    ensures
        views(r@) == views(v@),
{
    let mut r: Vec<String> = Vec::new();
    let mut i: usize = 0;
    while i < v.len()
        invariant
            i <= v@.len(),
            views(r@) == views(v@).take(i as int),
        decreases v@.len() - i,
    {
        let ghost before = r@;
        let c = v[i].clone();
        assert(c@ == v@[i as int]@);
        r.push(c);
        assert(r@ == before.push(c));
        assert(views(r@) =~= views(before).push(c@));
        assert(views(v@).take(i + 1) =~= views(v@).take(i as int).push(v@[i as int]@));
        i += 1;
    }
    assert(views(v@).take(v@.len() as int) =~= views(v@));
    r
}

/// The same failure: the same variant, with the same texts.
pub open spec fn same_error(e: ToolError, f: ToolError) -> bool {
    match (e, f) {
        (ToolError::Message(a), ToolError::Message(b)) => a@ == b@,
        (
            ToolError::InvalidatesReads { message: a, path: p },
            ToolError::InvalidatesReads { message: b, path: q },
        ) => a@ == b@ && p@ == q@,
        _ => false,
    }
}

/// A copy of an error.
fn copy_error(e: &ToolError) -> (r: ToolError)
    ensures
        same_error(*e, r),
{
    match e {
        ToolError::Message(m) => ToolError::Message(m.clone()),
        ToolError::InvalidatesReads { message, path } => ToolError::InvalidatesReads {
            message: message.clone(),
            path: path.clone(),
        },
    }
}

/// Whether a path names something on disk: `std::path::Path::exists`. What
/// is on disk is outside the library, so nothing is promised of the answer.
#[verifier::external_body]
fn path_exists(path: &str) -> (r: bool) {
    std::path::Path::new(path).exists()
}

impl CallFacts {
    /// The guardrails, given whether each write target exists: containment
    /// first, so an unresolvable target never reaches the tool, then read
    /// before edit. Only an existing target needs reading: creating a new file
    /// has nothing to clobber.
    pub fn guardrails_given(&self, read_set: &ReadSet, exists: &Vec<bool>) -> (r: GuardedCall)
        requires
            exists@.len() == self.write_targets@.len(),
        ensures
            match self.path_error {
                Some(e) => r matches GuardedCall::Refused(f) && same_error(e, f),
                None => match first_unread(
                    views(self.write_targets@),
                    exists@,
                    read_set.view_set(),
                    0,
                ) {
                    Some(k) => r matches GuardedCall::Refused(ToolError::Message(m)) && m@
                        == unread_refusal(views(self.write_targets@)[k]),
                    None => r matches GuardedCall::Run(a) && views(a.write_targets@) == views(
                        self.write_targets@,
                    ) && views(a.read_paths@) == views(self.read_paths@) && a.exclusive == (
                    self.effect is Exclusive),
                },
            },
    {
        match &self.path_error {
            Some(e) => {
                return GuardedCall::Refused(copy_error(e));
            },
            None => {},
        }
        let ghost targets = views(self.write_targets@);
        let mut i: usize = 0;
        while i < self.write_targets.len()
            invariant
                i <= self.write_targets@.len(),
                exists@.len() == self.write_targets@.len(),
                self.path_error is None,
                targets == views(self.write_targets@),
                first_unread(targets, exists@, read_set.view_set(), i as int) == first_unread(
                    targets,
                    exists@,
                    read_set.view_set(),
                    0,
                ),
            decreases self.write_targets@.len() - i,
        {
            let path = self.write_targets[i].as_str();
            if exists[i] && !read_set.contains(path) {
                let mut m = String::new();
                push_str(&mut m, READ_BEFORE_WRITE_PREFIX);
                push_str(&mut m, path);
                push_str(&mut m, " exists but has not been read in this session; read it first");
                return GuardedCall::Refused(ToolError::Message(m));
            }
            i += 1;
        }
        GuardedCall::Run(
            AllowedCall {
                write_targets: copy_strings(&self.write_targets),
                read_paths: copy_strings(&self.read_paths),
                exclusive: match self.effect {
                    Effect::Exclusive => true,
                    _ => false,
                },
            },
        )
    }

    /// The shared guardrails, enforced for every caller rather than by
    /// convention. Whether a target exists is read from disk here; whatever
    /// the disk says, an unresolvable target is refused, and a call that runs
    /// keeps exactly its resolved paths.
    pub fn guardrails(&self, read_set: &ReadSet) -> (r: GuardedCall)
        ensures
            match self.path_error {
                Some(e) => r matches GuardedCall::Refused(f) && same_error(e, f),
                None => match r {
                    GuardedCall::Refused(ToolError::Message(m)) => exists|k: int|
                        0 <= k < self.write_targets@.len() && !read_set.view_set().contains(
                            #[trigger] views(self.write_targets@)[k],
                        ) && m@ == unread_refusal(views(self.write_targets@)[k]),
                    GuardedCall::Refused(_) => false,
                    GuardedCall::Run(a) => views(a.write_targets@) == views(self.write_targets@)
                        && views(a.read_paths@) == views(self.read_paths@) && a.exclusive == (
                    self.effect is Exclusive),
                },
            },
    {
        let mut exists: Vec<bool> = Vec::new();
        let mut i: usize = 0;
        while i < self.write_targets.len()
            invariant
                i <= self.write_targets@.len(),
                exists@.len() == i,
            decreases self.write_targets@.len() - i,
        {
            exists.push(path_exists(self.write_targets[i].as_str()));
            i += 1;
        }
        let r = self.guardrails_given(read_set, &exists);
        proof {
            if self.path_error is None {
                lemma_first_unread(
                    views(self.write_targets@),
                    exists@,
                    read_set.view_set(),
                    0,
                );
            }
        }
        r
    }
}

/// The target `first_unread` picks exists and has not been read.
proof fn lemma_first_unread(
    targets: Seq<Seq<char>>,
    exists: Seq<bool>,
    read: Set<Seq<char>>,
    i: int,
)
    requires
        0 <= i,
    ensures
        first_unread(targets, exists, read, i) matches Some(k) ==> i <= k < targets.len()
            && !read.contains(targets[k]),
    decreases targets.len() - i,
{
    if i < targets.len() && !(exists[i] && !read.contains(targets[i])) {
        lemma_first_unread(targets, exists, read, i + 1);
    }
}

/// What one dispatch produced.
#[derive(Debug)]
pub struct DispatchOutcome {
    pub result: Result<ToolOutput, ToolError>,
    /// Whether this failure withdrew a path's read permission.
    pub invalidated_reads: bool,
}

impl DispatchOutcome {
    /// A call that succeeded.
    pub fn success(output: ToolOutput) -> (r: DispatchOutcome)
        ensures
            r.result == Ok::<ToolOutput, ToolError>(output),
            !r.invalidated_reads,
    {
        DispatchOutcome { result: Ok(output), invalidated_reads: false }
    }

    /// A call that failed, and whether that withdrew a read permission.
    pub fn failure(error: ToolError, invalidated_reads: bool) -> (r: DispatchOutcome)
        ensures
            r.result == Err::<ToolOutput, ToolError>(error),
            r.invalidated_reads == invalidated_reads,
    {
        DispatchOutcome { result: Err(error), invalidated_reads }
    }

    /// Whether the call succeeded.
    pub fn is_ok(&self) -> (r: bool)
        ensures
            r == self.result is Ok,
    {
        self.result.is_ok()
    }

    /// The outcome of a call the guardrails allowed: a failed match on a path
    /// the call was writing means the agent's picture of it is stale.
    pub fn of_call(result: Result<ToolOutput, ToolError>, allowed: &AllowedCall) -> (r:
        DispatchOutcome)
        ensures
            r.result == result,
            r.invalidated_reads == (result matches Err(e) && allowed.write_targets@.len() > 0
                && e is InvalidatesReads),
    {
        match result {
            Ok(output) => DispatchOutcome::success(output),
            Err(error) => {
                let invalidated = allowed.write_targets.len() > 0 && error.invalidates_reads();
                DispatchOutcome::failure(error, invalidated)
            },
        }
    }
}

} // verus!
