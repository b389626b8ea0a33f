//! The side-effect vocabulary the scheduler routes on, what a tool call
//! returns, and the per-agent record of which paths have been read.
//!
//! `Effect` describes **workspace** side effects, not "has side effects at
//! all": a tool that reads a file is `ReadOnly`, and a tool that spawns an
//! agent without touching the workspace would be `ReadOnly` too.

use vstd::prelude::*;

use crate::text::str_eq;

verus! {

broadcast use vstd::seq::group_seq_axioms, vstd::set::group_set_axioms, vstd::seq_lib::group_seq_properties;

/// The workspace side effect of one planned call.
#[derive(Debug, Clone, PartialEq, Eq)]
pub enum Effect {
    /// Reads the workspace and writes nothing. These may run concurrently.
    ReadOnly,
    /// Writes exactly these paths (each an input the tool will resolve).
    WritePaths(Vec<String>),
    /// Takes the workspace exclusively; nothing else may run at the same time.
    Exclusive,
}

/// The result of a successful tool call.
#[derive(Debug, Clone, PartialEq, Eq)]
pub struct ToolOutput {
    pub text: String,
}

impl ToolOutput {
    /// A result carrying `text`.
    pub fn new(text: String) -> (r: ToolOutput)
        ensures
            r.text@ == text@,
    {
        ToolOutput { text }
    }
}

/// Why a tool call failed. `InvalidatesReads` is the one variant the
/// dispatcher reacts to structurally: a write that could not find its match
/// means the agent's picture of the file is stale, so its read permission is
/// withdrawn.
#[derive(Debug, Clone, PartialEq, Eq)]
pub enum ToolError {
    Message(String),
    InvalidatesReads { message: String, path: String },
}

impl ToolError {
    /// A plain failure with this text.
    pub fn message(message: String) -> (e: ToolError)
        ensures
            e matches ToolError::Message(m) && m@ == message@,
    {
        ToolError::Message(message)
    }

    /// The path whose read permission is withdrawn, if any.
    pub fn invalidated_path(&self) -> (p: Option<&str>)
        ensures
            match self {
                ToolError::InvalidatesReads { path, .. } => p matches Some(q) && q@ == path@,
                ToolError::Message(_) => p is None,
            },
    {
        match self {
            ToolError::InvalidatesReads { path, .. } => Some(path.as_str()),
            ToolError::Message(_) => None,
        }
    }

    /// Whether this failure means the path's read permission must be dropped.
    pub fn invalidates_reads(&self) -> (r: bool)
        ensures
            r == self is InvalidatesReads,
    {
        self.invalidated_path().is_some()
    }

    /// The failure as the model reads it.
    pub fn text(&self) -> (s: String)
        ensures
            s@ == match self {
                ToolError::Message(m) => m@,
                ToolError::InvalidatesReads { message, .. } => message@,
            },
    {
        match self {
            ToolError::Message(m) => m.clone(),
            ToolError::InvalidatesReads { message, .. } => message.clone(),
        }
    }
}

/// Which paths an agent has read in this session. Read permission is per
/// agent and never inherited, in either direction.
#[derive(Debug)]
pub struct ReadSet {
    /// Each path once.
    paths: Vec<String>,
}

impl ReadSet {
    /// The paths, in the order they were first recorded.
    pub closed spec fn keys(&self) -> Seq<Seq<char>> {
        self.paths@.map_values(|p: String| p@)
    }

    /// The set of paths read.
    pub closed spec fn view_set(&self) -> Set<Seq<char>> {
        self.keys().to_set()
    }

    /// No path is held twice.
    pub closed spec fn wf(&self) -> bool {
        self.keys().no_duplicates()
    }

    /// Nothing read yet.
    pub fn new() -> (r: ReadSet)
        ensures
            r.wf(),
            r.view_set() == Set::<Seq<char>>::empty(),
    {
        let r = ReadSet { paths: Vec::new() };
        assert(r.keys() =~= Seq::<Seq<char>>::empty());
        assert(r.view_set() =~= Set::<Seq<char>>::empty());
        r
    }

    /// Where `path` is held, if it is.
    fn position(&self, path: &str) -> (r: Option<usize>)
        ensures
            match r {
                Some(i) => i < self.keys().len() && self.keys()[i as int] == path@,
                None => !self.keys().contains(path@),
            },
    {
        let mut i: usize = 0;
        while i < self.paths.len()
            invariant
                i <= self.paths@.len(),
                forall|j: int| 0 <= j < i ==> self.keys()[j] != path@,
            decreases self.paths@.len() - i,
        {
            if str_eq(self.paths[i].as_str(), path) {
                return Some(i);
            }
            i += 1;
        }
        None
    }

    /// Whether `path` has been read.
    pub fn contains(&self, path: &str) -> (r: bool)
        ensures
            r == self.view_set().contains(path@),
    {
        self.position(path).is_some()
    }

    /// Remember that `path` has been read.
    pub fn record(&mut self, path: String)
        requires
            old(self).wf(),
        ensures
            final(self).wf(),
            final(self).view_set() == old(self).view_set().insert(path@),
    {
        if self.position(path.as_str()).is_none() {
            let ghost before = self.keys();
            self.paths.push(path);
            assert(self.keys() =~= before.push(path@));
            proof {
                before.lemma_push_to_set_commute(path@);
            }
        } else {
            assert(self.view_set() =~= self.view_set().insert(path@));
        }
    }

    /// Remember every one of `paths`.
    pub fn record_all(&mut self, paths: Vec<String>)
        requires
            old(self).wf(),
        ensures
            final(self).wf(),
            final(self).view_set() == old(self).view_set().union(
                paths@.map_values(|p: String| p@).to_set(),
            ),
    {
        let ghost start = self.view_set();
        let ghost all = paths@.map_values(|p: String| p@);
        let mut i: usize = 0;
        while i < paths.len()
            invariant
                self.wf(),
                i <= paths@.len(),
                all == paths@.map_values(|p: String| p@),
                self.view_set() == start.union(all.take(i as int).to_set()),
            decreases paths@.len() - i,
        {
            let ghost before = self.view_set();
            self.record(paths[i].clone());
            proof {
                assert(all.take(i + 1) =~= all.take(i as int).push(all[i as int]));
                all.take(i as int).lemma_push_to_set_commute(all[i as int]);
                assert(self.view_set() =~= start.union(all.take(i + 1).to_set()));
            }
            i += 1;
        }
        assert(all.take(paths@.len() as int) =~= all);
    }

    /// Withdraw the read permission for `path`.
    pub fn invalidate(&mut self, path: &str)
        requires
            old(self).wf(),
        ensures
            final(self).wf(),
            final(self).view_set() == old(self).view_set().remove(path@),
    {
        match self.position(path) {
            Some(i) => {
                let ghost before = self.keys();
                self.paths.remove(i);
                assert(self.keys() =~= before.remove(i as int));
                proof {
                    assert forall|x: Seq<char>|
                        self.view_set().contains(x) <==> old(self).view_set().remove(
                            path@,
                        ).contains(x) by {
                        if self.view_set().contains(x) {
                            let j = choose|j: int| 0 <= j < self.keys().len() && self.keys()[j] == x;
                            if j < i {
                                assert(before[j] == x);
                            } else {
                                assert(before[j + 1] == x);
                            }
                        }
                        if old(self).view_set().remove(path@).contains(x) {
                            let j = choose|j: int| 0 <= j < before.len() && before[j] == x;
                            assert(j != i);
                            if j < i {
                                assert(self.keys()[j] == x);
                            } else {
                                assert(self.keys()[j - 1] == x);
                            }
                        }
                    }
                    assert(self.view_set() =~= old(self).view_set().remove(path@));
                }
            },
            None => {
                assert(self.view_set() =~= self.view_set().remove(path@));
            },
        }
    }

    /// How many paths have been read.
    pub fn len(&self) -> (n: usize)
        requires
            self.wf(),
        ensures
            n == self.view_set().len(),
    {
        proof {
            self.keys().unique_seq_to_set();
        }
        self.paths.len()
    }

    /// Whether nothing has been read.
    pub fn is_empty(&self) -> (r: bool)
        requires
            self.wf(),
        ensures
            r == (self.view_set().len() == 0),
    {
        self.len() == 0
    }
}

impl Default for ReadSet {
    /// Nothing read yet.
    fn default() -> (r: ReadSet)
        ensures
            r.wf(),
            r.view_set() == Set::<Seq<char>>::empty(),
    {
        ReadSet::new()
    }
}

/// Resolves a model-supplied read path against the session's working
/// directory.
pub trait ReadPathResolver {
    fn resolve_read(&self, path: &str) -> Result<String, ToolError>;
}

/// Resolves a model-supplied write path against the session's working
/// directory.
pub trait WritePathResolver {
    fn resolve_write(&self, path: &str) -> Result<String, ToolError>;
}

} // verus!
