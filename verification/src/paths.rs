//! Workspace containment for model-supplied paths.
//!
//! A path the model supplies is confined to the session cwd and its subtree,
//! because the agent's own API key sits in the user's home directory. The
//! rule limits paths the model supplies, not paths the harness reads for
//! itself. Paths are held as their components, so containment is a
//! component-wise prefix test and `/work-evil` cannot pass for a child of
//! `/work`; the file system (canonicalizing, the process cwd) stays with the
//! caller.

use vstd::prelude::*;

use crate::text::{push_str, str_eq};
use crate::tool::ToolError;

verus! {

/// One component of a path, as `Path::components` yields it on Unix.
#[derive(Debug, Clone, PartialEq, Eq)]
pub enum PathPart {
    /// The root, `/`.
    Root,
    /// `.`.
    Here,
    /// `..`.
    Up,
    /// A name.
    Name(String),
}

/// A component as the contracts see it.
pub enum PartView {
    Root,
    Here,
    Up,
    Name(Seq<char>),
}

/// The component as the contracts see it.
pub open spec fn part_view(p: PathPart) -> PartView {
    match p {
        PathPart::Root => PartView::Root,
        PathPart::Here => PartView::Here,
        PathPart::Up => PartView::Up,
        PathPart::Name(n) => PartView::Name(n@),
    }
}

/// The components as the contracts see them.
pub open spec fn parts_view(v: Seq<PathPart>) -> Seq<PartView> {
    v.map_values(|p: PathPart| part_view(p))
}

/// `cwd` is `path` or an ancestor of it, component by component.
pub open spec fn within(path: Seq<PartView>, cwd: Seq<PartView>) -> bool {
    cwd.len() <= path.len() && path.take(cwd.len() as int) == cwd
}

/// `out` with its last component taken off, as `PathBuf::pop` does: the root
/// and the empty path stay as they are.
pub open spec fn popped(out: Seq<PartView>) -> Seq<PartView> {
    if out.len() > 0 && !(out.last() is Root) {
        out.drop_last()
    } else {
        out
    }
}

/// `parts` with `.` and `..` folded lexically: `.` is dropped, `..` takes
/// off the component before it, and a root starts the path over.
pub open spec fn folded(parts: Seq<PartView>) -> Seq<PartView>
    decreases parts.len(),
{
    if parts.len() == 0 {
        seq![]
    } else {
        let out = folded(parts.drop_last());
        match parts.last() {
            PartView::Here => out,
            PartView::Up => popped(out),
            PartView::Root => seq![PartView::Root],
            PartView::Name(n) => out.push(PartView::Name(n)),
        }
    }
}

/// The text of one component.
pub open spec fn part_text(p: PartView) -> Seq<char> {
    match p {
        PartView::Root => "/"@,
        PartView::Here => "."@,
        PartView::Up => ".."@,
        PartView::Name(n) => n,
    }
}

/// A path as text: its components joined by `/`, with none after the root.
pub open spec fn shown(parts: Seq<PartView>) -> Seq<char>
    decreases parts.len(),
{
    if parts.len() == 0 {
        seq![]
    } else if parts.len() == 1 {
        part_text(parts[0])
    } else {
        let before = parts.drop_last();
        shown(before) + if before.last() is Root {
            seq![]
        } else {
            "/"@
        } + part_text(parts.last())
    }
}

/// The refusal for a path outside the workspace.
pub open spec fn outside_text(path: Seq<PartView>, cwd: Seq<PartView>) -> Seq<char> {
    "path "@ + shown(path) + " is outside the session workspace "@ + shown(cwd)
        + "; file tools are confined to the workspace (a permission rule is how you widen this)"@
}

/// A copy of one component.
fn copy_part(p: &PathPart) -> (r: PathPart)
    ensures
        part_view(r) == part_view(*p),
{
    match p {
        PathPart::Root => PathPart::Root,
        PathPart::Here => PathPart::Here,
        PathPart::Up => PathPart::Up,
        PathPart::Name(n) => PathPart::Name(n.clone()),
    }
}

/// Whether two components are the same.
fn same_part(a: &PathPart, b: &PathPart) -> (r: bool)
    ensures
        r == (part_view(*a) == part_view(*b)),
{
    match (a, b) {
        (PathPart::Root, PathPart::Root) => true,
        (PathPart::Here, PathPart::Here) => true,
        (PathPart::Up, PathPart::Up) => true,
        (PathPart::Name(x), PathPart::Name(y)) => str_eq(x.as_str(), y.as_str()),
        _ => false,
    }
}

/// Whether `cwd` is `path` or an ancestor of it, compared component by
/// component, as `Path::starts_with` compares.
pub fn is_within(path: &[PathPart], cwd: &[PathPart]) -> (r: bool)
    ensures
        r == within(parts_view(path@), parts_view(cwd@)),
{
    if cwd.len() > path.len() {
        return false;
    }
    let mut i: usize = 0;
    while i < cwd.len()
        invariant
            cwd@.len() <= path@.len(),
            i <= cwd@.len(),
            forall|j: int| 0 <= j < i ==> part_view(#[trigger] path@[j]) == part_view(cwd@[j]),
        decreases cwd@.len() - i,
    {
        if !same_part(&path[i], &cwd[i]) {
            assert(parts_view(path@).take(cwd@.len() as int)[i as int] != parts_view(cwd@)[i as int]);
            return false;
        }
        i += 1;
    }
    assert(parts_view(path@).take(cwd@.len() as int) =~= parts_view(cwd@));
    true
}

/// `base` with `.` and `..` folded lexically, for when the cwd does not exist
/// yet and cannot be canonicalized.
pub fn lexical_absolute(base: &[PathPart]) -> (out: Vec<PathPart>)
    ensures
        parts_view(out@) == folded(parts_view(base@)),
{
    let mut out: Vec<PathPart> = Vec::new();
    let mut i: usize = 0;
    while i < base.len()
        invariant
            i <= base@.len(),
            parts_view(out@) == folded(parts_view(base@).take(i as int)),
        decreases base@.len() - i,
    {
        let ghost before = parts_view(out@);
        proof {
            let t = parts_view(base@).take(i + 1);
            assert(t.drop_last() =~= parts_view(base@).take(i as int));
            assert(t.last() == part_view(base@[i as int]));
        }
        match &base[i] {
            PathPart::Here => {},
            PathPart::Up => {
                let n = out.len();
                if n > 0 {
                    let is_root = match &out[n - 1] {
                        PathPart::Root => true,
                        _ => false,
                    };
                    if !is_root {
                        out.pop();
                        assert(parts_view(out@) =~= before.drop_last());
                    }
                }
            },
            PathPart::Root => {
                out = vec![PathPart::Root];
                assert(parts_view(out@) =~= seq![PartView::Root]);
            },
            PathPart::Name(n) => {
                out.push(PathPart::Name(n.clone()));
                assert(parts_view(out@) =~= before.push(part_view(base@[i as int])));
            },
        }
        i += 1;
    }
    assert(parts_view(base@).take(base@.len() as int) =~= parts_view(base@));
    out
}

/// Append the text of one component.
fn push_part(s: &mut String, p: &PathPart)
    ensures
        final(s)@ == old(s)@ + part_text(part_view(*p)),
{
    match p {
        PathPart::Root => push_str(s, "/"),
        PathPart::Here => push_str(s, "."),
        PathPart::Up => push_str(s, ".."),
        PathPart::Name(n) => push_str(s, n.as_str()),
    }
}

/// A path as text: its components joined by `/`, with none after the root.
pub fn show(parts: &[PathPart]) -> (s: String)
    ensures
        s@ == shown(parts_view(parts@)),
{
    let mut s = String::new();
    let n = parts.len();
    if n == 0 {
        return s;
    }
    push_part(&mut s, &parts[0]);
    assert(parts_view(parts@).take(1) =~= seq![part_view(parts@[0])]);
    let mut i: usize = 1;
    while i < n
        invariant
            n == parts@.len(),
            1 <= i <= n,
            s@ == shown(parts_view(parts@).take(i as int)),
        decreases n - i,
    {
        proof {
            let t = parts_view(parts@).take(i + 1);
            assert(t.drop_last() =~= parts_view(parts@).take(i as int));
            assert(t.drop_last().last() == part_view(parts@[i - 1]));
        }
        let root_before = match &parts[i - 1] {
            PathPart::Root => true,
            _ => false,
        };
        if !root_before {
            push_str(&mut s, "/");
        }
        push_part(&mut s, &parts[i]);
        i += 1;
    }
    assert(parts_view(parts@).take(n as int) =~= parts_view(parts@));
    s
}

/// Model-supplied paths resolved against one session cwd.
#[derive(Debug)]
pub struct SessionPaths {
    /// The canonical session cwd, as its components.
    cwd: Vec<PathPart>,
}

impl SessionPaths {
    /// The session cwd the paths are confined to.
    pub closed spec fn cwd_view(&self) -> Seq<PartView> {
        parts_view(self.cwd@)
    }

    /// Paths confined to `cwd`, the session cwd as canonicalized by the
    /// caller (or folded by [`lexical_absolute`] where it does not exist yet).
    pub fn new(cwd: Vec<PathPart>) -> (r: SessionPaths)
        ensures
            r.cwd_view() == parts_view(cwd@),
    {
        SessionPaths { cwd }
    }

    /// The session cwd.
    pub fn cwd(&self) -> (r: &[PathPart])
        ensures
            parts_view(r@) == self.cwd_view(),
    {
        self.cwd.as_slice()
    }

    /// A model-supplied path against the cwd: an absolute one as it is, a
    /// relative one under the cwd.
    pub fn join(&self, path: &[PathPart]) -> (r: Vec<PathPart>)
        ensures
            parts_view(r@) == if path@.len() > 0 && path@[0] is Root {
                parts_view(path@)
            } else {
                self.cwd_view() + parts_view(path@)
            },
    {
        let absolute = path.len() > 0 && match &path[0] {
            PathPart::Root => true,
            _ => false,
        };
        let mut out: Vec<PathPart> = Vec::new();
        if !absolute {
            let mut i: usize = 0;
            while i < self.cwd.len()
                invariant
                    i <= self.cwd@.len(),
                    parts_view(out@) == parts_view(self.cwd@).take(i as int),
                decreases self.cwd@.len() - i,
            {
                let q = copy_part(&self.cwd[i]);
                let ghost before = out@;
                out.push(q);
                assert(parts_view(out@) =~= parts_view(before).push(part_view(q)));
                assert(parts_view(self.cwd@).take(i + 1) =~= parts_view(self.cwd@).take(i as int).push(
                    part_view(self.cwd@[i as int]),
                ));
                i += 1;
            }
            assert(parts_view(self.cwd@).take(self.cwd@.len() as int) =~= parts_view(self.cwd@));
        }
        let ghost base = parts_view(out@);
        let mut k: usize = 0;
        while k < path.len()
            invariant
                k <= path@.len(),
                parts_view(out@) == base + parts_view(path@).take(k as int),
            decreases path@.len() - k,
        {
            let q = copy_part(&path[k]);
            let ghost before = out@;
            out.push(q);
            assert(parts_view(out@) =~= parts_view(before).push(part_view(q)));
            assert(parts_view(path@).take(k + 1) =~= parts_view(path@).take(k as int).push(
                part_view(path@[k as int]),
            ));
            assert(parts_view(out@) =~= base + parts_view(path@).take(k + 1));
            k += 1;
        }
        assert(parts_view(path@).take(path@.len() as int) =~= parts_view(path@));
        proof {
            if absolute {
                assert(base =~= seq![]);
                assert(base + parts_view(path@) =~= parts_view(path@));
            }
        }
        out
    }

    /// The containment rule: a resolved path passes when the cwd is it or one
    /// of its ancestors, component by component; any other is refused with a
    /// message naming both.
    pub fn check_contained(&self, resolved: &[PathPart]) -> (r: Result<(), ToolError>)
        ensures
            match r {
                Ok(()) => within(parts_view(resolved@), self.cwd_view()),
                Err(e) => !within(parts_view(resolved@), self.cwd_view()) && (e matches ToolError::Message(
                    m,
                ) && m@ == outside_text(parts_view(resolved@), self.cwd_view())),
            },
    {
        if is_within(resolved, self.cwd.as_slice()) {
            return Ok(());
        }
        let mut s = String::new();
        push_str(&mut s, "path ");
        push_str(&mut s, show(resolved).as_str());
        push_str(&mut s, " is outside the session workspace ");
        push_str(&mut s, show(self.cwd.as_slice()).as_str());
        push_str(
            &mut s,
            "; file tools are confined to the workspace (a permission rule is how you widen this)",
        );
        Err(ToolError::message(s))
    }
}

/// A path inside the workspace stays inside it however deep it goes.
pub proof fn deeper_paths_stay_inside(path: Seq<PartView>, more: Seq<PartView>, cwd: Seq<PartView>)
    requires
        within(path, cwd),
    ensures
        within(path + more, cwd),
{
    assert((path + more).take(cwd.len() as int) =~= path.take(cwd.len() as int));
}

/// A relative path joined to the cwd starts inside it, before any `..` is
/// folded.
pub proof fn joined_relative_paths_start_inside(cwd: Seq<PartView>, path: Seq<PartView>)
    ensures
        within(cwd + path, cwd),
{
    assert((cwd + path).take(cwd.len() as int) =~= cwd);
}

/// A folded path holds no `.` and no `..`.
pub proof fn folding_leaves_no_dots(parts: Seq<PartView>)
    ensures
        forall|i: int|
            0 <= i < folded(parts).len() ==> !(#[trigger] folded(parts)[i] is Here) && !(folded(
                parts,
            )[i] is Up),
    decreases parts.len(),
{
    if parts.len() > 0 {
        folding_leaves_no_dots(parts.drop_last());
    }
}

/// A path that starts at the root still starts there once folded: `..`
/// never climbs above the root.
pub proof fn folding_keeps_the_root(parts: Seq<PartView>)
    requires
        parts.len() > 0,
        parts[0] is Root,
    ensures
        folded(parts).len() > 0 && folded(parts)[0] is Root,
    decreases parts.len(),
{
    if parts.len() > 1 {
        folding_keeps_the_root(parts.drop_last());
        assert(parts.drop_last()[0] == parts[0]);
    } else {
        assert(parts.drop_last() =~= seq![]);
    }
}

} // verus!
