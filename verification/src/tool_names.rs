//! The names of the tools in the table, and the lexical shape of a tool that
//! was declared in configuration: `custom__<namespace>__<tool>`. No built-in
//! name contains `__`, so whether a tool is a declared one is a question about
//! its name alone.

use vstd::prelude::*;
use vstd::string::StrSliceExecFns;

use crate::text::{
    chars_of, contains_text, find_chars, first_occurrence, lemma_first_occurrence, occurs_at,
    occurs_at_exec,
};

verus! {

/// The shell tool.
pub const BASH_TOOL: &'static str = "bash";

/// Reads a file.
pub const READ_FILE: &'static str = "read_file";

/// Writes a whole file.
pub const WRITE_FILE: &'static str = "write_file";

/// Edits part of a file.
pub const EDIT_FILE: &'static str = "edit_file";

/// Hands work to an executor.
pub const TASK_TOOL: &'static str = "task";

/// The model's own task list.
pub const TODO_TOOL: &'static str = "todo";

/// Puts a question to the user.
pub const ASK_USER_QUESTION_TOOL: &'static str = "ask_user_question";

/// Loads a skill's instructions.
pub const SKILL_TOOL: &'static str = "skill";

/// Builds a map of the repository's symbols.
pub const REPO_MAP_TOOL: &'static str = "repo_map";

/// What every declared tool's name starts with.
pub const CUSTOM_TOOL_PREFIX: &'static str = "custom__";

/// What separates a declared tool's namespace from its name.
pub const CUSTOM_TOOL_SEPARATOR: &'static str = "__";

/// A name that only a declared tool can have.
pub open spec fn is_custom_name(name: Seq<char>) -> bool {
    contains_text(name, CUSTOM_TOOL_SEPARATOR@)
}

/// Whether a tool name came from configuration rather than from the built-in
/// table.
pub fn is_custom_tool(name: &str) -> (r: bool)
    ensures
        r == is_custom_name(name@),
{
    let v = chars_of(name);
    let sep = chars_of(CUSTOM_TOOL_SEPARATOR);
    let r = find_chars(&v, &sep);
    proof {
        lemma_first_occurrence(v@, sep@, 0);
        if r is None {
            assert forall|i: int| !occurs_at(v@, sep@, i) by {
                if i < 0 {
                }
            }
        }
    }
    r.is_some()
}

/// The `(namespace, tool)` a declared tool's name carries when it has both:
/// after the prefix, the text up to the first separator and the text after it,
/// neither empty.
pub open spec fn custom_parts(name: Seq<char>) -> Option<(Seq<char>, Seq<char>)> {
    let p = CUSTOM_TOOL_PREFIX@;
    let sep = CUSTOM_TOOL_SEPARATOR@;
    if name.len() >= p.len() && name.take(p.len() as int) == p {
        let rest = name.skip(p.len() as int);
        match first_occurrence(rest, sep) {
            Some(k) => {
                let namespace = rest.take(k);
                let tool = rest.skip(k + sep.len());
                if namespace.len() > 0 && tool.len() > 0 {
                    Some((namespace, tool))
                } else {
                    None
                }
            },
            None => None,
        }
    } else {
        None
    }
}

/// `custom__git__status` reads back as `("git", "status")`; any other shape is
/// `None`.
pub fn custom_tool_parts(name: &str) -> (r: Option<(&str, &str)>)
    ensures
        match r {
            Some((namespace, tool)) => custom_parts(name@) == Some((namespace@, tool@)),
            None => custom_parts(name@) is None,
        },
{
    let v = chars_of(name);
    let prefix = chars_of(CUSTOM_TOOL_PREFIX);
    if !occurs_at_exec(&v, 0, &prefix) {
        proof {
            if name@.len() >= prefix@.len() && name@.take(prefix@.len() as int) == prefix@ {
                assert(name@.subrange(0, prefix@.len() as int) =~= name@.take(
                    prefix@.len() as int,
                ));
            }
        }
        return None;
    }
    assert(name@.take(prefix@.len() as int) =~= name@.subrange(0, prefix@.len() as int));
    let rest = name.substring_char(prefix.len(), v.len());
    assert(rest@ =~= name@.skip(prefix@.len() as int));
    let rv = chars_of(rest);
    let sep = chars_of(CUSTOM_TOOL_SEPARATOR);
    match find_chars(&rv, &sep) {
        Some(k) => {
            proof {
                lemma_first_occurrence(rv@, sep@, 0);
            }
            let after = k + sep.len();
            if k == 0 || after == rv.len() {
                return None;
            }
            let namespace = rest.substring_char(0, k);
            let tool = rest.substring_char(after, rv.len());
            assert(namespace@ =~= rest@.take(k as int));
            assert(tool@ =~= rest@.skip(after as int));
            Some((namespace, tool))
        },
        None => None,
    }
}

} // verus!
