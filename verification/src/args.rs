//! A tool call's arguments on one line: every key with its value, strings
//! with their newlines escaped, anything else as its compact JSON, the whole
//! capped so a call with a large body still reads as one line.

use vstd::prelude::*;

use crate::text::{join, lemma_join_step, push_char, push_str};
use crate::transcript::{truncate, truncated};

verus! {

broadcast use vstd::seq::group_seq_axioms;

/// The longest an argument summary gets before it is cut.
pub const SUMMARY_MAX: usize = 160;

/// One argument value, as far as the summary reads it: a string's text, or
/// any other value's compact JSON.
#[derive(Debug, Clone, PartialEq, Eq)]
pub enum ArgValue {
    Text(String),
    Json(String),
}

/// A call's arguments, as far as the summary reads them.
#[derive(Debug, Clone, PartialEq, Eq)]
pub enum ArgsShape {
    /// An object: each key with its value, in the order the object keeps.
    Object(Vec<(String, ArgValue)>),
    Null,
    /// Any other single value.
    Single(ArgValue),
}

/// An argument value as the contracts see it.
pub enum ArgValueView {
    Text(Seq<char>),
    Json(Seq<char>),
}

/// A call's arguments as the contracts see them.
pub enum ArgsView {
    Object(Seq<(Seq<char>, ArgValueView)>),
    Null,
    Single(ArgValueView),
}

/// The view of one value.
pub open spec fn value_view(v: ArgValue) -> ArgValueView {
    match v {
        ArgValue::Text(t) => ArgValueView::Text(t@),
        ArgValue::Json(j) => ArgValueView::Json(j@),
    }
}

/// The view of an object's entries.
pub open spec fn entries_view(v: Seq<(String, ArgValue)>) -> Seq<(Seq<char>, ArgValueView)> {
    v.map_values(|e: (String, ArgValue)| (e.0@, value_view(e.1)))
}

impl View for ArgsShape {
    type V = ArgsView;

    open spec fn view(&self) -> ArgsView {
        match self {
            ArgsShape::Object(es) => ArgsView::Object(entries_view(es@)),
            ArgsShape::Null => ArgsView::Null,
            ArgsShape::Single(v) => ArgsView::Single(value_view(*v)),
        }
    }
}

/// What `serde_json` makes of a call's JSON arguments, read down to the
/// values the summary shows. The parse depends on the text alone.
pub uninterp spec fn parsed_args(json: Seq<char>) -> Option<ArgsView>;

/// `serde_json::from_str` into a `Value`, then each value taken apart the way
/// the summary reads it: a string keeps its text, any other value is rendered
/// by `serde_json` as compact JSON. Text that is not JSON gives `None`. The
/// contract names the result `parsed_args` and claims nothing more of it.
#[verifier::external_body]
fn parse_args(json: &str) -> (r: Option<ArgsShape>)
    ensures
        match r {
            Some(shape) => parsed_args(json@) == Some(shape@),
            None => parsed_args(json@) is None,
        },
{
    let value: serde_json::Value = serde_json::from_str(json).ok()?;
    let arg = |v: &serde_json::Value| match v {
        serde_json::Value::String(s) => ArgValue::Text(s.clone()),
        other => ArgValue::Json(other.to_string()),
    };
    Some(match value {
        serde_json::Value::Object(map) => ArgsShape::Object(map.iter().map(|(k, v)| (k.clone(), arg(v))).collect()),
        serde_json::Value::Null => ArgsShape::Null,
        other => ArgsShape::Single(arg(&other)),
    })
}

/// `t` with every newline written as the two characters `\n`.
pub open spec fn escaped(t: Seq<char>) -> Seq<char>
    decreases t.len(),
{
    if t.len() == 0 {
        seq![]
    } else {
        escaped(t.drop_last()) + if t.last() == '\n' {
            seq!['\\', 'n']
        } else {
            seq![t.last()]
        }
    }
}

/// One value as the summary shows it.
pub open spec fn value_text(v: ArgValueView) -> Seq<char> {
    match v {
        ArgValueView::Text(t) => escaped(t),
        ArgValueView::Json(j) => j,
    }
}

/// One entry as the summary shows it: `key=value`.
pub open spec fn entry_text(e: (Seq<char>, ArgValueView)) -> Seq<char> {
    e.0 + "="@ + value_text(e.1)
}

/// The whole summary before it is capped.
pub open spec fn shape_text(s: ArgsView) -> Seq<char> {
    match s {
        ArgsView::Object(es) => join(es.map_values(|e: (Seq<char>, ArgValueView)| entry_text(e)), ", "@),
        ArgsView::Null => seq![],
        ArgsView::Single(v) => value_text(v),
    }
}

/// Write `t` with its newlines escaped onto `s`.
fn push_escaped(s: &mut String, t: &str)
    ensures
        final(s)@ == old(s)@ + escaped(t@),
{
    let chars = crate::text::chars_of(t);
    let mut i: usize = 0;
    while i < chars.len()
        invariant
            i <= chars@.len(),
            chars@ == t@,
            s@ == old(s)@ + escaped(t@.take(i as int)),
        decreases chars@.len() - i,
    {
        let c = chars[i];
        proof {
            assert(t@.take(i + 1).drop_last() =~= t@.take(i as int));
            assert(t@.take(i + 1).last() == c);
        }
        if c == '\n' {
            push_str(s, "\\n");
            proof {
                reveal_strlit("\\n");
                assert("\\n"@ =~= seq!['\\', 'n']);
            }
        } else {
            push_char(s, c);
            assert(seq![c] =~= seq![c]);
        }
        assert(s@ =~= old(s)@ + escaped(t@.take(i + 1)));
        i += 1;
    }
    assert(t@.take(chars@.len() as int) =~= t@);
}

/// Write one value as the summary shows it.
fn push_value(s: &mut String, v: &ArgValue)
    ensures
        final(s)@ == old(s)@ + value_text(value_view(*v)),
{
    match v {
        ArgValue::Text(t) => push_escaped(s, t.as_str()),
        ArgValue::Json(j) => push_str(s, j.as_str()),
    }
}

/// The one-line summary of arguments already taken apart: `key=value` for
/// each entry of an object, joined by `, `; nothing for `null`; a lone value
/// as itself; then capped at [`SUMMARY_MAX`] characters.
pub fn summarize_shape(shape: &ArgsShape) -> (s: String)
    ensures
        s@ == truncated(shape_text(shape@), SUMMARY_MAX as nat),
{
    let mut rendered = String::new();
    match shape {
        ArgsShape::Object(entries) => {
            let ghost parts = entries_view(entries@).map_values(
                |e: (Seq<char>, ArgValueView)| entry_text(e),
            );
            let mut i: usize = 0;
            while i < entries.len()
                invariant
                    i <= entries@.len(),
                    parts == entries_view(entries@).map_values(
                        |e: (Seq<char>, ArgValueView)| entry_text(e),
                    ),
                    rendered@ == join(parts.take(i as int), ", "@),
                decreases entries@.len() - i,
            {
                let ghost before = rendered@;
                if i > 0 {
                    push_str(&mut rendered, ", ");
                }
                let (key, value) = &entries[i];
                push_str(&mut rendered, key.as_str());
                push_str(&mut rendered, "=");
                push_value(&mut rendered, value);
                proof {
                    lemma_join_step(parts, ", "@, i as int);
                    assert(parts[i as int] == entry_text((key@, value_view(*value))));
                    if i == 0 {
                        assert(rendered@ =~= parts[0]);
                    } else {
                        assert(rendered@ =~= before + ", "@ + parts[i as int]);
                    }
                }
                i += 1;
            }
            assert(parts.take(entries@.len() as int) =~= parts);
        },
        ArgsShape::Null => {},
        ArgsShape::Single(v) => push_value(&mut rendered, v),
    }
    truncate(rendered.as_str(), SUMMARY_MAX)
}

/// The one-line summary of a call's JSON arguments; text that is not JSON
/// summarizes to nothing.
pub fn summarize_args(json: &str) -> (s: String)
    ensures
        s@ == match parsed_args(json@) {
            Some(v) => truncated(shape_text(v), SUMMARY_MAX as nat),
            None => seq![],
        },
{
    match parse_args(json) {
        Some(shape) => summarize_shape(&shape),
        None => String::new(),
    }
}

} // verus!
