//! The model's own plan: a list of items with their status, submitted whole
//! by each `todo` call, and the sidebar page's latch that decides whether the
//! page is offered at all.
//!
//! A call submits the entire list, so "the later call's list is the one in
//! force" is well defined, and the list lives in the call's own arguments: the
//! result is only a receipt.

use vstd::prelude::*;

use crate::placeholder::{trim_by, trim_space, Trimmed};
use crate::text::{decimal, push_decimal, push_str, str_eq};
use crate::tool::{ToolError, ToolOutput};
use crate::tool_names::TODO_TOOL;

verus! {

broadcast use vstd::seq::group_seq_axioms;

/// Where one item stands.
#[derive(Debug, Clone, Copy, PartialEq, Eq, Structural)]
pub enum Status {
    /// Written down, not started.
    Pending,
    /// The one being worked on (nothing enforces that there is at most one).
    InProgress,
    /// Done.
    Completed,
}

/// The wire spelling of a status.
pub open spec fn status_word(status: Status) -> Seq<char> {
    match status {
        Status::Pending => "pending"@,
        Status::InProgress => "in_progress"@,
        Status::Completed => "completed"@,
    }
}

impl Status {
    /// The wire spelling: the only three words `status` accepts.
    pub fn as_str(self) -> (s: &'static str)
        ensures
            s@ == status_word(self),
    {
        match self {
            Status::Pending => "pending",
            Status::InProgress => "in_progress",
            Status::Completed => "completed",
        }
    }

    /// The status a wire word spells, if it spells one.
    pub fn parse(word: &str) -> (r: Option<Status>)
        ensures
            match r {
                Some(s) => status_word(s) == word@,
                None => forall|s: Status| status_word(s) != word@,
            },
    {
        if str_eq(word, "pending") {
            Some(Status::Pending)
        } else if str_eq(word, "in_progress") {
            Some(Status::InProgress)
        } else if str_eq(word, "completed") {
            Some(Status::Completed)
        } else {
            proof {
                assert forall|s: Status| status_word(s) != word@ by {
                    match s {
                        Status::Pending => {},
                        Status::InProgress => {},
                        Status::Completed => {},
                    }
                }
            }
            None
        }
    }
}

/// One item of a list, as a call's arguments carry it.
#[derive(Debug, Clone, PartialEq, Eq)]
pub struct Item {
    pub content: String,
    pub status: Status,
}

/// How many of the first `n` items are done.
pub open spec fn completed_count(items: Seq<Item>, n: int) -> nat
    decreases n,
{
    if n <= 0 {
        0
    } else {
        completed_count(items, n - 1) + if items[n - 1].status == Status::Completed {
            1nat
        } else {
            0nat
        }
    }
}

/// How many of a list's items are done. One expression for the receipt and
/// the sidebar's count row, so they cannot disagree.
pub fn completed(items: &[Item]) -> (n: usize)
    ensures
        n == completed_count(items@, items@.len() as int),
{
    let mut n: usize = 0;
    let mut i: usize = 0;
    while i < items.len()
        invariant
            i <= items@.len(),
            n == completed_count(items@, i as int),
            n <= i,
        decreases items@.len() - i,
    {
        if items[i].status == Status::Completed {
            n += 1;
        }
        i += 1;
    }
    n
}

/// What the model is told a call did: short, and deliberately not the list.
pub open spec fn receipt_text(items: Seq<Item>) -> Seq<char> {
    if items.len() == 0 {
        TODO_TOOL@ + ": cleared"@
    } else {
        TODO_TOOL@ + ": "@ + decimal(items.len()) + if items.len() == 1 {
            " item"@
        } else {
            " items"@
        } + " ("@ + decimal(completed_count(items, items.len() as int)) + " completed)"@
    }
}

/// The receipt a `todo` call returns.
pub fn receipt(items: &[Item]) -> (s: String)
    ensures
        s@ == receipt_text(items@),
{
    let mut s = String::new();
    push_str(&mut s, TODO_TOOL);
    if items.len() == 0 {
        push_str(&mut s, ": cleared");
        return s;
    }
    push_str(&mut s, ": ");
    push_decimal(&mut s, items.len() as u64);
    if items.len() == 1 {
        push_str(&mut s, " item");
    } else {
        push_str(&mut s, " items");
    }
    push_str(&mut s, " (");
    let done = completed(items);
    push_decimal(&mut s, done as u64);
    push_str(&mut s, " completed)");
    s
}


/// A value of a `todo` call's arguments, told apart as far as the reader
/// needs: text, `null`, or anything else.
#[derive(Debug, Clone, PartialEq, Eq)]
pub enum FieldValue {
    Null,
    Text(String),
    Other,
}

/// One entry of the `items` array: an object's fields in their order, or
/// something that is not an object.
#[derive(Debug, Clone, PartialEq, Eq)]
pub enum RawItem {
    NotObject,
    Object(Vec<(String, FieldValue)>),
}

/// A value the arguments object holds: `null`, an array of entries, or
/// anything else.
#[derive(Debug, Clone, PartialEq, Eq)]
pub enum RawItems {
    Null,
    Array(Vec<RawItem>),
    Other,
}

/// A `todo` call's arguments: an object's entries in their order, or
/// something that is not an object.
#[derive(Debug, Clone, PartialEq, Eq)]
pub enum TodoArgs {
    NotObject,
    Object(Vec<(String, RawItems)>),
}

/// The first of the entries from `i` on whose key is not `items`.
pub open spec fn stray_argument(entries: Seq<(String, RawItems)>, i: int) -> Option<int>
    decreases entries.len() - i,
{
    if i < 0 || i >= entries.len() {
        None
    } else if entries[i].0@ != "items"@ {
        Some(i)
    } else {
        stray_argument(entries, i + 1)
    }
}

/// The value of the first entry from `i` on keyed `items`.
pub open spec fn items_entry(entries: Seq<(String, RawItems)>, i: int) -> Option<RawItems>
    decreases entries.len() - i,
{
    if i < 0 || i >= entries.len() {
        None
    } else if entries[i].0@ == "items"@ {
        Some(entries[i].1)
    } else {
        items_entry(entries, i + 1)
    }
}

/// The first of the fields from `i` on that is neither `content` nor `status`.
pub open spec fn stray_field(fields: Seq<(String, FieldValue)>, i: int) -> Option<int>
    decreases fields.len() - i,
{
    if i < 0 || i >= fields.len() {
        None
    } else if fields[i].0@ != "content"@ && fields[i].0@ != "status"@ {
        Some(i)
    } else {
        stray_field(fields, i + 1)
    }
}

/// The text of the first field from `i` on keyed `key`, when it is text.
pub open spec fn field_text(fields: Seq<(String, FieldValue)>, key: Seq<char>, i: int) -> Option<
    Seq<char>,
>
    decreases fields.len() - i,
{
    if i < 0 || i >= fields.len() {
        None
    } else if fields[i].0@ == key {
        match fields[i].1 {
            FieldValue::Text(t) => Some(t@),
            _ => None,
        }
    } else {
        field_text(fields, key, i + 1)
    }
}

/// The status a word spells, if it spells one.
pub open spec fn status_of(word: Seq<char>) -> Option<Status> {
    if word == status_word(Status::Pending) {
        Some(Status::Pending)
    } else if word == status_word(Status::InProgress) {
        Some(Status::InProgress)
    } else if word == status_word(Status::Completed) {
        Some(Status::Completed)
    } else {
        None
    }
}

/// `todo: item {index}`, the start of every message about one item.
pub open spec fn item_prefix(index: nat) -> Seq<char> {
    TODO_TOOL@ + ": item "@ + decimal(index)
}

/// The arguments are not an object.
pub open spec fn not_object_text() -> Seq<char> {
    TODO_TOOL@ + ": the arguments must be a JSON object with an `items` array"@
}

/// An argument other than `items`.
pub open spec fn stray_argument_text(key: Seq<char>) -> Seq<char> {
    TODO_TOOL@ + ": unknown argument `"@ + key + "`; this tool takes `items` and nothing else"@
}

/// `items` is neither an array nor `null`.
pub open spec fn not_array_text() -> Seq<char> {
    TODO_TOOL@
        + ": `items` must be an array of `{content, status}` objects; send `[]` to clear the list"@
}

/// The reading of one entry of `items`: its content, trimmed, and its
/// status, or the message naming what is wrong with it.
pub open spec fn item_reading(raw: RawItem, index: nat) -> Result<(Seq<char>, Status), Seq<char>> {
    match raw {
        RawItem::NotObject => Err(
            item_prefix(index) + " is not an object; every item is `{content, status}`"@,
        ),
        RawItem::Object(fields) => match stray_field(fields@, 0) {
            Some(k) => Err(
                item_prefix(index) + " has an unknown field `"@ + fields@[k].0@
                    + "`; every item is `{content, status}`"@,
            ),
            None => {
                let content = match field_text(fields@, "content"@, 0) {
                    Some(t) => trim_by(t, Trimmed::Space),
                    None => seq![],
                };
                if content.len() == 0 {
                    Err(
                        item_prefix(index)
                            + " needs a non-empty `content` — one line saying what it is"@,
                    )
                } else {
                    match field_text(fields@, "status"@, 0) {
                        Some(word) => match status_of(word) {
                            Some(s) => Ok((content, s)),
                            None => Err(
                                item_prefix(index) + " has `status` = `"@ + word
                                    + "`; the three words are `pending`, `in_progress` and `completed`"@,
                            ),
                        },
                        None => Err(
                            item_prefix(index)
                                + " needs a `status` of `pending`, `in_progress` or `completed`"@,
                        ),
                    }
                }
            },
        },
    }
}

/// The readings of the entries from `i` on, or the message about the first
/// one that cannot be read.
pub open spec fn items_reading(raw: Seq<RawItem>, i: int) -> Result<
    Seq<(Seq<char>, Status)>,
    Seq<char>,
>
    decreases raw.len() - i,
{
    if i < 0 || i >= raw.len() {
        Ok(seq![])
    } else {
        match item_reading(raw[i], i as nat) {
            Err(e) => Err(e),
            Ok(item) => match items_reading(raw, i + 1) {
                Ok(rest) => Ok(seq![item] + rest),
                Err(e) => Err(e),
            },
        }
    }
}

/// What a `todo` call's arguments say: the list, or the message naming the
/// first mistake. A missing or `null` list is an empty one, which is how a
/// list is cleared.
pub open spec fn todo_reading(args: TodoArgs) -> Result<Seq<(Seq<char>, Status)>, Seq<char>> {
    match args {
        TodoArgs::NotObject => Err(not_object_text()),
        TodoArgs::Object(entries) => match stray_argument(entries@, 0) {
            Some(k) => Err(stray_argument_text(entries@[k].0@)),
            None => match items_entry(entries@, 0) {
                None => Ok(seq![]),
                Some(RawItems::Null) => Ok(seq![]),
                Some(RawItems::Other) => Err(not_array_text()),
                Some(RawItems::Array(raw)) => items_reading(raw@, 0),
            },
        },
    }
}

/// The items as the readings see them.
pub open spec fn item_readings(items: Seq<Item>) -> Seq<(Seq<char>, Status)> {
    items.map_values(|it: Item| (it.content@, it.status))
}

/// The `todo` tool.
pub struct TodoTool;

/// The first entry whose key is not `items`.
fn find_stray_argument(entries: &Vec<(String, RawItems)>) -> (r: Option<usize>)
    ensures
        r matches Some(k) ==> k < entries@.len(),
        match (r, stray_argument(entries@, 0)) {
            (Some(k), Some(j)) => k as int == j,
            (None, None) => true,
            _ => false,
        },
{
    let mut i: usize = 0;
    while i < entries.len()
        invariant
            i <= entries@.len(),
            stray_argument(entries@, 0) == stray_argument(entries@, i as int),
        decreases entries@.len() - i,
    {
        if !str_eq(entries[i].0.as_str(), "items") {
            return Some(i);
        }
        i += 1;
    }
    None
}

/// The value of the first entry keyed `items`.
fn find_items(entries: &Vec<(String, RawItems)>) -> (r: Option<&RawItems>)
    ensures
        match (r, items_entry(entries@, 0)) {
            (Some(v), Some(w)) => *v == w,
            (None, None) => true,
            _ => false,
        },
{
    let mut i: usize = 0;
    while i < entries.len()
        invariant
            i <= entries@.len(),
            items_entry(entries@, 0) == items_entry(entries@, i as int),
        decreases entries@.len() - i,
    {
        if str_eq(entries[i].0.as_str(), "items") {
            return Some(&entries[i].1);
        }
        i += 1;
    }
    None
}

/// The first field that is neither `content` nor `status`.
fn find_stray_field(fields: &Vec<(String, FieldValue)>) -> (r: Option<usize>)
    ensures
        r matches Some(k) ==> k < fields@.len(),
        match (r, stray_field(fields@, 0)) {
            (Some(k), Some(j)) => k as int == j,
            (None, None) => true,
            _ => false,
        },
{
    let mut i: usize = 0;
    while i < fields.len()
        invariant
            i <= fields@.len(),
            stray_field(fields@, 0) == stray_field(fields@, i as int),
        decreases fields@.len() - i,
    {
        let key = fields[i].0.as_str();
        if !str_eq(key, "content") && !str_eq(key, "status") {
            return Some(i);
        }
        i += 1;
    }
    None
}

/// The text of the first field keyed `key`, when it is text.
fn find_text<'a>(fields: &'a Vec<(String, FieldValue)>, key: &str) -> (r: Option<&'a str>)
    ensures
        match (r, field_text(fields@, key@, 0)) {
            (Some(t), Some(u)) => t@ == u,
            (None, None) => true,
            _ => false,
        },
{
    let mut i: usize = 0;
    while i < fields.len()
        invariant
            i <= fields@.len(),
            field_text(fields@, key@, 0) == field_text(fields@, key@, i as int),
        decreases fields@.len() - i,
    {
        if str_eq(fields[i].0.as_str(), key) {
            return match &fields[i].1 {
                FieldValue::Text(t) => Some(t.as_str()),
                _ => None,
            };
        }
        i += 1;
    }
    None
}

/// A message about one item: `todo: item {index}` and then `rest`.
fn item_message(index: usize, rest: &str) -> (e: ToolError)
    ensures
        e matches ToolError::Message(m) && m@ == item_prefix(index as nat) + rest@,
{
    let mut s = String::new();
    push_str(&mut s, TODO_TOOL);
    push_str(&mut s, ": item ");
    push_decimal(&mut s, index as u64);
    push_str(&mut s, rest);
    ToolError::message(s)
}

/// The error a reading's message is returned as.
pub open spec fn is_message(e: ToolError, m: Seq<char>) -> bool {
    e matches ToolError::Message(t) && t@ == m
}

/// Read one entry of `items`.
fn read_item(raw: &RawItem, index: usize) -> (r: Result<Item, ToolError>)
    ensures
        match (r, item_reading(*raw, index as nat)) {
            (Ok(it), Ok((c, s))) => it.content@ == c && it.status == s,
            (Err(e), Err(m)) => is_message(e, m),
            _ => false,
        },
{
    let fields = match raw {
        RawItem::NotObject => {
            return Err(item_message(index, " is not an object; every item is `{content, status}`"));
        },
        RawItem::Object(fields) => fields,
    };
    if let Some(k) = find_stray_field(fields) {
        let mut s = String::new();
        push_str(&mut s, TODO_TOOL);
        push_str(&mut s, ": item ");
        push_decimal(&mut s, index as u64);
        push_str(&mut s, " has an unknown field `");
        push_str(&mut s, fields[k].0.as_str());
        push_str(&mut s, "`; every item is `{content, status}`");
        return Err(ToolError::message(s));
    }
    let content = match find_text(fields, "content") {
        Some(t) => trim_space(t),
        None => String::new(),
    };
    if content.unicode_len() == 0 {
        return Err(
            item_message(index, " needs a non-empty `content` — one line saying what it is"),
        );
    }
    match find_text(fields, "status") {
        Some(word) => match Status::parse(word) {
            Some(status) => {
                proof {
                    reveal_strlit("pending");
                    reveal_strlit("in_progress");
                    reveal_strlit("completed");
                    assert("pending"@.len() == 7);
                    assert("in_progress"@.len() == 11);
                    assert("completed"@.len() == 9);
                    assert(status_word(status) == word@);
                    match status {
                        Status::Pending => {},
                        Status::InProgress => {
                            assert(status_word(Status::Pending) != word@);
                        },
                        Status::Completed => {
                            assert(status_word(Status::Pending) != word@);
                            assert(status_word(Status::InProgress) != word@);
                        },
                    }
                    assert(status_of(word@) == Some(status));
                }
                Ok(Item { content, status })
            },
            None => {
                proof {
                    assert(status_word(Status::Pending) != word@);
                    assert(status_word(Status::InProgress) != word@);
                    assert(status_word(Status::Completed) != word@);
                }
                let mut s = String::new();
                push_str(&mut s, TODO_TOOL);
                push_str(&mut s, ": item ");
                push_decimal(&mut s, index as u64);
                push_str(&mut s, " has `status` = `");
                push_str(&mut s, word);
                push_str(
                    &mut s,
                    "`; the three words are `pending`, `in_progress` and `completed`",
                );
                Err(ToolError::message(s))
            },
        },
        None => Err(
            item_message(index, " needs a `status` of `pending`, `in_progress` or `completed`"),
        ),
    }
}

/// Read every entry of `items`, refusing the whole list at the first one
/// that cannot be read.
fn read_all(raw: &Vec<RawItem>) -> (r: Result<Vec<Item>, ToolError>)
    ensures
        match (r, items_reading(raw@, 0)) {
            (Ok(items), Ok(list)) => item_readings(items@) == list,
            (Err(e), Err(m)) => is_message(e, m),
            _ => false,
        },
{
    let mut items: Vec<Item> = Vec::new();
    let mut i: usize = 0;
    while i < raw.len()
        invariant
            i <= raw@.len(),
            items_reading(raw@, 0) == match items_reading(raw@, i as int) {
                Ok(rest) => Ok(item_readings(items@) + rest),
                Err(e) => Err(e),
            },
        decreases raw@.len() - i,
    {
        let item = read_item(&raw[i], i);
        match item {
            Ok(it) => {
                let ghost before = items@;
                items.push(it);
                proof {
                    assert(item_readings(before.push(it)) =~= item_readings(before).push(
                        (it.content@, it.status),
                    ));
                    match items_reading(raw@, i + 1) {
                        Ok(rest) => {
                            assert(item_readings(before) + (seq![(it.content@, it.status)] + rest)
                                =~= item_readings(before).push((it.content@, it.status)) + rest);
                        },
                        Err(_) => {},
                    }
                }
            },
            Err(e) => {
                return Err(e);
            },
        }
        i += 1;
    }
    assert(item_readings(items@) + seq![] =~= item_readings(items@));
    Ok(items)
}

impl TodoTool {
    /// The one parse, and it is strict: every mistake is a message naming
    /// what to fix, and a list with one bad item is refused whole rather than
    /// quietly trimmed. An empty or absent list is not a mistake: it is how a
    /// list is cleared.
    pub fn parse(args: &TodoArgs) -> (r: Result<Vec<Item>, ToolError>)
        ensures
            match (r, todo_reading(*args)) {
                (Ok(items), Ok(list)) => item_readings(items@) == list,
                (Err(e), Err(m)) => is_message(e, m),
                _ => false,
            },
    {
        let entries = match args {
            TodoArgs::NotObject => {
                let mut s = String::new();
                push_str(&mut s, TODO_TOOL);
                push_str(&mut s, ": the arguments must be a JSON object with an `items` array");
                return Err(ToolError::message(s));
            },
            TodoArgs::Object(entries) => entries,
        };
        if let Some(k) = find_stray_argument(entries) {
            let mut s = String::new();
            push_str(&mut s, TODO_TOOL);
            push_str(&mut s, ": unknown argument `");
            push_str(&mut s, entries[k].0.as_str());
            push_str(&mut s, "`; this tool takes `items` and nothing else");
            return Err(ToolError::message(s));
        }
        match find_items(entries) {
            None => {
                let v: Vec<Item> = Vec::new();
                assert(item_readings(v@) =~= seq![]);
                Ok(v)
            },
            Some(RawItems::Null) => {
                let v: Vec<Item> = Vec::new();
                assert(item_readings(v@) =~= seq![]);
                Ok(v)
            },
            Some(RawItems::Other) => {
                let mut s = String::new();
                push_str(&mut s, TODO_TOOL);
                push_str(
                    &mut s,
                    ": `items` must be an array of `{content, status}` objects; send `[]` to clear the list",
                );
                Err(ToolError::message(s))
            },
            Some(RawItems::Array(raw)) => read_all(raw),
        }
    }

    /// A `todo` call: the list read from its arguments, answered with the
    /// receipt; a list that cannot be read is refused with the message naming
    /// the first mistake.
    pub fn call(&self, args: &TodoArgs) -> (r: Result<ToolOutput, ToolError>)
        ensures
            match todo_reading(*args) {
                Ok(list) => r matches Ok(o) && exists|items: Seq<Item>|
                    item_readings(items) == list && o.text@ == receipt_text(items),
                Err(m) => r matches Err(e) && is_message(e, m),
            },
    {
        match TodoTool::parse(args) {
            Ok(items) => Ok(ToolOutput::new(receipt(&items))),
            Err(e) => Err(e),
        }
    }
}

/// Read a `todo` call's list out of its arguments: the reader every consumer
/// shares. A list it cannot read reads as an empty one, never half a list.
pub fn read_items(args: &TodoArgs) -> (items: Vec<Item>)
    ensures
        item_readings(items@) == match todo_reading(*args) {
            Ok(list) => list,
            Err(_) => seq![],
        },
{
    match TodoTool::parse(args) {
        Ok(items) => items,
        Err(_) => {
            let v: Vec<Item> = Vec::new();
            assert(item_readings(v@) =~= seq![]);
            v
        },
    }
}

/// A bad entry at `i` makes every reading that starts at or before it an
/// error.
proof fn lemma_bad_entry_refuses(raw: Seq<RawItem>, j: int, i: int)
    requires
        0 <= j <= i < raw.len(),
        item_reading(raw[i], i as nat) is Err,
    ensures
        items_reading(raw, j) is Err,
    decreases i - j,
{
    if j < i {
        lemma_bad_entry_refuses(raw, j + 1, i);
    }
}

/// A list with one entry that cannot be read is refused whole: its reading is
/// the error, never the list with that entry left out.
pub proof fn one_bad_item_refuses_the_list(args: TodoArgs, raw: Seq<RawItem>, i: int)
    requires
        match args {
            TodoArgs::Object(entries) => stray_argument(entries@, 0) is None && match items_entry(
                entries@,
                0,
            ) {
                Some(RawItems::Array(v)) => v@ == raw,
                _ => false,
            },
            TodoArgs::NotObject => false,
        },
        0 <= i < raw.len(),
        item_reading(raw[i], i as nat) is Err,
    ensures
        todo_reading(args) is Err,
{
    lemma_bad_entry_refuses(raw, 0, i);
}

/// The items of a list whose status is exactly `Completed`, in order.
pub open spec fn done_items(items: Seq<Item>) -> Seq<Item> {
    items.filter(|it: Item| it.status == Status::Completed)
}

/// The completed count of a list is the number of its items whose status is
/// exactly `Completed`: an item pending or in progress adds nothing.
pub proof fn completed_counts_only_completed_items(items: Seq<Item>, n: int)
    requires
        0 <= n <= items.len(),
    ensures
        completed_count(items, n) == done_items(items.take(n)).len(),
    decreases n,
{
    reveal(Seq::filter);
    if n > 0 {
        completed_counts_only_completed_items(items, n - 1);
        assert(items.take(n).drop_last() =~= items.take(n - 1));
        assert(items.take(n).last() == items[n - 1]);
        let t = items.take(n);
        assert(done_items(t) == if t.last().status == Status::Completed {
            done_items(t.drop_last()).push(t.last())
        } else {
            done_items(t.drop_last())
        });
    } else {
        assert(items.take(0) =~= Seq::<Item>::empty());
    }
}

/// The receipt of a non-empty list names how many items it holds and how
/// many of them are exactly `Completed`.
pub proof fn the_receipt_counts_completed_items(items: Seq<Item>)
    requires
        items.len() > 0,
    ensures
        receipt_text(items) == TODO_TOOL@ + ": "@ + decimal(items.len()) + (if items.len() == 1 {
            " item"@
        } else {
            " items"@
        }) + " ("@ + decimal(done_items(items).len()) + " completed)"@,
{
    completed_counts_only_completed_items(items, items.len() as int);
    assert(items.take(items.len() as int) =~= items);
}

/// What the sidebar's `todo` page shows, and whether it is offered at all.
#[derive(Debug)]
pub struct TodoPanel {
    /// Whether a main session has ever submitted a non-empty list. Set once
    /// and never cleared: the tab is a latch, not a condition.
    seen: bool,
    /// The list in force, from the most recent main-session call.
    items: Vec<Item>,
}

impl TodoPanel {
    /// Whether the tab has been latched on.
    pub closed spec fn latched(&self) -> bool {
        self.seen
    }

    /// The list in force.
    pub closed spec fn list(&self) -> Seq<Item> {
        self.items@
    }

    /// No list seen yet.
    pub fn new() -> (p: TodoPanel)
        ensures
            !p.latched(),
            p.list() == Seq::<Item>::empty(),
    {
        TodoPanel { seen: false, items: Vec::new() }
    }

    /// A main-session `todo` call landed with this list: it is the list in
    /// force, and a non-empty one latches the tab on for good.
    pub fn observe_list(&mut self, items: Vec<Item>)
        ensures
            final(self).list() == items@,
            final(self).latched() == (old(self).latched() || items@.len() > 0),
    {
        if items.len() > 0 {
            self.seen = true;
        }
        self.items = items;
    }

    /// Whether the tab bar carries the `todo` label.
    pub fn visible(&self) -> (r: bool)
        ensures
            r == self.latched(),
    {
        self.seen
    }
}

/// Once a non-empty list has been seen, the tab stays, whatever later lists
/// say — an emptied list included.
pub proof fn tab_stays_once_seen(before: TodoPanel, after: TodoPanel, items: Seq<Item>)
    requires
        before.latched(),
        after.list() == items,
        after.latched() == (before.latched() || items.len() > 0),
    ensures
        after.latched(),
{
}

} // verus!
