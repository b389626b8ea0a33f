//! The input editor: a multi-line draft, its keymap, and where its cursor is.
//!
//! The cursor's only state is a **character index** into the draft — never a
//! row, never a column, never a byte offset. Display rows exist only while a
//! frame is being drawn, derived from that index each time, so a resize, a
//! rewrap or a wide character cannot leave the cursor somewhere the user did
//! not put it.
//!
//! Editing is **line-aware**: the Ctrl chords and `Home`/`End` act on the
//! logical line the cursor is on, and `↑`/`↓` move the cursor instead of
//! walking history — the history keys are `Ctrl-P` / `Ctrl-N` alone.

use vstd::prelude::*;

use crate::placeholder::{is_ws, is_ws_char, trim_at, trim_by, Trimmed};
use crate::text::{chars_of, push_str, str_eq, string_of, string_of_range};
use crate::width::{cell_width, char_columns, is_ascii_control};

verus! {

broadcast use vstd::seq::group_seq_axioms;

/// The prompt on the draft's first row.
pub const PROMPT: &'static str = "> ";

/// The columns the prompt takes — and the indent every later row carries.
pub const PROMPT_COLUMNS: u16 = 2;

/// Where the cursor sits among the rows a frame drew.
#[derive(Debug, Clone, Copy, PartialEq, Eq, Structural)]
pub struct Placed {
    pub row: u16,
    pub column: u16,
}

/// What the user has typed, and where the cursor is in it.
pub struct Input {
    /// The draft as text; always the same characters as `chars`.
    text: String,
    /// The draft, one character per entry.
    chars: Vec<char>,
    /// The cursor, as a character index into the draft.
    cursor: usize,
    /// Drafts already submitted, oldest first, for `Ctrl-P` / `Ctrl-N`.
    history: Vec<String>,
    /// Where in `history` the browse currently is.
    history_at: Option<usize>,
    /// The fresh draft stashed when a browse began.
    draft: String,
    /// The visual column `↑`/`↓` are trying to hold.
    goal: Option<u64>,
}

/// Where the line holding character index `c` starts: just past the last
/// newline before `c`, or 0.
pub open spec fn line_start(t: Seq<char>, c: int) -> int
    decreases c,
{
    if c <= 0 {
        0
    } else if t[c - 1] == '\n' {
        c
    } else {
        line_start(t, c - 1)
    }
}

/// Where the line holding character index `c` ends: the first newline at or
/// after `c`, or the end of the draft.
pub open spec fn line_end(t: Seq<char>, c: int) -> int
    decreases t.len() - c,
{
    if c >= t.len() {
        t.len() as int
    } else if t[c] == '\n' {
        c
    } else {
        line_end(t, c + 1)
    }
}

/// Moving back from `i` (not past `lo`) over characters that are whitespace
/// exactly when `ws` holds.
pub open spec fn skip_back(t: Seq<char>, lo: int, i: int, ws: bool) -> int
    decreases i - lo,
{
    if i > lo && is_ws(t[i - 1]) == ws {
        skip_back(t, lo, i - 1, ws)
    } else {
        i
    }
}

/// Where `Ctrl-W` cuts from: before the trailing spaces, then before one run
/// of non-spaces, never past the line's start `lo`.
pub open spec fn word_cut(t: Seq<char>, lo: int, c: int) -> int {
    skip_back(t, lo, skip_back(t, lo, c, true), false)
}

/// The columns a run of characters takes, one character at a time.
pub open spec fn columns(s: Seq<char>) -> nat
    decreases s.len(),
{
    if s.len() == 0 {
        0
    } else {
        columns(s.drop_last()) + cell_width(seq![s.last()])
    }
}

/// Where on the line `[i, end)` the cursor lands for visual column `want`,
/// having spent `used` columns: it stops at the first character reached once
/// `want` columns are spent, or at the line's end.
pub open spec fn place_from(t: Seq<char>, i: int, end: int, used: int, want: int) -> int
    decreases end - i,
{
    if i >= end || used >= want {
        i
    } else {
        place_from(t, i + 1, end, used + cell_width(seq![t[i]]), want)
    }
}

/// Every character is a newline or something a terminal can measure.
pub open spec fn measured(t: Seq<char>) -> bool {
    forall|i: int| 0 <= i < t.len() ==> (t[i] == '\n' || !is_ascii_control(#[trigger] t[i]))
}

/// `s` with `ins` put in place of `s[from..to]`.
pub open spec fn replaced(s: Seq<char>, from: int, to: int, ins: Seq<char>) -> Seq<char> {
    s.subrange(0, from) + ins + s.subrange(to, s.len() as int)
}

/// The characters of `v[..from]`, then `ins`, then `v[to..]`.
fn spliced(v: &Vec<char>, from: usize, to: usize, ins: &Vec<char>) -> (r: Vec<char>)
    requires
        from <= to <= v@.len(),
    ensures
        r@ == replaced(v@, from as int, to as int, ins@),
{
    let mut r: Vec<char> = Vec::new();
    let mut i: usize = 0;
    while i < from
        invariant
            i <= from <= to <= v@.len(),
            r@ == v@.subrange(0, i as int),
        decreases from - i,
    {
        r.push(v[i]);
        i += 1;
        assert(r@ =~= v@.subrange(0, i as int));
    }
    let mut j: usize = 0;
    while j < ins.len()
        invariant
            j <= ins@.len(),
            r@ == v@.subrange(0, from as int) + ins@.take(j as int),
        decreases ins@.len() - j,
    {
        r.push(ins[j]);
        j += 1;
        assert(r@ =~= v@.subrange(0, from as int) + ins@.take(j as int));
    }
    assert(ins@.take(ins@.len() as int) =~= ins@);
    let ghost head = r@;
    let mut k: usize = to;
    while k < v.len()
        invariant
            to <= k <= v@.len(),
            r@ == head + v@.subrange(to as int, k as int),
        decreases v@.len() - k,
    {
        r.push(v[k]);
        k += 1;
        assert(r@ =~= head + v@.subrange(to as int, k as int));
    }
    r
}

/// The display rows from character `i` on, as `(start, end)` character
/// indices: a row ends at each newline, and before a character that would
/// carry a non-empty row past `width` columns. `start` and `used` describe the
/// row under way.
pub open spec fn rows_from(t: Seq<char>, i: int, start: int, used: int, width: int) -> Seq<(int, int)>
    decreases t.len() - i,
{
    if i >= t.len() {
        seq![(start, t.len() as int)]
    } else if t[i] == '\n' {
        seq![(start, i)] + rows_from(t, i + 1, i + 1, 0, width)
    } else {
        let w = cell_width(seq![t[i]]) as int;
        if used + w > width && used > 0 {
            seq![(start, i)] + rows_from(t, i + 1, i, w, width)
        } else {
            rows_from(t, i + 1, start, used + w, width)
        }
    }
}

/// The draft wrapped to `width` columns.
pub open spec fn wrapped_rows(t: Seq<char>, width: int) -> Seq<(int, int)> {
    rows_from(t, 0, 0, 0, width)
}

/// The last of the first `n` rows that starts at or before `cursor`, or 0.
pub open spec fn last_row_at(rows: Seq<(int, int)>, cursor: int, n: int) -> int
    decreases n,
{
    if n <= 0 {
        0
    } else if rows[n - 1].0 <= cursor {
        n - 1
    } else {
        last_row_at(rows, cursor, n - 1)
    }
}

/// The row the cursor is on: a cursor on a wrap boundary belongs to the row
/// that starts there; on a line boundary, to the end of the line it leaves.
pub open spec fn cursor_row(rows: Seq<(int, int)>, cursor: int) -> int {
    let at = last_row_at(rows, cursor, rows.len() as int);
    if rows[at].1 == cursor && at + 1 < rows.len() && rows[at + 1].0 == cursor {
        at + 1
    } else {
        at
    }
}

/// The smaller of two integers.
pub open spec fn min_int(a: int, b: int) -> int {
    if a <= b {
        a
    } else {
        b
    }
}

/// The rows a frame draws at `width` columns, the row the cursor is on, and
/// its column (the prompt included). A cursor at the end of a full row gets a
/// row of its own right after that row, where the next character it types
/// goes, as a terminal would give it.
pub open spec fn display(t: Seq<char>, cursor: int, width: int) -> (Seq<(int, int)>, int, int) {
    let rows = wrapped_rows(t, width);
    let at = cursor_row(rows, cursor);
    let column = 2 + columns(t.subrange(rows[at].0, min_int(rows[at].1, cursor))) as int;
    if column >= 2 + width {
        (rows.insert(at + 1, (cursor, cursor)), at + 1, 2)
    } else {
        (rows, at, column)
    }
}

/// The prompt on the first row, an indent as wide as it on every later one.
pub open spec fn indent_text(index: int) -> Seq<char> {
    if index == 0 {
        PROMPT@
    } else {
        "  "@
    }
}

/// Every row lies inside the draft, starting where the first one was
/// started, and no row holds a newline.
pub proof fn lemma_rows_shape(t: Seq<char>, i: int, start: int, used: int, width: int)
    requires
        0 <= start <= i <= t.len(),
        forall|j: int| start <= j < i ==> t[j] != '\n',
    ensures
        rows_from(t, i, start, used, width).len() >= 1,
        rows_from(t, i, start, used, width)[0].0 == start,
        forall|k: int|
            0 <= k < rows_from(t, i, start, used, width).len() ==> {
                let r = #[trigger] rows_from(t, i, start, used, width)[k];
                start <= r.0 <= r.1 <= t.len()
            },
        forall|k: int, j: int|
            #![trigger rows_from(t, i, start, used, width)[k], t[j]]
            0 <= k < rows_from(t, i, start, used, width).len() && rows_from(
                t,
                i,
                start,
                used,
                width,
            )[k].0 <= j < rows_from(t, i, start, used, width)[k].1 ==> t[j] != '\n',
    decreases t.len() - i,
{
    let rows = rows_from(t, i, start, used, width);
    if i >= t.len() {
    } else if t[i] == '\n' {
        lemma_rows_shape(t, i + 1, i + 1, 0, width);
        let rest = rows_from(t, i + 1, i + 1, 0, width);
        assert forall|k: int, j: int|
            #![trigger rows[k], t[j]]
            0 <= k < rows.len() && rows[k].0 <= j < rows[k].1 implies t[j] != '\n' by {
            if k > 0 {
                assert(rows[k] == rest[k - 1]);
            }
        }
        assert forall|k: int| 0 <= k < rows.len() implies {
            let r = #[trigger] rows[k];
            start <= r.0 <= r.1 <= t.len()
        } by {
            if k > 0 {
                assert(rows[k] == rest[k - 1]);
            }
        }
    } else {
        let w = cell_width(seq![t[i]]) as int;
        if used + w > width && used > 0 {
            lemma_rows_shape(t, i + 1, i, w, width);
            let rest = rows_from(t, i + 1, i, w, width);
            assert forall|k: int, j: int|
                #![trigger rows[k], t[j]]
                0 <= k < rows.len() && rows[k].0 <= j < rows[k].1 implies t[j] != '\n' by {
                if k > 0 {
                    assert(rows[k] == rest[k - 1]);
                }
            }
            assert forall|k: int| 0 <= k < rows.len() implies {
                let r = #[trigger] rows[k];
                start <= r.0 <= r.1 <= t.len()
            } by {
                if k > 0 {
                    assert(rows[k] == rest[k - 1]);
                }
            }
        } else {
            lemma_rows_shape(t, i + 1, start, used + w, width);
        }
    }
}

/// The row chosen for a cursor starts at or before it, unless it is the
/// first.
pub proof fn lemma_last_row_at(rows: Seq<(int, int)>, cursor: int, n: int)
    requires
        0 <= n <= rows.len(),
    ensures
        0 <= last_row_at(rows, cursor, n),
        n > 0 ==> last_row_at(rows, cursor, n) < n,
        last_row_at(rows, cursor, n) == 0 || rows[last_row_at(rows, cursor, n)].0 <= cursor,
    decreases n,
{
    if n > 0 && rows[n - 1].0 > cursor {
        lemma_last_row_at(rows, cursor, n - 1);
    }
}

/// The line before `c`'s line start holds no newline.
pub proof fn lemma_line_start(t: Seq<char>, c: int)
    requires
        0 <= c <= t.len(),
    ensures
        0 <= line_start(t, c) <= c,
        line_start(t, c) > 0 ==> t[line_start(t, c) - 1] == '\n',
        forall|j: int| line_start(t, c) <= j < c ==> t[j] != '\n',
    decreases c,
{
    if c > 0 && t[c - 1] != '\n' {
        lemma_line_start(t, c - 1);
    }
}

/// From `c` to its line's end there is no newline.
pub proof fn lemma_line_end(t: Seq<char>, c: int)
    requires
        0 <= c <= t.len(),
    ensures
        c <= line_end(t, c) <= t.len(),
        line_end(t, c) < t.len() ==> t[line_end(t, c)] == '\n',
        forall|j: int| c <= j < line_end(t, c) ==> t[j] != '\n',
    decreases t.len() - c,
{
    if c < t.len() && t[c] != '\n' {
        lemma_line_end(t, c + 1);
    }
}

/// Characters kept by a paste: everything but control characters, except the
/// newline and the tab.
pub open spec fn pasted_keeps(c: char) -> bool {
    let u = c as u32;
    c == '\n' || c == '\t' || !(u < 0x20 || (0x7f <= u && u <= 0x9f))
}

/// Pasted text cleaned: `\r\n` and a lone `\r` become `\n`, and control
/// characters are dropped except the newline and the tab.
pub open spec fn normalized(s: Seq<char>) -> Seq<char>
    decreases s.len(),
{
    if s.len() == 0 {
        seq![]
    } else if s[0] == '\r' {
        if s.len() > 1 && s[1] == '\n' {
            seq!['\n'] + normalized(s.skip(2))
        } else {
            seq!['\n'] + normalized(s.skip(1))
        }
    } else if pasted_keeps(s[0]) {
        seq![s[0]] + normalized(s.skip(1))
    } else {
        normalized(s.skip(1))
    }
}

/// Normalise pasted text: line endings become `\n`, and control characters
/// are dropped except the two that carry meaning. A terminal hands a paste
/// through untouched, so the cleaning is ours.
pub fn normalize_paste(text: &str) -> (s: String)
    ensures
        s@ == normalized(text@),
        forall|i: int| 0 <= i < s@.len() ==> pasted_keeps(#[trigger] s@[i]),
{
    proof {
        lemma_normalized_keeps(text@);
    }
    let v = chars_of(text);
    let n = v.len();
    let mut out: Vec<char> = Vec::new();
    let mut i: usize = 0;
    assert(v@.skip(0) =~= v@);
    while i < n
        invariant
            n == v@.len(),
            i <= n,
            out@ + normalized(v@.skip(i as int)) == normalized(v@),
        decreases n - i,
    {
        let ghost rest = v@.skip(i as int);
        let c = v[i];
        assert(rest[0] == c);
        if c == '\r' {
            out.push('\n');
            if i + 1 < n && v[i + 1] == '\n' {
                assert(rest[1] == v@[i + 1]);
                assert(rest.skip(2) =~= v@.skip(i + 2));
                i += 2;
            } else {
                assert(rest.skip(1) =~= v@.skip(i + 1));
                i += 1;
            }
        } else {
            let u = c as u32;
            assert(rest.skip(1) =~= v@.skip(i + 1));
            if c == '\n' || c == '\t' || !(u < 0x20 || (0x7f <= u && u <= 0x9f)) {
                out.push(c);
            }
            i += 1;
        }
        assert(out@ + normalized(v@.skip(i as int)) =~= normalized(v@));
    }
    assert(v@.skip(n as int) =~= Seq::<char>::empty());
    assert(out@ =~= normalized(v@));
    string_of(&out)
}

/// The columns `t[lo..hi]` takes.
fn columns_between(t: &Vec<char>, lo: usize, hi: usize) -> (n: u64)
    requires
        lo <= hi <= t@.len(),
        t@.len() <= 0xFFFF_FFFF,
        forall|j: int| lo <= j < hi ==> !is_ascii_control(#[trigger] t@[j]),
    ensures
        n == columns(t@.subrange(lo as int, hi as int)),
        n <= 65535 * (hi - lo),
{
    let mut n: u64 = 0;
    let mut i: usize = lo;
    while i < hi
        invariant
            lo <= i <= hi <= t@.len(),
            t@.len() <= 0xFFFF_FFFF,
            forall|j: int| lo <= j < hi ==> !is_ascii_control(#[trigger] t@[j]),
            n == columns(t@.subrange(lo as int, i as int)),
            n <= 65535 * (i - lo),
        decreases hi - i,
    {
        let w = char_columns(t[i]);
        let ghost next = t@.subrange(lo as int, i + 1);
        assert(next.drop_last() =~= t@.subrange(lo as int, i as int));
        assert(next.last() == t@[i as int]);
        n = n + w as u64;
        i += 1;
    }
    n
}

/// What leads display row `index`.
fn indent(index: usize) -> (s: &'static str)
    ensures
        s@ == indent_text(index as int),
{
    if index == 0 {
        PROMPT
    } else {
        "  "
    }
}

impl Input {
    /// The draft.
    pub closed spec fn text_view(&self) -> Seq<char> {
        self.chars@
    }

    /// The cursor, as a character index.
    pub closed spec fn cursor_view(&self) -> nat {
        self.cursor as nat
    }

    /// The drafts already submitted, oldest first.
    pub closed spec fn history_view(&self) -> Seq<Seq<char>> {
        self.history@.map_values(|h: String| h@)
    }

    /// Where a history browse is, if one is under way.
    pub closed spec fn browsing(&self) -> Option<nat> {
        match self.history_at {
            Some(a) => Some(a as nat),
            None => None,
        }
    }

    /// The fresh draft a browse stashed.
    pub closed spec fn stash_view(&self) -> Seq<char> {
        self.draft@
    }

    /// The visual column `↑`/`↓` hold, if one is held.
    pub closed spec fn goal_view(&self) -> Option<nat> {
        match self.goal {
            Some(g) => Some(g as nat),
            None => None,
        }
    }

    /// The editor's invariant: the text and its characters agree, the cursor is
    /// inside the draft, a browse points at a history entry, and a held column
    /// is a column some line could have.
    pub closed spec fn wf(&self) -> bool {
        &&& self.text@ == self.chars@
        &&& self.cursor <= self.chars@.len()
        &&& match self.history_at {
            Some(a) => a < self.history@.len(),
            None => true,
        }
        &&& match self.goal {
            Some(g) => g < 0x1000_0000_0000_0000,
            None => true,
        }
    }

    /// A well-formed editor's cursor lies inside its draft.
    pub proof fn lemma_cursor_inside(&self)
        requires
            self.wf(),
        ensures
            self.cursor_view() <= self.text_view().len(),
    {
    }

    /// The parts an edit leaves alone stay as they were; the browse and the
    /// held column end.
    pub open spec fn edited_from(&self, old: Input) -> bool {
        &&& self.history_view() == old.history_view()
        &&& self.stash_view() == old.stash_view()
        &&& self.browsing() is None
        &&& self.goal_view() is None
    }

    /// A move: the draft, the history, the browse and the stash stay; the held
    /// column ends.
    pub open spec fn moved_from(&self, old: Input) -> bool {
        &&& self.text_view() == old.text_view()
        &&& self.history_view() == old.history_view()
        &&& self.stash_view() == old.stash_view()
        &&& self.browsing() == old.browsing()
        &&& self.goal_view() is None
    }

    /// An empty draft with no history.
    pub fn new() -> (r: Input)
        ensures
            r.wf(),
            r.text_view() == Seq::<char>::empty(),
            r.cursor_view() == 0,
            r.history_view() == Seq::<Seq<char>>::empty(),
            r.browsing() is None,
            r.stash_view() == Seq::<char>::empty(),
            r.goal_view() is None,
    {
        let r = Input {
            text: String::new(),
            chars: Vec::new(),
            cursor: 0,
            history: Vec::new(),
            history_at: None,
            draft: String::new(),
            goal: None,
        };
        assert(r.history_view() =~= Seq::<Seq<char>>::empty());
        r
    }

    /// The draft, as it would be submitted.
    pub fn text(&self) -> (s: &str)
        requires
            self.wf(),
        ensures
            s@ == self.text_view(),
    {
        self.text.as_str()
    }

    /// Whether the draft spans more than one logical line.
    pub fn has_multiple_lines(&self) -> (r: bool)
        ensures
            r == self.text_view().contains('\n'),
    {
        let mut i: usize = 0;
        while i < self.chars.len()
            invariant
                i <= self.chars@.len(),
                forall|j: int| 0 <= j < i ==> self.chars@[j] != '\n',
            decreases self.chars@.len() - i,
        {
            if self.chars[i] == '\n' {
                assert(self.text_view()[i as int] == '\n');
                return true;
            }
            i += 1;
        }
        false
    }

    /// Replace the draft with `chars`, putting the cursor at `cursor`.
    fn store(&mut self, chars: Vec<char>, cursor: usize)
        requires
            old(self).wf(),
            cursor <= chars@.len(),
        ensures
            final(self).wf(),
            final(self).text_view() == chars@,
            final(self).cursor_view() == cursor,
            final(self).history_view() == old(self).history_view(),
            final(self).stash_view() == old(self).stash_view(),
            final(self).browsing() == old(self).browsing(),
            final(self).goal_view() == old(self).goal_view(),
    {
        self.text = string_of(&chars);
        self.chars = chars;
        self.cursor = cursor;
    }

    /// Put `ch` at the cursor and step past it.
    pub fn insert_char(&mut self, ch: char)
        requires
            old(self).wf(),
        ensures
            final(self).wf(),
            final(self).text_view() == replaced(
                old(self).text_view(),
                old(self).cursor_view() as int,
                old(self).cursor_view() as int,
                seq![ch],
            ),
            final(self).cursor_view() == old(self).cursor_view() + 1,
            final(self).edited_from(*old(self)),
    {
        let mut one: Vec<char> = Vec::new();
        one.push(ch);
        assert(one@ =~= seq![ch]);
        let at = self.cursor;
        let chars = spliced(&self.chars, at, at, &one);
        let n = chars.len();
        assert(n == self.chars@.len() + 1);
        self.store(chars, at + 1);
        self.history_at = None;
        self.goal = None;
    }

    /// Insert a run of text at the cursor, as one edit. This is the paste path:
    /// the text may carry newlines of its own, and it never submits.
    pub fn insert_str(&mut self, text: &str)
        requires
            old(self).wf(),
        ensures
            final(self).wf(),
            final(self).text_view() == replaced(
                old(self).text_view(),
                old(self).cursor_view() as int,
                old(self).cursor_view() as int,
                text@,
            ),
            final(self).cursor_view() == old(self).cursor_view() + text@.len(),
            final(self).edited_from(*old(self)),
    {
        let ins = chars_of(text);
        let at = self.cursor;
        let chars = spliced(&self.chars, at, at, &ins);
        let n = chars.len();
        assert(n == self.chars@.len() + ins@.len());
        self.store(chars, at + ins.len());
        self.history_at = None;
        self.goal = None;
    }

    /// Remove `[from, to)` and put the cursor at `from`.
    fn remove_range(&mut self, from: usize, to: usize)
        requires
            old(self).wf(),
            from <= to <= old(self).text_view().len(),
        ensures
            final(self).wf(),
            final(self).text_view() == replaced(
                old(self).text_view(),
                from as int,
                to as int,
                seq![],
            ),
            final(self).cursor_view() == from,
            final(self).edited_from(*old(self)),
    {
        let none: Vec<char> = Vec::new();
        let chars = spliced(&self.chars, from, to, &none);
        assert(none@ =~= Seq::<char>::empty());
        self.store(chars, from);
        self.history_at = None;
        self.goal = None;
    }

    /// Delete the character before the cursor; at a line start this joins the
    /// line to the one above. Nothing happens at the start of the draft.
    pub fn backspace(&mut self)
        requires
            old(self).wf(),
        ensures
            final(self).wf(),
            old(self).cursor_view() == 0 ==> *final(self) == *old(self),
            old(self).cursor_view() > 0 ==> {
                &&& final(self).text_view() == replaced(
                    old(self).text_view(),
                    old(self).cursor_view() - 1,
                    old(self).cursor_view() as int,
                    seq![],
                )
                &&& final(self).cursor_view() == old(self).cursor_view() - 1
                &&& final(self).edited_from(*old(self))
            },
    {
        if self.cursor == 0 {
            return;
        }
        self.remove_range(self.cursor - 1, self.cursor);
    }

    /// Delete the character after the cursor; at a line end this pulls the next
    /// line up. Nothing happens at the end of the draft.
    pub fn delete_forward(&mut self)
        requires
            old(self).wf(),
        ensures
            final(self).wf(),
            old(self).cursor_view() >= old(self).text_view().len() ==> *final(self) == *old(self),
            old(self).cursor_view() < old(self).text_view().len() ==> {
                &&& final(self).text_view() == replaced(
                    old(self).text_view(),
                    old(self).cursor_view() as int,
                    old(self).cursor_view() + 1int,
                    seq![],
                )
                &&& final(self).cursor_view() == old(self).cursor_view()
                &&& final(self).edited_from(*old(self))
            },
    {
        if self.cursor >= self.chars.len() {
            return;
        }
        self.remove_range(self.cursor, self.cursor + 1);
    }

    /// One character left, stopping at the start of the draft.
    pub fn left(&mut self)
        requires
            old(self).wf(),
        ensures
            final(self).wf(),
            final(self).moved_from(*old(self)),
            final(self).cursor_view() == if old(self).cursor_view() == 0 {
                0
            } else {
                (old(self).cursor_view() - 1) as nat
            },
    {
        if self.cursor > 0 {
            self.cursor = self.cursor - 1;
        }
        self.goal = None;
    }

    /// One character right, stopping at the end of the draft.
    pub fn right(&mut self)
        requires
            old(self).wf(),
        ensures
            final(self).wf(),
            final(self).moved_from(*old(self)),
            final(self).cursor_view() == if old(self).cursor_view() < old(self).text_view().len() {
                old(self).cursor_view() + 1
            } else {
                old(self).text_view().len()
            },
    {
        if self.cursor < self.chars.len() {
            self.cursor = self.cursor + 1;
        }
        self.goal = None;
    }

    /// The character indices bounding the cursor's line: its first character,
    /// and the newline (or end) that ends it.
    fn line_bounds(&self) -> (r: (usize, usize))
        requires
            self.wf(),
        ensures
            r.0 == line_start(self.text_view(), self.cursor_view() as int),
            r.1 == line_end(self.text_view(), self.cursor_view() as int),
            r.0 <= self.cursor_view() <= r.1 <= self.text_view().len(),
    {
        let t = &self.chars;
        let mut start = self.cursor;
        while start > 0 && t[start - 1] != '\n'
            invariant
                start <= self.cursor <= t@.len(),
                line_start(t@, start as int) == line_start(t@, self.cursor as int),
            decreases start,
        {
            start -= 1;
        }
        let mut end = self.cursor;
        while end < t.len() && t[end] != '\n'
            invariant
                start <= self.cursor <= end <= t@.len(),
                line_end(t@, end as int) == line_end(t@, self.cursor as int),
            decreases t@.len() - end,
        {
            end += 1;
        }
        (start, end)
    }

    /// The head of the cursor's **line**, not of the draft.
    pub fn home(&mut self)
        requires
            old(self).wf(),
        ensures
            final(self).wf(),
            final(self).moved_from(*old(self)),
            final(self).cursor_view() == line_start(
                old(self).text_view(),
                old(self).cursor_view() as int,
            ),
    {
        let (start, _) = self.line_bounds();
        self.cursor = start;
        self.goal = None;
    }

    /// The end of the cursor's **line**, not of the draft.
    pub fn end(&mut self)
        requires
            old(self).wf(),
        ensures
            final(self).wf(),
            final(self).moved_from(*old(self)),
            final(self).cursor_view() == line_end(
                old(self).text_view(),
                old(self).cursor_view() as int,
            ),
    {
        let (_, end) = self.line_bounds();
        self.cursor = end;
        self.goal = None;
    }

    /// `Ctrl-U`: delete from the head of the cursor's line to the cursor.
    pub fn kill_to_line_start(&mut self)
        requires
            old(self).wf(),
        ensures
            final(self).wf(),
            ({
                let t = old(self).text_view();
                let c = old(self).cursor_view() as int;
                let s = line_start(t, c);
                &&& final(self).text_view() == replaced(t, s, c, seq![])
                &&& final(self).cursor_view() == s
            }),
            final(self).edited_from(*old(self)),
    {
        let (start, _) = self.line_bounds();
        self.remove_range(start, self.cursor);
    }

    /// `Ctrl-K`: delete from the cursor to the end of its line.
    pub fn kill_to_line_end(&mut self)
        requires
            old(self).wf(),
        ensures
            final(self).wf(),
            ({
                let t = old(self).text_view();
                let c = old(self).cursor_view() as int;
                &&& final(self).text_view() == replaced(t, c, line_end(t, c), seq![])
                &&& final(self).cursor_view() == c
            }),
            final(self).edited_from(*old(self)),
    {
        let (_, end) = self.line_bounds();
        self.remove_range(self.cursor, end);
    }

    /// `Ctrl-W`: drop trailing spaces, then one run of non-spaces, before the
    /// cursor — the shell's word-erase, held inside the line.
    pub fn kill_word(&mut self)
        requires
            old(self).wf(),
        ensures
            final(self).wf(),
            ({
                let t = old(self).text_view();
                let c = old(self).cursor_view() as int;
                let w = word_cut(t, line_start(t, c), c);
                &&& final(self).text_view() == replaced(t, w, c, seq![])
                &&& final(self).cursor_view() == w
            }),
            final(self).edited_from(*old(self)),
    {
        let (start, _) = self.line_bounds();
        let c = self.cursor;
        let mut word = c;
        while word > start && is_ws_char(self.chars[word - 1])
            invariant
                start <= word <= c <= self.chars@.len(),
                skip_back(self.chars@, start as int, word as int, true) == skip_back(
                    self.chars@,
                    start as int,
                    c as int,
                    true,
                ),
            decreases word,
        {
            word -= 1;
        }
        let ghost spaced = word;
        while word > start && !is_ws_char(self.chars[word - 1])
            invariant
                start <= word <= spaced <= c <= self.chars@.len(),
                skip_back(self.chars@, start as int, word as int, false) == skip_back(
                    self.chars@,
                    start as int,
                    spaced as int,
                    false,
                ),
            decreases word,
        {
            word -= 1;
        }
        self.remove_range(word, c);
    }

    /// An empty draft; the history stays.
    pub fn clear(&mut self)
        requires
            old(self).wf(),
        ensures
            final(self).wf(),
            final(self).text_view() == Seq::<char>::empty(),
            final(self).cursor_view() == 0,
            final(self).history_view() == old(self).history_view(),
            final(self).browsing() is None,
            final(self).stash_view() == Seq::<char>::empty(),
            final(self).goal_view() is None,
    {
        self.text = String::new();
        self.chars = Vec::new();
        self.cursor = 0;
        self.history_at = None;
        self.draft = String::new();
        self.goal = None;
    }

    /// Take the draft for submission: trimmed at its ends (the blank lines
    /// inside are part of what the user wrote), cleared, and remembered unless
    /// it is empty or repeats the last entry.
    pub fn submitted(&mut self) -> (line: String)
        requires
            old(self).wf(),
        ensures
            final(self).wf(),
            line@ == trim_by(old(self).text_view(), Trimmed::Space),
            final(self).text_view() == Seq::<char>::empty(),
            final(self).cursor_view() == 0,
            final(self).browsing() is None,
            final(self).stash_view() == Seq::<char>::empty(),
            final(self).goal_view() is None,
            final(self).history_view() == {
                let h = old(self).history_view();
                if line@.len() > 0 && (h.len() == 0 || h.last() != line@) {
                    h.push(line@)
                } else {
                    h
                }
            },
    {
        let n = self.chars.len();
        assert(self.chars@.subrange(0, n as int) =~= self.chars@);
        let (a, e) = trim_at(&self.chars, 0, n, Trimmed::Space);
        let line = string_of_range(&self.chars, a, e);
        self.clear();
        let ghost h = self.history_view();
        let k = self.history.len();
        if a < e {
            let repeat = if k > 0 {
                str_eq(self.history[k - 1].as_str(), line.as_str())
            } else {
                false
            };
            if !repeat {
                let entry = string_of(&chars_of(line.as_str()));
                self.history.push(entry);
                assert(self.history_view() =~= h.push(line@));
            }
        }
        line
    }

    /// Replace the draft with a recalled one, cursor at its end.
    fn set(&mut self, text: &str)
        requires
            old(self).wf(),
        ensures
            final(self).wf(),
            final(self).text_view() == text@,
            final(self).cursor_view() == text@.len(),
            final(self).history_view() == old(self).history_view(),
            final(self).stash_view() == old(self).stash_view(),
            final(self).browsing() == old(self).browsing(),
            final(self).goal_view() is None,
    {
        let chars = chars_of(text);
        let n = chars.len();
        self.store(chars, n);
        self.goal = None;
    }

    /// `Ctrl-P`: step to the older draft, stashing the fresh one first.
    pub fn history_previous(&mut self)
        requires
            old(self).wf(),
        ensures
            final(self).wf(),
            stepped_back(*old(self), *final(self)),
    {
        let k = self.history.len();
        if k == 0 {
            return;
        }
        let at = match self.history_at {
            None => {
                self.draft = string_of(&self.chars);
                k - 1
            },
            Some(0) => {
                return;
            },
            Some(a) => a - 1,
        };
        self.history_at = Some(at);
        let recalled = string_of(&chars_of(self.history[at].as_str()));
        self.set(recalled.as_str());
    }

    /// `Ctrl-N`: step to the newer draft, or back to the fresh one.
    pub fn history_next(&mut self)
        requires
            old(self).wf(),
        ensures
            final(self).wf(),
            stepped_forward(*old(self), *final(self)),
    {
        match self.history_at {
            None => {},
            Some(a) => {
                let k = self.history.len();
                if a + 1 < k {
                    self.history_at = Some(a + 1);
                    let recalled = string_of(&chars_of(self.history[a + 1].as_str()));
                    self.set(recalled.as_str());
                } else {
                    self.history_at = None;
                    let stashed = string_of(&chars_of(self.draft.as_str()));
                    self.draft = String::new();
                    self.set(stashed.as_str());
                }
            },
        }
    }

    /// The cursor's visual column within its line.
    fn column(&self) -> (n: u64)
        requires
            self.wf(),
            measured(self.text_view()),
            self.text_view().len() <= 0xFFFF_FFFF,
        ensures
            n == columns(
                self.text_view().subrange(
                    line_start(self.text_view(), self.cursor_view() as int),
                    self.cursor_view() as int,
                ),
            ),
            n < 0x1000_0000_0000_0000,
    {
        let (start, _) = self.line_bounds();
        proof {
            lemma_line_start(self.chars@, self.cursor as int);
        }
        columns_between(&self.chars, start, self.cursor)
    }

    /// Put the cursor on the line `[start, end)` at the character nearest
    /// visual column `want`, clamped to the line's end.
    fn place_at_column(&mut self, start: usize, end: usize, want: u64)
        requires
            old(self).wf(),
            measured(old(self).text_view()),
            start <= end <= old(self).text_view().len(),
            forall|j: int| start <= j < end ==> old(self).text_view()[j] != '\n',
            want < 0x1000_0000_0000_0000,
        ensures
            final(self).wf(),
            final(self).cursor_view() == place_from(
                old(self).text_view(),
                start as int,
                end as int,
                0,
                want as int,
            ),
            final(self).text_view() == old(self).text_view(),
            final(self).history_view() == old(self).history_view(),
            final(self).stash_view() == old(self).stash_view(),
            final(self).browsing() == old(self).browsing(),
            final(self).goal_view() == old(self).goal_view(),
    {
        let mut used: u64 = 0;
        let mut i: usize = start;
        while i < end && used < want
            invariant
                start <= i <= end <= self.chars@.len(),
                measured(self.chars@),
                forall|j: int| start <= j < end ==> self.chars@[j] != '\n',
                used < 0x1000_0000_0000_0000 + 65536,
                want < 0x1000_0000_0000_0000,
                place_from(self.chars@, i as int, end as int, used as int, want as int)
                    == place_from(self.chars@, start as int, end as int, 0, want as int),
            decreases end - i,
        {
            assert(self.chars@[i as int] != '\n');
            let w = char_columns(self.chars[i]);
            used = used + w as u64;
            i += 1;
        }
        self.cursor = i;
    }

    /// Move up a line, holding the visual column the cursor had. Nothing
    /// happens on the first line.
    pub fn up(&mut self)
        requires
            old(self).wf(),
            measured(old(self).text_view()),
            old(self).text_view().len() <= 0xFFFF_FFFF,
        ensures
            final(self).wf(),
            ({
                let t = old(self).text_view();
                let c = old(self).cursor_view() as int;
                let s = line_start(t, c);
                if s == 0 {
                    *final(self) == *old(self)
                } else {
                    let want = match old(self).goal_view() {
                        Some(g) => g,
                        None => columns(t.subrange(s, c)),
                    };
                    &&& final(self).cursor_view() == place_from(
                        t,
                        line_start(t, s - 1),
                        line_end(t, s - 1),
                        0,
                        want as int,
                    )
                    &&& final(self).goal_view() == Some(want)
                    &&& final(self).text_view() == t
                    &&& final(self).history_view() == old(self).history_view()
                    &&& final(self).stash_view() == old(self).stash_view()
                    &&& final(self).browsing() == old(self).browsing()
                }
            }),
    {
        let (start, _) = self.line_bounds();
        if start == 0 {
            return;
        }
        let want = match self.goal {
            Some(g) => g,
            None => self.column(),
        };
        self.cursor = start - 1;
        let (a, b) = self.line_bounds();
        proof {
            lemma_line_start(self.chars@, start - 1);
            lemma_line_end(self.chars@, start - 1);
        }
        self.place_at_column(a, b, want);
        self.goal = Some(want);
    }

    /// Move down a line, holding the visual column the cursor had. Nothing
    /// happens on the last line.
    pub fn down(&mut self)
        requires
            old(self).wf(),
            measured(old(self).text_view()),
            old(self).text_view().len() <= 0xFFFF_FFFF,
        ensures
            final(self).wf(),
            ({
                let t = old(self).text_view();
                let c = old(self).cursor_view() as int;
                let e = line_end(t, c);
                if e >= t.len() {
                    *final(self) == *old(self)
                } else {
                    let want = match old(self).goal_view() {
                        Some(g) => g,
                        None => columns(t.subrange(line_start(t, c), c)),
                    };
                    &&& final(self).cursor_view() == place_from(
                        t,
                        line_start(t, e + 1),
                        line_end(t, e + 1),
                        0,
                        want as int,
                    )
                    &&& final(self).goal_view() == Some(want)
                    &&& final(self).text_view() == t
                    &&& final(self).history_view() == old(self).history_view()
                    &&& final(self).stash_view() == old(self).stash_view()
                    &&& final(self).browsing() == old(self).browsing()
                }
            }),
    {
        let (_, end) = self.line_bounds();
        if end >= self.chars.len() {
            return;
        }
        let want = match self.goal {
            Some(g) => g,
            None => self.column(),
        };
        self.cursor = end + 1;
        let (a, b) = self.line_bounds();
        proof {
            lemma_line_start(self.chars@, end + 1);
            lemma_line_end(self.chars@, end + 1);
            assert forall|j: int| a <= j < b implies self.chars@[j] != '\n' by {
                if j < end + 1 {
                } else {
                }
            }
        }
        self.place_at_column(a, b, want);
        self.goal = Some(want);
    }

    /// The wrapped rows and where the cursor sits among them.
    fn display_rows(&self, width: usize) -> (r: (Vec<(usize, usize)>, Placed))
        requires
            self.wf(),
            measured(self.text_view()),
            self.text_view().len() <= 0xFFFF_FFFF,
            1 <= width <= 65535,
        ensures
            ({
                let d = display(self.text_view(), self.cursor_view() as int, width as int);
                &&& r.0@.len() == d.0.len()
                &&& forall|k: int|
                    0 <= k < d.0.len() ==> (r.0@[k].0 as int, r.0@[k].1 as int) == #[trigger] d.0[k]
                &&& r.1.row == (#[verifier::truncate] (d.1 as u16))
                &&& r.1.column == (#[verifier::truncate] (d.2 as u16))
                &&& forall|k: int|
                    0 <= k < d.0.len() ==> (#[trigger] d.0[k]).0 <= d.0[k].1 <= self.text_view().len()
                &&& 0 <= d.1 < d.0.len()
            }),
    {
        let t = &self.chars;
        let n = t.len();
        let ghost target = wrapped_rows(t@, width as int);
        let mut rows: Vec<(usize, usize)> = Vec::new();
        let mut start: usize = 0;
        let mut used: usize = 0;
        let mut i: usize = 0;
        proof {
            lemma_rows_shape(t@, 0, 0, 0, width as int);
        }
        while i < n
            invariant
                n == t@.len(),
                n <= 0xFFFF_FFFF,
                measured(t@),
                1 <= width <= 65535,
                start <= i <= n,
                used <= 65535,
                rows@.map_values(|r: (usize, usize)| (r.0 as int, r.1 as int)) + rows_from(
                    t@,
                    i as int,
                    start as int,
                    used as int,
                    width as int,
                ) == target,
            decreases n - i,
        {
            let ghost before = rows@;
            let c = t[i];
            if c == '\n' {
                rows.push((start, i));
                assert(rows@.map_values(|r: (usize, usize)| (r.0 as int, r.1 as int)) =~= before.map_values(
                    |r: (usize, usize)| (r.0 as int, r.1 as int),
                ).push((start as int, i as int)));
                start = i + 1;
                used = 0;
            } else {
                let w = char_columns(c);
                if used + w > width && used > 0 {
                    rows.push((start, i));
                    assert(rows@.map_values(|r: (usize, usize)| (r.0 as int, r.1 as int)) =~= before.map_values(
                        |r: (usize, usize)| (r.0 as int, r.1 as int),
                    ).push((start as int, i as int)));
                    start = i;
                    used = w;
                } else {
                    used = used + w;
                }
            }
            i += 1;
        }
        let ghost before = rows@;
        rows.push((start, n));
        assert(rows@.map_values(|r: (usize, usize)| (r.0 as int, r.1 as int)) =~= target);
        proof {
            lemma_rows_shape(t@, 0, 0, 0, width as int);
        }
        let cursor = self.cursor;
        let mut at: usize = 0;
        let mut k: usize = 0;
        while k < rows.len()
            invariant
                k <= rows@.len(),
                rows@.len() == target.len(),
                forall|q: int|
                    0 <= q < target.len() ==> (rows@[q].0 as int, rows@[q].1 as int) == #[trigger] target[q],
                at == last_row_at(target, cursor as int, k as int),
            decreases rows@.len() - k,
        {
            if rows[k].0 <= cursor {
                at = k;
            }
            k += 1;
        }
        proof {
            lemma_last_row_at(target, cursor as int, target.len() as int);
        }
        if rows[at].1 == cursor && at + 1 < rows.len() && rows[at + 1].0 == cursor {
            at = at + 1;
        }
        assert(at == cursor_row(target, cursor as int));
        let row_start = rows[at].0;
        let row_end = if rows[at].1 < cursor {
            rows[at].1
        } else {
            cursor
        };
        proof {
            lemma_last_row_at(target, cursor as int, target.len() as int);
            assert(target[at as int].0 <= cursor);
            assert forall|j: int| row_start <= j < row_end implies !is_ascii_control(
                #[trigger] t@[j],
            ) by {
                assert(t@[j] != '\n');
            }
        }
        let sum = columns_between(t, row_start, row_end);
        let column: u64 = 2 + sum;
        if column >= 2 + width as u64 {
            let ghost before = rows@;
            let next = at + 1;
            rows.insert(next, (cursor, cursor));
            proof {
                assert(forall|q: int|
                    0 <= q < rows@.len() ==> #[trigger] rows@[q] == before.insert(next as int, (cursor, cursor))[q]);
                assert forall|q: int| 0 <= q < rows@.len() implies (rows@[q].0 as int, rows@[q].1 as int)
                    == #[trigger] target.insert(next as int, (cursor as int, cursor as int))[q] by {
                    if q < next {
                        assert(rows@[q] == before[q]);
                    } else if q > next {
                        assert(rows@[q] == before[q - 1]);
                    }
                }
            }
            let row = (#[verifier::truncate] (next as u16));
            return (rows, Placed { row, column: PROMPT_COLUMNS });
        }
        let row = (#[verifier::truncate] (at as u16));
        let col = (#[verifier::truncate] (column as u16));
        (rows, Placed { row, column: col })
    }

    /// How many display rows the draft needs at `width` text columns.
    pub fn rows(&self, width: u16) -> (n: u16)
        requires
            self.wf(),
            measured(self.text_view()),
            self.text_view().len() <= 0xFFFF_FFFF,
        ensures
            n == (#[verifier::truncate] (display(
                self.text_view(),
                self.cursor_view() as int,
                if width == 0 {
                    1
                } else {
                    width as int
                },
            ).0.len() as u16)),
    {
        let w: usize = if width == 0 {
            1
        } else {
            width as usize
        };
        let (rows, _) = self.display_rows(w);
        (#[verifier::truncate] (rows.len() as u16))
    }

    /// The rows to draw, as text, and where the cursor sits among them;
    /// scrolled to keep the cursor's row inside `height`, so the draft grows to
    /// its limit and then scrolls rather than hiding what is being typed.
    pub fn view(&self, width: u16, height: u16) -> (r: (Vec<String>, Placed))
        requires
            self.wf(),
            measured(self.text_view()),
            self.text_view().len() <= 0xFFFF_FFFF,
        ensures
            ({
                let t = self.text_view();
                let d = display(
                    t,
                    self.cursor_view() as int,
                    if width == 0 {
                        1
                    } else {
                        width as int
                    },
                );
                let h: int = if height == 0 {
                    1
                } else {
                    height as int
                };
                let row = (#[verifier::truncate] (d.1 as u16)) as int;
                let top = if row >= h {
                    row + 1 - h
                } else {
                    0
                };
                &&& 0 <= top < d.0.len()
                &&& r.0@.len() == min_int(h, d.0.len() - top)
                &&& forall|k: int|
                    0 <= k < r.0@.len() ==> (#[trigger] r.0@[k])@ == indent_text(top + k)
                        + t.subrange(d.0[top + k].0, d.0[top + k].1)
                &&& r.1.row == row - top
                &&& r.1.column == (#[verifier::truncate] (d.2 as u16))
            }),
    {
        let w: usize = if width == 0 {
            1
        } else {
            width as usize
        };
        let (rows, placed) = self.display_rows(w);
        let h: usize = if height == 0 {
            1
        } else {
            height as usize
        };
        let row = placed.row as usize;
        let top: usize = if row >= h {
            row + 1 - h
        } else {
            0
        };
        let ghost d = display(self.chars@, self.cursor as int, w as int);
        let mut lines: Vec<String> = Vec::new();
        let mut k: usize = top;
        while k < rows.len() && k - top < h
            invariant
                top <= k,
                top < rows@.len(),
                rows@.len() == d.0.len(),
                forall|q: int|
                    0 <= q < d.0.len() ==> (rows@[q].0 as int, rows@[q].1 as int) == #[trigger] d.0[q],
                forall|q: int| 0 <= q < d.0.len() ==> (#[trigger] d.0[q]).0 <= d.0[q].1 <= self.chars@.len(),
                k <= rows@.len(),
                k - top <= h,
                lines@.len() == k - top,
                forall|q: int|
                    0 <= q < lines@.len() ==> (#[trigger] lines@[q])@ == indent_text(top + q)
                        + self.chars@.subrange(d.0[top + q].0, d.0[top + q].1),
            decreases rows@.len() - k,
        {
            let (a, b) = rows[k];
            assert(d.0[k as int] == (a as int, b as int));
            let mut line = String::new();
            push_str(&mut line, indent(k));
            let body = string_of_range(&self.chars, a, b);
            push_str(&mut line, body.as_str());
            lines.push(line);
            k += 1;
        }
        let shown = (row - top) as u16;
        (lines, Placed { row: shown, column: placed.column })
    }
}

/// What `Ctrl-P` does: with no history, or at the oldest entry, nothing;
/// otherwise the next older entry is recalled (the newest, when no browse was
/// under way, stashing the fresh draft first), cursor at its end.
pub open spec fn stepped_back(old: Input, new: Input) -> bool {
    let h = old.history_view();
    if h.len() == 0 || old.browsing() == Some(0nat) {
        new == old
    } else {
        let at = match old.browsing() {
            Some(a) => (a - 1) as nat,
            None => (h.len() - 1) as nat,
        };
        &&& new.browsing() == Some(at)
        &&& new.text_view() == h[at as int]
        &&& new.cursor_view() == h[at as int].len()
        &&& new.history_view() == h
        &&& new.stash_view() == if old.browsing() is None {
            old.text_view()
        } else {
            old.stash_view()
        }
        &&& new.goal_view() is None
    }
}

/// What `Ctrl-N` does: with no browse under way, nothing; otherwise the next
/// newer entry is recalled, or — past the newest — the stashed fresh draft
/// comes back and the browse ends.
pub open spec fn stepped_forward(old: Input, new: Input) -> bool {
    let h = old.history_view();
    match old.browsing() {
        None => new == old,
        Some(a) => if a + 1 < h.len() {
            &&& new.browsing() == Some((a + 1) as nat)
            &&& new.text_view() == h[a + 1int]
            &&& new.cursor_view() == h[a + 1int].len()
            &&& new.stash_view() == old.stash_view()
            &&& new.history_view() == h
            &&& new.goal_view() is None
        } else {
            &&& new.browsing() is None
            &&& new.text_view() == old.stash_view()
            &&& new.cursor_view() == old.stash_view().len()
            &&& new.stash_view() == Seq::<char>::empty()
            &&& new.history_view() == h
            &&& new.goal_view() is None
        },
    }
}

/// Typing a character and deleting it again with backspace gives back the
/// draft, and the cursor lands where it was.
pub proof fn law_backspace_undoes_insert(t: Seq<char>, c: int, ch: char)
    requires
        0 <= c <= t.len(),
    ensures
        replaced(replaced(t, c, c, seq![ch]), (c + 1) - 1, c + 1, seq![]) == t,
{
    let u = replaced(t, c, c, seq![ch]);
    assert(replaced(u, c, c + 1, seq![]) =~= t);
}

/// On an editor: typing a character and then backspacing gives back the
/// draft and the cursor as they were, whatever the draft and wherever the
/// cursor — `a` is the editor before, `b` after `insert_char`, `c` after
/// `backspace`, as those functions' contracts describe them.
pub proof fn backspace_undoes_insert(a: Input, b: Input, c: Input, ch: char)
    requires
        a.wf(),
        b.text_view() == replaced(a.text_view(), a.cursor_view() as int, a.cursor_view() as int, seq![ch]),
        b.cursor_view() == a.cursor_view() + 1,
        c.text_view() == replaced(b.text_view(), b.cursor_view() - 1, b.cursor_view() as int, seq![]),
        c.cursor_view() == b.cursor_view() - 1,
    ensures
        c.text_view() == a.text_view(),
        c.cursor_view() == a.cursor_view(),
{
    a.lemma_cursor_inside();
    law_backspace_undoes_insert(a.text_view(), a.cursor_view() as int, ch);
}

/// Stepping back into the history from a fresh draft and forward again past
/// the newest entry gives back the fresh draft, cursor at its end, with the
/// browse over and the history as it was.
pub proof fn law_history_round_trip(a: Input, b: Input, c: Input)
    requires
        a.browsing() is None,
        a.history_view().len() > 0,
        stepped_back(a, b),
        stepped_forward(b, c),
    ensures
        c.text_view() == a.text_view(),
        c.cursor_view() == a.text_view().len(),
        c.browsing() is None,
        c.history_view() == a.history_view(),
{
}

/// Nothing a paste keeps is a carriage return or another control character
/// but the newline and the tab.
pub proof fn lemma_normalized_keeps(s: Seq<char>)
    ensures
        forall|i: int| 0 <= i < normalized(s).len() ==> pasted_keeps(#[trigger] normalized(s)[i]),
    decreases s.len(),
{
    if s.len() == 0 {
    } else if s[0] == '\r' {
        if s.len() > 1 && s[1] == '\n' {
            lemma_normalized_keeps(s.skip(2));
        } else {
            lemma_normalized_keeps(s.skip(1));
        }
        let rest = if s.len() > 1 && s[1] == '\n' {
            normalized(s.skip(2))
        } else {
            normalized(s.skip(1))
        };
        assert forall|i: int| 0 <= i < normalized(s).len() implies pasted_keeps(
            #[trigger] normalized(s)[i],
        ) by {
            if i > 0 {
                assert(normalized(s)[i] == rest[i - 1]);
            }
        }
    } else {
        lemma_normalized_keeps(s.skip(1));
        let rest = normalized(s.skip(1));
        if pasted_keeps(s[0]) {
            assert forall|i: int| 0 <= i < normalized(s).len() implies pasted_keeps(
                #[trigger] normalized(s)[i],
            ) by {
                if i > 0 {
                    assert(normalized(s)[i] == rest[i - 1]);
                }
            }
        }
    }
}

impl Default for Input {
    /// An empty draft with no history.
    fn default() -> (r: Input)
        ensures
            r.wf(),
            r.text_view() == Seq::<char>::empty(),
            r.cursor_view() == 0,
            r.history_view() == Seq::<Seq<char>>::empty(),
            r.browsing() is None,
            r.stash_view() == Seq::<char>::empty(),
            r.goal_view() is None,
    {
        Input::new()
    }
}


/// Walking back from `i` over characters whose whitespace-ness is `ws` stops
/// at the line start `lo` or right after the first character that differs,
/// and passes only such characters.
proof fn lemma_skip_back_run(t: Seq<char>, lo: int, i: int, ws: bool)
    requires
        0 <= lo <= i <= t.len(),
    ensures
        lo <= skip_back(t, lo, i, ws) <= i,
        forall|k: int| skip_back(t, lo, i, ws) <= k < i ==> is_ws(#[trigger] t[k]) == ws,
        skip_back(t, lo, i, ws) == lo || is_ws(t[skip_back(t, lo, i, ws) - 1]) != ws,
    decreases i - lo,
{
    if i > lo && is_ws(t[i - 1]) == ws {
        lemma_skip_back_run(t, lo, i - 1, ws);
    }
}

/// `Ctrl-W` cuts back from the cursor `c` over the whitespace just before it,
/// then over one whole run of non-whitespace characters, whatever they are —
/// `/`, `.` and `-` included — so the cut point `w` sits at the line's start
/// or right after a whitespace character, never past the line's start. With
/// the draft cut at `w` (the contract of `kill_word`), "git add src/main.rs"
/// with the cursor at its end becomes "git add ".
pub proof fn kill_word_cuts_one_whole_run(t: Seq<char>, c: int)
    requires
        0 <= c <= t.len(),
    ensures
        ({
            let lo = line_start(t, c);
            let w = word_cut(t, lo, c);
            let s = skip_back(t, lo, c, true);
            &&& lo <= w <= s <= c
            &&& forall|k: int| s <= k < c ==> is_ws(#[trigger] t[k])
            &&& (s == lo || !is_ws(t[s - 1]))
            &&& forall|k: int| w <= k < s ==> !is_ws(#[trigger] t[k])
            &&& (w == lo || is_ws(t[w - 1]))
        }),
{
    lemma_line_start(t, c);
    let lo = line_start(t, c);
    lemma_skip_back_run(t, lo, c, true);
    let s = skip_back(t, lo, c, true);
    lemma_skip_back_run(t, lo, s, false);
}

} // verus!
