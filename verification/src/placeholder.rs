//! The placeholder guardrail: an `old_string` line shaped like a comment whose
//! text is a stand-in ("...", "rest of the file", "unchanged") is not text in
//! the file. Only comment-shaped phrases count, so Rust's `..` and `..=` and an
//! ordinary word like "rest" in a sentence are never mistaken for one.

use vstd::prelude::*;
use vstd::string::StrSliceExecFns;

use crate::text::{chars_of, push_char, string_of_range};

verus! {

broadcast use vstd::seq::group_seq_axioms;

/// The characters `char::is_whitespace` accepts (Unicode `White_Space`).
pub open spec fn is_ws(c: char) -> bool {
    let u = c as u32;
    ||| 9 <= u <= 13
    ||| u == 32
    ||| u == 0x85
    ||| u == 0xA0
    ||| u == 0x1680
    ||| 0x2000 <= u <= 0x200A
    ||| u == 0x2028
    ||| u == 0x2029
    ||| u == 0x202F
    ||| u == 0x205F
    ||| u == 0x3000
}

/// An ASCII letter or digit, or an underscore: what a stand-in word keeps.
pub open spec fn is_wordish(c: char) -> bool {
    let u = c as u32;
    ||| 48 <= u <= 57
    ||| 65 <= u <= 90
    ||| 97 <= u <= 122
    ||| u == 95
}

/// Which characters a trim removes.
#[derive(Clone, Copy, PartialEq, Eq, Structural)]
pub enum Trimmed {
    /// Whitespace.
    Space,
    /// Everything but ASCII letters, digits and `_`.
    NonWord,
}

pub open spec fn trimmed_by(c: char, k: Trimmed) -> bool {
    match k {
        Trimmed::Space => is_ws(c),
        Trimmed::NonWord => !is_wordish(c),
    }
}

pub open spec fn trim_start_by(s: Seq<char>, k: Trimmed) -> Seq<char>
    decreases s.len(),
{
    if s.len() > 0 && trimmed_by(s[0], k) {
        trim_start_by(s.drop_first(), k)
    } else {
        s
    }
}

pub open spec fn trim_end_by(s: Seq<char>, k: Trimmed) -> Seq<char>
    decreases s.len(),
{
    if s.len() > 0 && trimmed_by(s.last(), k) {
        trim_end_by(s.drop_last(), k)
    } else {
        s
    }
}

pub open spec fn trim_by(s: Seq<char>, k: Trimmed) -> Seq<char> {
    trim_start_by(trim_end_by(s, k), k)
}

/// ASCII lowercase of one character.
pub open spec fn ascii_lower(c: char) -> char {
    if 65 <= (c as u32) <= 90 {
        ((c as u32) + 32) as char
    } else {
        c
    }
}

pub open spec fn lower(s: Seq<char>) -> Seq<char> {
    s.map_values(|c: char| ascii_lower(c))
}

pub open spec fn starts_with(s: Seq<char>, p: Seq<char>) -> bool {
    p.len() <= s.len() && s.take(p.len() as int) == p
}

/// The end of the line starting at character `pos`: past its `\n`, or the end.
pub open spec fn char_line_end(s: Seq<char>, pos: int) -> int
    decreases s.len() - pos,
{
    if pos < 0 || pos >= s.len() {
        s.len() as int
    } else if s[pos] == '\n' {
        pos + 1
    } else {
        char_line_end(s, pos + 1)
    }
}

/// The line starting at `pos` as `str::lines` yields it: without its `\n`, and
/// without a `\r` just before that `\n`.
pub open spec fn line_text(s: Seq<char>, pos: int) -> Seq<char> {
    let e = char_line_end(s, pos);
    if pos < e && s[e - 1] == '\n' {
        let b = s.subrange(pos, e - 1);
        if b.len() > 0 && b.last() == '\r' {
            b.drop_last()
        } else {
            b
        }
    } else {
        s.subrange(pos, e)
    }
}

/// The text after a comment marker, for every comment shape the guardrail
/// recognises, doc comments included.
pub open spec fn comment_body(line: Seq<char>) -> Option<Seq<char>> {
    let l = trim_start_by(line, Trimmed::Space);
    if starts_with(l, "///"@) {
        Some(l.skip(3))
    } else if starts_with(l, "//!"@) {
        Some(l.skip(3))
    } else if starts_with(l, "//"@) {
        Some(l.skip(2))
    } else if starts_with(l, "/**"@) {
        Some(l.skip(3))
    } else if starts_with(l, "/*"@) {
        Some(l.skip(2))
    } else if starts_with(l, "*"@) {
        Some(l.skip(1))
    } else if starts_with(l, "#"@) {
        Some(l.skip(1))
    } else {
        None
    }
}

/// A word that only ever stands in for omitted text.
pub open spec fn is_stand_in(w: Seq<char>) -> bool {
    let l = lower(w);
    l == "existing"@ || l == "unchanged"@ || l == "elided"@ || l == "omitted"@
}

/// Where the next whitespace-separated word of `b` starts, from `i` on.
pub open spec fn word_start(b: Seq<char>, i: int) -> int
    decreases b.len() - i,
{
    if i < 0 || i >= b.len() || !is_ws(b[i]) {
        i
    } else {
        word_start(b, i + 1)
    }
}

/// Where the word starting at `i` ends.
pub open spec fn word_end(b: Seq<char>, i: int) -> int
    decreases b.len() - i,
{
    if i < 0 || i >= b.len() || is_ws(b[i]) {
        i
    } else {
        word_end(b, i + 1)
    }
}

pub proof fn lemma_word_bounds(b: Seq<char>, i: int)
    requires
        0 <= i <= b.len(),
    ensures
        i <= word_start(b, i) <= b.len(),
        word_start(b, i) <= word_end(b, word_start(b, i)) <= b.len(),
        word_start(b, i) < b.len() ==> word_start(b, i) < word_end(b, word_start(b, i)),
    decreases b.len() - i,
{
    if i < b.len() && is_ws(b[i]) {
        lemma_word_bounds(b, i + 1);
    } else {
        lemma_word_end_bounds(b, i);
    }
}

pub proof fn lemma_word_end_bounds(b: Seq<char>, i: int)
    requires
        0 <= i <= b.len(),
    ensures
        i <= word_end(b, i) <= b.len(),
        i < b.len() && !is_ws(b[i]) ==> i < word_end(b, i),
    decreases b.len() - i,
{
    if i < b.len() && !is_ws(b[i]) {
        lemma_word_end_bounds(b, i + 1);
    }
}

/// The first word of `b`, from `i` on, that is a stand-in once its
/// punctuation is trimmed; the trimmed word.
pub open spec fn stand_in_from(b: Seq<char>, i: int) -> Option<Seq<char>>
    decreases b.len() - i,
{
    if i < 0 || i >= b.len() {
        None
    } else {
        let a = word_start(b, i);
        if a >= b.len() {
            None
        } else {
            let e = word_end(b, a);
            let w = trim_by(b.subrange(a, e), Trimmed::NonWord);
            if is_stand_in(w) {
                Some(w)
            } else {
                proof {
                    lemma_word_bounds(b, i);
                }
                stand_in_from(b, e)
            }
        }
    }
}

/// The placeholder phrase one line carries, if it is a comment-shaped stand-in.
pub open spec fn line_phrase(line: Seq<char>) -> Option<Seq<char>> {
    match comment_body(line) {
        None => None,
        Some(raw) => {
            let body = trim_by(raw, Trimmed::Space);
            if starts_with(body, "..."@) {
                Some("..."@)
            } else if body.len() > 0 && body[0] == '…' {
                Some("…"@)
            } else {
                match stand_in_from(body, 0) {
                    Some(w) => Some(w),
                    None => if starts_with(lower(body), "rest of"@) || starts_with(
                        lower(body),
                        "the rest"@,
                    ) {
                        Some("rest"@)
                    } else {
                        None
                    },
                }
            }
        },
    }
}

pub proof fn lemma_char_line_end(s: Seq<char>, pos: int)
    requires
        0 <= pos < s.len(),
    ensures
        pos < char_line_end(s, pos) <= s.len(),
    decreases s.len() - pos,
{
    if s[pos] == '\n' {
    } else if pos + 1 < s.len() {
        lemma_char_line_end(s, pos + 1);
    } else {
        assert(char_line_end(s, pos + 1) == s.len());
    }
}

/// The first line, from `pos` on, that carries a placeholder phrase; the phrase.
pub open spec fn placeholder_from(s: Seq<char>, pos: int) -> Option<Seq<char>>
    decreases s.len() - pos,
{
    if pos < 0 || pos >= s.len() {
        None
    } else {
        match line_phrase(line_text(s, pos)) {
            Some(p) => Some(p),
            None => {
                proof {
                    lemma_char_line_end(s, pos);
                }
                placeholder_from(s, char_line_end(s, pos))
            },
        }
    }
}

/// The placeholder phrase `old_string` carries, line by line, if any.
pub open spec fn placeholder(s: Seq<char>) -> Option<Seq<char>> {
    placeholder_from(s, 0)
}

pub(crate) fn is_ws_char(c: char) -> (r: bool)
    ensures
        r == is_ws(c),
{
    let u = c as u32;
    (9 <= u && u <= 13) || u == 32 || u == 0x85 || u == 0xA0 || u == 0x1680 || (0x2000 <= u && u
        <= 0x200A) || u == 0x2028 || u == 0x2029 || u == 0x202F || u == 0x205F || u == 0x3000
}

fn trimmed_char(c: char, k: Trimmed) -> (r: bool)
    ensures
        r == trimmed_by(c, k),
{
    match k {
        Trimmed::Space => is_ws_char(c),
        Trimmed::NonWord => {
            let u = c as u32;
            !((48 <= u && u <= 57) || (65 <= u && u <= 90) || (97 <= u && u <= 122) || u == 95)
        },
    }
}

pub(crate) fn trim_start_at(v: &Vec<char>, lo: usize, hi: usize, k: Trimmed) -> (a: usize)
    requires
        lo <= hi <= v@.len(),
    ensures
        lo <= a <= hi,
        v@.subrange(a as int, hi as int) == trim_start_by(v@.subrange(lo as int, hi as int), k),
{
    let mut a = lo;
    while a < hi && trimmed_char(v[a], k)
        invariant
            lo <= a <= hi <= v@.len(),
            trim_start_by(v@.subrange(a as int, hi as int), k) == trim_start_by(
                v@.subrange(lo as int, hi as int),
                k,
            ),
        decreases hi - a,
    {
        assert(v@.subrange(a as int, hi as int).drop_first() =~= v@.subrange(a + 1, hi as int));
        a += 1;
    }
    a
}

pub(crate) fn trim_end_at(v: &Vec<char>, lo: usize, hi: usize, k: Trimmed) -> (e: usize)
    requires
        lo <= hi <= v@.len(),
    ensures
        lo <= e <= hi,
        v@.subrange(lo as int, e as int) == trim_end_by(v@.subrange(lo as int, hi as int), k),
{
    let mut e = hi;
    while e > lo && trimmed_char(v[e - 1], k)
        invariant
            lo <= e <= hi <= v@.len(),
            trim_end_by(v@.subrange(lo as int, e as int), k) == trim_end_by(
                v@.subrange(lo as int, hi as int),
                k,
            ),
        decreases e,
    {
        assert(v@.subrange(lo as int, e as int).drop_last() =~= v@.subrange(lo as int, e - 1));
        e -= 1;
    }
    e
}

pub(crate) fn trim_at(v: &Vec<char>, lo: usize, hi: usize, k: Trimmed) -> (r: (usize, usize))
    requires
        lo <= hi <= v@.len(),
    ensures
        lo <= r.0 <= r.1 <= hi,
        v@.subrange(r.0 as int, r.1 as int) == trim_by(v@.subrange(lo as int, hi as int), k),
{
    let e = trim_end_at(v, lo, hi, k);
    let a = trim_start_at(v, lo, e, k);
    (a, e)
}

/// `text` with whitespace trimmed from both ends, as `str::trim` does.
pub fn trim_space(text: &str) -> (s: String)
    ensures
        s@ == trim_by(text@, Trimmed::Space),
{
    let v = chars_of(text);
    let n = v.len();
    assert(v@.subrange(0, n as int) =~= v@);
    let (a, e) = trim_at(&v, 0, n, Trimmed::Space);
    string_of_range(&v, a, e)
}

fn lower_char(c: char) -> (r: char)
    ensures
        r == ascii_lower(c),
{
    let u = c as u32;
    if 65 <= u && u <= 90 {
        match c {
            'A' => 'a',
            'B' => 'b',
            'C' => 'c',
            'D' => 'd',
            'E' => 'e',
            'F' => 'f',
            'G' => 'g',
            'H' => 'h',
            'I' => 'i',
            'J' => 'j',
            'K' => 'k',
            'L' => 'l',
            'M' => 'm',
            'N' => 'n',
            'O' => 'o',
            'P' => 'p',
            'Q' => 'q',
            'R' => 'r',
            'S' => 's',
            'T' => 't',
            'U' => 'u',
            'V' => 'v',
            'W' => 'w',
            'X' => 'x',
            'Y' => 'y',
            _ => 'z',
        }
    } else {
        c
    }
}

/// Whether `v[lo..hi]`, lowercased when `fold` holds, starts with `lit`.
pub(crate) fn starts_with_at(v: &Vec<char>, lo: usize, hi: usize, lit: &str, fold: bool) -> (r: bool)
    requires
        lo <= hi <= v@.len(),
    ensures
        r == starts_with(
            if fold {
                lower(v@.subrange(lo as int, hi as int))
            } else {
                v@.subrange(lo as int, hi as int)
            },
            lit@,
        ),
{
    let ghost s = if fold {
        lower(v@.subrange(lo as int, hi as int))
    } else {
        v@.subrange(lo as int, hi as int)
    };
    let n = lit.unicode_len();
    if n > hi - lo {
        return false;
    }
    let mut i: usize = 0;
    while i < n
        invariant
            n == lit@.len(),
            n <= hi - lo,
            lo <= hi <= v@.len(),
            i <= n,
            s.len() == hi - lo,
            s == (if fold {
                lower(v@.subrange(lo as int, hi as int))
            } else {
                v@.subrange(lo as int, hi as int)
            }),
            s.take(i as int) == lit@.take(i as int),
        decreases n - i,
    {
        let c = if fold {
            lower_char(v[lo + i])
        } else {
            v[lo + i]
        };
        assert(c == s[i as int]);
        if c != lit.get_char(i) {
            assert(s.take(n as int)[i as int] != lit@[i as int]);
            return false;
        }
        assert(s.take(i + 1) =~= s.take(i as int).push(s[i as int]));
        assert(lit@.take(i + 1) =~= lit@.take(i as int).push(lit@[i as int]));
        i += 1;
    }
    assert(lit@.take(n as int) =~= lit@);
    true
}

/// Whether `v[lo..hi]`, lowercased, is exactly `lit`.
fn lower_equals(v: &Vec<char>, lo: usize, hi: usize, lit: &str) -> (r: bool)
    requires
        lo <= hi <= v@.len(),
    ensures
        r == (lower(v@.subrange(lo as int, hi as int)) == lit@),
{
    let n = lit.unicode_len();
    if n != hi - lo {
        assert(lower(v@.subrange(lo as int, hi as int)).len() != lit@.len());
        return false;
    }
    let r = starts_with_at(v, lo, hi, lit, true);
    proof {
        let s = lower(v@.subrange(lo as int, hi as int));
        assert(s.take(n as int) =~= s);
    }
    r
}

fn is_stand_in_at(v: &Vec<char>, lo: usize, hi: usize) -> (r: bool)
    requires
        lo <= hi <= v@.len(),
    ensures
        r == is_stand_in(v@.subrange(lo as int, hi as int)),
{
    lower_equals(v, lo, hi, "existing") || lower_equals(v, lo, hi, "unchanged") || lower_equals(
        v,
        lo,
        hi,
        "elided",
    ) || lower_equals(v, lo, hi, "omitted")
}

/// The first stand-in word of `v[lo..hi]`, as a range of `v`.
fn stand_in_at(v: &Vec<char>, lo: usize, hi: usize) -> (r: Option<(usize, usize)>)
    requires
        lo <= hi <= v@.len(),
    ensures
        match r {
            Some(w) => lo <= w.0 <= w.1 <= hi && stand_in_from(v@.subrange(lo as int, hi as int), 0)
                == Some(v@.subrange(w.0 as int, w.1 as int)),
            None => stand_in_from(v@.subrange(lo as int, hi as int), 0) is None,
        },
{
    let ghost b = v@.subrange(lo as int, hi as int);
    let mut i = lo;
    while i < hi
        invariant
            lo <= i <= hi <= v@.len(),
            b == v@.subrange(lo as int, hi as int),
            stand_in_from(b, i - lo) == stand_in_from(b, 0),
        decreases hi - i,
    {
        let mut a = i;
        while a < hi && is_ws_char(v[a])
            invariant
                lo <= i <= a <= hi <= v@.len(),
                b == v@.subrange(lo as int, hi as int),
                word_start(b, a - lo) == word_start(b, i - lo),
            decreases hi - a,
        {
            assert(b[a - lo] == v@[a as int]);
            a += 1;
        }
        if a >= hi {
            return None;
        }
        assert(b[a - lo] == v@[a as int]);
        let mut e = a;
        while e < hi && !is_ws_char(v[e])
            invariant
                lo <= a <= e <= hi <= v@.len(),
                b == v@.subrange(lo as int, hi as int),
                word_end(b, e - lo) == word_end(b, a - lo),
            decreases hi - e,
        {
            assert(b[e - lo] == v@[e as int]);
            e += 1;
        }
        proof {
            if e < hi {
                assert(b[e - lo] == v@[e as int]);
            }
            lemma_word_bounds(b, i - lo);
            assert(b.subrange(a - lo, e - lo) =~= v@.subrange(a as int, e as int));
        }
        let (wa, wb) = trim_at(v, a, e, Trimmed::NonWord);
        if is_stand_in_at(v, wa, wb) {
            return Some((wa, wb));
        }
        i = e;
    }
    None
}

/// The placeholder phrase of one line `v[lo..hi]`.
fn line_phrase_at(v: &Vec<char>, lo: usize, hi: usize) -> (r: Option<String>)
    requires
        lo <= hi <= v@.len(),
    ensures
        match r {
            Some(p) => line_phrase(v@.subrange(lo as int, hi as int)) == Some(p@),
            None => line_phrase(v@.subrange(lo as int, hi as int)) is None,
        },
{
    let ghost line = v@.subrange(lo as int, hi as int);
    proof {
        reveal_strlit("///");
        reveal_strlit("//!");
        reveal_strlit("//");
        reveal_strlit("/**");
        reveal_strlit("/*");
        reveal_strlit("*");
        reveal_strlit("#");
    }
    let l = trim_start_at(v, lo, hi, Trimmed::Space);
    let ghost ls = v@.subrange(l as int, hi as int);
    let skip: usize = if starts_with_at(v, l, hi, "///", false) {
        3
    } else if starts_with_at(v, l, hi, "//!", false) {
        3
    } else if starts_with_at(v, l, hi, "//", false) {
        2
    } else if starts_with_at(v, l, hi, "/**", false) {
        3
    } else if starts_with_at(v, l, hi, "/*", false) {
        2
    } else if starts_with_at(v, l, hi, "*", false) {
        1
    } else if starts_with_at(v, l, hi, "#", false) {
        1
    } else {
        0
    };
    if skip == 0 {
        return None;
    }
    let raw = l + skip;
    assert(comment_body(line) == Some(v@.subrange(raw as int, hi as int))) by {
        assert(ls.skip(skip as int) =~= v@.subrange(raw as int, hi as int));
    }
    let (a, e) = trim_at(v, raw, hi, Trimmed::Space);
    let ghost body = v@.subrange(a as int, e as int);
    if starts_with_at(v, a, e, "...", false) {
        return Some("...".to_string());
    }
    if a < e && v[a] == '…' {
        return Some("…".to_string());
    }
    match stand_in_at(v, a, e) {
        Some((wa, wb)) => {
            return Some(string_of_range(v, wa, wb));
        },
        None => {},
    }
    if starts_with_at(v, a, e, "rest of", true) || starts_with_at(v, a, e, "the rest", true) {
        return Some("rest".to_string());
    }
    None
}

/// The placeholder phrase `old` carries, if any line is a comment-shaped
/// stand-in.
pub fn placeholder_phrase(old: &Vec<char>) -> (r: Option<String>)
    ensures
        match r {
            Some(p) => placeholder(old@) == Some(p@),
            None => placeholder(old@) is None,
        },
{
    let mut pos: usize = 0;
    while pos < old.len()
        invariant
            pos <= old@.len(),
            placeholder_from(old@, pos as int) == placeholder(old@),
        decreases old@.len() - pos,
    {
        let (body_hi, next) = line_span(old, pos);
        match line_phrase_at(old, pos, body_hi) {
            Some(p) => {
                return Some(p);
            },
            None => {},
        }
        pos = next;
    }
    None
}

/// The line starting at `pos`: where its text ends (before its `\n`, and
/// before a `\r` just before that), and where the next line starts.
pub(crate) fn line_span(v: &Vec<char>, pos: usize) -> (r: (usize, usize))
    requires
        pos < v@.len(),
    ensures
        pos <= r.0 <= r.1 <= v@.len(),
        pos < r.1,
        r.1 == char_line_end(v@, pos as int),
        v@.subrange(pos as int, r.0 as int) == line_text(v@, pos as int),
{
    let mut e = pos;
    while e < v.len() && v[e] != '\n'
        invariant
            pos <= e <= v@.len(),
            pos < v@.len(),
            char_line_end(v@, e as int) == char_line_end(v@, pos as int),
            forall|j: int| pos <= j < e ==> v@[j] != '\n',
        decreases v@.len() - e,
    {
        e += 1;
    }
    let next = if e < v.len() {
        e + 1
    } else {
        e
    };
    assert(next == char_line_end(v@, pos as int));
    let body_hi = if e < v.len() && e > pos && v[e - 1] == '\r' {
        e - 1
    } else {
        e
    };
    assert(v_line(v@, pos as int, body_hi as int)) by {
        let b = v@.subrange(pos as int, e as int);
        if e < v@.len() {
            if e > pos {
                assert(b.last() == v@[e - 1]);
                assert(b.drop_last() =~= v@.subrange(pos as int, e - 1));
            }
        } else {
            assert(v@[v@.len() - 1] != '\n');
        }
    }
    proof {
        lemma_char_line_end(v@, pos as int);
    }
    (body_hi, next)
}

/// `s[pos..hi]` is the text of the line starting at `pos`.
spec fn v_line(s: Seq<char>, pos: int, hi: int) -> bool {
    line_text(s, pos) == s.subrange(pos, hi)
}

} // verus!
