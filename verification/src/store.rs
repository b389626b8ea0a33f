//! The session store's layout: one directory per session, one bucket per
//! working directory, and the order sessions are offered in.
//!
//! A session is a movable directory: a JSONL event stream plus the `outputs/`
//! artifacts the stream points at. The bucket only groups sessions; the
//! authoritative binding is the working directory recorded in the stream.
//! The filesystem work itself happens outside this module; everything here is
//! the naming and ordering it follows.

use vstd::prelude::*;

use crate::text::{chars_of, push_char, push_str};
use vstd::string::StringSliceAdditionalSpecFns;

verus! {

/// The event stream's file name inside a session directory.
pub const LOG_FILE: &'static str = "log.jsonl";

/// The tool artifacts' directory name inside a session directory.
pub const OUTPUTS_DIR: &'static str = "outputs";

/// How much of the readable part of a bucket name is kept: its tail, where
/// the project directory is.
pub const MAX_READABLE: usize = 64;

/// FNV-1a's 64-bit offset basis.
pub const FNV_OFFSET: u64 = 0xcbf2_9ce4_8422_2325;

/// FNV-1a's 64-bit prime.
pub const FNV_PRIME: u64 = 0x0000_0100_0000_01b3;

/// FNV-1a over the first `n` bytes.
pub open spec fn fnv_fold(bytes: Seq<u8>, n: int) -> u64
    decreases n,
{
    if n <= 0 {
        FNV_OFFSET
    } else {
        (fnv_fold(bytes, n - 1) ^ (bytes[n - 1] as u64)).wrapping_mul(FNV_PRIME)
    }
}

/// FNV-1a, 64-bit: a tiny hash that is stable across releases forever.
pub fn fnv1a(bytes: &[u8]) -> (h: u64)
    ensures
        h == fnv_fold(bytes@, bytes@.len() as int),
{
    let mut hash: u64 = FNV_OFFSET;
    let mut i: usize = 0;
    while i < bytes.len()
        invariant
            i <= bytes@.len(),
            hash == fnv_fold(bytes@, i as int),
        decreases bytes@.len() - i,
    {
        hash = (hash ^ (bytes[i] as u64)).wrapping_mul(FNV_PRIME);
        i += 1;
    }
    hash
}

/// The lower-case hexadecimal digit of `d < 16`.
pub open spec fn hex_char(d: nat) -> char {
    if d < 10 {
        (48 + d) as char
    } else {
        (87 + d) as char
    }
}

/// The last `k` hexadecimal digits of `x`, most significant first.
pub open spec fn hex_digits(x: nat, k: nat) -> Seq<char>
    decreases k,
{
    if k == 0 {
        seq![]
    } else {
        hex_digits(x / 16, (k - 1) as nat).push(hex_char(x % 16))
    }
}

fn hex_digit(d: u64) -> (c: char)
    requires
        d < 16,
    ensures
        c == hex_char(d as nat),
{
    match d {
        0 => '0',
        1 => '1',
        2 => '2',
        3 => '3',
        4 => '4',
        5 => '5',
        6 => '6',
        7 => '7',
        8 => '8',
        9 => '9',
        10 => 'a',
        11 => 'b',
        12 => 'c',
        13 => 'd',
        14 => 'e',
        _ => 'f',
    }
}

/// Append the last `k` hexadecimal digits of `x`, zero-padded.
fn push_hex(s: &mut String, x: u64, k: usize)
    requires
        k <= 16,
    ensures
        final(s)@ == old(s)@ + hex_digits(x as nat, k as nat),
{
    let mut digits: Vec<char> = Vec::new();
    let mut y = x;
    let mut j: usize = 0;
    while j < k
        invariant
            j <= k,
            hex_digits(x as nat, k as nat) == hex_digits(y as nat, (k - j) as nat) + digits@,
        decreases k - j,
    {
        let c = hex_digit(y % 16);
        let ghost before = digits@;
        digits.insert(0, c);
        proof {
            assert(hex_digits(y as nat, (k - j) as nat) == hex_digits(
                (y / 16) as nat,
                (k - j - 1) as nat,
            ).push(c));
            assert(hex_digits((y / 16) as nat, (k - j - 1) as nat).push(c) + before =~= hex_digits(
                (y / 16) as nat,
                (k - j - 1) as nat,
            ) + digits@);
        }
        y = y / 16;
        j += 1;
    }
    assert(hex_digits(y as nat, 0) =~= Seq::<char>::empty());
    assert(Seq::<char>::empty() + digits@ =~= digits@);
    crate::text::push_chars(s, &digits);
}

/// `c` is an ASCII letter or digit.
pub open spec fn ascii_alnum(c: char) -> bool {
    ('0' <= c <= '9') || ('a' <= c <= 'z') || ('A' <= c <= 'Z')
}

/// A path's text with everything but ASCII letters and digits made `-`.
pub open spec fn readable_of(raw: Seq<char>) -> Seq<char> {
    raw.map_values(|c: char| if ascii_alnum(c) {
        c
    } else {
        '-'
    })
}

/// A filesystem-safe, stable bucket name for one working directory, from the
/// text of its path and that text's UTF-8 bytes: the readable tail, then the
/// FNV-1a hash that tells apart paths with the same readable form.
pub open spec fn slug_text(raw: Seq<char>, bytes: Seq<u8>) -> Seq<char> {
    let readable = readable_of(raw);
    let tail = if readable.len() > MAX_READABLE {
        readable.skip(readable.len() - MAX_READABLE)
    } else {
        readable
    };
    tail + seq!['-'] + hex_digits(fnv_fold(bytes, bytes.len() as int) as nat, 16)
}

/// The bucket name of a working directory, from its path's text.
pub fn cwd_slug(raw: &str) -> (s: String)
    ensures
        s@ == slug_text(raw@, raw.spec_bytes()),
{
    let chars = chars_of(raw);
    let n = chars.len();
    let start = if n > MAX_READABLE {
        n - MAX_READABLE
    } else {
        0
    };
    let ghost readable = readable_of(chars@);
    let mut s = String::new();
    let mut i = start;
    while i < n
        invariant
            start <= i <= n == chars.len(),
            readable == readable_of(chars@),
            s@ == readable.subrange(start as int, i as int),
        decreases n - i,
    {
        let c = chars[i];
        let shown = if ('0' <= c && c <= '9') || ('a' <= c && c <= 'z') || ('A' <= c && c <= 'Z') {
            c
        } else {
            '-'
        };
        push_char(&mut s, shown);
        i += 1;
        assert(s@ =~= readable.subrange(start as int, i as int));
    }
    proof {
        if n > MAX_READABLE {
            assert(readable.subrange(start as int, n as int) =~= readable.skip(start as int));
        } else {
            assert(readable.subrange(0, n as int) =~= readable);
        }
    }
    push_char(&mut s, '-');
    let bytes = raw.as_bytes();
    let h = fnv1a(bytes);
    push_hex(&mut s, h, 16);
    s
}

/// `name` under `base`, as a path push does it: one separator between them,
/// none added after a base that already ends in one.
pub open spec fn joined(base: Seq<char>, name: Seq<char>) -> Seq<char> {
    if base.len() == 0 || base.last() == '/' {
        base + name
    } else {
        base + seq!['/'] + name
    }
}

/// `name` under `base`.
pub fn join_path(base: &str, name: &str) -> (s: String)
    ensures
        s@ == joined(base@, name@),
{
    let chars = chars_of(base);
    let mut s = String::new();
    push_str(&mut s, base);
    if chars.len() > 0 && chars[chars.len() - 1] != '/' {
        push_char(&mut s, '/');
    }
    push_str(&mut s, name);
    s
}

/// One session directory: its id, the directory, the event stream inside it,
/// and where its artifacts land.
#[derive(Debug, Clone, PartialEq, Eq)]
pub struct StoredSession {
    pub id: String,
    pub dir: String,
    pub log_path: String,
    pub outputs_dir: String,
}

impl StoredSession {
    /// The session named `id` in the directory `dir`.
    pub fn at(dir: String, id: String) -> (s: StoredSession)
        ensures
            s.id@ == id@,
            s.dir@ == dir@,
            s.log_path@ == joined(dir@, LOG_FILE@),
            s.outputs_dir@ == joined(dir@, OUTPUTS_DIR@),
    {
        let log_path = join_path(dir.as_str(), LOG_FILE);
        let outputs_dir = join_path(dir.as_str(), OUTPUTS_DIR);
        StoredSession { id, dir, log_path, outputs_dir }
    }
}

/// Session directories under one root.
#[derive(Debug, Clone)]
pub struct SessionStore {
    pub root: String,
}

impl SessionStore {
    /// A store rooted at `root`. The root is injected, never read from the
    /// environment.
    pub fn new(root: String) -> (s: SessionStore)
        ensures
            s.root@ == root@,
    {
        SessionStore { root }
    }

    /// The bucket of the working directory whose canonical path reads `cwd`.
    pub fn bucket(&self, cwd: &str) -> (b: String)
        ensures
            b@ == joined(self.root@, slug_text(cwd@, cwd.spec_bytes())),
    {
        let slug = cwd_slug(cwd);
        join_path(self.root.as_str(), slug.as_str())
    }

    /// Where a new session named `id` lives in the bucket of `cwd`.
    pub fn session_in(&self, cwd: &str, id: String) -> (s: StoredSession)
        ensures
            s.id@ == id@,
            s.dir@ == joined(joined(self.root@, slug_text(cwd@, cwd.spec_bytes())), id@),
            s.log_path@ == joined(s.dir@, LOG_FILE@),
            s.outputs_dir@ == joined(s.dir@, OUTPUTS_DIR@),
    {
        let bucket = self.bucket(cwd);
        let dir = join_path(bucket.as_str(), id.as_str());
        StoredSession::at(dir, id)
    }
}

/// A session id: the UTC stamp it was made at, then eight hexadecimal digits
/// that keep two sessions minted in the same second apart.
pub fn session_id(stamp: &str, suffix: u32) -> (s: String)
    ensures
        s@ == stamp@ + seq!['-'] + hex_digits(suffix as nat, 8),
{
    let mut s = String::new();
    push_str(&mut s, stamp);
    push_char(&mut s, '-');
    push_hex(&mut s, suffix as u64, 8);
    s
}

/// `a` sorts at or before `b`, character by character.
pub open spec fn text_le(a: Seq<char>, b: Seq<char>) -> bool
    decreases a.len(),
{
    if a.len() == 0 {
        true
    } else if b.len() == 0 {
        false
    } else if a[0] != b[0] {
        a[0] < b[0]
    } else {
        text_le(a.drop_first(), b.drop_first())
    }
}

proof fn lemma_text_le_total(a: Seq<char>, b: Seq<char>)
    ensures
        text_le(a, b) || text_le(b, a),
    decreases a.len(),
{
    if a.len() > 0 && b.len() > 0 && a[0] == b[0] {
        lemma_text_le_total(a.drop_first(), b.drop_first());
    }
}

proof fn lemma_text_le_trans(a: Seq<char>, b: Seq<char>, c: Seq<char>)
    requires
        text_le(a, b),
        text_le(b, c),
    ensures
        text_le(a, c),
    decreases a.len(),
{
    if a.len() > 0 && b.len() > 0 && c.len() > 0 && a[0] == b[0] && b[0] == c[0] {
        lemma_text_le_trans(a.drop_first(), b.drop_first(), c.drop_first());
    }
}

/// Whether `a` sorts at or before `b`.
fn text_le_exec(a: &str, b: &str) -> (r: bool)
    ensures
        r == text_le(a@, b@),
{
    let x = chars_of(a);
    let y = chars_of(b);
    let mut i: usize = 0;
    assert(x@.skip(0) =~= x@);
    assert(y@.skip(0) =~= y@);
    while i < x.len() && i < y.len() && x[i] == y[i]
        invariant
            i <= x.len(),
            i <= y.len(),
            text_le(x@, y@) == text_le(x@.skip(i as int), y@.skip(i as int)),
        decreases x.len() - i,
    {
        assert(x@.skip(i as int).drop_first() =~= x@.skip(i + 1));
        assert(y@.skip(i as int).drop_first() =~= y@.skip(i + 1));
        i += 1;
    }
    if i == x.len() {
        true
    } else if i == y.len() {
        false
    } else {
        assert(x@.skip(i as int)[0] == x[i as int]);
        assert(y@.skip(i as int)[0] == y[i as int]);
        x[i] < y[i]
    }
}

/// A session found on disk, with when its stream was last written.
pub type Found = (u64, StoredSession);

/// `a` is offered at or before `b`: written later, or written at the same
/// time with the later id (ids begin with their creation stamp).
pub open spec fn offered_first(a: Found, b: Found) -> bool {
    a.0 > b.0 || (a.0 == b.0 && text_le(b.1.id@, a.1.id@))
}

proof fn lemma_offered_total(a: Found, b: Found)
    ensures
        offered_first(a, b) || offered_first(b, a),
{
    lemma_text_le_total(a.1.id@, b.1.id@);
}

proof fn lemma_offered_trans(a: Found, b: Found, c: Found)
    requires
        offered_first(a, b),
        offered_first(b, c),
    ensures
        offered_first(a, c),
{
    if a.0 == b.0 && b.0 == c.0 {
        lemma_text_le_trans(c.1.id@, b.1.id@, a.1.id@);
    }
}

/// The sessions in the order they are offered: newest first.
pub open spec fn newest_first_order(s: Seq<Found>) -> bool {
    forall|i: int, j: int| 0 <= i < j < s.len() ==> offered_first(#[trigger] s[i], #[trigger] s[j])
}

/// Sessions newest first. The most recently written stream leads; a tie goes
/// to the later id.
pub fn newest_first(found: Vec<Found>) -> (r: Vec<Found>)
    ensures
        r@.to_multiset() == found@.to_multiset(),
        newest_first_order(r@),
{
    broadcast use vstd::seq_lib::group_to_multiset_ensures;

    let mut out: Vec<Found> = Vec::new();
    let mut rest = found;
    let ghost all = rest@;
    while rest.len() > 0
        invariant
            out@.to_multiset().add(rest@.to_multiset()) == all.to_multiset(),
            newest_first_order(out@),
        decreases rest.len(),
    {
        let ghost before_rest = rest@;
        let x = rest.pop().unwrap();
        proof {
            assert(before_rest =~= rest@.push(x));
        }
        let mut k: usize = 0;
        while k < out.len() && !later_first(&x, &out[k])
            invariant
                k <= out.len(),
                newest_first_order(out@),
                forall|i: int| 0 <= i < k ==> offered_first(#[trigger] out@[i], x),
            decreases out.len() - k,
        {
            proof {
                lemma_offered_total(x, out@[k as int]);
            }
            k += 1;
        }
        let ghost before = out@;
        out.insert(k, x);
        proof {
            assert(out@ == before.insert(k as int, x));
            vstd::seq_lib::to_multiset_insert(before, k as int, x);
            vstd::seq_lib::to_multiset_build(rest@, x);
            assert(out@.to_multiset() == before.to_multiset().insert(x));
            assert(before_rest.to_multiset() == rest@.to_multiset().insert(x));
            assert(before.to_multiset().insert(x).add(rest@.to_multiset()) =~= before.to_multiset().add(
                rest@.to_multiset().insert(x),
            ));
            assert forall|i: int, j: int| 0 <= i < j < out@.len() implies offered_first(
                #[trigger] out@[i],
                #[trigger] out@[j],
            ) by {
                if j == k {
                    assert(out@[i] == before[i]);
                } else if i == k {
                    assert(out@[j] == before[j - 1]);
                    if k < before.len() {
                        assert(offered_first(x, before[k as int]));
                        if j - 1 > k {
                            lemma_offered_trans(x, before[k as int], before[j - 1]);
                        }
                    }
                } else if i < k && j > k {
                    assert(out@[i] == before[i]);
                    assert(out@[j] == before[j - 1]);
                } else if i > k {
                    assert(out@[i] == before[i - 1]);
                    assert(out@[j] == before[j - 1]);
                } else {
                    assert(out@[i] == before[i]);
                    assert(out@[j] == before[j]);
                }
            }
        }
    }
    out
}

/// Whether `a` is offered at or before `b`.
fn later_first(a: &Found, b: &Found) -> (r: bool)
    ensures
        r == offered_first(*a, *b),
{
    a.0 > b.0 || (a.0 == b.0 && text_le_exec(b.1.id.as_str(), a.1.id.as_str()))
}

/// The sessions a prune removes: all but the `keep` most recent.
pub fn pruned(newest_first: Vec<Found>, keep: usize) -> (r: Vec<StoredSession>)
    ensures
        r@.len() == if keep < newest_first@.len() {
            newest_first@.len() - keep
        } else {
            0
        },
        forall|i: int| 0 <= i < r@.len() ==> #[trigger] r@[i] == newest_first@[keep + i].1,
{
    let mut out: Vec<StoredSession> = Vec::new();
    let mut i = keep;
    let n = newest_first.len();
    let mut all = newest_first;
    let ghost whole = all@;
    if i >= n {
        return out;
    }
    let mut tail = all.split_off(i);
    let ghost t = tail@;
    while tail.len() > 0
        invariant
            t == whole.subrange(keep as int, n as int),
            out@.len() + tail@.len() == t.len(),
            tail@ == t.skip(out@.len() as int),
            forall|j: int| 0 <= j < out@.len() ==> #[trigger] out@[j] == t[j].1,
        decreases tail.len(),
    {
        let ghost m = out@.len();
        let (_, session) = tail.remove(0);
        proof {
            assert(tail@ =~= t.skip(m + 1int));
        }
        out.push(session);
    }
    out
}

} // verus!
