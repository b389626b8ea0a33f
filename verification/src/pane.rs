//! The conversation pane's scroll buffer.
//!
//! The pane owns the transcript rather than the terminal's scrollback, so it
//! answers three questions the terminal used to: how much history to keep, how
//! it wraps at the current width, and where the viewport sits. The cap answers
//! the first, the wrap cache the second, and the sticky bottom the third.
//!
//! Two units, deliberately. The cap counts source lines, what a block renders
//! to before wrapping, because a cap in display rows would keep different
//! amounts of history at different widths. The viewport, the scrollbar and the
//! "new content" indicator count display rows, which is what a person sees.

use std::collections::VecDeque;

use vstd::prelude::*;

use crate::markdown::find_in;
use crate::markdown_spec::{split_on, strip_cr};
use crate::style::{lines_view, plain_style, spans_view, LineView, Style, TextLine, TextSpan};
use crate::text::{chars_of, push_char};
use crate::width::{cell_width, char_columns, is_ascii_control};

verus! {

/// One character and the style it is drawn in.
pub type Cell = (char, Style);

/// The characters of a line's spans, each with its span's style.
pub open spec fn cells_of(spans: Seq<(Seq<char>, Style)>) -> Seq<Cell>
    decreases spans.len(),
{
    if spans.len() == 0 {
        seq![]
    } else {
        cells_of(spans.drop_last()) + spans.last().0.map_values(|c: char| (c, spans.last().1))
    }
}

/// The columns one character takes.
pub open spec fn columns_of(c: char) -> nat {
    cell_width(seq![c])
}

/// No character of the line is an ASCII control character, which the width
/// measure refuses.
pub open spec fn drawable(cells: Seq<Cell>) -> bool {
    forall|i: int| 0 <= i < cells.len() ==> !is_ascii_control(#[trigger] cells[i].0)
}

/// `cells` cut into rows of `width` columns, `cur` the row being filled and
/// `used` its columns. A character that does not fit starts the next row;
/// one too wide for any row still takes a row of its own.
pub open spec fn chunk(cells: Seq<Cell>, width: nat, used: nat, cur: Seq<Cell>) -> Seq<Seq<Cell>>
    decreases cells.len(),
{
    if cells.len() == 0 {
        if cur.len() > 0 {
            seq![cur]
        } else {
            seq![]
        }
    } else {
        let c = cells[0];
        let w = columns_of(c.0);
        if used + w > width && used > 0 {
            seq![cur] + chunk(cells.drop_first(), width, w, seq![c])
        } else {
            chunk(cells.drop_first(), width, used + w, cur.push(c))
        }
    }
}

/// A row's characters as spans: neighbours in the same style share one.
pub open spec fn merged(row: Seq<Cell>) -> Seq<(Seq<char>, Style)>
    decreases row.len(),
{
    if row.len() == 0 {
        seq![]
    } else {
        let m = merged(row.drop_last());
        let c = row.last();
        if m.len() > 0 && m.last().1 == c.1 {
            m.update(m.len() - 1, (m.last().0.push(c.0), c.1))
        } else {
            m.push((seq![c.0], c.1))
        }
    }
}

/// The rows `cells` wraps to at `width` columns; a line with no characters
/// is one empty row.
pub open spec fn rows_of(cells: Seq<Cell>, width: nat) -> Seq<Seq<Cell>> {
    if cells.len() == 0 {
        seq![seq![]]
    } else {
        chunk(cells, if width == 0 {
            1
        } else {
            width
        }, 0, seq![])
    }
}

/// Rows drawn as lines that inherit `template`'s style and alignment.
pub open spec fn rows_as_lines(rows: Seq<Seq<Cell>>, template: LineView) -> Seq<LineView> {
    rows.map_values(
        |r: Seq<Cell>|
            LineView { spans: merged(r), style: template.style, alignment: template.alignment },
    )
}

/// The display rows one line wraps to at `width` columns.
pub open spec fn wrapped_line(line: LineView, width: nat) -> Seq<LineView> {
    rows_as_lines(rows_of(cells_of(line.spans), width), line)
}

/// The characters of a line, each with its span's style.
fn line_cells(line: &TextLine) -> (r: Vec<Cell>)
    ensures
        r@ == cells_of(line@.spans),
{
    let mut out: Vec<Cell> = Vec::new();
    let mut k: usize = 0;
    while k < line.spans.len()
        invariant
            k <= line.spans.len(),
            out@ == cells_of(spans_view(line.spans@).take(k as int)),
        decreases line.spans.len() - k,
    {
        let style = line.spans[k].style;
        let chars = chars_of(line.spans[k].content.as_str());
        let ghost start = out@;
        let mut j: usize = 0;
        while j < chars.len()
            invariant
                j <= chars.len(),
                out@ == start + chars@.take(j as int).map_values(|c: char| (c, style)),
            decreases chars.len() - j,
        {
            out.push((chars[j], style));
            j += 1;
            assert(out@ =~= start + chars@.take(j as int).map_values(|c: char| (c, style)));
        }
        proof {
            let sv = spans_view(line.spans@);
            assert(sv.take(k + 1).drop_last() =~= sv.take(k as int));
            assert(sv.take(k + 1).last() == sv[k as int]);
            assert(chars@.take(chars.len() as int) =~= chars@);
        }
        k += 1;
    }
    assert(spans_view(line.spans@).take(line.spans.len() as int) =~= spans_view(line.spans@));
    out
}

/// Append one character, extending the last span when the style matches, so
/// a row stays one span per styled run.
fn push_cell(spans: &mut Vec<TextSpan>, ch: char, style: Style, row: Ghost<Seq<Cell>>)
    requires
        spans_view(old(spans)@) == merged(row@),
    ensures
        spans_view(final(spans)@) == merged(row@.push((ch, style))),
{
    let ghost m = merged(row@);
    assert(row@.push((ch, style)).drop_last() =~= row@);
    let n = spans.len();
    if n > 0 && spans[n - 1].style == style {
        let mut last = spans.pop().unwrap();
        push_char(&mut last.content, ch);
        let ghost lv = (last.content@, last.style);
        spans.push(last);
        assert(spans_view(spans@) =~= m.update(m.len() - 1, (m.last().0.push(ch), style)));
    } else {
        let ghost before = spans@;
        let mut content = String::new();
        push_char(&mut content, ch);
        spans.push(TextSpan { content, style });
        assert(spans_view(spans@) =~= m.push((seq![ch], style)));
    }
}

proof fn lemma_rows_add(a: Seq<Seq<Cell>>, b: Seq<Seq<Cell>>, t: LineView)
    ensures
        rows_as_lines(a + b, t) == rows_as_lines(a, t) + rows_as_lines(b, t),
{
    assert(rows_as_lines(a + b, t) =~= rows_as_lines(a, t) + rows_as_lines(b, t));
}

proof fn lemma_lines_push(a: Seq<TextLine>, l: TextLine)
    ensures
        lines_view(a.push(l)) == lines_view(a) + seq![l@],
{
    assert(lines_view(a.push(l)) =~= lines_view(a) + seq![l@]);
}

/// Wrap one styled line to `width` columns, keeping each piece's styling.
///
/// Columns, not bytes: a CJK character is three bytes and two columns. The
/// wrap is per character rather than per grapheme, and a wide character alone
/// in a one-column pane still overflows it; wrapping cannot do better, it
/// only has to keep moving. A continuation row starts at column zero: the
/// pane is a log, and an indent would claim a structure the text does not
/// have.
pub fn wrap_line(line: &TextLine, width: usize) -> (r: Vec<TextLine>)
    requires
        drawable(cells_of(line@.spans)),
    ensures
        lines_view(r@) == wrapped_line(line@, width as nat),
{
    let width = if width == 0 {
        1
    } else {
        width
    };
    let cells = line_cells(line);
    let ghost t = line@;
    let ghost all = chunk(cells@, width as nat, 0, seq![]);
    let mut out: Vec<TextLine> = Vec::new();
    let mut cur: Vec<TextSpan> = Vec::new();
    let ghost mut cur_cells: Seq<Cell> = seq![];
    let mut used: usize = 0;
    let mut i: usize = 0;
    assert(cells@.skip(0) =~= cells@);
    assert(lines_view(out@) =~= Seq::<LineView>::empty());
    assert(spans_view(cur@) =~= Seq::<(Seq<char>, Style)>::empty());
    while i < cells.len()
        invariant
            i <= cells.len(),
            width > 0,
            t == line@,
            drawable(cells@),
            all == chunk(cells@, width as nat, 0, seq![]),
            spans_view(cur@) == merged(cur_cells),
            used == 0 ==> cur_cells.len() == 0 || i > 0,
            used > 0 ==> cur_cells.len() > 0,
            i > 0 ==> cur_cells.len() > 0,
            used <= width || used <= 65535,
            lines_view(out@) + rows_as_lines(
                chunk(cells@.skip(i as int), width as nat, used as nat, cur_cells),
                t,
            ) == rows_as_lines(all, t),
        decreases cells.len() - i,
    {
        let (ch, style) = cells[i];
        assert(!is_ascii_control(cells@[i as int].0));
        let columns = char_columns(ch);
        let ghost rest = cells@.skip(i as int);
        assert(rest[0] == cells@[i as int]);
        assert(rest.drop_first() =~= cells@.skip(i + 1));
        if used > 0 && (used > width || columns > width - used) {
            let mut spans: Vec<TextSpan> = Vec::new();
            std::mem::swap(&mut spans, &mut cur);
            let row = TextLine { spans, style: line.style, alignment: line.alignment };
            proof {
                lemma_lines_push(out@, row);
                lemma_rows_add(seq![cur_cells], chunk(rest.drop_first(), width as nat, columns as nat, seq![(ch, style)]), t);
                assert(rows_as_lines(seq![cur_cells], t) =~= seq![row@]);
            }
            out.push(row);
            assert(spans_view(cur@) =~= Seq::<(Seq<char>, Style)>::empty());
            proof {
                assert(seq![(ch, style)] =~= Seq::<Cell>::empty().push((ch, style)));
                assert(Seq::<Cell>::empty().push((ch, style)).drop_last() =~= Seq::<Cell>::empty());
            }
            push_cell(&mut cur, ch, style, Ghost(Seq::<Cell>::empty()));
            proof {
                cur_cells = seq![(ch, style)];
            }
            used = columns;
        } else {
            push_cell(&mut cur, ch, style, Ghost(cur_cells));
            proof {
                cur_cells = cur_cells.push((ch, style));
            }
            used = used + columns;
        }
        i += 1;
    }
    assert(cells@.skip(i as int) =~= Seq::<Cell>::empty());
    if cur.len() > 0 || out.len() == 0 {
        let row = TextLine { spans: cur, style: line.style, alignment: line.alignment };
        proof {
            lemma_lines_push(out@, row);
            if cells@.len() == 0 {
                assert(merged(Seq::<Cell>::empty()) =~= Seq::<(Seq<char>, Style)>::empty());
                assert(rows_as_lines(seq![Seq::<Cell>::empty()], t) =~= seq![row@]);
            } else {
                assert(rows_as_lines(seq![cur_cells], t) =~= seq![row@]);
            }
        }
        out.push(row);
    }
    proof {
        if cells@.len() == 0 {
            assert(rows_of(cells@, width as nat) == seq![Seq::<Cell>::empty()]);
        }
    }
    out
}

/// One logical line of plain text as a line to wrap: one unstyled span, a
/// carriage return before the line break dropped.
pub open spec fn raw_line(raw: Seq<char>) -> LineView {
    LineView {
        spans: seq![(strip_cr(raw), plain_style())],
        style: plain_style(),
        alignment: None,
    }
}

/// The display rows of the logical lines `pieces`, one after another.
pub open spec fn wrap_pieces(pieces: Seq<Seq<char>>, width: nat) -> Seq<LineView>
    decreases pieces.len(),
{
    if pieces.len() == 0 {
        seq![]
    } else {
        wrapped_line(raw_line(pieces[0]), width) + wrap_pieces(pieces.drop_first(), width)
    }
}

/// The display rows of `text` at `width` columns: one run of rows per logical
/// line. No text at all is no rows at all.
pub open spec fn wrapped_text(text: Seq<char>, width: nat) -> Seq<LineView> {
    if text.len() == 0 {
        seq![]
    } else {
        wrap_pieces(split_on(text, '\n'), width)
    }
}

/// Text the width measure can take once it is cut into lines: no control
/// characters but line breaks, and a carriage return only right before one.
pub open spec fn wrappable(text: Seq<char>) -> bool {
    forall|i: int|
        0 <= i < text.len() ==> {
            let c = #[trigger] text[i];
            !is_ascii_control(c) || c == '\n' || (c == '\r' && (i + 1 == text.len() || text[i + 1]
                == '\n'))
        }
}

/// The display rows of `text` at `width` columns: one per logical line, each
/// wrapped on display columns.
pub fn wrap_text(text: &str, width: usize) -> (r: Vec<TextLine>)
    requires
        wrappable(text@),
    ensures
        lines_view(r@) == wrapped_text(text@, width as nat),
{
    let chars = chars_of(text);
    let v = &chars;
    let n = v.len();
    let mut out: Vec<TextLine> = Vec::new();
    if n == 0 {
        assert(lines_view(out@) =~= Seq::<LineView>::empty());
        return out;
    }
    let nl = vec!['\n'];
    assert(nl@ =~= seq!['\n']);
    let mut p: usize = 0;
    assert(v@.subrange(0, n as int) =~= v@);
    assert(lines_view(out@) =~= Seq::<LineView>::empty());
    loop
        invariant_except_break
            lines_view(out@) + wrap_pieces(split_on(v@.subrange(p as int, n as int), '\n'), width as nat)
                == wrapped_text(v@, width as nat),
        invariant
            p <= n,
            n == v.len(),
            n > 0,
            v@ == text@,
            nl@ == seq!['\n'],
            wrappable(v@),
        ensures
            lines_view(out@) == wrapped_text(v@, width as nat),
        decreases n - p,
    {
        let ghost s = v@.subrange(p as int, n as int);
        let found = find_in(v, p, n, &nl);
        let le = match found {
            Some(e) => p + e,
            None => n,
        };
        let re = if le > p && v[le - 1] == '\r' {
            le - 1
        } else {
            le
        };
        let ghost piece = v@.subrange(p as int, le as int);
        assert(strip_cr(piece) =~= v@.subrange(p as int, re as int));
        proof {
            match found {
                Some(e) => {
                    assert(s.take(e as int) =~= piece);
                    assert(s.skip(e + 1) =~= v@.subrange(p + e + 1, n as int));
                    crate::text::lemma_first_occurrence(s, seq!['\n'], 0);
                    assert(s.subrange(e as int, e + 1)[0] == s[e as int]);
                    lemma_before_break(s, e as int);
                    assert forall|k: int| p <= k < le implies v@[k] != '\n' by {
                        assert(s[k - p] == v@[k]);
                    }
                },
                None => {
                    assert(s =~= piece);
                    crate::text::lemma_first_occurrence(s, seq!['\n'], 0);
                    assert forall|k: int| 0 <= k < s.len() implies s[k] != '\n' by {
                        if s[k] == '\n' {
                            assert(crate::text::occurs_at(s, seq!['\n'], k)) by {
                                assert(s.subrange(k, k + 1) =~= seq!['\n']);
                            }
                        }
                    }
                    assert forall|k: int| p <= k < le implies v@[k] != '\n' by {
                        assert(s[k - p] == v@[k]);
                    }
                },
            }
        }
        let mut chunk_text = String::new();
        let mut k = p;
        while k < re
            invariant
                p <= k <= re <= le <= n == v.len(),
                chunk_text@ == v@.subrange(p as int, k as int),
            decreases re - k,
        {
            push_char(&mut chunk_text, v[k]);
            k += 1;
            assert(chunk_text@ =~= v@.subrange(p as int, k as int));
        }
        let line = TextLine::raw(chunk_text);
        proof {
            assert(line@ == raw_line(piece));
            let sv = strip_cr(piece);
            assert forall|i: int| 0 <= i < sv.len() implies !is_ascii_control(sv[i]) by {
                assert(sv[i] == v@[p + i]);
                assert(v@[p + i] != '\n');
                if p + i + 1 < le {
                    assert(v@[p + i + 1] != '\n');
                }
            }
            lemma_raw_cells(sv);
        }
        let mut rows = wrap_line(&line, width);
        let ghost before = lines_view(out@);
        let ghost added = lines_view(rows@);
        out.append(&mut rows);
        proof {
            assert(lines_view(out@) =~= before + added);
            let pieces = split_on(s, '\n');
            match found {
                Some(e) => {
                    assert(pieces == seq![piece] + split_on(v@.subrange(p + e + 1, n as int), '\n'));
                },
                None => {
                    assert(pieces == seq![piece]);
                },
            }
            assert(pieces[0] == piece);
            assert(wrap_pieces(pieces, width as nat) == added + wrap_pieces(pieces.drop_first(), width as nat));
        }
        match found {
            Some(e) => {
                proof {
                    let pieces = split_on(s, '\n');
                    assert(pieces.drop_first() =~= split_on(v@.subrange(p + e + 1, n as int), '\n'));
                    assert(before + (added + wrap_pieces(pieces.drop_first(), width as nat)) =~= lines_view(out@) + wrap_pieces(pieces.drop_first(), width as nat));
                }
                p = p + e + 1;
            },
            None => {
                proof {
                    let pieces = split_on(s, '\n');
                    assert(pieces.drop_first() =~= Seq::<Seq<char>>::empty());
                    assert(before + (added + wrap_pieces(pieces.drop_first(), width as nat)) =~= lines_view(out@));
                }
                break;
            },
        }
    }
    out
}

/// Every character before the first line break of `s` is drawable text or a
/// carriage return that only ends the piece.
proof fn lemma_before_break(s: Seq<char>, e: int)
    requires
        0 <= e < s.len(),
        crate::text::first_occurrence(s, seq!['\n']) == Some(e),
    ensures
        forall|k: int| 0 <= k < e ==> s[k] != '\n',
{
    crate::text::lemma_first_occurrence(s, seq!['\n'], 0);
    assert forall|k: int| 0 <= k < e implies s[k] != '\n' by {
        if s[k] == '\n' {
            assert(crate::text::occurs_at(s, seq!['\n'], k)) by {
                assert(s.subrange(k, k + 1) =~= seq!['\n']);
            }
        }
    }
}

/// The cells of a one-span line are its characters.
proof fn lemma_raw_cells(sv: Seq<char>)
    requires
        forall|i: int| 0 <= i < sv.len() ==> !is_ascii_control(sv[i]),
    ensures
        drawable(cells_of(raw_line_of(sv).spans)),
{
    let spans = raw_line_of(sv).spans;
    assert(spans.drop_last() =~= Seq::<(Seq<char>, Style)>::empty());
    assert(cells_of(spans.drop_last()) =~= Seq::<Cell>::empty());
    assert(spans.last() == (sv, plain_style()));
    assert(cells_of(spans) =~= Seq::<Cell>::empty() + sv.map_values(|c: char| (c, plain_style())));
    assert(cells_of(spans) =~= sv.map_values(|c: char| (c, plain_style())));
}

/// The line one unstyled span of `sv` makes.
pub open spec fn raw_line_of(sv: Seq<char>) -> LineView {
    LineView { spans: seq![(sv, plain_style())], style: plain_style(), alignment: None }
}

/// Source lines the pane keeps before dropping the oldest.
pub const CAP: usize = 20000;

/// Rows a PgUp/PgDn step keeps from the page it is leaving, so the reader
/// does not lose the thread.
pub const PAGE_OVERLAP: usize = 2;

/// Rows one wheel notch scrolls.
pub const WHEEL_ROWS: usize = 3;

/// The display rows of the first `n` source lines at `width` columns.
pub open spec fn wrap_all(lines: Seq<LineView>, width: nat, n: int) -> Seq<LineView>
    decreases n,
{
    if n <= 0 {
        seq![]
    } else {
        wrap_all(lines, width, n - 1) + wrapped_line(lines[n - 1], width)
    }
}

/// `a - b`, stopping at zero.
pub open spec fn sat_sub(a: nat, b: nat) -> nat {
    if a >= b {
        (a - b) as nat
    } else {
        0
    }
}

/// Where the pane stands: its source lines, how many of them the wrap cache
/// holds, the width it wrapped at and the last frame's height, the display
/// rows of that frame, the viewport's top row and the source line it sits in,
/// whether it follows the bottom, and the rows seen when it last did.
pub struct PaneView {
    pub lines: Seq<LineView>,
    pub wrapped: nat,
    pub width: nat,
    pub height: nat,
    pub total: nat,
    pub top: nat,
    pub top_source: nat,
    pub follow: bool,
    pub seen: nat,
}

/// The display rows the wrap cache holds.
pub open spec fn cached_rows(v: PaneView) -> Seq<LineView> {
    wrap_all(v.lines, v.width, v.wrapped as int)
}

/// The display row source line `k` starts on.
pub open spec fn start_of(v: PaneView, k: int) -> nat {
    wrap_all(v.lines, v.width, k).len()
}

/// How many of the first `k` cached source lines start at or before `row`.
pub open spec fn starts_at_or_before(v: PaneView, row: nat, k: int) -> nat
    decreases k,
{
    if k <= 0 {
        0
    } else {
        starts_at_or_before(v, row, k - 1) + if start_of(v, k - 1) <= row {
            1nat
        } else {
            0nat
        }
    }
}

/// The source line a display row sits in, for the next rewrap: the last
/// cached line starting at or before it, or the first.
pub open spec fn source_index(v: PaneView, row: nat) -> nat {
    sat_sub(starts_at_or_before(v, row, v.wrapped as int), 1)
}

/// The source line a display row belongs to, if any.
pub open spec fn source_at_row(v: PaneView, row: nat) -> Option<nat> {
    let c = starts_at_or_before(v, row, v.wrapped as int);
    if row >= v.total || c == 0 || c - 1 >= v.lines.len() {
        None
    } else {
        Some((c - 1) as nat)
    }
}

/// The pane with every pending source line wrapped, once there is a width.
pub open spec fn caught_up(v: PaneView) -> PaneView {
    if v.width == 0 {
        v
    } else {
        PaneView { wrapped: v.lines.len(), ..v }
    }
}

/// The pane after one more source line, the oldest dropped once the cap is
/// passed; the viewport moves up by the rows that left.
pub open spec fn pushed(v: PaneView, line: LineView) -> PaneView {
    let w = caught_up(PaneView { lines: v.lines.push(line), ..v });
    if w.lines.len() <= CAP {
        w
    } else if w.wrapped == 0 {
        PaneView { lines: w.lines.drop_first(), ..w }
    } else {
        let h = wrapped_line(w.lines[0], w.width).len();
        PaneView {
            lines: w.lines.drop_first(),
            wrapped: (w.wrapped - 1) as nat,
            top: sat_sub(w.top, h),
            total: sat_sub(w.total, h),
            seen: sat_sub(w.seen, h),
            top_source: sat_sub(w.top_source, 1),
            ..w
        }
    }
}

/// The pane with its newest source line rewritten: the cached rows of that
/// line are dropped, to be wrapped again at the next frame.
pub open spec fn replaced(v: PaneView, line: LineView) -> PaneView {
    if v.lines.len() == 0 {
        v
    } else {
        let lines = v.lines.update(v.lines.len() - 1, line);
        if v.wrapped == v.lines.len() {
            PaneView { lines, wrapped: (v.wrapped - 1) as nat, ..v }
        } else {
            PaneView { lines, ..v }
        }
    }
}

/// The pane brought to `width`: wrapped again from scratch when the width
/// changed, keeping the viewport on the source line it was showing unless it
/// follows the bottom.
pub open spec fn at_width(v: PaneView, width: nat) -> PaneView {
    if width == v.width {
        caught_up(v)
    } else {
        let w = caught_up(PaneView { width, wrapped: 0, ..v });
        if w.follow {
            w
        } else {
            PaneView {
                top: if v.top_source < w.wrapped {
                    start_of(w, v.top_source as int)
                } else {
                    0
                },
                ..w
            }
        }
    }
}

/// The pane after a frame of `width` by `height` with `live_rows` streaming
/// rows under the source lines. A viewport that follows goes to the bottom;
/// one left past the bottom lands there; landing there follows again.
pub open spec fn framed(v: PaneView, width: nat, height: nat, live_rows: nat) -> PaneView {
    let w = at_width(v, width);
    let total = cached_rows(w).len() + live_rows;
    let max_top = sat_sub(total, height);
    let top = if w.follow || w.top > max_top {
        max_top
    } else {
        w.top
    };
    let bottom = top >= max_top;
    let x = PaneView {
        height,
        total,
        top,
        follow: w.follow || bottom,
        seen: if bottom {
            total
        } else {
            w.seen
        },
        ..w
    };
    PaneView { top_source: source_index(x, top), ..x }
}

/// The rows a frame shows: `height` rows from `top`.
pub open spec fn window(rows: Seq<LineView>, top: nat, height: nat) -> Seq<LineView> {
    if top >= rows.len() {
        seq![]
    } else if top + height >= rows.len() {
        rows.skip(top as int)
    } else {
        rows.subrange(top as int, (top + height) as int)
    }
}

/// The pane scrolled by `rows` display rows, negative up, within the last
/// frame. Leaving the bottom stops following; reaching it follows again.
pub open spec fn scrolled(v: PaneView, rows: int) -> PaneView {
    let max_top = sat_sub(v.total, v.height);
    let target = v.top + rows;
    let top: nat = if target < 0 {
        0
    } else if target > max_top {
        max_top
    } else {
        target as nat
    };
    let bottom = top >= max_top;
    let x = PaneView {
        top,
        follow: if bottom {
            true
        } else if rows < 0 {
            false
        } else {
            v.follow
        },
        seen: if bottom {
            v.total
        } else {
            v.seen
        },
        ..v
    };
    PaneView { top_source: source_index(x, top), ..x }
}

proof fn lemma_wrap_all_front(lines: Seq<LineView>, width: nat, n: int)
    requires
        1 <= n <= lines.len(),
    ensures
        wrap_all(lines, width, n) == wrapped_line(lines[0], width) + wrap_all(
            lines.drop_first(),
            width,
            n - 1,
        ),
    decreases n,
{
    if n == 1 {
        assert(wrap_all(lines, width, 0) =~= Seq::<LineView>::empty());
        assert(wrap_all(lines.drop_first(), width, 0) =~= Seq::<LineView>::empty());
        assert(wrap_all(lines, width, 1) =~= wrapped_line(lines[0], width));
        assert(wrapped_line(lines[0], width) + Seq::<LineView>::empty() =~= wrapped_line(
            lines[0],
            width,
        ));
    } else {
        lemma_wrap_all_front(lines, width, n - 1);
        assert(lines.drop_first()[n - 2] == lines[n - 1]);
        assert(wrap_all(lines, width, n) =~= wrapped_line(lines[0], width) + wrap_all(
            lines.drop_first(),
            width,
            n - 1,
        ));
    }
}

proof fn lemma_wrap_all_same(a: Seq<LineView>, b: Seq<LineView>, width: nat, n: int)
    requires
        0 <= n <= a.len(),
        n <= b.len(),
        forall|k: int| 0 <= k < n ==> a[k] == b[k],
    ensures
        wrap_all(a, width, n) == wrap_all(b, width, n),
    decreases n,
{
    if n > 0 {
        lemma_wrap_all_same(a, b, width, n - 1);
    }
}

proof fn lemma_wrapped_line_nonempty(line: LineView, width: nat)
    ensures
        wrapped_line(line, width).len() >= 1,
{
    let cells = cells_of(line.spans);
    if cells.len() > 0 {
        lemma_chunk_nonempty(cells, if width == 0 {
            1
        } else {
            width
        }, 0, seq![]);
    }
}

proof fn lemma_chunk_nonempty(cells: Seq<Cell>, width: nat, used: nat, cur: Seq<Cell>)
    requires
        cells.len() > 0 || cur.len() > 0,
    ensures
        chunk(cells, width, used, cur).len() >= 1,
    decreases cells.len(),
{
    if cells.len() > 0 {
        let c = cells[0];
        let w = columns_of(c.0);
        if used + w > width && used > 0 {
        } else {
            lemma_chunk_nonempty(cells.drop_first(), width, used + w, cur.push(c));
        }
    }
}

proof fn lemma_wrap_all_grows(lines: Seq<LineView>, width: nat, j: int, k: int)
    requires
        0 <= j <= k,
    ensures
        wrap_all(lines, width, j).len() + (k - j) <= wrap_all(lines, width, k).len(),
    decreases k - j,
{
    if j < k {
        lemma_wrap_all_grows(lines, width, j, k - 1);
        lemma_wrapped_line_nonempty(lines[k - 1], width);
    }
}

/// The conversation pane's buffer and viewport.
pub struct Pane {
    /// Source lines, oldest first. Never more than [`CAP`]: the oldest
    /// leaves from the front as a new one joins at the back.
    lines: VecDeque<TextLine>,
    /// The display row each cached source line starts on.
    starts: Vec<usize>,
    /// The wrapped display rows of the first `wrapped_sources` lines.
    wrapped: Vec<TextLine>,
    /// How many source lines `wrapped` accounts for.
    wrapped_sources: usize,
    /// The width everything above was wrapped at; zero until the first frame.
    width: u16,
    /// The last frame's pane height, so a key or a wheel notch knows its step.
    height: u16,
    /// Display rows in the last frame: source rows and the live tail together.
    total: usize,
    /// The display row at the top of the viewport.
    top: usize,
    /// The source line the viewport top sits in: what a rewrap keeps its eye on.
    top_source: usize,
    /// Whether the viewport tracks the bottom.
    follow: bool,
    /// `total` as of the last frame that followed the bottom.
    seen: usize,
}

impl View for Pane {
    type V = PaneView;

    closed spec fn view(&self) -> PaneView {
        PaneView {
            lines: lines_view(self.lines@),
            wrapped: self.wrapped_sources as nat,
            width: self.width as nat,
            height: self.height as nat,
            total: self.total as nat,
            top: self.top as nat,
            top_source: self.top_source as nat,
            follow: self.follow,
            seen: self.seen as nat,
        }
    }
}

/// Every character of every line can be measured.
pub open spec fn all_drawable(lines: Seq<LineView>) -> bool {
    forall|k: int| 0 <= k < lines.len() ==> drawable(cells_of(#[trigger] lines[k].spans))
}

impl Pane {
    /// The pane is consistent: within the cap, its lines measurable, and the
    /// wrap cache exactly the wrapped rows of the lines it accounts for.
    pub closed spec fn wf(&self) -> bool {
        &&& self.lines.len() <= CAP
        &&& self.cache_ok()
    }

    /// The wrap cache is exactly the wrapped rows of the lines it accounts
    /// for, and every line can be measured.
    closed spec fn cache_ok(&self) -> bool {
        &&& self.wrapped_sources <= self.lines.len()
        &&& self.starts.len() == self.wrapped_sources
        &&& self.width == 0 ==> self.wrapped_sources == 0
        &&& all_drawable(self@.lines)
        &&& lines_view(self.wrapped@) == cached_rows(self@)
        &&& forall|k: int|
            0 <= k < self.wrapped_sources ==> #[trigger] self.starts@[k] == start_of(self@, k)
    }

    /// An empty pane that follows the bottom.
    pub fn new() -> (p: Pane)
        ensures
            p.wf(),
            p@ == (PaneView {
                lines: seq![],
                wrapped: 0,
                width: 0,
                height: 0,
                total: 0,
                top: 0,
                top_source: 0,
                follow: true,
                seen: 0,
            }),
    {
        let p = Pane {
            lines: VecDeque::new(),
            starts: Vec::new(),
            wrapped: Vec::new(),
            wrapped_sources: 0,
            width: 0,
            height: 0,
            total: 0,
            top: 0,
            top_source: 0,
            follow: true,
            seen: 0,
        };
        assert(lines_view(p.lines@) =~= Seq::<LineView>::empty());
        assert(lines_view(p.wrapped@) =~= Seq::<LineView>::empty());
        p
    }

    /// Wrap the source lines that arrived since the last pass.
    fn wrap_pending(&mut self)
        requires
            old(self).cache_ok(),
        ensures
            final(self).cache_ok(),
            final(self)@ == caught_up(old(self)@),
            final(self).lines.len() == old(self).lines.len(),
    {
        if self.width == 0 {
            return;
        }
        let width = self.width as usize;
        while self.wrapped_sources < self.lines.len()
            invariant
                self.cache_ok(),
                self.lines.len() == old(self).lines.len(),
                self.width > 0,
                width == self.width,
                self@ == (PaneView { wrapped: self@.wrapped, ..old(self)@ }),
            decreases self.lines.len() - self.wrapped_sources,
        {
            let k = self.wrapped_sources;
            let ghost v = self@;
            assert(drawable(cells_of(v.lines[k as int].spans)));
            assert(lines_view(self.lines@)[k as int] == self.lines@[k as int]@);
            let start = self.wrapped.len();
            let mut rows = wrap_line(&self.lines[k], width);
            let ghost before = self.wrapped@;
            self.starts.push(start);
            self.wrapped.append(&mut rows);
            self.wrapped_sources = k + 1;
            proof {
                assert(lines_view(self.wrapped@) =~= lines_view(before) + wrapped_line(
                    v.lines[k as int],
                    width as nat,
                ));
                assert forall|j: int| 0 <= j < self.wrapped_sources implies #[trigger] self.starts@[j]
                    == start_of(self@, j) by {
                    if j == k {
                        assert(start_of(self@, j) == lines_view(before).len());
                    }
                }
            }
        }
    }

    /// The source line a display row belongs to, if any: how a click turns a
    /// screen row into a block.
    pub fn source_at(&self, display_row: usize) -> (r: Option<usize>)
        requires
            self.wf(),
        ensures
            match r {
                Some(k) => source_at_row(self@, display_row as nat) == Some(k as nat),
                None => source_at_row(self@, display_row as nat) is None,
            },
    {
        if display_row >= self.total {
            return None;
        }
        let c = self.count_starts(display_row);
        if c == 0 || c - 1 >= self.lines.len() {
            None
        } else {
            Some(c - 1)
        }
    }

    /// How many cached source lines start at or before `row`.
    fn count_starts(&self, row: usize) -> (c: usize)
        requires
            self.wf(),
        ensures
            c == starts_at_or_before(self@, row as nat, self@.wrapped as int),
            c <= self.wrapped_sources,
    {
        let mut c: usize = 0;
        let mut k: usize = 0;
        while k < self.wrapped_sources
            invariant
                self.wf(),
                k <= self.wrapped_sources,
                c <= k,
                c == starts_at_or_before(self@, row as nat, k as int),
            decreases self.wrapped_sources - k,
        {
            if self.starts[k] <= row {
                c += 1;
            }
            k += 1;
        }
        c
    }

    /// Note which source line the viewport top is inside, for the next rewrap.
    fn sync_top_source(&mut self)
        requires
            old(self).wf(),
        ensures
            final(self).wf(),
            final(self)@ == (PaneView {
                top_source: source_index(old(self)@, old(self)@.top),
                ..old(self)@
            }),
    {
        let c = self.count_starts(self.top);
        self.top_source = if c == 0 {
            0
        } else {
            c - 1
        };
    }

    /// Drop the oldest source line; the viewport moves up by the rows that
    /// left.
    fn evict(&mut self)
        requires
            old(self).cache_ok(),
            old(self).lines.len() == CAP + 1,
        ensures
            final(self).wf(),
            final(self)@ == if old(self)@.wrapped == 0 {
                PaneView { lines: old(self)@.lines.drop_first(), ..old(self)@ }
            } else {
                let h = wrapped_line(old(self)@.lines[0], old(self)@.width).len();
                PaneView {
                    lines: old(self)@.lines.drop_first(),
                    wrapped: (old(self)@.wrapped - 1) as nat,
                    top: sat_sub(old(self)@.top, h),
                    total: sat_sub(old(self)@.total, h),
                    seen: sat_sub(old(self)@.seen, h),
                    top_source: sat_sub(old(self)@.top_source, 1),
                    ..old(self)@
                }
            },
    {
        let ghost v = self@;
        if self.wrapped_sources == 0 {
            self.lines.pop_front();
            proof {
                assert(lines_view(self.lines@) =~= v.lines.drop_first());
                assert(cached_rows(self@) =~= Seq::<LineView>::empty());
                assert(cached_rows(v) =~= Seq::<LineView>::empty());
            }
            return;
        }
        let ghost first = wrapped_line(v.lines[0], v.width);
        proof {
            lemma_wrap_all_front(v.lines, v.width, 1);
            assert(wrap_all(v.lines.drop_first(), v.width, 0) =~= Seq::<LineView>::empty());
            assert(wrap_all(v.lines, v.width, 1) =~= first);
            assert(self.starts@[0] == start_of(v, 0));
            assert(start_of(v, 0) == 0);
            lemma_wrap_all_grows(v.lines, v.width, 1, v.wrapped as int);
        }
        let h = if self.starts.len() > 1 {
            assert(self.starts@[1] == start_of(v, 1));
            self.starts[1] - self.starts[0]
        } else {
            self.wrapped.len() - self.starts[0]
        };
        assert(h == first.len());
        self.lines.pop_front();
        let mut tail = self.wrapped.split_off(h);
        std::mem::swap(&mut self.wrapped, &mut tail);
        let mut shifted: Vec<usize> = Vec::new();
        let mut k: usize = 1;
        while k < self.starts.len()
            invariant
                1 <= k <= self.starts.len(),
                self.starts.len() == v.wrapped,
                shifted.len() == k - 1,
                forall|j: int| 0 <= j < self.starts.len() ==> self.starts@[j] == start_of(v, j),
                forall|j: int| 0 <= j < k - 1 ==> #[trigger] shifted@[j] == start_of(v, j + 1) - h,
                h == first.len(),
                wrap_all(v.lines, v.width, 1).len() == h,
                v.wrapped <= v.lines.len(),
            decreases self.starts.len() - k,
        {
            proof {
                lemma_wrap_all_grows(v.lines, v.width, 1, k as int);
                assert(self.starts@[k as int] == start_of(v, k as int));
                assert(start_of(v, k as int) >= h);
            }
            shifted.push(self.starts[k] - h);
            k += 1;
        }
        self.starts = shifted;
        self.wrapped_sources = self.wrapped_sources - 1;
        self.top = if self.top >= h {
            self.top - h
        } else {
            0
        };
        self.total = if self.total >= h {
            self.total - h
        } else {
            0
        };
        self.seen = if self.seen >= h {
            self.seen - h
        } else {
            0
        };
        self.top_source = if self.top_source >= 1 {
            self.top_source - 1
        } else {
            0
        };
        proof {
            let w = self@;
            assert(w.lines =~= v.lines.drop_first());
            lemma_wrap_all_front(v.lines, v.width, v.wrapped as int);
            assert(lines_view(self.wrapped@) =~= cached_rows(v).skip(h as int));
            assert(cached_rows(v) == first + cached_rows(w));
            assert(cached_rows(v).skip(h as int) =~= cached_rows(w));
            assert forall|j: int| 0 <= j < self.wrapped_sources implies #[trigger] self.starts@[j]
                == start_of(w, j) by {
                lemma_wrap_all_front(v.lines, v.width, j + 1);
            }
            assert forall|j: int| 0 <= j < w.lines.len() implies drawable(
                cells_of(#[trigger] w.lines[j].spans),
            ) by {
                assert(w.lines[j] == v.lines[j + 1]);
            }
        }
    }

    /// Append one source line; the oldest is dropped once [`CAP`] is
    /// reached.
    pub fn push(&mut self, line: TextLine)
        requires
            old(self).wf(),
            drawable(cells_of(line@.spans)),
        ensures
            final(self).wf(),
            final(self)@ == pushed(old(self)@, line@),
    {
        let ghost v = self@;
        let ghost l = line@;
        self.lines.push_back(line);
        proof {
            assert(lines_view(self.lines@) =~= v.lines.push(l));
            lemma_wrap_all_same(v.lines, v.lines.push(l), v.width, v.wrapped as int);
            assert forall|j: int| 0 <= j < self.wrapped_sources implies #[trigger] self.starts@[j]
                == start_of(self@, j) by {
                lemma_wrap_all_same(v.lines, v.lines.push(l), v.width, j);
            }
            assert forall|j: int| 0 <= j < self@.lines.len() implies drawable(
                cells_of(#[trigger] self@.lines[j].spans),
            ) by {
                if j < v.lines.len() {
                    assert(self@.lines[j] == v.lines[j]);
                }
            }
        }
        self.wrap_pending();
        if self.lines.len() > CAP {
            self.evict();
        }
    }

    /// Replace the newest source line: the transcript's one mutable line, the
    /// thinking hint, is written as it starts and rewritten when the trace is
    /// finished. The cached rows of that line are dropped, and the next frame
    /// wraps it again. A no-op on an empty pane: there is nothing to rewrite.
    pub fn replace_last(&mut self, line: TextLine)
        requires
            old(self).wf(),
            drawable(cells_of(line@.spans)),
        ensures
            final(self).wf(),
            final(self)@ == replaced(old(self)@, line@),
    {
        let n = self.lines.len();
        if n == 0 {
            return;
        }
        let ghost v = self@;
        let ghost l = line@;
        self.lines.pop_back();
        self.lines.push_back(line);
        proof {
            assert(lines_view(self.lines@) =~= v.lines.update(n - 1, l));
            assert forall|j: int| 0 <= j < self@.lines.len() implies drawable(
                cells_of(#[trigger] self@.lines[j].spans),
            ) by {
                if j < n - 1 {
                    assert(self@.lines[j] == v.lines[j]);
                }
            }
        }
        if self.wrapped_sources == n {
            let last_start = self.starts[n - 1];
            self.starts.pop();
            self.wrapped_sources = n - 1;
            proof {
                assert(last_start == start_of(v, n - 1));
                lemma_wrap_all_grows(v.lines, v.width, n - 1, n as int);
            }
            let _ = self.wrapped.split_off(last_start);
            proof {
                let w = self@;
                lemma_wrap_all_same(v.lines, w.lines, v.width, n - 1);
                assert(lines_view(self.wrapped@) =~= cached_rows(v).take(last_start as int));
                assert(cached_rows(v) == wrap_all(v.lines, v.width, n - 1) + wrapped_line(
                    v.lines[n - 1],
                    v.width,
                ));
                assert(cached_rows(v).take(last_start as int) =~= wrap_all(v.lines, v.width, n - 1));
                assert forall|j: int| 0 <= j < self.wrapped_sources implies #[trigger] self.starts@[j]
                    == start_of(w, j) by {
                    lemma_wrap_all_same(v.lines, w.lines, v.width, j);
                }
            }
        } else {
            proof {
                let w = self@;
                lemma_wrap_all_same(v.lines, w.lines, v.width, v.wrapped as int);
                assert forall|j: int| 0 <= j < self.wrapped_sources implies #[trigger] self.starts@[j]
                    == start_of(w, j) by {
                    lemma_wrap_all_same(v.lines, w.lines, v.width, j);
                }
            }
        }
    }

    /// Bring the wrap cache up to date for `width`, keeping the viewport on
    /// the source line it was showing when the width changes.
    fn ensure(&mut self, width: u16)
        requires
            old(self).wf(),
        ensures
            final(self).wf(),
            final(self)@ == at_width(old(self)@, width as nat),
    {
        if width == self.width {
            self.wrap_pending();
            return;
        }
        let ghost v = self@;
        self.width = width;
        self.wrapped.clear();
        self.starts.clear();
        self.wrapped_sources = 0;
        proof {
            assert(lines_view(self.wrapped@) =~= Seq::<LineView>::empty());
            assert(cached_rows(self@) =~= Seq::<LineView>::empty());
        }
        self.wrap_pending();
        if !self.follow {
            self.top = if self.top_source < self.starts.len() {
                self.starts[self.top_source]
            } else {
                0
            };
        }
    }

    /// `height` display rows from the viewport top, taking cached rows first
    /// and then the live tail.
    fn window(&self, height: usize, live: &Vec<TextLine>) -> (r: Vec<TextLine>)
        requires
            self.wf(),
            self.total == self.wrapped.len() + live.len(),
        ensures
            lines_view(r@) == window(
                cached_rows(self@) + lines_view(live@),
                self.top as nat,
                height as nat,
            ),
    {
        let ghost all = cached_rows(self@) + lines_view(live@);
        let mut rows: Vec<TextLine> = Vec::new();
        assert(lines_view(rows@) =~= Seq::<LineView>::empty());
        if self.top >= self.total {
            return rows;
        }
        let mut index = self.top;
        let end = if height >= self.total - self.top {
            self.total
        } else {
            self.top + height
        };
        assert(lines_view(rows@) =~= Seq::<LineView>::empty());
        while index < end
            invariant
                self.wf(),
                self.total == self.wrapped.len() + live.len(),
                all == cached_rows(self@) + lines_view(live@),
                all.len() == self.total,
                self.top <= index <= end <= self.total,
                lines_view(rows@) == all.subrange(self.top as int, index as int),
            decreases end - index,
        {
            let line = if index < self.wrapped.len() {
                assert(all[index as int] == self.wrapped@[index as int]@);
                self.wrapped[index].copied()
            } else {
                assert(all[index as int] == live@[index - self.wrapped.len()]@);
                live[index - self.wrapped.len()].copied()
            };
            let ghost before = rows@;
            rows.push(line);
            proof {
                assert(lines_view(before.push(line)) =~= lines_view(before).push(line@));
                assert(all.subrange(self.top as int, index + 1) =~= all.subrange(
                    self.top as int,
                    index as int,
                ).push(all[index as int]));
            }
            index += 1;
        }
        proof {
            if height >= self.total - self.top {
                assert(all.subrange(self.top as int, self.total as int) =~= all.skip(self.top as int));
            }
        }
        rows
    }

    /// The rows to draw: `height` display rows from the viewport top, with
    /// the streaming `live` text wrapped and appended after the source lines.
    ///
    /// This is also where the wrap cache is brought up to date: the width
    /// that matters is the one the frame is actually drawn at.
    pub fn frame_rows(&mut self, width: u16, height: u16, live: &str) -> (r: Vec<TextLine>)
        requires
            old(self).wf(),
            wrappable(live@),
            cached_rows(at_width(old(self)@, width as nat)).len() + wrapped_text(
                live@,
                if width == 0 {
                    1nat
                } else {
                    width as nat
                },
            ).len() <= usize::MAX,
        ensures
            final(self).wf(),
            ({
                let live_rows = wrapped_text(
                    live@,
                    if width == 0 {
                        1nat
                    } else {
                        width as nat
                    },
                );
                &&& final(self)@ == framed(old(self)@, width as nat, height as nat, live_rows.len())
                &&& lines_view(r@) == window(
                    cached_rows(final(self)@) + live_rows,
                    final(self)@.top,
                    height as nat,
                )
            }),
    {
        self.ensure(width);
        let live_width: usize = if width == 0 {
            1
        } else {
            width as usize
        };
        let live_rows = wrap_text(live, live_width);
        self.height = height;
        self.total = self.wrapped.len() + live_rows.len();
        let h = height as usize;
        let max_top = if self.total >= h {
            self.total - h
        } else {
            0
        };
        if self.follow || self.top > max_top {
            self.top = max_top;
        }
        if self.top >= max_top {
            self.follow = true;
            self.seen = self.total;
        }
        self.sync_top_source();
        self.window(h, &live_rows)
    }

    /// Scroll by `rows` display rows; negative is up.
    pub fn scroll(&mut self, rows: isize)
        requires
            old(self).wf(),
        ensures
            final(self).wf(),
            final(self)@ == scrolled(old(self)@, rows as int),
    {
        let h = self.height as usize;
        let max_top = if self.total >= h {
            self.total - h
        } else {
            0
        };
        let top = if rows < 0 {
            let up: usize = if rows == isize::MIN {
                (isize::MAX as usize) + 1
            } else {
                (-rows) as usize
            };
            let t = if self.top >= up {
                self.top - up
            } else {
                0
            };
            if t > max_top {
                max_top
            } else {
                t
            }
        } else {
            let down = rows as usize;
            if down >= max_top || self.top >= max_top - down {
                max_top
            } else {
                self.top + down
            }
        };
        if rows < 0 {
            self.follow = false;
        }
        self.top = top;
        if self.top >= max_top {
            self.follow = true;
            self.seen = self.total;
        }
        self.sync_top_source();
    }

    /// One page, keeping [`PAGE_OVERLAP`] rows of the page being left.
    pub fn page(&mut self, up: bool)
        requires
            old(self).wf(),
        ensures
            final(self).wf(),
            final(self)@ == scrolled(
                old(self)@,
                ({
                    let step: int = if old(self)@.height > PAGE_OVERLAP + 1 {
                        old(self)@.height - PAGE_OVERLAP
                    } else {
                        1
                    };
                    if up {
                        -step
                    } else {
                        step
                    }
                }),
            ),
    {
        let h = self.height as isize;
        let step: isize = if h > 3 {
            h - 2
        } else {
            1
        };
        self.scroll(if up {
            -step
        } else {
            step
        });
    }

    /// One wheel notch.
    pub fn wheel(&mut self, up: bool)
        requires
            old(self).wf(),
        ensures
            final(self).wf(),
            final(self)@ == scrolled(
                old(self)@,
                if up {
                    -3
                } else {
                    3
                },
            ),
    {
        self.scroll(if up {
            -3
        } else {
            3
        });
    }

    /// Follow the bottom again; the next frame puts the viewport there.
    pub fn to_bottom(&mut self)
        requires
            old(self).wf(),
        ensures
            final(self).wf(),
            ({
                let v = old(self)@;
                let x = PaneView {
                    follow: true,
                    top: sat_sub(v.total, v.height),
                    seen: v.total,
                    ..v
                };
                final(self)@ == PaneView { top_source: source_index(x, x.top), ..x }
            }),
    {
        let h = self.height as usize;
        self.follow = true;
        self.top = if self.total >= h {
            self.total - h
        } else {
            0
        };
        self.seen = self.total;
        self.sync_top_source();
    }

    /// Whether the viewport is tracking the bottom.
    pub fn following(&self) -> (b: bool)
        ensures
            b == self@.follow,
    {
        self.follow
    }

    /// Display rows that arrived since the viewport last left the bottom.
    pub fn fresh(&self) -> (n: usize)
        ensures
            n == if self@.follow {
                0
            } else {
                sat_sub(self@.total, self@.seen)
            },
    {
        if self.follow {
            0
        } else if self.total >= self.seen {
            self.total - self.seen
        } else {
            0
        }
    }

    /// Display rows in the last frame.
    pub fn total(&self) -> (n: usize)
        ensures
            n == self@.total,
    {
        self.total
    }

    /// The display row at the top of the viewport.
    pub fn top(&self) -> (n: usize)
        ensures
            n == self@.top,
    {
        self.top
    }

    /// How many source lines the pane holds.
    pub fn len(&self) -> (n: usize)
        ensures
            n == self@.lines.len(),
    {
        self.lines.len()
    }
}

/// The pane never holds more than [`CAP`] source lines, and a new line is
/// always the newest one kept: the oldest is what goes.
pub proof fn the_cap_keeps_the_newest(v: PaneView, line: LineView)
    requires
        v.lines.len() <= CAP,
    ensures
        pushed(v, line).lines.len() <= CAP,
        pushed(v, line).lines.last() == line,
        pushed(v, line).lines == if v.lines.len() < CAP {
            v.lines.push(line)
        } else {
            v.lines.push(line).drop_first()
        },
{
}

/// After a frame the viewport is within the rows there are, a viewport that
/// followed the bottom is at it, and the frame shows at most `height` rows.
pub proof fn a_frame_stays_in_bounds(v: PaneView, width: nat, height: nat, live_rows: nat)
    ensures
        ({
            let f = framed(v, width, height, live_rows);
            &&& f.top <= sat_sub(f.total, height)
            &&& (at_width(v, width).follow ==> f.top == sat_sub(f.total, height))
            &&& (f.top == sat_sub(f.total, height) <==> f.follow || at_width(v, width).follow)
        }),
{
}

/// A frame shows no more rows than its height.
pub proof fn a_window_fits_its_height(rows: Seq<LineView>, top: nat, height: nat)
    ensures
        window(rows, top, height).len() <= height,
{
}

/// Scrolling keeps the viewport within the last frame; scrolling up leaves
/// the bottom unless there is nowhere to go, and reaching the bottom follows
/// it again with nothing left unseen.
pub proof fn scrolling_stays_in_bounds(v: PaneView, rows: int)
    ensures
        ({
            let s = scrolled(v, rows);
            &&& s.top <= sat_sub(v.total, v.height)
            &&& (s.top == sat_sub(v.total, v.height) ==> s.follow && s.seen == v.total)
            &&& (rows < 0 && s.top < sat_sub(v.total, v.height) ==> !s.follow)
        }),
{
}

/// Scrolling down by a page and back up again returns to the same row when
/// neither step was cut short by an end.
pub proof fn a_page_down_and_up_returns(v: PaneView, step: nat)
    requires
        v.top + step <= sat_sub(v.total, v.height),
    ensures
        scrolled(scrolled(v, step as int), -(step as int)).top == v.top,
{
}

} // verus!
