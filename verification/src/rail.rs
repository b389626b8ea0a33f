//! The rail beside the transcript: one cell per completed turn or round, and
//! where each one starts.
//!
//! Everything here is derived from the stream. There is deliberately no
//! remembered selection, because a stored "current unit" would drift away
//! from the viewport the moment anything arrived.

use vstd::prelude::*;

use crate::pane::{source_at_row, Pane, PaneView};

verus! {

/// One row of the rail's column.
#[derive(Debug, Clone, Copy, PartialEq, Eq, Structural)]
pub enum RailRow {
    /// The unit with this index, counted from the oldest.
    Unit(usize),
    /// Units were left out at this end: `⋮`.
    Cut,
    /// Nothing is drawn here.
    Blank,
}

pub open spec fn min_nat(a: nat, b: nat) -> nat {
    if a <= b {
        a
    } else {
        b
    }
}

/// The split before the marks are settled: both marks reserved where both
/// sides have units and the budget allows, the rest shared between the sides,
/// no side given more than it has, the remainder handed back to the older
/// side.
pub open spec fn reserved_shape(rows: nat, units: nat, f: nat) -> (bool, nat, nat, bool) {
    let above = f;
    let below = (units - 1 - f) as nat;
    let b0 = (rows - 1) as nat;
    let top_cut = above > 0 && b0 > 0;
    let b1: nat = if top_cut {
        (b0 - 1) as nat
    } else {
        b0
    };
    let bottom_cut = below > 0 && b1 > 0;
    let b2: nat = if bottom_cut {
        (b1 - 1) as nat
    } else {
        b1
    };
    let a0 = min_nat(above, b2 / 2);
    let bt = min_nat(below, (b2 - a0) as nat);
    let a = a0 + min_nat((above - a0) as nat, (b2 - a0 - bt) as nat);
    (top_cut, a, bt, bottom_cut)
}

/// How a rail with more units than rows is cut: whether the top end has a
/// mark, how many units above and below the focus are shown, and whether the
/// bottom end has a mark.
///
/// One slot is the focus, and each end that may have units cut reserves
/// another for a mark; a rail so short that even those do not fit keeps the
/// focus and gives the marks up. What is left is split between the two
/// sides. A mark says that units were left out at its end, so where the split
/// shows every unit on one side, that side's reserved mark becomes one more
/// unit on the other side.
pub open spec fn cut_shape(rows: nat, units: nat, f: nat) -> (bool, nat, nat, bool) {
    let (top_cut, a, bt, bottom_cut) = reserved_shape(rows, units, f);
    let below = (units - 1 - f) as nat;
    if top_cut && bottom_cut && a == f {
        (false, a, bt + 1, true)
    } else if top_cut && bottom_cut && bt == below {
        (true, a + 1, bt, false)
    } else {
        (top_cut, a, bt, bottom_cut)
    }
}

/// The slots of a cut rail: blanks, the top mark, the units around the
/// focus `f`, the bottom mark.
pub open spec fn cut_cells(rows: nat, f: nat, shape: (bool, nat, nat, bool)) -> Seq<RailRow> {
    let (top_cut, a, bt, bottom_cut) = shape;
    let cells = (if top_cut {
        seq![RailRow::Cut]
    } else {
        seq![]
    }) + Seq::new(a + 1 + bt, |i: int| RailRow::Unit((f - a + i) as usize)) + (if bottom_cut {
        seq![RailRow::Cut]
    } else {
        seq![]
    });
    Seq::new((rows - cells.len()) as nat, |i: int| RailRow::Blank) + cells
}

/// The rail's slots for a transcript `rows` rows tall, `units` units long,
/// with the viewport on `focus`: every unit when they fit, newest at the
/// bottom and blank above; otherwise the cut around the focus.
pub open spec fn rail_plan(rows: nat, units: nat, focus: nat) -> Seq<RailRow> {
    if rows == 0 || units == 0 {
        Seq::new(rows, |i: int| RailRow::Blank)
    } else {
        let f = min_nat(focus, (units - 1) as nat);
        if units <= rows {
            Seq::new(
                rows,
                |i: int|
                    if i < rows - units {
                        RailRow::Blank
                    } else {
                        RailRow::Unit((i - (rows - units)) as usize)
                    },
            )
        } else {
            cut_cells(rows, f, cut_shape(rows, units, f))
        }
    }
}

/// How a rail with more units than rows is cut.
fn shape_of(rows: usize, units: usize, f: usize) -> (r: (bool, usize, usize, bool))
    requires
        0 < rows < units,
        f < units,
    ensures
        (r.0, r.1 as nat, r.2 as nat, r.3) == cut_shape(rows as nat, units as nat, f as nat),
        r.1 <= f,
        f + r.2 < units,
        (if r.0 {
            1nat
        } else {
            0nat
        }) + r.1 + 1 + r.2 + (if r.3 {
            1nat
        } else {
            0nat
        }) <= rows,
{
    let above = f;
    let below = units - 1 - f;
    let mut budget = rows - 1;
    let mut top_cut = above > 0;
    let mut bottom_cut = below > 0;
    if top_cut {
        if budget > 0 {
            budget -= 1;
        } else {
            top_cut = false;
        }
    }
    if bottom_cut {
        if budget > 0 {
            budget -= 1;
        } else {
            bottom_cut = false;
        }
    }
    let a0 = if above < budget / 2 {
        above
    } else {
        budget / 2
    };
    let bt = if below < budget - a0 {
        below
    } else {
        budget - a0
    };
    let extra = if above - a0 < budget - a0 - bt {
        above - a0
    } else {
        budget - a0 - bt
    };
    let a = a0 + extra;
    if top_cut && bottom_cut && a == above {
        (false, a, bt + 1, true)
    } else if top_cut && bottom_cut && bt == below {
        (true, a + 1, bt, false)
    } else {
        (top_cut, a, bt, bottom_cut)
    }
}

/// The slots of a cut rail.
fn cut_rows(rows: usize, f: usize, shape: (bool, usize, usize, bool)) -> (r: Vec<RailRow>)
    requires
        shape.1 <= f,
        f + shape.2 < usize::MAX,
        (if shape.0 {
            1nat
        } else {
            0nat
        }) + shape.1 + 1 + shape.2 + (if shape.3 {
            1nat
        } else {
            0nat
        }) <= rows,
    ensures
        r@ == cut_cells(rows as nat, f as nat, (shape.0, shape.1 as nat, shape.2 as nat, shape.3)),
{
    let (top_cut, a, bt, bottom_cut) = shape;
    let ghost cells = (if top_cut {
        seq![RailRow::Cut]
    } else {
        seq![]
    }) + Seq::new((a + 1 + bt) as nat, |i: int| RailRow::Unit((f - a + i) as usize)) + (
    if bottom_cut {
        seq![RailRow::Cut]
    } else {
        seq![]
    });
    let len = (if top_cut {
        1
    } else {
        0
    }) + a + 1 + bt + (if bottom_cut {
        1
    } else {
        0
    });
    assert(cells.len() == len);
    let mut out: Vec<RailRow> = Vec::new();
    let mut k: usize = 0;
    while k < rows - len
        invariant
            k <= rows - len,
            len <= rows,
            out@ == Seq::new(k as nat, |i: int| RailRow::Blank),
        decreases rows - len - k,
    {
        out.push(RailRow::Blank);
        k += 1;
        assert(out@ =~= Seq::new(k as nat, |i: int| RailRow::Blank));
    }
    let ghost blanks = out@;
    if top_cut {
        out.push(RailRow::Cut);
    }
    let first = f - a;
    let end = f + bt + 1;
    let mut u = first;
    let ghost head = out@;
    while u < end
        invariant
            first == f - a,
            end == first + a + 1 + bt,
            first <= u <= end,
            out@ == head + Seq::new((u - first) as nat, |i: int| RailRow::Unit((first + i) as usize)),
        decreases end - u,
    {
        out.push(RailRow::Unit(u));
        u += 1;
        assert(out@ =~= head + Seq::new(
            (u - first) as nat,
            |i: int| RailRow::Unit((first + i) as usize),
        ));
    }
    if bottom_cut {
        out.push(RailRow::Cut);
    }
    assert(out@ =~= blanks + cells);
    out
}

/// The rail's slots for a transcript `rows` rows tall, `units` units long,
/// with the viewport on `focus`.
pub fn rail_rows(rows: usize, units: usize, focus: usize) -> (r: Vec<RailRow>)
    ensures
        r@ == rail_plan(rows as nat, units as nat, focus as nat),
{
    if rows == 0 || units == 0 {
        let mut out: Vec<RailRow> = Vec::new();
        let mut k: usize = 0;
        while k < rows
            invariant
                k <= rows,
                out@ == Seq::new(k as nat, |i: int| RailRow::Blank),
            decreases rows - k,
        {
            out.push(RailRow::Blank);
            k += 1;
            assert(out@ =~= Seq::new(k as nat, |i: int| RailRow::Blank));
        }
        return out;
    }
    let f = if focus < units - 1 {
        focus
    } else {
        units - 1
    };
    if units <= rows {
        let mut out: Vec<RailRow> = Vec::new();
        let mut k: usize = 0;
        while k < rows
            invariant
                k <= rows,
                units <= rows,
                out@ == Seq::new(
                    k as nat,
                    |i: int|
                        if i < rows - units {
                            RailRow::Blank
                        } else {
                            RailRow::Unit((i - (rows - units)) as usize)
                        },
                ),
            decreases rows - k,
        {
            if k < rows - units {
                out.push(RailRow::Blank);
            } else {
                out.push(RailRow::Unit(k - (rows - units)));
            }
            k += 1;
            assert(out@ =~= Seq::new(
                k as nat,
                |i: int|
                    if i < rows - units {
                        RailRow::Blank
                    } else {
                        RailRow::Unit((i - (rows - units)) as usize)
                    },
            ));
        }
        return out;
    }
    let shape = shape_of(rows, units, f);
    cut_rows(rows, f, shape)
}

/// The rail is exactly as tall as the transcript.
pub proof fn the_rail_fills_its_column(rows: nat, units: nat, focus: nat)
    ensures
        rail_plan(rows, units, focus).len() == rows,
{
}

/// The focus cell is always on the rail: that is the whole point of the
/// column.
pub proof fn the_focus_is_always_shown(rows: nat, units: nat, focus: nat)
    requires
        rows > 0,
        units > 0,
        units <= usize::MAX,
    ensures
        exists|i: int|
            0 <= i < rows && rail_plan(rows, units, focus)[i] == RailRow::Unit(
                min_nat(focus, (units - 1) as nat) as usize,
            ),
{
    let r = rail_plan(rows, units, focus);
    let f = min_nat(focus, (units - 1) as nat);
    if units <= rows {
        let i = rows - units + f;
        assert(r[i] == RailRow::Unit(f as usize));
    } else {
        let (top_cut, a, bt, bottom_cut) = cut_shape(rows, units, f);
        let t: int = if top_cut {
            1
        } else {
            0
        };
        let bc: int = if bottom_cut {
            1
        } else {
            0
        };
        let len = t + a + 1 + bt + bc;
        let i = rows - len + t + a;
        assert(r[i] == RailRow::Unit(f as usize));
    }
}

/// On a rail of three rows or more, each end either shows its outermost unit
/// or says with a mark that units were left out there; and a mark is only
/// ever drawn where units were left out: the unit under a top mark is not the
/// oldest, the unit over a bottom mark not the newest.
#[verifier::spinoff_prover]
#[verifier::rlimit(50)]
pub proof fn a_cut_end_says_so(rows: nat, units: nat, focus: nat)
    requires
        rows >= 3,
        units > rows,
        units <= usize::MAX,
    ensures
        rail_plan(rows, units, focus)[0] == RailRow::Cut || rail_plan(rows, units, focus)[0]
            == RailRow::Unit(0),
        rail_plan(rows, units, focus)[rows - 1] == RailRow::Cut || rail_plan(
            rows,
            units,
            focus,
        )[rows - 1] == RailRow::Unit((units - 1) as usize),
        rail_plan(rows, units, focus)[0] == RailRow::Cut ==> rail_plan(rows, units, focus)[1]
            is Unit && rail_plan(rows, units, focus)[1]->Unit_0 > 0,
        rail_plan(rows, units, focus)[rows - 1] == RailRow::Cut ==> rail_plan(
            rows,
            units,
            focus,
        )[rows - 2] is Unit && rail_plan(rows, units, focus)[rows - 2]->Unit_0 < units - 1,
{
}

/// The bookkeeping behind the rail: the unit each source line belongs to,
/// which lines are the user's own messages, where each completed unit starts,
/// and how many lines the unit being built has so far.
#[derive(Debug)]
pub struct Rail {
    of_line: Vec<usize>,
    user: Vec<bool>,
    heads: Vec<usize>,
    lines_in_unit: usize,
}

/// The rail as the contracts see it.
pub struct RailView {
    pub of_line: Seq<usize>,
    pub user: Seq<bool>,
    pub heads: Seq<usize>,
    pub lines_in_unit: nat,
}

impl View for Rail {
    type V = RailView;

    closed spec fn view(&self) -> RailView {
        RailView {
            of_line: self.of_line@,
            user: self.user@,
            heads: self.heads@,
            lines_in_unit: self.lines_in_unit as nat,
        }
    }
}

/// The first user message at or after `from` among `user`, or `fallback`.
pub open spec fn first_user_from(user: Seq<bool>, from: int, fallback: nat) -> nat
    decreases user.len() - from,
{
    if from < 0 || from >= user.len() {
        fallback
    } else if user[from] {
        from as nat
    } else {
        first_user_from(user, from + 1, fallback)
    }
}

impl Rail {
    /// The lines and their flags stay paired.
    pub closed spec fn wf(&self) -> bool {
        self.of_line.len() == self.user.len()
    }

    /// A rail with nothing on it.
    pub fn new() -> (r: Rail)
        ensures
            r.wf(),
            r@.of_line.len() == 0,
            r@.heads.len() == 0,
            r@.lines_in_unit == 0,
    {
        Rail { of_line: Vec::new(), user: Vec::new(), heads: Vec::new(), lines_in_unit: 0 }
    }

    /// How many units the session has completed.
    pub fn units(&self) -> (n: usize)
        ensures
            n == self@.heads.len(),
    {
        self.heads.len()
    }

    /// Note one painted source line: it belongs to the unit being built.
    pub fn push_line(&mut self, user_message: bool)
        requires
            old(self).wf(),
            old(self)@.lines_in_unit < usize::MAX,
        ensures
            final(self).wf(),
            final(self)@ == (RailView {
                of_line: old(self)@.of_line.push(old(self)@.heads.len() as usize),
                user: old(self)@.user.push(user_message),
                lines_in_unit: old(self)@.lines_in_unit + 1,
                ..old(self)@
            }),
    {
        self.of_line.push(self.heads.len());
        self.user.push(user_message);
        self.lines_in_unit += 1;
    }

    /// The current unit ended: record where its segment starts, the first
    /// user message inside it, or its own first line when it has none, and
    /// open the next one.
    pub fn close_unit(&mut self)
        requires
            old(self).wf(),
        ensures
            final(self).wf(),
            ({
                let v = old(self)@;
                let start: nat = if v.of_line.len() >= v.lines_in_unit {
                    (v.of_line.len() - v.lines_in_unit) as nat
                } else {
                    0
                };
                final(self)@ == RailView {
                    heads: v.heads.push(first_user_from(v.user, start as int, start) as usize),
                    lines_in_unit: 0,
                    ..v
                }
            }),
    {
        let n = self.of_line.len();
        let start = if n >= self.lines_in_unit {
            n - self.lines_in_unit
        } else {
            0
        };
        let mut i = start;
        while i < n && !self.user[i]
            invariant
                start <= i <= n == self.user.len(),
                first_user_from(self@.user, start as int, start as nat) == first_user_from(
                    self@.user,
                    i as int,
                    start as nat,
                ),
            decreases n - i,
        {
            i += 1;
        }
        let head = if i < n {
            i
        } else {
            start
        };
        self.heads.push(head);
        self.lines_in_unit = 0;
    }

    /// Drop the oldest source lines with the transcript's cap, and shift the
    /// heads that pointed past them. A unit whose whole span is dropped
    /// collapses onto the oldest surviving line.
    pub fn prune(&mut self, dropped: usize)
        requires
            old(self).wf(),
        ensures
            final(self).wf(),
            ({
                let v = old(self)@;
                let d = if dropped <= v.of_line.len() {
                    dropped as int
                } else {
                    v.of_line.len() as int
                };
                &&& final(self)@.of_line == v.of_line.skip(d)
                &&& final(self)@.user == v.user.skip(d)
                &&& final(self)@.heads.len() == v.heads.len()
                &&& forall|j: int|
                    0 <= j < v.heads.len() ==> #[trigger] final(self)@.heads[j] as int == if v.heads[j]
                        >= dropped {
                        v.heads[j] - dropped
                    } else {
                        0
                    }
                &&& final(self)@.lines_in_unit == if v.lines_in_unit >= dropped {
                    (v.lines_in_unit - dropped) as nat
                } else {
                    0
                }
            }),
    {
        let ghost v = self@;
        let mut k: usize = 0;
        while k < dropped && self.of_line.len() > 0
            invariant
                self.of_line.len() == self.user.len(),
                k <= dropped,
                k <= v.of_line.len(),
                v.of_line.len() == v.user.len(),
                self.of_line@ == v.of_line.skip(k as int),
                self.user@ == v.user.skip(k as int),
                self.heads@ == v.heads,
                self.lines_in_unit == v.lines_in_unit,
            decreases dropped - k,
        {
            self.of_line.remove(0);
            self.user.remove(0);
            k += 1;
            assert(self.of_line@ =~= v.of_line.skip(k as int));
            assert(self.user@ =~= v.user.skip(k as int));
        }
        let mut heads: Vec<usize> = Vec::new();
        let mut j: usize = 0;
        while j < self.heads.len()
            invariant
                j <= self.heads.len(),
                self.heads@ == v.heads,
                heads.len() == j,
                forall|i: int|
                    0 <= i < j ==> #[trigger] heads@[i] as int == if v.heads[i] >= dropped {
                        v.heads[i] - dropped
                    } else {
                        0
                    },
            decreases self.heads.len() - j,
        {
            let h = self.heads[j];
            heads.push(
                if h >= dropped {
                    h - dropped
                } else {
                    0
                },
            );
            j += 1;
        }
        self.heads = heads;
        self.lines_in_unit = if self.lines_in_unit >= dropped {
            self.lines_in_unit - dropped
        } else {
            0
        };
    }

    /// The unit a source line belongs to; a line past the end belongs to the
    /// unit being built.
    pub fn unit_of(&self, source: usize) -> (u: usize)
        ensures
            u == if source < self@.of_line.len() {
                self@.of_line[source as int]
            } else {
                self@.heads.len() as usize
            },
    {
        if source < self.of_line.len() {
            self.of_line[source]
        } else {
            self.heads.len()
        }
    }

    /// Where a unit's segment starts.
    pub fn head(&self, unit: usize) -> (h: Option<usize>)
        ensures
            h == if unit < self@.heads.len() {
                Some(self@.heads[unit as int])
            } else {
                None::<usize>
            },
    {
        if unit < self.heads.len() {
            Some(self.heads[unit])
        } else {
            None
        }
    }
}


/// The unit the viewport's top row belongs to, the rail's bright cell: the
/// newest unit while the pane follows the bottom, otherwise the unit of the
/// source line at the top (the newest one at most). Derived from the viewport
/// every time, so it cannot drift from what the reader sees.
pub open spec fn focused_unit_of(p: PaneView, r: RailView) -> Option<usize> {
    let units = r.heads.len();
    if units == 0 {
        None
    } else if p.follow {
        Some((units - 1) as usize)
    } else {
        match source_at_row(p, p.top) {
            None => None,
            Some(s) => {
                let u: nat = if s < r.of_line.len() {
                    r.of_line[s as int] as nat
                } else {
                    units
                };
                Some((if u < units { u } else { (units - 1) as nat }) as usize)
            },
        }
    }
}

/// The unit the viewport's top row belongs to, if any unit is complete.
pub fn focused_unit(pane: &Pane, rail: &Rail) -> (r: Option<usize>)
    requires
        pane.wf(),
    ensures
        r == focused_unit_of(pane@, rail@),
{
    let units = rail.units();
    if units == 0 {
        return None;
    }
    if pane.following() {
        return Some(units - 1);
    }
    let source = match pane.source_at(pane.top()) {
        Some(s) => s,
        None => return None,
    };
    let u = rail.unit_of(source);
    Some(if u < units { u } else { units - 1 })
}

} // verus!
