//! Which color each speaker's name is painted in. The palette is fixed when
//! the session is assembled, so a session's name-to-color map is stable for as
//! long as it runs — including for a name that first appears mid-session.

use vstd::prelude::*;

use crate::events::SpeakerId;
use crate::text::str_eq;

verus! {

broadcast use vstd::seq::group_seq_axioms;

/// The colors a speaker's name can be painted in.
#[derive(Debug, Clone, Copy, PartialEq, Eq, Structural)]
pub enum SpeakerColor {
    LightCyan,
    LightMagenta,
    LightYellow,
    LightGreen,
    Gray,
    DarkGray,
}

/// How many colors the debaters' palette has.
pub const PALETTE_LEN: usize = 2;

/// The debaters' palette, in the order the roster hands the slots out.
pub open spec fn palette(slot: int) -> SpeakerColor {
    if slot == 0 {
        SpeakerColor::LightCyan
    } else {
        SpeakerColor::LightMagenta
    }
}

fn palette_at(slot: usize) -> (c: SpeakerColor)
    requires
        slot < PALETTE_LEN,
    ensures
        c == palette(slot as int),
{
    if slot == 0 {
        SpeakerColor::LightCyan
    } else {
        SpeakerColor::LightMagenta
    }
}

/// Where `x` first occurs in `names`, if it does.
pub open spec fn first_index(names: Seq<Seq<char>>, x: Seq<char>, from: int) -> Option<int>
    decreases names.len() - from,
{
    if from < 0 || from >= names.len() {
        None
    } else if names[from] == x {
        Some(from)
    } else {
        first_index(names, x, from + 1)
    }
}

/// The palette's state for one session.
pub struct SpeakerColors {
    /// The debaters in roster order: slot `n` belongs to `roster[n]`.
    roster: Vec<String>,
    /// The palette slots the roster did not claim, in palette order.
    free_slots: Vec<usize>,
    /// The names first seen during the session, in the order they appeared.
    extra: Vec<String>,
    /// No roster was given, so every name is grey.
    uncoloured: bool,
}

/// The texts of a list of strings.
pub open spec fn names_of(v: Seq<String>) -> Seq<Seq<char>> {
    v.map_values(|s: String| s@)
}

/// The color a debater's name gets, and the names seen mid-session after
/// asking: a roster name keeps its slot (wrapping past the palette); a new
/// name takes the first slot the roster left free, in the order new names
/// appear; past the palette, grey.
pub open spec fn debater_color(
    roster: Seq<Seq<char>>,
    free: Seq<usize>,
    extra: Seq<Seq<char>>,
    id: Seq<char>,
) -> (SpeakerColor, Seq<Seq<char>>) {
    match first_index(roster, id, 0) {
        Some(p) => (palette(p % (PALETTE_LEN as int)), extra),
        None => {
            let (slot, seen) = match first_index(extra, id, 0) {
                Some(s) => (s, extra),
                None => (extra.len() as int, extra.push(id)),
            };
            (
                if slot < free.len() {
                    palette(free[slot] as int)
                } else {
                    SpeakerColor::Gray
                },
                seen,
            )
        },
    }
}

/// The color a speaker's name gets, and the names seen mid-session after
/// asking: grey throughout without a roster; otherwise a debater's own color,
/// and one fixed color each for executors, the user and the system.
pub open spec fn speaker_color(
    uncoloured: bool,
    roster: Seq<Seq<char>>,
    free: Seq<usize>,
    extra: Seq<Seq<char>>,
    speaker: SpeakerId,
) -> (SpeakerColor, Seq<Seq<char>>) {
    if uncoloured {
        (SpeakerColor::DarkGray, extra)
    } else {
        match speaker {
            SpeakerId::Debater(id) => debater_color(roster, free, extra, id@),
            SpeakerId::Executor(_) => (SpeakerColor::LightYellow, extra),
            SpeakerId::User => (SpeakerColor::LightGreen, extra),
            SpeakerId::System => (SpeakerColor::Gray, extra),
        }
    }
}

/// Where `x` first occurs in `names` from `from` on.
fn find_name(names: &Vec<String>, x: &str) -> (r: Option<usize>)
    ensures
        match r {
            Some(i) => first_index(names_of(names@), x@, 0) == Some(i as int),
            None => first_index(names_of(names@), x@, 0) is None,
        },
{
    let mut i: usize = 0;
    while i < names.len()
        invariant
            i <= names@.len(),
            first_index(names_of(names@), x@, i as int) == first_index(names_of(names@), x@, 0),
        decreases names@.len() - i,
    {
        if str_eq(names[i].as_str(), x) {
            return Some(i);
        }
        i += 1;
    }
    None
}

impl SpeakerColors {
    /// The roster, in slot order.
    pub closed spec fn roster_view(&self) -> Seq<Seq<char>> {
        names_of(self.roster@)
    }

    /// The palette slots the roster left free.
    pub closed spec fn free_view(&self) -> Seq<usize> {
        self.free_slots@
    }

    /// The names first seen mid-session, in order.
    pub closed spec fn extra_view(&self) -> Seq<Seq<char>> {
        names_of(self.extra@)
    }

    /// Whether every name is grey.
    pub closed spec fn uncoloured(&self) -> bool {
        self.uncoloured
    }

    /// What asking for `speaker`'s color gives, and the names seen after.
    pub open spec fn color_for(&self, speaker: SpeakerId) -> (SpeakerColor, Seq<Seq<char>>) {
        speaker_color(self.uncoloured(), self.roster_view(), self.free_view(), self.extra_view(), speaker)
    }

    /// Every free slot is a palette slot.
    pub closed spec fn wf(&self) -> bool {
        forall|i: int| 0 <= i < self.free_slots@.len() ==> self.free_slots@[i] < PALETTE_LEN
    }

    /// The palette for a roster: the `n`-th debater gets slot `n`, and the
    /// slots past the roster are left for names that appear later. An empty
    /// roster means no palette at all.
    pub fn new(roster: &[String]) -> (c: SpeakerColors)
        ensures
            c.wf(),
            c.roster_view() == roster@.map_values(|s: String| s@),
            c.free_view() == Seq::new(
                (PALETTE_LEN - if roster@.len() < PALETTE_LEN {
                    roster@.len() as int
                } else {
                    PALETTE_LEN as int
                }) as nat,
                |k: int|
                    (k + if roster@.len() < PALETTE_LEN {
                        roster@.len() as int
                    } else {
                        PALETTE_LEN as int
                    }) as usize,
            ),
            c.extra_view() == Seq::<Seq<char>>::empty(),
            c.uncoloured() == (roster@.len() == 0),
    {
        let mut names: Vec<String> = Vec::new();
        let mut i: usize = 0;
        while i < roster.len()
            invariant
                i <= roster@.len(),
                names_of(names@) == roster@.map_values(|s: String| s@).take(i as int),
            decreases roster@.len() - i,
        {
            let ghost before = names@;
            let s = roster[i].clone();
            names.push(s);
            assert(names_of(names@) =~= names_of(before).push(roster@[i as int]@));
            assert(roster@.map_values(|s: String| s@).take(i + 1) =~= roster@.map_values(
                |s: String| s@,
            ).take(i as int).push(roster@[i as int]@));
            i += 1;
        }
        assert(roster@.map_values(|s: String| s@).take(roster@.len() as int) =~= roster@.map_values(
            |s: String| s@,
        ));
        let claimed: usize = if roster.len() < PALETTE_LEN {
            roster.len()
        } else {
            PALETTE_LEN
        };
        let mut free: Vec<usize> = Vec::new();
        let mut slot: usize = claimed;
        while slot < PALETTE_LEN
            invariant
                claimed <= slot <= PALETTE_LEN,
                free@ == Seq::new((slot - claimed) as nat, |k: int| (k + claimed) as usize),
            decreases PALETTE_LEN - slot,
        {
            free.push(slot);
            slot += 1;
            assert(free@ =~= Seq::new((slot - claimed) as nat, |k: int| (k + claimed) as usize));
        }
        let c = SpeakerColors {
            roster: names,
            free_slots: free,
            extra: Vec::new(),
            uncoloured: roster.len() == 0,
        };
        assert(c.extra_view() =~= Seq::<Seq<char>>::empty());
        c
    }

    /// The color for one debater's name.
    fn debater(&mut self, id: &str) -> (c: SpeakerColor)
        requires
            old(self).wf(),
        ensures
            final(self).wf(),
            (c, final(self).extra_view()) == debater_color(
                old(self).roster_view(),
                old(self).free_view(),
                old(self).extra_view(),
                id@,
            ),
            final(self).roster_view() == old(self).roster_view(),
            final(self).free_view() == old(self).free_view(),
            final(self).uncoloured() == old(self).uncoloured(),
    {
        match find_name(&self.roster, id) {
            Some(p) => {
                return palette_at(p % PALETTE_LEN);
            },
            None => {},
        }
        let slot = match find_name(&self.extra, id) {
            Some(s) => s,
            None => {
                let s = self.extra.len();
                let ghost before = self.extra@;
                self.extra.push(id.to_string());
                assert(names_of(self.extra@) =~= names_of(before).push(id@));
                s
            },
        };
        if slot < self.free_slots.len() {
            palette_at(self.free_slots[slot])
        } else {
            SpeakerColor::Gray
        }
    }

    /// The color for one speaker's name: grey throughout without a roster;
    /// otherwise a debater's own color, and one fixed color each for
    /// executors, the user and the system.
    pub fn of(&mut self, speaker: &SpeakerId) -> (c: SpeakerColor)
        requires
            old(self).wf(),
        ensures
            final(self).wf(),
            final(self).roster_view() == old(self).roster_view(),
            final(self).free_view() == old(self).free_view(),
            final(self).uncoloured() == old(self).uncoloured(),
            (c, final(self).extra_view()) == old(self).color_for(*speaker),
            old(self).uncoloured() ==> c == SpeakerColor::DarkGray && final(self).extra_view()
                == old(self).extra_view(),
            !old(self).uncoloured() ==> match speaker {
                SpeakerId::Debater(id) => (c, final(self).extra_view()) == debater_color(
                    old(self).roster_view(),
                    old(self).free_view(),
                    old(self).extra_view(),
                    id@,
                ),
                SpeakerId::Executor(_) => c == SpeakerColor::LightYellow
                    && final(self).extra_view() == old(self).extra_view(),
                SpeakerId::User => c == SpeakerColor::LightGreen && final(self).extra_view()
                    == old(self).extra_view(),
                SpeakerId::System => c == SpeakerColor::Gray && final(self).extra_view()
                    == old(self).extra_view(),
            },
    {
        if self.uncoloured {
            return SpeakerColor::DarkGray;
        }
        match speaker {
            SpeakerId::Debater(id) => self.debater(id.as_str()),
            SpeakerId::Executor(_) => SpeakerColor::LightYellow,
            SpeakerId::User => SpeakerColor::LightGreen,
            SpeakerId::System => SpeakerColor::Gray,
        }
    }
}

/// `first_index` finds an occurrence, and finds none only when there is none.
proof fn lemma_first_index(names: Seq<Seq<char>>, x: Seq<char>, from: int)
    requires
        0 <= from,
    ensures
        match first_index(names, x, from) {
            Some(i) => from <= i < names.len() && names[i] == x,
            None => forall|i: int| from <= i < names.len() ==> names[i] != x,
        },
    decreases names.len() - from,
{
    if from < names.len() && names[from] != x {
        lemma_first_index(names, x, from + 1);
    }
}

/// A name keeps its color: asking again, with the names seen so far, gives
/// the same color and sees no new name.
pub proof fn colors_are_stable(
    roster: Seq<Seq<char>>,
    free: Seq<usize>,
    extra: Seq<Seq<char>>,
    id: Seq<char>,
)
    ensures
        ({
            let (c1, seen) = debater_color(roster, free, extra, id);
            let (c2, seen2) = debater_color(roster, free, seen, id);
            c1 == c2 && seen2 == seen
        }),
{
    lemma_first_index(extra, id, 0);
    let (c1, seen) = debater_color(roster, free, extra, id);
    if first_index(roster, id, 0) is None && first_index(extra, id, 0) is None {
        lemma_first_index(seen, id, 0);
        assert(seen[extra.len() as int] == id);
        assert forall|i: int| 0 <= i < extra.len() implies seen[i] == extra[i] by {}
        match first_index(seen, id, 0) {
            Some(j) => {
                if j < extra.len() {
                    assert(seen[j] == extra[j]);
                }
                assert(j == extra.len());
            },
            None => {},
        }
    }
}

} // verus!
