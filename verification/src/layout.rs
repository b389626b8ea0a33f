//! The fullscreen shell's geometry: a terminal size and the input's row count
//! go in, the rectangles that exist at that size come out. Keeping it apart
//! from the drawing gives the degrade ladder exactly one home.
//!
//! The shell is one frame, one full-height sidebar, one main column: the frame
//! is the terminal's border, the sidebar holds the mark, the tab bar and the
//! session's readings, and the main column stacks the transcript, the status
//! row, the input and the hints.

use vstd::prelude::*;

use crate::editor::{Placed, PROMPT_COLUMNS};

verus! {

/// The smallest terminal the shell is drawn in.
pub const MIN_WIDTH: u16 = 40;
pub const MIN_HEIGHT: u16 = 10;

/// The rows spent on chrome that is neither transcript nor input: the frame's
/// two rows, the main column's three rules, the status row and the hint row.
pub const CHROME: u16 = 7;

/// The frame's two border columns.
pub const BORDER_COLUMNS: u16 = 2;

/// The rows the tab bar costs: a rule, the labels, a rule.
pub const TAB_ROWS: u16 = 3;

/// The columns the transcript always keeps at its right edge: the scrollbar's
/// and the rail's.
pub const TRAILING_COLUMNS: u16 = 2;

/// The sidebar's two content widths.
pub const SIDEBAR_WIDE: u16 = 40;
pub const SIDEBAR_NARROW: u16 = 28;

/// The widths at which each sidebar rung starts; below the narrow one the
/// sidebar is hidden whole.
pub const SIDEBAR_WIDE_FROM: u16 = 120;
pub const SIDEBAR_NARROW_FROM: u16 = 80;

/// The mark's own width.
pub const LOGO_WIDTH: u16 = 38;

/// The rows the mark draws, and the one row the text identity takes.
pub const LOGO_ROWS: u16 = 5;
pub const IDENTITY_ROWS: u16 = 1;

/// The fields the sidebar's usage page holds when nothing is squeezed, and the
/// fewest it ever keeps.
pub const SIDEBAR_FIELDS: u16 = 6;
pub const SIDEBAR_MIN_FIELDS: u16 = 3;

/// The most input rows the input area will ever hold.
pub const MAX_INPUT_ROWS: u16 = 10;

/// The widest the question overlay ever gets.
pub const MODAL_MAX_WIDTH: u16 = 72;

/// The blank columns the overlay leaves on either side of the main column.
pub const MODAL_MARGIN: u16 = 4;

/// The widest the detail overlay ever gets.
pub const DETAIL_MAX_WIDTH: u16 = 135;

/// The fewest body rows a detail overlay is worth opening for.
pub const DETAIL_MIN_ROWS: u16 = 1;

/// The rows of transcript the detail overlay leaves showing.
pub const DETAIL_MARGIN_ROWS: u16 = 2;

/// The most rows the `/` menu shows before its matches scroll.
pub const MENU_MAX_ROWS: u16 = 8;

/// The widest the `/` menu ever gets.
pub const MENU_MAX_WIDTH: u16 = 72;

/// The narrowest a menu box is worth drawing.
pub const MENU_MIN_WIDTH: u16 = 12;

/// `a + b`, or the largest `u16` when that does not fit.
pub open spec fn sat_add(a: u16, b: u16) -> u16 {
    if a + b > 65535 {
        65535
    } else {
        (a + b) as u16
    }
}

/// `a - b`, or zero when `b` is larger.
pub open spec fn sat_sub(a: u16, b: u16) -> u16 {
    if a >= b {
        (a - b) as u16
    } else {
        0
    }
}

/// The smaller of two `u16`s.
pub open spec fn min16(a: u16, b: u16) -> u16 {
    if a <= b {
        a
    } else {
        b
    }
}

fn add16(a: u16, b: u16) -> (r: u16)
    ensures
        r == sat_add(a, b),
{
    if a as u32 + b as u32 > 65535 {
        65535
    } else {
        a + b
    }
}

fn sub16(a: u16, b: u16) -> (r: u16)
    ensures
        r == sat_sub(a, b),
{
    if a >= b {
        a - b
    } else {
        0
    }
}

/// A rectangle of terminal cells.
#[derive(Debug, Clone, Copy, PartialEq, Eq, Structural)]
pub struct Rect {
    pub x: u16,
    pub y: u16,
    pub width: u16,
    pub height: u16,
}

/// A rectangle at `(x, y)`, its size cut so that both far edges stay inside
/// the `u16` range.
pub open spec fn rect(x: u16, y: u16, width: u16, height: u16) -> Rect {
    Rect { x, y, width: (sat_add(x, width) - x) as u16, height: (sat_add(y, height) - y) as u16 }
}

impl Rect {
    /// A rectangle at `(x, y)`, its size cut so both far edges fit.
    pub fn new(x: u16, y: u16, width: u16, height: u16) -> (r: Rect)
        ensures
            r == rect(x, y, width, height),
    {
        Rect { x, y, width: add16(x, width) - x, height: add16(y, height) - y }
    }

    /// The column just past the right edge.
    pub fn right(self) -> (r: u16)
        ensures
            r == sat_add(self.x, self.width),
    {
        add16(self.x, self.width)
    }

    /// The row just past the bottom edge.
    pub fn bottom(self) -> (r: u16)
        ensures
            r == sat_add(self.y, self.height),
    {
        add16(self.y, self.height)
    }
}

/// Which of the three sidebar identities a frame draws.
#[derive(Debug, Clone, Copy, PartialEq, Eq, Structural)]
pub enum SidebarKind {
    /// The mark, on the wide rung.
    Mark,
    /// One line of text identity, which is what the narrow rung has room for.
    Text,
    /// Neither: the height ladder gave the identity up so the readings could
    /// stay.
    Hidden,
}

/// The rows an identity spends at the top of the sidebar.
pub open spec fn kind_rows(k: SidebarKind) -> u16 {
    match k {
        SidebarKind::Mark => LOGO_ROWS,
        SidebarKind::Text => IDENTITY_ROWS,
        SidebarKind::Hidden => 0,
    }
}

impl SidebarKind {
    /// The rows this identity spends at the top of the sidebar.
    pub fn rows(self) -> (r: u16)
        ensures
            r == kind_rows(self),
    {
        match self {
            SidebarKind::Mark => LOGO_ROWS,
            SidebarKind::Text => IDENTITY_ROWS,
            SidebarKind::Hidden => 0,
        }
    }
}

/// One frame's regions, in terminal coordinates.
#[derive(Debug, Clone, Copy, PartialEq, Eq, Structural)]
pub struct Regions {
    /// The main column: everything inside the frame right of the divider.
    pub main: Rect,
    /// The transcript's rows: text, scrollbar and rail together.
    pub transcript: Rect,
    /// The rail's single column, at the transcript's right edge.
    pub rail: Rect,
    /// The status row.
    pub status: Rect,
    /// The input rows inside the main column.
    pub input: Rect,
    /// The hint row, under the input.
    pub hints: Rect,
    /// The sidebar's content, when it is drawn at all.
    pub sidebar: Option<Rect>,
    /// The tab bar's label row, when the sidebar is drawn.
    pub tabs: Option<Rect>,
    /// The sidebar's page rows, one per field the height ladder kept.
    pub sidebar_page: Option<Rect>,
    /// The column the sidebar and the main column share.
    pub divide: Option<u16>,
    /// Which sidebar identity this frame came out as.
    pub sidebar_kind: SidebarKind,
}

/// Whether the terminal is too small for anything but the notice sentence.
pub fn below_minimum(area: Rect) -> (r: bool)
    ensures
        r == (area.width < MIN_WIDTH || area.height < MIN_HEIGHT),
{
    area.width < MIN_WIDTH || area.height < MIN_HEIGHT
}

/// The sidebar's content width at a terminal `width` wide, or `None` when it
/// is hidden. Width alone decides that.
pub open spec fn tier_of(width: u16) -> Option<u16> {
    if width >= SIDEBAR_WIDE_FROM {
        Some(SIDEBAR_WIDE)
    } else if width >= SIDEBAR_NARROW_FROM {
        Some(SIDEBAR_NARROW)
    } else {
        None
    }
}

fn sidebar_tier(width: u16) -> (r: Option<u16>)
    ensures
        r == tier_of(width),
{
    if width >= SIDEBAR_WIDE_FROM {
        Some(SIDEBAR_WIDE)
    } else if width >= SIDEBAR_NARROW_FROM {
        Some(SIDEBAR_NARROW)
    } else {
        None
    }
}

/// The columns the main column gets: the frame's border, and the sidebar with
/// its divider column when the sidebar is drawn.
pub open spec fn main_width_of(width: u16) -> u16 {
    let sidebar: u16 = match tier_of(width) {
        Some(t) => (t + 1) as u16,
        None => 0,
    };
    sat_sub(width, (BORDER_COLUMNS + sidebar) as u16)
}

fn main_width(width: u16) -> (r: u16)
    ensures
        r == main_width_of(width),
{
    let sidebar: u16 = match sidebar_tier(width) {
        Some(t) => t + 1,
        None => 0,
    };
    sub16(width, BORDER_COLUMNS + sidebar)
}

/// The sidebar's identity and how many usage fields it keeps in `content_rows`
/// rows, from the identity `kind` and `fields` fields on: the mark goes first
/// (to the text identity, then to nothing), then fields from the tail, down to
/// the floor of three.
pub open spec fn squeeze(kind: SidebarKind, fields: u16, content_rows: u16) -> (SidebarKind, u16)
    decreases (match kind {
        SidebarKind::Mark => 2int,
        SidebarKind::Text => 1int,
        SidebarKind::Hidden => 0int,
    }), fields,
{
    if kind_rows(kind) + TAB_ROWS + fields <= content_rows {
        (kind, fields)
    } else {
        match kind {
            SidebarKind::Mark => squeeze(SidebarKind::Text, fields, content_rows),
            SidebarKind::Text => squeeze(SidebarKind::Hidden, fields, content_rows),
            SidebarKind::Hidden => if fields > SIDEBAR_MIN_FIELDS {
                squeeze(SidebarKind::Hidden, (fields - 1) as u16, content_rows)
            } else {
                (kind, fields)
            },
        }
    }
}

/// The sidebar's identity and field count at a terminal `width` wide with
/// `content_rows` rows inside the frame.
pub open spec fn sidebar_content_of(width: u16, content_rows: u16) -> (SidebarKind, u16) {
    match tier_of(width) {
        None => (SidebarKind::Hidden, 0),
        Some(t) => squeeze(
            if t >= LOGO_WIDTH {
                SidebarKind::Mark
            } else {
                SidebarKind::Text
            },
            SIDEBAR_FIELDS,
            content_rows,
        ),
    }
}

fn sidebar_content(width: u16, content_rows: u16) -> (r: (SidebarKind, u16))
    ensures
        r == sidebar_content_of(width, content_rows),
{
    let tier = match sidebar_tier(width) {
        Some(t) => t,
        None => {
            return (SidebarKind::Hidden, 0);
        },
    };
    let mut kind = if tier >= LOGO_WIDTH {
        SidebarKind::Mark
    } else {
        SidebarKind::Text
    };
    let mut fields: u16 = SIDEBAR_FIELDS;
    loop
        invariant
            fields <= SIDEBAR_FIELDS,
            squeeze(kind, fields, content_rows) == sidebar_content_of(width, content_rows),
        ensures
            (kind, fields) == sidebar_content_of(width, content_rows),
        decreases (match kind {
            SidebarKind::Mark => 2int,
            SidebarKind::Text => 1int,
            SidebarKind::Hidden => 0int,
        }), fields,
    {
        if kind.rows() + TAB_ROWS + fields <= content_rows {
            break;
        }
        match kind {
            SidebarKind::Mark => {
                kind = SidebarKind::Text;
            },
            SidebarKind::Text => {
                kind = SidebarKind::Hidden;
            },
            SidebarKind::Hidden => {
                if fields > SIDEBAR_MIN_FIELDS {
                    fields = fields - 1;
                } else {
                    break;
                }
            },
        }
    }
    (kind, fields)
}

/// The content rectangle of a bordered area.
pub open spec fn inner_of(area: Rect) -> Rect {
    rect(
        sat_add(area.x, 1),
        sat_add(area.y, 1),
        sat_sub(area.width, BORDER_COLUMNS),
        sat_sub(area.height, BORDER_COLUMNS),
    )
}

/// The content rectangle of a bordered area.
pub fn inner(area: Rect) -> (r: Rect)
    ensures
        r == inner_of(area),
{
    Rect::new(
        add16(area.x, 1),
        add16(area.y, 1),
        sub16(area.width, BORDER_COLUMNS),
        sub16(area.height, BORDER_COLUMNS),
    )
}

/// How many rows the input may take at this size: its cap, or what is left
/// once the transcript keeps its floor row, whichever is smaller, and never
/// less than one.
pub open spec fn max_input_rows_of(height: u16) -> u16 {
    let room = sat_sub(height, (CHROME + 1) as u16);
    let capped = min16(MAX_INPUT_ROWS, room);
    if capped < 1 {
        1
    } else {
        capped
    }
}

fn max_input_rows(height: u16) -> (r: u16)
    ensures
        r == max_input_rows_of(height),
{
    let room = sub16(height, CHROME + 1);
    let capped = if MAX_INPUT_ROWS <= room {
        MAX_INPUT_ROWS
    } else {
        room
    };
    if capped < 1 {
        1
    } else {
        capped
    }
}

/// The width one input row has for text: the main column's content, less the
/// prompt.
pub fn input_text_width(area: Rect) -> (r: u16)
    ensures
        r == sat_sub(main_width_of(area.width), PROMPT_COLUMNS),
{
    sub16(main_width(area.width), PROMPT_COLUMNS)
}

/// The main column's content width.
pub fn content_width(area: Rect) -> (r: u16)
    ensures
        r == main_width_of(area.width),
{
    main_width(area.width)
}

/// The rows the input takes for a draft of `draft_rows` rows: at least one,
/// at most what the size allows.
pub open spec fn input_rows_of(area: Rect, draft_rows: u16) -> u16 {
    min16(if draft_rows < 1 {
        1
    } else {
        draft_rows
    }, max_input_rows_of(area.height))
}

/// One frame's regions, as arithmetic over the terminal's size.
pub open spec fn plan_of(area: Rect, draft_rows: u16) -> Regions {
    let inner = inner_of(area);
    let tier = tier_of(area.width);
    let content = sidebar_content_of(area.width, inner.height);
    let kind = content.0;
    let fields = content.1;
    let input_rows = input_rows_of(area, draft_rows);
    let transcript_rows = sat_sub(area.height, (CHROME + input_rows) as u16);
    let sidebar = match tier {
        Some(t) => Some(rect(inner.x, inner.y, t, inner.height)),
        None => None,
    };
    let divide = match tier {
        Some(t) => Some(sat_add(inner.x, t)),
        None => None,
    };
    let main_x = match divide {
        Some(d) => sat_add(d, 1),
        None => inner.x,
    };
    let main = rect(main_x, inner.y, main_width_of(area.width), inner.height);
    let transcript = rect(main.x, main.y, main.width, transcript_rows);
    let status = rect(main.x, sat_add(sat_add(transcript.y, transcript.height), 1), main.width, 1);
    let input = rect(main.x, sat_add(sat_add(status.y, status.height), 1), main.width, input_rows);
    let hints = rect(main.x, sat_add(sat_add(input.y, input.height), 1), main.width, 1);
    let rail = rect(
        sat_sub(sat_add(transcript.x, transcript.width), 1),
        transcript.y,
        1,
        transcript_rows,
    );
    Regions {
        main,
        transcript,
        rail,
        status,
        input,
        hints,
        sidebar,
        tabs: match sidebar {
            Some(s) => Some(rect(s.x, sat_add(sat_add(s.y, kind_rows(kind)), 1), s.width, 1)),
            None => None,
        },
        sidebar_page: match sidebar {
            Some(s) => Some(rect(s.x, sat_add(sat_add(s.y, kind_rows(kind)), TAB_ROWS), s.width, fields)),
            None => None,
        },
        divide,
        sidebar_kind: kind,
    }
}

/// The frame's far edges lie inside the `u16` coordinate space, as those of
/// every rectangle `Rect::new` builds do.
pub open spec fn fits(area: Rect) -> bool {
    area.x as int + area.width as int <= 65535 && area.y as int + area.height as int <= 65535
}

/// Lay out one frame. `draft_rows` is how many rows the input's draft wraps
/// to. The order here is the degrade ladder: the sidebar is narrowed, then
/// hidden, as the terminal narrows; the input grows into the transcript's rows
/// as the draft does; and the sidebar's own height decides which of its parts
/// survive. Coordinates saturate at the edge of the `u16` space, as ratatui's
/// `Rect` arithmetic does.
pub fn plan(area: Rect, draft_rows: u16) -> (r: Regions)
    ensures
        r == plan_of(area, draft_rows),
{
    let inner = inner(area);
    let tier = sidebar_tier(area.width);
    let (sidebar_kind, fields) = sidebar_content(area.width, inner.height);
    let wanted: u16 = if draft_rows < 1 {
        1
    } else {
        draft_rows
    };
    let cap = max_input_rows(area.height);
    let input_rows = if wanted <= cap {
        wanted
    } else {
        cap
    };
    let transcript_rows = sub16(area.height, CHROME + input_rows);
    let sidebar = match tier {
        Some(t) => Some(Rect::new(inner.x, inner.y, t, inner.height)),
        None => None,
    };
    let divide = match tier {
        Some(t) => Some(add16(inner.x, t)),
        None => None,
    };
    let main_x = match divide {
        Some(d) => add16(d, 1),
        None => inner.x,
    };
    let main = Rect::new(main_x, inner.y, main_width(area.width), inner.height);
    let transcript = Rect::new(main.x, main.y, main.width, transcript_rows);
    let status = Rect::new(main.x, add16(transcript.bottom(), 1), main.width, 1);
    let input = Rect::new(main.x, add16(status.bottom(), 1), main.width, input_rows);
    let hints = Rect::new(main.x, add16(input.bottom(), 1), main.width, 1);
    let rail = Rect::new(sub16(transcript.right(), 1), transcript.y, 1, transcript_rows);
    let tabs = match sidebar {
        Some(s) => Some(Rect::new(s.x, add16(add16(s.y, sidebar_kind.rows()), 1), s.width, 1)),
        None => None,
    };
    let sidebar_page = match sidebar {
        Some(s) => Some(Rect::new(s.x, add16(add16(s.y, sidebar_kind.rows()), TAB_ROWS), s.width, fields)),
        None => None,
    };
    Regions {
        main,
        transcript,
        rail,
        status,
        input,
        hints,
        sidebar,
        tabs,
        sidebar_page,
        divide,
        sidebar_kind,
    }
}

/// The sidebar's ladder always lands on something that fits, as long as the
/// floor — the tab bar and three readings — does.
proof fn lemma_squeeze_fits(kind: SidebarKind, fields: u16, content_rows: u16)
    requires
        SIDEBAR_MIN_FIELDS <= fields,
        TAB_ROWS + SIDEBAR_MIN_FIELDS <= content_rows,
    ensures
        kind_rows(squeeze(kind, fields, content_rows).0) + TAB_ROWS + squeeze(
            kind,
            fields,
            content_rows,
        ).1 <= content_rows,
        SIDEBAR_MIN_FIELDS <= squeeze(kind, fields, content_rows).1 <= fields,
    decreases (match kind {
        SidebarKind::Mark => 2int,
        SidebarKind::Text => 1int,
        SidebarKind::Hidden => 0int,
    }), fields,
{
    if kind_rows(kind) + TAB_ROWS + fields <= content_rows {
    } else {
        match kind {
            SidebarKind::Mark => lemma_squeeze_fits(SidebarKind::Text, fields, content_rows),
            SidebarKind::Text => lemma_squeeze_fits(SidebarKind::Hidden, fields, content_rows),
            SidebarKind::Hidden => if fields > SIDEBAR_MIN_FIELDS {
                lemma_squeeze_fits(SidebarKind::Hidden, (fields - 1) as u16, content_rows);
            },
        }
    }
}

/// At any size the shell is drawn at, the vertical arithmetic is the whole
/// of it: the input takes one to ten rows, the transcript the
/// `h − CHROME − input` rows left, and transcript, status, input and hints —
/// a rule between each — fill the frame from its top border to its bottom one.
pub proof fn rows_fill_the_frame(area: Rect, draft_rows: u16)
    requires
        fits(area),
        area.width >= MIN_WIDTH,
        area.height >= MIN_HEIGHT,
    ensures
        ({
            let r = plan_of(area, draft_rows);
            &&& 1 <= r.input.height <= MAX_INPUT_ROWS
            &&& draft_rows >= 1 && draft_rows <= max_input_rows_of(area.height) ==> r.input.height
                == draft_rows
            &&& r.transcript.height >= 1
            &&& r.transcript.height == area.height - CHROME - r.input.height
            &&& r.transcript.y == area.y + 1
            &&& r.status.y == r.transcript.y + r.transcript.height + 1
            &&& r.input.y == r.status.y + 2
            &&& r.hints.y == r.input.y + r.input.height + 1
            &&& r.hints.y + r.hints.height + 1 == area.y + area.height
        }),
{
}

/// The main column and the sidebar share the frame's width without
/// overlapping: the sidebar sits against the left border, the divider column
/// follows it, and the main column runs from there to the right border.
pub proof fn columns_share_the_frame(area: Rect, draft_rows: u16)
    requires
        fits(area),
        area.width >= MIN_WIDTH,
        area.height >= MIN_HEIGHT,
    ensures
        ({
            let r = plan_of(area, draft_rows);
            &&& r.main.x + r.main.width == area.x + area.width - 1
            &&& match r.sidebar {
                Some(s) => s.x == area.x + 1 && r.divide == Some((s.x + s.width) as u16)
                    && r.main.x == s.x + s.width + 1,
                None => r.main.x == area.x + 1 && r.divide is None,
            }
        }),
{
}

/// The sidebar's identity, tab bar and kept readings always fit in its
/// height: the ladder gives up the mark, then the text identity, then
/// readings from the tail, never going below the three that answer "how much
/// is left".
pub proof fn sidebar_fits_its_height(area: Rect, draft_rows: u16)
    requires
        fits(area),
        area.width >= MIN_WIDTH,
        area.height >= MIN_HEIGHT,
    ensures
        ({
            let r = plan_of(area, draft_rows);
            let inner = inner_of(area);
            r.sidebar is Some ==> kind_rows(r.sidebar_kind) + TAB_ROWS + sidebar_content_of(
                area.width,
                inner.height,
            ).1 <= inner.height && SIDEBAR_MIN_FIELDS <= sidebar_content_of(
                area.width,
                inner.height,
            ).1
        }),
{
    let inner = inner_of(area);
    if tier_of(area.width) is Some {
        let t = tier_of(area.width)->0;
        let start = if t >= LOGO_WIDTH {
            SidebarKind::Mark
        } else {
            SidebarKind::Text
        };
        lemma_squeeze_fits(start, SIDEBAR_FIELDS, inner.height);
    }
}

impl Regions {
    /// The transcript's text area: its content less the two columns its right
    /// edge always keeps, the scrollbar's and the rail's.
    pub fn transcript_text(&self) -> (r: Rect)
        ensures
            r == rect(
                self.transcript.x,
                self.transcript.y,
                sat_sub(self.transcript.width, TRAILING_COLUMNS),
                self.transcript.height,
            ),
    {
        Rect::new(
            self.transcript.x,
            self.transcript.y,
            sub16(self.transcript.width, TRAILING_COLUMNS),
            self.transcript.height,
        )
    }

    /// The scrollbar's column, one to the left of the rail's.
    pub fn scrollbar(&self) -> (r: Rect)
        ensures
            r == rect(
                sat_sub(sat_add(self.transcript.x, self.transcript.width), TRAILING_COLUMNS),
                self.transcript.y,
                (TRAILING_COLUMNS - 1) as u16,
                self.transcript.height,
            ),
    {
        Rect::new(
            sub16(self.transcript.right(), TRAILING_COLUMNS),
            self.transcript.y,
            TRAILING_COLUMNS - 1,
            self.transcript.height,
        )
    }

    /// The width of the question overlay inside the main column.
    pub fn modal_width(&self) -> (w: u16)
        ensures
            w == min16(sat_sub(self.main.width, MODAL_MARGIN), MODAL_MAX_WIDTH),
    {
        let w = sub16(self.main.width, MODAL_MARGIN);
        if w <= MODAL_MAX_WIDTH {
            w
        } else {
            MODAL_MAX_WIDTH
        }
    }

    /// The width of the detail overlay: the same centring as a question, with
    /// its own wider ceiling.
    pub fn detail_width(&self) -> (w: u16)
        ensures
            w == min16(sat_sub(self.main.width, MODAL_MARGIN), DETAIL_MAX_WIDTH),
    {
        let w = sub16(self.main.width, MODAL_MARGIN);
        if w <= DETAIL_MAX_WIDTH {
            w
        } else {
            DETAIL_MAX_WIDTH
        }
    }

    /// Where the detail overlay goes: centred in the main column, one row short
    /// of the borders; `None` when the terminal is too small to show a useful
    /// body.
    pub fn detail(&self) -> (r: Option<Rect>)
        requires
            self.main.x as int + self.main.width as int <= 65535,
            self.main.y as int + self.main.height as int <= 65535,
        ensures
            ({
                let width = min16(sat_sub(self.main.width, MODAL_MARGIN), DETAIL_MAX_WIDTH);
                if width <= BORDER_COLUMNS || self.main.height <= BORDER_COLUMNS
                    + DETAIL_MIN_ROWS {
                    r is None
                } else {
                    let height = sat_sub(
                        self.main.height,
                        (BORDER_COLUMNS + DETAIL_MARGIN_ROWS) as u16,
                    );
                    r == Some(
                        rect(
                            (self.main.x + (self.main.width - width) / 2) as u16,
                            (self.main.y + (self.main.height - height) / 2) as u16,
                            width,
                            height,
                        ),
                    )
                }
            }),
    {
        let width = self.detail_width();
        if width <= BORDER_COLUMNS || self.main.height <= BORDER_COLUMNS + DETAIL_MIN_ROWS {
            return None;
        }
        let height = sub16(self.main.height, BORDER_COLUMNS + DETAIL_MARGIN_ROWS);
        Some(
            Rect::new(
                self.main.x + (self.main.width - width) / 2,
                self.main.y + (self.main.height - height) / 2,
                width,
                height,
            ),
        )
    }

    /// Where a question `rows` display rows tall goes: centred in the main
    /// column, or nowhere when it cannot be drawn legibly there.
    pub fn modal(&self, rows: u16) -> (r: Option<Rect>)
        requires
            self.main.x as int + self.main.width as int <= 65535,
            self.main.y as int + self.main.height as int <= 65535,
        ensures
            ({
                let width = min16(sat_sub(self.main.width, MODAL_MARGIN), MODAL_MAX_WIDTH);
                let height = sat_add(rows, BORDER_COLUMNS);
                if width <= BORDER_COLUMNS || height > self.main.height {
                    r is None
                } else {
                    r == Some(
                        rect(
                            (self.main.x + (self.main.width - width) / 2) as u16,
                            (self.main.y + (self.main.height - height) / 2) as u16,
                            width,
                            height,
                        ),
                    )
                }
            }),
    {
        let width = self.modal_width();
        let height = add16(rows, BORDER_COLUMNS);
        if width <= BORDER_COLUMNS || height > self.main.height {
            return None;
        }
        Some(
            Rect::new(
                self.main.x + (self.main.width - width) / 2,
                self.main.y + (self.main.height - height) / 2,
                width,
                height,
            ),
        )
    }

    /// How many content rows a floating menu anchored at `anchor` can take:
    /// everything above the cursor's row, or the room below it when there is
    /// nothing above.
    pub fn menu_room(&self, anchor: Placed) -> (n: u16)
        requires
            sat_add(self.input.y, anchor.row) < 65535,
        ensures
            ({
                let cursor_y = sat_add(self.input.y, anchor.row);
                let above = sat_sub(cursor_y, self.main.y);
                if above > 1 {
                    n == above - 1
                } else {
                    n == sat_sub(sat_add(self.main.y, self.main.height), (cursor_y + 1) as u16)
                }
            }),
    {
        let cursor_y = add16(self.input.y, anchor.row);
        let above = sub16(cursor_y, self.main.y);
        if above > 1 {
            return above - 1;
        }
        sub16(self.main.bottom(), cursor_y + 1)
    }

    /// Where the floating `/` menu goes: a bordered box `width` columns wide and
    /// `rows` content rows tall, anchored at the cursor. It opens upwards, and
    /// drops below the cursor only when there is nothing above; `None` when it
    /// fits neither way.
    pub fn menu(&self, anchor: Placed, width: u16, rows: u16) -> (r: Option<Rect>)
        requires
            sat_add(self.input.y, anchor.row) < 65535,
        ensures
            ({
                let height = sat_add(rows, BORDER_COLUMNS);
                let cursor_y = sat_add(self.input.y, anchor.row);
                let bottom = sat_add(self.main.y, self.main.height);
                let right = sat_add(self.main.x, self.main.width);
                let w = min16(width, sat_sub(right, self.main.x));
                let x0 = min16(sat_add(self.input.x, anchor.column), sat_sub(right, w));
                let x = if x0 >= self.main.x {
                    x0
                } else {
                    self.main.x
                };
                if rows == 0 || width < MENU_MIN_WIDTH {
                    r is None
                } else if sat_sub(cursor_y, self.main.y) >= height {
                    r == Some(rect(x, (cursor_y - height) as u16, w, height))
                } else if sat_sub(bottom, (cursor_y + 1) as u16) >= height {
                    r == Some(rect(x, (cursor_y + 1) as u16, w, height))
                } else {
                    r is None
                }
            }),
    {
        if rows == 0 || width < MENU_MIN_WIDTH {
            return None;
        }
        let height = add16(rows, BORDER_COLUMNS);
        let cursor_y = add16(self.input.y, anchor.row);
        let top = self.main.y;
        let y = if sub16(cursor_y, top) >= height {
            cursor_y - height
        } else if sub16(self.main.bottom(), cursor_y + 1) >= height {
            cursor_y + 1
        } else {
            return None;
        };
        let left = self.main.x;
        let right = self.main.right();
        let room = sub16(right, left);
        let w = if width <= room {
            width
        } else {
            room
        };
        let x0 = add16(self.input.x, anchor.column);
        let limit = sub16(right, w);
        let x1 = if x0 <= limit {
            x0
        } else {
            limit
        };
        let x = if x1 >= left {
            x1
        } else {
            left
        };
        Some(Rect::new(x, y, w, height))
    }
}

} // verus!
