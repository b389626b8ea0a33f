//! Styled text as the renderer builds it: colours, modifiers, spans and
//! lines, held as plain values so the layout logic over them can be proved.

use vstd::prelude::*;

verus! {

/// A terminal colour.
#[derive(Debug, Clone, Copy, PartialEq, Eq, Structural)]
pub enum Color {
    Reset,
    Black,
    Red,
    Green,
    Yellow,
    Blue,
    Magenta,
    Cyan,
    Gray,
    DarkGray,
    LightRed,
    LightGreen,
    LightYellow,
    LightBlue,
    LightMagenta,
    LightCyan,
    White,
    Rgb(u8, u8, u8),
    Indexed(u8),
}

/// The bold modifier bit.
pub const BOLD: u16 = 0x0001;

/// The dim modifier bit.
pub const DIM: u16 = 0x0002;

/// The italic modifier bit.
pub const ITALIC: u16 = 0x0004;

/// The underline modifier bit.
pub const UNDERLINED: u16 = 0x0008;

/// The reversed-colours modifier bit.
pub const REVERSED: u16 = 0x0040;

/// The strike-through modifier bit.
pub const CROSSED_OUT: u16 = 0x0100;

/// How a span is drawn: colours, and the modifiers added and removed.
#[derive(Debug, Clone, Copy, PartialEq, Eq, Structural)]
pub struct Style {
    pub fg: Option<Color>,
    pub bg: Option<Color>,
    pub underline_color: Option<Color>,
    pub add_modifier: u16,
    pub sub_modifier: u16,
}

impl Style {
    /// The style that changes nothing.
    pub fn plain() -> (s: Style)
        ensures
            s == plain_style(),
    {
        Style { fg: None, bg: None, underline_color: None, add_modifier: 0, sub_modifier: 0 }
    }
}

/// The style that changes nothing.
pub open spec fn plain_style() -> Style {
    Style { fg: None, bg: None, underline_color: None, add_modifier: 0, sub_modifier: 0 }
}

/// Where a line sits in its area.
#[derive(Debug, Clone, Copy, PartialEq, Eq, Structural)]
pub enum Alignment {
    Left,
    Center,
    Right,
}

/// A run of text in one style.
#[derive(Debug, Clone)]
pub struct TextSpan {
    pub content: String,
    pub style: Style,
}

/// One line of styled text: its spans, the style under all of them, and its
/// alignment.
#[derive(Debug)]
pub struct TextLine {
    pub spans: Vec<TextSpan>,
    pub style: Style,
    pub alignment: Option<Alignment>,
}

/// A line as the contracts see it.
pub struct LineView {
    pub spans: Seq<(Seq<char>, Style)>,
    pub style: Style,
    pub alignment: Option<Alignment>,
}

/// The spans of a line as the contracts see them.
pub open spec fn spans_view(v: Seq<TextSpan>) -> Seq<(Seq<char>, Style)> {
    v.map_values(|s: TextSpan| (s.content@, s.style))
}

impl View for TextLine {
    type V = LineView;

    open spec fn view(&self) -> LineView {
        LineView { spans: spans_view(self.spans@), style: self.style, alignment: self.alignment }
    }
}

/// The lines of a sequence as the contracts see them.
pub open spec fn lines_view(v: Seq<TextLine>) -> Seq<LineView> {
    v.map_values(|l: TextLine| l@)
}

impl TextLine {
    /// A copy of this line.
    pub fn copied(&self) -> (r: TextLine)
        ensures
            r@ == self@,
    {
        let mut spans: Vec<TextSpan> = Vec::new();
        let mut k: usize = 0;
        while k < self.spans.len()
            invariant
                k <= self.spans.len(),
                spans_view(spans@) == spans_view(self.spans@.take(k as int)),
            decreases self.spans.len() - k,
        {
            let s = TextSpan { content: self.spans[k].content.clone(), style: self.spans[k].style };
            let ghost before = spans@;
            spans.push(s);
            assert(self.spans@.take(k + 1) =~= self.spans@.take(k as int).push(self.spans@[k as int]));
            assert(spans_view(before.push(s)) =~= spans_view(before).push((s.content@, s.style)));
            assert(spans_view(self.spans@.take(k as int).push(self.spans@[k as int])) =~= spans_view(
                self.spans@.take(k as int),
            ).push((self.spans@[k as int].content@, self.spans@[k as int].style)));
            k += 1;
        }
        assert(self.spans@.take(self.spans.len() as int) =~= self.spans@);
        TextLine { spans, style: self.style, alignment: self.alignment }
    }

    /// A line of one unstyled span.
    pub fn raw(text: String) -> (r: TextLine)
        ensures
            r@.spans == seq![(text@, plain_style())],
            r@.style == plain_style(),
            r@.alignment is None,
    {
        let spans = vec![TextSpan { content: text, style: Style::plain() }];
        assert(spans_view(spans@) =~= seq![(spans@[0].content@, plain_style())]);
        TextLine { spans, style: Style::plain(), alignment: None }
    }
}

} // verus!
