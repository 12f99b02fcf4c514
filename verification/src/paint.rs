//! Styled text, the palette it is drawn in, and its ANSI bytes.
//!
//! A frame is a list of [`Line`]s, each a list of [`Span`]s: text with a
//! [`Style`]. The colours come from a [`Theme`] role, never a literal; under
//! `NO_COLOR` or `TERM=dumb` the theme resolves every role to the terminal's
//! own colour. [`line_to_ansi`] and [`RunWriter`] turn styled text into the
//! SGR escapes a terminal draws, one escape per run of a style.

use vstd::prelude::*;
use crate::form::joined;
use crate::text::{chars_of, decimal, decimal_string, owned, push_chars};
use crate::theme::ColorSupport;

verus! {

/// A terminal colour: the sixteen named ANSI colours, an index into the
/// 256-colour table, a 24-bit colour, or the terminal's own.
#[derive(Debug, Clone, Copy, PartialEq, Eq, Structural)]
pub enum Color {
    Reset,
    Black,
    Red,
    Green,
    Yellow,
    Blue,
    Magenta,
    Cyan,
    Gray,
    DarkGray,
    LightRed,
    LightGreen,
    LightYellow,
    LightBlue,
    LightMagenta,
    LightCyan,
    White,
    Rgb(u8, u8, u8),
    Indexed(u8),
}

/// The text attributes a span can carry.
#[derive(Debug, Clone, Copy, PartialEq, Eq, Structural)]
pub struct Modifier {
    pub bold: bool,
    pub dim: bool,
    pub italic: bool,
    pub underlined: bool,
    pub slow_blink: bool,
    pub rapid_blink: bool,
    pub reversed: bool,
    pub hidden: bool,
    pub crossed_out: bool,
}

impl Modifier {
    /// No attribute.
    pub fn empty() -> (r: Self)
        ensures
            r == no_modifier(),
    {
        Modifier {
            bold: false,
            dim: false,
            italic: false,
            underlined: false,
            slow_blink: false,
            rapid_blink: false,
            reversed: false,
            hidden: false,
            crossed_out: false,
        }
    }
}

/// No attribute.
pub open spec fn no_modifier() -> Modifier {
    Modifier {
        bold: false,
        dim: false,
        italic: false,
        underlined: false,
        slow_blink: false,
        rapid_blink: false,
        reversed: false,
        hidden: false,
        crossed_out: false,
    }
}

/// How a span is drawn: its colours (none means the terminal's own) and its
/// attributes.
#[derive(Debug, Clone, Copy, PartialEq, Eq, Structural)]
pub struct Style {
    pub fg: Option<Color>,
    pub bg: Option<Color>,
    pub add_modifier: Modifier,
}

/// The style with nothing set.
pub open spec fn plain_style() -> Style {
    Style { fg: None, bg: None, add_modifier: no_modifier() }
}

impl Style {
    /// Nothing set: the terminal's own colours, no attribute.
    pub fn plain() -> (r: Self)
        ensures
            r == plain_style(),
    {
        Style { fg: None, bg: None, add_modifier: Modifier::empty() }
    }

    /// Drawn in `c`, nothing else set.
    pub fn fg(c: Color) -> (r: Self)
        ensures
            r == (Style { fg: Some(c), ..plain_style() }),
    {
        Style { fg: Some(c), bg: None, add_modifier: Modifier::empty() }
    }

    /// Bold, nothing else set.
    pub fn bold() -> (r: Self)
        ensures
            r == (Style { add_modifier: Modifier { bold: true, ..no_modifier() }, ..plain_style() }),
    {
        Style { fg: None, bg: None, add_modifier: Modifier { bold: true, ..Modifier::empty() } }
    }

    /// Drawn in `c`, bold.
    pub fn fg_bold(c: Color) -> (r: Self)
        ensures
            r == (Style { fg: Some(c), add_modifier: Modifier { bold: true, ..no_modifier() }, ..plain_style() }),
    {
        Style { fg: Some(c), bg: None, add_modifier: Modifier { bold: true, ..Modifier::empty() } }
    }

    /// Drawn in `c`, dim.
    pub fn fg_dim(c: Color) -> (r: Self)
        ensures
            r == (Style { fg: Some(c), add_modifier: Modifier { dim: true, ..no_modifier() }, ..plain_style() }),
    {
        Style { fg: Some(c), bg: None, add_modifier: Modifier { dim: true, ..Modifier::empty() } }
    }
}

/// A run of text in one style.
#[derive(Debug, Clone, PartialEq, Eq)]
pub struct Span {
    pub content: String,
    pub style: Style,
}

/// One line of styled text.
#[derive(Debug, Clone, PartialEq, Eq)]
pub struct Line {
    pub spans: Vec<Span>,
}

/// A span's text and style.
pub open spec fn span_view(s: Span) -> (Seq<char>, Style) {
    (s.content@, s.style)
}

/// A line as the text and style of each of its spans.
pub open spec fn line_view(l: Line) -> Seq<(Seq<char>, Style)> {
    l.spans@.map_values(|s: Span| span_view(s))
}

/// The views of a list of lines.
pub open spec fn lines_view(ls: Seq<Line>) -> Seq<Seq<(Seq<char>, Style)>> {
    ls.map_values(|l: Line| line_view(l))
}

/// The characters a line shows.
pub open spec fn line_text(spans: Seq<(Seq<char>, Style)>) -> Seq<char>
    decreases spans.len(),
{
    if spans.len() == 0 {
        Seq::empty()
    } else {
        line_text(spans.drop_last()) + spans.last().0
    }
}

impl Span {
    /// `content` drawn in `style`.
    pub fn styled(content: String, style: Style) -> (r: Self)
        ensures
            r.content == content,
            r.style == style,
    {
        Span { content, style }
    }

    /// `content` drawn in `style`, from a text.
    pub fn text(content: &str, style: Style) -> (r: Self)
        ensures
            r.content@ == content@,
            r.style == style,
    {
        Span { content: owned(content), style }
    }

    /// A copy equal to `self`.
    pub fn copy(&self) -> (r: Self)
        ensures
            r == *self,
    {
        Span { content: self.content.clone(), style: self.style }
    }
}

impl Line {
    /// A copy equal to `self`.
    pub fn copy(&self) -> (r: Self)
        ensures
            r.spans@ == self.spans@,
            line_view(r) == line_view(*self),
    {
        let mut spans: Vec<Span> = Vec::new();
        let mut i: usize = 0;
        while i < self.spans.len()
            invariant
                i <= self.spans@.len(),
                spans@ == self.spans@.take(i as int),
            decreases self.spans.len() - i,
        {
            spans.push(self.spans[i].copy());
            assert(self.spans@.take(i + 1) == self.spans@.take(i as int).push(self.spans@[i as int]));
            i = i + 1;
        }
        assert(self.spans@.take(self.spans@.len() as int) == self.spans@);
        Line { spans }
    }
}

/// Whether two lines show the same text in the same styles, span for span.
pub fn same_line(a: &Line, b: &Line) -> (r: bool)
    ensures
        r == (line_view(*a) == line_view(*b)),
{
    if a.spans.len() != b.spans.len() {
        proof {
            assert(line_view(*a).len() != line_view(*b).len());
        }
        return false;
    }
    let mut i: usize = 0;
    while i < a.spans.len()
        invariant
            i <= a.spans@.len(),
            a.spans@.len() == b.spans@.len(),
            forall|k: int| 0 <= k < i ==> span_view(#[trigger] a.spans@[k]) == span_view(b.spans@[k]),
        decreases a.spans.len() - i,
    {
        let x = &a.spans[i];
        let y = &b.spans[i];
        if !(x.style == y.style) || !crate::text::same_text(x.content.as_str(), y.content.as_str()) {
            proof {
                assert(line_view(*a)[i as int] != line_view(*b)[i as int]);
            }
            return false;
        }
        i = i + 1;
    }
    assert(line_view(*a) =~= line_view(*b));
    true
}

// ───────────────────────────── the palette ─────────────────────────────

/// The colour roles the frames draw with.
#[derive(Debug, Clone, Copy, PartialEq, Eq, Structural)]
pub struct Theme {
    pub bg: Color,
    pub fg: Color,
    pub fg_bright: Color,
    pub fg_muted: Color,
    pub accent: Color,
    pub border: Color,
    pub highlight: Color,
    pub success: Color,
    pub warning: Color,
    pub selection_bg: Color,
    pub selection_fg: Color,
}

/// The Clack palette: named ANSI colours or the terminal's own, never a
/// fixed hue.
pub open spec fn clack_theme() -> Theme {
    Theme {
        bg: Color::Reset,
        fg: Color::Reset,
        fg_bright: Color::Reset,
        fg_muted: Color::DarkGray,
        accent: Color::Cyan,
        border: Color::DarkGray,
        highlight: Color::Green,
        success: Color::Green,
        warning: Color::Yellow,
        selection_bg: Color::Reset,
        selection_fg: Color::Reset,
    }
}

/// Every role the terminal's own colour.
pub open spec fn monochrome_theme() -> Theme {
    Theme {
        bg: Color::Reset,
        fg: Color::Reset,
        fg_bright: Color::Reset,
        fg_muted: Color::Reset,
        accent: Color::Reset,
        border: Color::Reset,
        highlight: Color::Reset,
        success: Color::Reset,
        warning: Color::Reset,
        selection_bg: Color::Reset,
        selection_fg: Color::Reset,
    }
}

impl Theme {
    /// The Clack palette.
    pub fn clack() -> (r: Self)
        ensures
            r == clack_theme(),
    {
        Theme {
            bg: Color::Reset,
            fg: Color::Reset,
            fg_bright: Color::Reset,
            fg_muted: Color::DarkGray,
            accent: Color::Cyan,
            border: Color::DarkGray,
            highlight: Color::Green,
            success: Color::Green,
            warning: Color::Yellow,
            selection_bg: Color::Reset,
            selection_fg: Color::Reset,
        }
    }

    /// Every role the terminal's own colour.
    pub fn monochrome() -> (r: Self)
        ensures
            r == monochrome_theme(),
    {
        Theme {
            bg: Color::Reset,
            fg: Color::Reset,
            fg_bright: Color::Reset,
            fg_muted: Color::Reset,
            accent: Color::Reset,
            border: Color::Reset,
            highlight: Color::Reset,
            success: Color::Reset,
            warning: Color::Reset,
            selection_bg: Color::Reset,
            selection_fg: Color::Reset,
        }
    }

    /// The palette a terminal of `support` draws: unchanged where there is
    /// colour, every role reset where there is none.
    pub fn resolve(&self, support: ColorSupport) -> (r: Self)
        ensures
            r == if support == ColorSupport::Monochrome {
                monochrome_theme()
            } else {
                *self
            },
    {
        match support {
            ColorSupport::Monochrome => Theme::monochrome(),
            _ => *self,
        }
    }
}

// ───────────────────────────── ANSI ─────────────────────────────

/// The escape that resets every attribute.
pub const RESET: &'static str = "\x1b[0m";

/// A named colour's place in the 16-colour table.
pub open spec fn ansi_index_of(c: Color) -> Option<u8> {
    match c {
        Color::Black => Some(0),
        Color::Red => Some(1),
        Color::Green => Some(2),
        Color::Yellow => Some(3),
        Color::Blue => Some(4),
        Color::Magenta => Some(5),
        Color::Cyan => Some(6),
        Color::Gray => Some(7),
        Color::DarkGray => Some(8),
        Color::LightRed => Some(9),
        Color::LightGreen => Some(10),
        Color::LightYellow => Some(11),
        Color::LightBlue => Some(12),
        Color::LightMagenta => Some(13),
        Color::LightCyan => Some(14),
        Color::White => Some(15),
        _ => None,
    }
}

/// A named colour's place in the 16-colour table, if it is one.
fn ansi_index(c: Color) -> (r: Option<u8>)
    ensures
        r == ansi_index_of(c),
{
    match c {
        Color::Black => Some(0),
        Color::Red => Some(1),
        Color::Green => Some(2),
        Color::Yellow => Some(3),
        Color::Blue => Some(4),
        Color::Magenta => Some(5),
        Color::Cyan => Some(6),
        Color::Gray => Some(7),
        Color::DarkGray => Some(8),
        Color::LightRed => Some(9),
        Color::LightGreen => Some(10),
        Color::LightYellow => Some(11),
        Color::LightBlue => Some(12),
        Color::LightMagenta => Some(13),
        Color::LightCyan => Some(14),
        Color::White => Some(15),
        _ => None,
    }
}

/// The SGR code for a colour: `base` for the terminal's own, the table
/// form for an index or a 24-bit colour, and the named code otherwise
/// (`normal + i` for the eight normal colours, `bright + i - 8` for the
/// eight bright ones).
pub open spec fn colour_code(c: Color, base: Seq<char>, table: Seq<char>, normal: nat, bright: nat) -> Seq<char> {
    match c {
        Color::Reset => base,
        Color::Indexed(n) => table + "5;"@ + decimal(n as nat),
        Color::Rgb(r, g, b) => table + "2;"@ + decimal(r as nat) + seq![';'] + decimal(g as nat) + seq![';'] + decimal(b as nat),
        _ => match ansi_index_of(c) {
            Some(i) => if i < 8 {
                decimal((normal + i) as nat)
            } else {
                decimal((bright + i - 8) as nat)
            },
            None => base,
        },
    }
}

/// The foreground code for a colour.
pub open spec fn fg_code_of(c: Color) -> Seq<char> {
    colour_code(c, "39"@, "38;"@, 30, 90)
}

/// The background code for a colour.
pub open spec fn bg_code_of(c: Color) -> Seq<char> {
    colour_code(c, "49"@, "48;"@, 40, 100)
}

/// The SGR code for a colour.
fn colour_code_text(c: Color, base: &str, table: &str, normal: u8, bright: u8) -> (r: String)
    requires
        normal <= 200,
        bright <= 200,
    ensures
        r@ == colour_code(c, base@, table@, normal as nat, bright as nat),
{
    match c {
        Color::Reset => owned(base),
        Color::Indexed(n) => {
            let mut out = owned(table);
            let five = chars_of("5;");
            push_chars(&mut out, five.as_slice());
            let d = decimal_string(n as u64);
            let dc = chars_of(d.as_str());
            push_chars(&mut out, dc.as_slice());
            out
        },
        Color::Rgb(r, g, b) => {
            let mut out = owned(table);
            let two = chars_of("2;");
            push_chars(&mut out, two.as_slice());
            let dr = decimal_string(r as u64);
            let c1 = chars_of(dr.as_str());
            push_chars(&mut out, c1.as_slice());
            crate::text::push_char(&mut out, ';');
            let dg = decimal_string(g as u64);
            let c2 = chars_of(dg.as_str());
            push_chars(&mut out, c2.as_slice());
            crate::text::push_char(&mut out, ';');
            let db = decimal_string(b as u64);
            let c3 = chars_of(db.as_str());
            push_chars(&mut out, c3.as_slice());
            out
        },
        _ => match ansi_index(c) {
            Some(i) => if i < 8 {
                decimal_string((normal as u64) + (i as u64))
            } else {
                decimal_string((bright as u64) + (i as u64) - 8)
            },
            None => owned(base),
        },
    }
}

/// The attribute codes a modifier asks for, in SGR order.
pub open spec fn modifier_codes_of(m: Modifier) -> Seq<Seq<char>> {
    let c1: Seq<Seq<char>> = if m.bold { seq!["1"@] } else { Seq::empty() };
    let c2: Seq<Seq<char>> = if m.dim { seq!["2"@] } else { Seq::empty() };
    let c3: Seq<Seq<char>> = if m.italic { seq!["3"@] } else { Seq::empty() };
    let c4: Seq<Seq<char>> = if m.underlined { seq!["4"@] } else { Seq::empty() };
    let c7: Seq<Seq<char>> = if m.reversed { seq!["7"@] } else { Seq::empty() };
    let c8: Seq<Seq<char>> = if m.hidden { seq!["8"@] } else { Seq::empty() };
    let c9: Seq<Seq<char>> = if m.crossed_out { seq!["9"@] } else { Seq::empty() };
    c1 + c2 + c3 + c4 + c7 + c8 + c9
}

/// The escape that selects a style: its attributes, then its foreground
/// and its background (the terminal's own where unset), `;`-separated.
pub open spec fn sgr(style: Style) -> Seq<char> {
    let fg = match style.fg {
        Some(c) => c,
        None => Color::Reset,
    };
    let bg = match style.bg {
        Some(c) => c,
        None => Color::Reset,
    };
    let codes = modifier_codes_of(style.add_modifier).push(fg_code_of(fg)).push(bg_code_of(bg));
    "\x1b["@ + joined(codes, seq![';']) + seq!['m']
}

/// Append `code` when `on`.
fn push_if(codes: &mut Vec<String>, on: bool, code: &str)
    ensures
        crate::app::line_views(final(codes)@) == crate::app::line_views(old(codes)@) + (if on {
            seq![code@]
        } else {
            Seq::<Seq<char>>::empty()
        }),
{
    let ghost before = codes@;
    if on {
        codes.push(owned(code));
        assert(crate::app::line_views(codes@) =~= crate::app::line_views(before) + seq![code@]);
    } else {
        assert(crate::app::line_views(codes@) =~= crate::app::line_views(before) + Seq::<Seq<char>>::empty());
    }
}

/// The attribute codes a modifier asks for, in SGR order.
fn modifier_codes(m: Modifier) -> (r: Vec<String>)
    ensures
        crate::app::line_views(r@) == modifier_codes_of(m),
{
    let mut codes: Vec<String> = Vec::new();
    assert(crate::app::line_views(codes@) =~= Seq::<Seq<char>>::empty());
    push_if(&mut codes, m.bold, "1");
    push_if(&mut codes, m.dim, "2");
    push_if(&mut codes, m.italic, "3");
    push_if(&mut codes, m.underlined, "4");
    push_if(&mut codes, m.reversed, "7");
    push_if(&mut codes, m.hidden, "8");
    push_if(&mut codes, m.crossed_out, "9");
    assert(crate::app::line_views(codes@) =~= modifier_codes_of(m));
    codes
}

/// Texts joined with `;` between each two.
fn join_codes(codes: &[String]) -> (r: String)
    ensures
        r@ == joined(crate::app::line_views(codes@), seq![';']),
{
    let ghost want = crate::app::line_views(codes@);
    let mut out = String::new();
    let mut k: usize = 0;
    while k < codes.len()
        invariant
            k <= codes@.len(),
            want == crate::app::line_views(codes@),
            out@ == joined(want.take(k as int), seq![';']),
        decreases codes.len() - k,
    {
        assert(want.take(k + 1).drop_last() == want.take(k as int));
        assert(want.take(k + 1).last() == want[k as int]);
        if k > 0 {
            crate::text::push_char(&mut out, ';');
        }
        let c = chars_of(codes[k].as_str());
        push_chars(&mut out, c.as_slice());
        if k == 0 {
            assert(want.take(1)[0] == want[0]);
            assert(joined(want.take(0), seq![';']) =~= Seq::<char>::empty());
        }
        k = k + 1;
    }
    assert(want.take(codes@.len() as int) == want);
    out
}

/// The escape that selects a style.
pub fn style_to_ansi(style: Style) -> (r: String)
    ensures
        r@ == sgr(style),
{
    let mut codes = modifier_codes(style.add_modifier);
    let fg = match style.fg {
        Some(c) => c,
        None => Color::Reset,
    };
    let bg = match style.bg {
        Some(c) => c,
        None => Color::Reset,
    };
    let ghost before = codes@;
    codes.push(colour_code_text(fg, "39", "38;", 30, 90));
    codes.push(colour_code_text(bg, "49", "48;", 40, 100));
    assert(crate::app::line_views(codes@) =~= modifier_codes_of(style.add_modifier).push(fg_code_of(fg)).push(bg_code_of(bg)));
    let body = join_codes(codes.as_slice());
    let mut out = owned("\x1b[");
    let bc = chars_of(body.as_str());
    push_chars(&mut out, bc.as_slice());
    crate::text::push_char(&mut out, 'm');
    out
}

/// Styled spans as escapes: a reset and the style's escape in front of
/// every span whose style differs from the one before it (or from `start`
/// for the first), then the text.
pub open spec fn ansi_runs(spans: Seq<(Seq<char>, Style)>, start: Option<Style>) -> Seq<char>
    decreases spans.len(),
{
    if spans.len() == 0 {
        Seq::empty()
    } else {
        let before = if spans.len() > 1 {
            Some(spans[spans.len() - 2].1)
        } else {
            start
        };
        let s = spans.last();
        ansi_runs(spans.drop_last(), start) + (if before != Some(s.1) {
            RESET@ + sgr(s.1)
        } else {
            Seq::empty()
        }) + s.0
    }
}

/// Writes styled text as escapes, one style escape per run, into a text it
/// owns.
pub struct RunWriter {
    out: String,
    current: Option<Style>,
}

impl RunWriter {
    /// What has been written so far.
    pub closed spec fn written(&self) -> Seq<char> {
        self.out@
    }

    /// The style the last run was written in, if the line has one.
    pub closed spec fn style_now(&self) -> Option<Style> {
        self.current
    }

    /// A writer with nothing written.
    pub fn new() -> (r: Self)
        ensures
            r.written().len() == 0,
            r.style_now() is None,
    {
        RunWriter { out: String::new(), current: None }
    }

    /// Write `text` in `style`, with a reset and the style's escape first
    /// when the style differs from the current run's.
    pub fn push(&mut self, style: Style, text: &str)
        ensures
            final(self).written() == old(self).written() + (if old(self).style_now() != Some(style) {
                RESET@ + sgr(style)
            } else {
                Seq::empty()
            }) + text@,
            final(self).style_now() == Some(style),
    {
        let same = match self.current {
            Some(c) => c == style,
            None => false,
        };
        if !same {
            let r = chars_of(RESET);
            push_chars(&mut self.out, r.as_slice());
            let e = style_to_ansi(style);
            let ec = chars_of(e.as_str());
            push_chars(&mut self.out, ec.as_slice());
            self.current = Some(style);
        }
        let t = chars_of(text);
        push_chars(&mut self.out, t.as_slice());
    }

    /// End the line: a reset and a newline, and no run is current.
    pub fn end_line(&mut self)
        ensures
            final(self).written() == old(self).written() + RESET@ + seq!['\n'],
            final(self).style_now() is None,
    {
        let r = chars_of(RESET);
        push_chars(&mut self.out, r.as_slice());
        crate::text::push_char(&mut self.out, '\n');
        self.current = None;
    }

    /// Write every span of a line.
    pub fn push_line(&mut self, line: &Line)
        ensures
            final(self).written() == old(self).written() + ansi_runs(line_view(*line), old(self).style_now()),
            line.spans@.len() > 0 ==> final(self).style_now() == Some(line.spans@.last().style),
            line.spans@.len() == 0 ==> final(self).style_now() == old(self).style_now(),
    {
        let ghost start = self.written();
        let ghost s0 = self.style_now();
        let ghost lv = line_view(*line);
        let mut i: usize = 0;
        while i < line.spans.len()
            invariant
                i <= line.spans@.len(),
                lv == line_view(*line),
                self.written() == start + ansi_runs(lv.take(i as int), s0),
                i > 0 ==> self.style_now() == Some(line.spans@[i - 1].style),
                i == 0 ==> self.style_now() == s0,
            decreases line.spans.len() - i,
        {
            let sp = &line.spans[i];
            assert(lv.take(i + 1).drop_last() == lv.take(i as int));
            assert(lv.take(i + 1).last() == span_view(line.spans@[i as int]));
            proof {
                if i > 0 {
                    assert(lv.take(i + 1)[i - 1] == span_view(line.spans@[i - 1]));
                }
            }
            self.push(sp.style, sp.content.as_str());
            i = i + 1;
        }
        assert(lv.take(line.spans@.len() as int) == lv);
    }

    /// Everything written.
    pub fn into_string(self) -> (r: String)
        ensures
            r@ == self.written(),
    {
        self.out
    }
}

/// A line as escapes, closed with a reset.
pub fn line_to_ansi(line: &Line) -> (r: String)
    ensures
        r@ == ansi_runs(line_view(*line), None) + RESET@,
{
    let mut w = RunWriter::new();
    w.push_line(line);
    let mut out = w.into_string();
    let r = chars_of(RESET);
    push_chars(&mut out, r.as_slice());
    out
}

/// Lines as escapes, each closed with a reset and a newline.
pub open spec fn lines_ansi(ls: Seq<Seq<(Seq<char>, Style)>>) -> Seq<char>
    decreases ls.len(),
{
    if ls.len() == 0 {
        Seq::empty()
    } else {
        lines_ansi(ls.drop_last()) + ansi_runs(ls.last(), None) + RESET@ + seq!['\n']
    }
}

/// Lines as escapes, each closed with a reset and a newline.
pub fn lines_to_ansi(lines: &[Line]) -> (r: String)
    ensures
        r@ == lines_ansi(lines_view(lines@)),
{
    let mut w = RunWriter::new();
    let ghost lv = lines_view(lines@);
    let mut i: usize = 0;
    while i < lines.len()
        invariant
            i <= lines@.len(),
            lv == lines_view(lines@),
            w.written() == lines_ansi(lv.take(i as int)),
            w.style_now() is None,
        decreases lines.len() - i,
    {
        assert(lv.take(i + 1).drop_last() == lv.take(i as int));
        assert(lv.take(i + 1).last() == line_view(lines@[i as int]));
        w.push_line(&lines[i]);
        w.end_line();
        i = i + 1;
    }
    assert(lv.take(lines@.len() as int) == lv);
    w.into_string()
}

} // verus!
