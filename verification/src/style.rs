//! Clack-style glyphs, the list window, and the plain settle trace.

use vstd::prelude::*;
use crate::text::{chars_of, owned, push_chars, push_char};
use crate::paint::{line_view, no_modifier, plain_style, Color, Line, Modifier, Span, Style};
use crate::draw::{spans_view, SpanView};

verus! {

/// Active prompt step icon.
pub const STEP_ACTIVE: &'static str = "◆";
/// Submitted (settled) prompt step icon.
pub const STEP_SUBMIT: &'static str = "◇";
/// Cancelled prompt step icon.
pub const STEP_CANCEL: &'static str = "■";
/// Cursor column marker.
pub const CURSOR: &'static str = "❯";
/// Selected / current radio dot.
pub const RADIO_ON: &'static str = "●";
/// Unselected radio dot.
pub const RADIO_OFF: &'static str = "○";
/// Left rail drawn on every content row.
pub const BAR: &'static str = "│";
/// Closing corner drawn on the last row of a frame.
pub const CORNER: &'static str = "└";

/// The window `(start, end)` a list of `len` rows shows around `selected`
/// when at most `max_visible` rows fit (at least one): everything when it
/// all fits, and otherwise `max_visible / 2` rows above the selection where
/// the list allows, snapped back to include the last row near the end.
pub open spec fn list_window(len: nat, selected: nat, max_visible: nat) -> (nat, nat) {
    let m = if max_visible == 0 {
        1
    } else {
        max_visible
    };
    if len == 0 {
        (0, 0)
    } else if len <= m {
        (0, len)
    } else {
        let s = if selected >= m / 2 {
            (selected - m / 2) as nat
        } else {
            0
        };
        let start = if s + m > len {
            (len - m) as nat
        } else {
            s
        };
        (start, start + m)
    }
}

/// A sliding window over `len` rows keeping `selected` in view.
pub fn visible_window(len: usize, selected: usize, max_visible: usize) -> (r: (usize, usize))
    ensures
        (r.0 as nat, r.1 as nat) == list_window(len as nat, selected as nat, max_visible as nat),
{
    if len == 0 {
        return (0, 0);
    }
    let max_visible = if max_visible == 0 {
        1
    } else {
        max_visible
    };
    if len <= max_visible {
        return (0, len);
    }
    let mut start = if selected >= max_visible / 2 {
        selected - max_visible / 2
    } else {
        0
    };
    if start > len - max_visible {
        start = len - max_visible;
    }
    (start, start + max_visible)
}

/// The window never shows more than `max_visible` rows (at least one), stays
/// inside the list, and keeps a selection that exists in view.
pub proof fn lemma_list_window(len: nat, selected: nat, max_visible: nat)
    ensures
        ({
            let (s, e) = list_window(len, selected, max_visible);
            &&& s <= e <= len
            &&& e - s <= if max_visible == 0 {
                1
            } else {
                max_visible
            }
            &&& selected < len ==> s <= selected < e
        }),
{
}

/// The two lines a settled prompt leaves: the step icon and the message, then
/// the rail and the summary — or `Cancelled` under the cancel icon.
pub open spec fn settle_lines(message: Seq<char>, summary: Seq<char>, cancelled: bool) -> Seq<Seq<char>> {
    let icon = if cancelled {
        STEP_CANCEL@
    } else {
        STEP_SUBMIT@
    };
    let body = if cancelled {
        "Cancelled"@
    } else {
        summary
    };
    seq![icon + "  "@ + message, BAR@ + "  "@ + body]
}

/// Plain-text lines for a settled (submit/cancel) trace.
pub fn settle_plain(message: &str, summary: &str, cancelled: bool) -> (r: Vec<String>)
    ensures
        r@.len() == 2,
        r@[0]@ == settle_lines(message@, summary@, cancelled)[0],
        r@[1]@ == settle_lines(message@, summary@, cancelled)[1],
{
    let icon = if cancelled {
        STEP_CANCEL
    } else {
        STEP_SUBMIT
    };
    let body = if cancelled {
        "Cancelled"
    } else {
        summary
    };
    let mut first = owned(icon);
    first.append("  ");
    first.append(message);
    let mut second = owned(BAR);
    second.append("  ");
    second.append(body);
    let mut r = Vec::new();
    r.push(first);
    r.push(second);
    r
}


// ───────────────────────────── palette ─────────────────────────────

/// Drawn in `c`, nothing else set.
pub open spec fn colour_style(c: Color) -> Style {
    Style { fg: Some(c), ..plain_style() }
}

/// Faint, nothing else set.
pub open spec fn dim_style() -> Style {
    Style { add_modifier: Modifier { dim: true, ..no_modifier() }, ..plain_style() }
}

/// Bold, nothing else set.
pub open spec fn bold_style() -> Style {
    Style { add_modifier: Modifier { bold: true, ..no_modifier() }, ..plain_style() }
}

/// Underlined, nothing else set.
pub open spec fn underline_style() -> Style {
    Style { add_modifier: Modifier { underlined: true, ..no_modifier() }, ..plain_style() }
}

/// Accent green: step icons, selected dots, highlights.
pub fn green() -> (r: Style)
    ensures
        r == colour_style(Color::Green),
{
    Style::fg(Color::Green)
}

/// Cursor cyan.
pub fn cyan() -> (r: Style)
    ensures
        r == colour_style(Color::Cyan),
{
    Style::fg(Color::Cyan)
}

/// Faint secondary text.
pub fn dim() -> (r: Style)
    ensures
        r == dim_style(),
{
    Style { fg: None, bg: None, add_modifier: Modifier { dim: true, ..Modifier::empty() } }
}

/// Bold message text.
pub fn bold() -> (r: Style)
    ensures
        r == bold_style(),
{
    Style::bold()
}

/// Label emphasis for the row under the cursor.
pub fn underline() -> (r: Style)
    ensures
        r == underline_style(),
{
    Style { fg: None, bg: None, add_modifier: Modifier { underlined: true, ..Modifier::empty() } }
}

/// Fuzzy-match character highlight: bold green.
pub fn highlight() -> (r: Style)
    ensures
        r == (Style { fg: Some(Color::Green), add_modifier: Modifier { bold: true, ..no_modifier() }, ..plain_style() }),
{
    Style::fg_bold(Color::Green)
}

// ───────────────────────────── line builders ─────────────────────────────

/// A line from a list of span views.
fn line_from(spans: Vec<Span>) -> (r: Line)
    ensures
        line_view(r) == spans_view(spans@),
{
    Line { spans }
}

/// Header row: `<icon>  <bold message>`.
pub fn header_line(icon: &str, icon_style: Style, message: &str) -> (r: Line)
    ensures
        line_view(r) == seq![(icon@, icon_style), ("  "@, plain_style()), (message@, bold_style())],
{
    let mut spans: Vec<Span> = Vec::new();
    spans.push(Span::text(icon, icon_style));
    spans.push(Span::text("  ", Style::plain()));
    spans.push(Span::text(message, bold()));
    let r = line_from(spans);
    assert(line_view(r) =~= seq![(icon@, icon_style), ("  "@, plain_style()), (message@, bold_style())]);
    r
}

/// A rail row: dim `│`, two spaces, then the given spans.
pub fn rail(spans: Vec<Span>) -> (r: Line)
    ensures
        line_view(r) == seq![(BAR@, dim_style()), ("  "@, plain_style())] + spans_view(spans@),
{
    let mut out: Vec<Span> = Vec::new();
    out.push(Span::text(BAR, dim()));
    out.push(Span::text("  ", Style::plain()));
    let ghost head = spans_view(out@);
    let mut k: usize = 0;
    while k < spans.len()
        invariant
            k <= spans@.len(),
            spans_view(out@) == head + spans_view(spans@).take(k as int),
        decreases spans.len() - k,
    {
        let ghost prev = out@;
        out.push(spans[k].copy());
        assert(spans_view(out@) =~= spans_view(prev).push(spans_view(spans@)[k as int]));
        assert(spans_view(spans@).take(k + 1) =~= spans_view(spans@).take(k as int).push(spans_view(spans@)[k as int]));
        k = k + 1;
    }
    assert(spans_view(spans@).take(spans@.len() as int) =~= spans_view(spans@));
    let r = line_from(out);
    assert(line_view(r) =~= seq![(BAR@, dim_style()), ("  "@, plain_style())] + spans_view(spans@));
    r
}

/// A rail row carrying one styled text span.
pub fn rail_text(text: &str, style: Style) -> (r: Line)
    ensures
        line_view(r) == seq![(BAR@, dim_style()), ("  "@, plain_style()), (text@, style)],
{
    let mut spans: Vec<Span> = Vec::new();
    spans.push(Span::text(BAR, dim()));
    spans.push(Span::text("  ", Style::plain()));
    spans.push(Span::text(text, style));
    let r = line_from(spans);
    assert(line_view(r) =~= seq![(BAR@, dim_style()), ("  "@, plain_style()), (text@, style)]);
    r
}

/// An empty rail row: just the dim `│`.
pub fn rail_blank() -> (r: Line)
    ensures
        line_view(r) == seq![(BAR@, dim_style())],
{
    let mut spans: Vec<Span> = Vec::new();
    spans.push(Span::text(BAR, dim()));
    let r = line_from(spans);
    assert(line_view(r) =~= seq![(BAR@, dim_style())]);
    r
}

/// The closing `└` corner row.
pub fn corner_line() -> (r: Line)
    ensures
        line_view(r) == seq![(CORNER@, dim_style())],
{
    let mut spans: Vec<Span> = Vec::new();
    spans.push(Span::text(CORNER, dim()));
    let r = line_from(spans);
    assert(line_view(r) =~= seq![(CORNER@, dim_style())]);
    r
}

/// The spans of a selectable row inside a rail: the cursor column (`❯ `
/// cyan on the current row, two spaces otherwise), the radio dot (`● `
/// green on the current row, dim `○ ` otherwise), the label, and a dim
/// ` (hint)` when there is one.
pub open spec fn row_spans_of(is_current: bool, label: Seq<SpanView>, hint: Option<Seq<char>>) -> Seq<SpanView> {
    let head = if is_current {
        seq![("❯ "@, colour_style(Color::Cyan)), ("● "@, colour_style(Color::Green))]
    } else {
        seq![("  "@, plain_style()), ("○ "@, dim_style())]
    };
    head + label + match hint {
        Some(h) => seq![(" ("@ + h + ")"@, dim_style())],
        None => Seq::empty(),
    }
}

/// A selectable row inside a rail, from label spans the caller styled.
pub fn rail_row_spans_styled(is_current: bool, label: Vec<Span>, hint: Option<&str>) -> (r: Vec<Span>)
    ensures
        spans_view(r@) == row_spans_of(is_current, spans_view(label@), match hint {
            Some(h) => Some(h@),
            None => None,
        }),
{
    let mut spans: Vec<Span> = Vec::new();
    if is_current {
        spans.push(Span::text("❯ ", cyan()));
        spans.push(Span::text("● ", green()));
    } else {
        spans.push(Span::text("  ", Style::plain()));
        spans.push(Span::text("○ ", dim()));
    }
    let ghost head = spans_view(spans@);
    assert(head =~= if is_current {
        seq![("❯ "@, colour_style(Color::Cyan)), ("● "@, colour_style(Color::Green))]
    } else {
        seq![("  "@, plain_style()), ("○ "@, dim_style())]
    });
    let mut k: usize = 0;
    while k < label.len()
        invariant
            k <= label@.len(),
            spans_view(spans@) == head + spans_view(label@).take(k as int),
        decreases label.len() - k,
    {
        let ghost prev = spans@;
        spans.push(label[k].copy());
        assert(spans_view(spans@) =~= spans_view(prev).push(spans_view(label@)[k as int]));
        assert(spans_view(label@).take(k + 1) =~= spans_view(label@).take(k as int).push(spans_view(label@)[k as int]));
        k = k + 1;
    }
    assert(spans_view(label@).take(label@.len() as int) =~= spans_view(label@));
    let ghost body = spans_view(spans@);
    match hint {
        Some(h) => {
            let mut text = owned(" (");
            let hc = chars_of(h);
            push_chars(&mut text, hc.as_slice());
            push_char(&mut text, ')');
            proof {
                reveal_strlit(")");
            }
            assert(text@ =~= " ("@ + h@ + ")"@);
            let ghost tv = text@;
            spans.push(Span::styled(text, dim()));
            assert(spans_view(spans@) =~= body.push((tv, dim_style())));
        },
        None => {},
    }
    assert(spans_view(spans@) =~= row_spans_of(is_current, spans_view(label@), match hint {
        Some(h) => Some(h@),
        None => None,
    }));
    spans
}

/// A selectable row with a plain label, underlined on the current row.
pub fn rail_row_spans(is_current: bool, label: &str, hint: Option<&str>) -> (r: Vec<Span>)
    ensures
        spans_view(r@) == row_spans_of(is_current, seq![(label@, if is_current {
            underline_style()
        } else {
            plain_style()
        })], match hint {
            Some(h) => Some(h@),
            None => None,
        }),
{
    let style = if is_current {
        underline()
    } else {
        Style::plain()
    };
    let mut label_spans: Vec<Span> = Vec::new();
    label_spans.push(Span::text(label, style));
    assert(spans_view(label_spans@) =~= seq![(label@, style)]);
    rail_row_spans_styled(is_current, label_spans, hint)
}

} // verus!
