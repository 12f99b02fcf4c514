//! The inline frame as styled lines.
//!
//! [`build_frame_with_note`] turns `(connections, query, selection, mode,
//! canvas, flow, note)` into a [`Frame`]: the `◆` header, the flow's lines,
//! the list rows hanging off a `│` rail with a `❯` cursor and the query's
//! hits lit, the padding that keeps the frame one height, the hint rail and
//! the `└` corner. Every colour comes from a theme role, the frame never
//! paints a background, and every state reads the same with colour off:
//! glyphs and attributes carry the meaning.

use vstd::prelude::*;
use crate::config::Connection;
use crate::connections::opt_text;
use crate::form::{cursor_index, field_order, field_text, AddField, FormCursor};
use crate::frame::{
    alias_start, compute_matches, display_import_path, empty_message, fitted_hints, match_views,
    meta_start, row_fits, row_text, shown_path, texts, Canvas, FrameMode,
    FrameState, MatchResult, the_matches, fitted_rows, window_start,
};
use crate::theme::ColorSupport;
use crate::manage::{AddSequence, EditSequence, ManageState, Phase, Trace};
use crate::paint::{
    clack_theme, line_view, lines_view, monochrome_theme, no_modifier, plain_style, Color, Line,
    Modifier, Span, Style, Theme, lines_ansi, lines_to_ansi, line_text,
};
use crate::text::{chars_of, decimal, decimal_string, owned, push_char, push_chars};

verus! {

/// The rail every body line hangs off.
pub const RAIL: &'static str = "│";

/// The blank that pads a rail line out to where row content starts.
pub const GUTTER_PAD: &'static str = "   ";

/// Columns from the start of a rail line to where its content begins.
pub const GUTTER: usize = 4;

/// What separates two hints in the hint rail.
pub const HINT_SEP: &'static str = " · ";

/// The corner that closes the rail.
pub const CORNER: &'static str = "└";

/// The caret a text field draws for itself.
pub const CARET: &'static str = "_";

/// How a settled optional field reads when it was left empty.
pub const ABSENT: &'static str = "—";

/// The note an abandoned add leaves.
pub const ADD_ABANDONED_NOTE: &'static str = "add abandoned — nothing saved";

/// The note an abandoned edit leaves.
pub const EDIT_ABANDONED_NOTE: &'static str = "edit abandoned — nothing saved";

/// The note an edit of a Connection the store does not have leaves.
pub const EDIT_FAILED_NOTE: &'static str = "edit failed — no such Connection:";

/// The note a delete of a Connection the store does not have leaves.
pub const DELETE_FAILED_NOTE: &'static str = "delete failed — no such Connection:";

/// The note a declined import offer leaves.
pub const IMPORT_DECLINED_NOTE: &'static str = "import declined";

// ───────────────────────────── the flow, as the frame sees it ─────────────────────────────

/// One field of the add form that the cursor has passed.
#[derive(Debug, Clone, PartialEq, Eq)]
pub struct SettledField {
    /// The field's word, drawn after the `◇`.
    pub label: &'static str,
    /// What it holds, or `None` for a field left empty.
    pub value: Option<String>,
}

/// The add form as far as the frame draws it: the field under the cursor
/// and what is typed in it, the last refusal, the fields above the cursor,
/// and whether Enter here adds the Connection.
#[derive(Debug, Clone, PartialEq, Eq)]
pub struct AddFlow {
    /// The field being answered now.
    pub label: &'static str,
    /// What it holds.
    pub input: String,
    /// The refusal shown under the header, if the last submit was refused.
    pub error: Option<String>,
    /// The fields above the cursor, top to bottom.
    pub settled: Vec<SettledField>,
    /// Whether Enter here asks for the add.
    pub last: bool,
}

/// The edit form as far as the frame draws it: which Connection, which of
/// its fields is on the line, what is on it, and the last refusal.
#[derive(Debug, Clone, PartialEq, Eq)]
pub struct EditFlow {
    /// The Connection being edited.
    pub target: Connection,
    /// The field on the line now.
    pub label: &'static str,
    /// What is on the line.
    pub input: String,
    /// The refusal shown under the header, if the last submit was refused.
    pub error: Option<String>,
}

/// The first-run import offer as far as the frame draws it.
#[derive(Debug, Clone, PartialEq, Eq)]
pub struct ImportOfferFlow {
    /// What the scan found at `path`.
    pub count: usize,
    /// The file the offer is about.
    pub path: String,
}

/// Where the manage interaction has got to, as far as the frame cares.
#[derive(Debug, Clone, PartialEq, Eq)]
pub struct FrameFlow {
    /// The Connection the delete confirm is asking about.
    pub confirming: Option<Connection>,
    /// What the last management action did.
    pub trace: Option<Trace>,
    /// The add form, while one is open.
    pub add: Option<AddFlow>,
    /// The edit form, while one is open.
    pub edit: Option<EditFlow>,
    /// The import offer, while one is open.
    pub import_offer: Option<ImportOfferFlow>,
}

impl Default for FrameFlow {
    fn default() -> (r: Self)
        ensures
            r.confirming is None,
            r.trace is None,
            r.add is None,
            r.edit is None,
            r.import_offer is None,
    {
        FrameFlow { confirming: None, trace: None, add: None, edit: None, import_offer: None }
    }
}

/// The word the submit row goes by in the add form.
pub open spec fn add_submit_label() -> Seq<char> {
    "Add connection"@
}

/// The word the submit row goes by in the edit form.
pub open spec fn edit_submit_label() -> Seq<char> {
    "Save changes"@
}

/// The word a cursor row goes by.
pub open spec fn cursor_label(c: FormCursor, submit: Seq<char>) -> Seq<char> {
    match c {
        FormCursor::Field(f) => crate::form::label_text(f),
        FormCursor::Submit => submit,
    }
}

/// What the line under a cursor holds.
pub open spec fn cursor_input(c: FormCursor, d: crate::connections::ConnectionDraft) -> Seq<char> {
    match c {
        FormCursor::Field(f) => field_text(f, d),
        FormCursor::Submit => Seq::empty(),
    }
}

/// A field as settled: its word and its trimmed text, absent when empty.
pub open spec fn settled_view(f: AddField, d: crate::connections::ConnectionDraft) -> (Seq<char>, Option<Seq<char>>) {
    let v = crate::text::trim(field_text(f, d));
    (crate::form::label_text(f), if v.len() == 0 { None } else { Some(v) })
}

/// The views of the settled fields.
pub open spec fn settled_views(v: Seq<SettledField>) -> Seq<(Seq<char>, Option<Seq<char>>)> {
    v.map_values(|s: SettledField| (s.label@, match s.value {
        Some(t) => Some(t@),
        None => None,
    }))
}

/// The add form's projection.
pub open spec fn is_add_flow(a: AddFlow, q: AddSequence) -> bool {
    &&& a.label@ == cursor_label(q.cursor, add_submit_label())
    &&& a.input@ == cursor_input(q.cursor, q.draft)
    &&& a.error == q.error
    &&& a.last == (q.cursor is Submit)
    &&& settled_views(a.settled@) == Seq::new(cursor_index(q.cursor), |i: int| settled_view(field_order()[i], q.draft))
}

/// The edit form's projection.
pub open spec fn is_edit_flow(e: EditFlow, s: EditSequence) -> bool {
    &&& e.target == s.target
    &&& e.label@ == cursor_label(s.cursor, edit_submit_label())
    &&& e.input@ == cursor_input(s.cursor, s.draft)
    &&& e.error == s.error
}

/// The frame's view of a manage state: which question is open, and the
/// last action's note.
pub open spec fn is_flow_of(f: FrameFlow, s: ManageState) -> bool {
    &&& f.trace == s.trace
    &&& f.confirming == match s.phase {
        Phase::ConfirmDelete { target } => Some(target),
        _ => None,
    }
    &&& match s.phase {
        Phase::Add(q) => f.add is Some && is_add_flow(f.add->0, q),
        _ => f.add is None,
    }
    &&& match s.phase {
        Phase::Edit(e) => f.edit is Some && is_edit_flow(f.edit->0, e),
        _ => f.edit is None,
    }
    &&& match s.phase {
        Phase::ConfirmImport { count, path } => f.import_offer == Some(ImportOfferFlow { count, path }),
        _ => f.import_offer is None,
    }
}

/// The word and the text of the row under a form cursor.
fn cursor_line(c: FormCursor, d: &crate::connections::ConnectionDraft, submit: &'static str) -> (r: (&'static str, String))
    ensures
        r.0@ == cursor_label(c, submit@),
        r.1@ == cursor_input(c, *d),
{
    match c {
        FormCursor::Field(f) => (f.label(), f.field_of(d).clone()),
        FormCursor::Submit => (submit, String::new()),
    }
}

/// The fields above a cursor, settled.
fn settled_fields(c: FormCursor, d: &crate::connections::ConnectionDraft) -> (r: Vec<SettledField>)
    ensures
        settled_views(r@) == Seq::new(cursor_index(c), |i: int| settled_view(field_order()[i], *d)),
{
    let n = c.index();
    let ghost want = Seq::new(cursor_index(c), |i: int| settled_view(field_order()[i], *d));
    let mut out: Vec<SettledField> = Vec::new();
    let mut i: usize = 0;
    while i < n
        invariant
            i <= n,
            n == cursor_index(c),
            n <= 6,
            want == Seq::new(cursor_index(c), |i: int| settled_view(field_order()[i], *d)),
            settled_views(out@) == want.take(i as int),
        decreases n - i,
    {
        let f = AddField::at(i);
        let t = chars_of(f.field_of(d).as_str());
        let v = crate::text::trim_chars(t.as_slice());
        let value = if v.len() == 0 {
            None
        } else {
            Some(crate::text::string_of(v.as_slice()))
        };
        let ghost before = out@;
        out.push(SettledField { label: f.label(), value });
        assert(settled_views(out@) =~= settled_views(before).push(want[i as int]));
        assert(want.take(i + 1) =~= want.take(i as int).push(want[i as int]));
        i = i + 1;
    }
    assert(want.take(n as int) =~= want);
    out
}

impl FrameFlow {
    /// The frame's view of a manage state.
    pub fn of(state: &ManageState) -> (r: Self)
        ensures
            is_flow_of(r, *state),
    {
        let confirming = match &state.phase {
            Phase::ConfirmDelete { target } => Some(target.copy()),
            _ => None,
        };
        let add = match &state.phase {
            Phase::Add(q) => {
                let (label, input) = cursor_line(q.cursor, &q.draft, "Add connection");
                Some(AddFlow {
                    label,
                    input,
                    error: match &q.error {
                        Some(e) => Some(e.clone()),
                        None => None,
                    },
                    settled: settled_fields(q.cursor, &q.draft),
                    last: q.cursor.is_submit(),
                })
            },
            _ => None,
        };
        let edit = match &state.phase {
            Phase::Edit(e) => {
                let (label, input) = cursor_line(e.cursor, &e.draft, "Save changes");
                Some(EditFlow {
                    target: e.target.copy(),
                    label,
                    input,
                    error: match &e.error {
                        Some(m) => Some(m.clone()),
                        None => None,
                    },
                })
            },
            _ => None,
        };
        let import_offer = match &state.phase {
            Phase::ConfirmImport { count, path } => Some(ImportOfferFlow { count: *count, path: path.clone() }),
            _ => None,
        };
        let trace = match &state.trace {
            Some(t) => Some(t.copy()),
            None => None,
        };
        FrameFlow { confirming, trace, add, edit, import_offer }
    }
}

// ───────────────────────────── styles and spans ─────────────────────────────

/// A span's view.
pub type SpanView = (Seq<char>, Style);

/// Drawn in a role's colour, nothing else.
pub open spec fn role(c: Color) -> Style {
    Style { fg: Some(c), ..plain_style() }
}

/// Muted and dim: what recedes.
pub open spec fn dim_of(t: Theme) -> Style {
    Style { fg: Some(t.fg_muted), add_modifier: Modifier { dim: true, ..no_modifier() }, ..plain_style() }
}

/// Bold: the facts worth scanning for.
pub open spec fn bold_of() -> Style {
    Style { add_modifier: Modifier { bold: true, ..no_modifier() }, ..plain_style() }
}

/// The rail span.
pub open spec fn rail_span(t: Theme) -> SpanView {
    (RAIL@, role(t.border))
}

/// `[folder] ` in `style` when the Connection has a folder, nothing otherwise.
pub open spec fn folder_spans(c: Connection, style: Style) -> Seq<SpanView> {
    let f = opt_text(c.folder);
    if f.len() == 0 {
        Seq::empty()
    } else {
        seq![(seq!['['] + f + "] "@, style)]
    }
}

/// `text` padded with spaces to `n` characters.
pub open spec fn padded(text: Seq<char>, n: nat) -> Seq<char> {
    if text.len() < n {
        text + Seq::new((n - text.len()) as nat, |i: int| ' ')
    } else {
        text
    }
}

/// The noun for a number of Connections.
pub open spec fn noun(n: nat) -> Seq<char> {
    if n == 1 {
        "connection"@
    } else {
        "connections"@
    }
}

/// A line from its spans.
fn line_of(spans: Vec<Span>) -> (r: Line)
    ensures
        r.spans == spans,
{
    Line { spans }
}

/// Append a span.
fn add_span(spans: &mut Vec<Span>, text: &str, style: Style)
    ensures
        final(spans)@.map_values(|s: Span| crate::paint::span_view(s)) == old(spans)@.map_values(|s: Span| crate::paint::span_view(s)).push((text@, style)),
{
    let ghost before = spans@;
    spans.push(Span::text(text, style));
    assert(spans@.map_values(|s: Span| crate::paint::span_view(s)) =~= before.map_values(|s: Span| crate::paint::span_view(s)).push((text@, style)));
}

/// Append a span that owns its text.
fn add_owned(spans: &mut Vec<Span>, text: String, style: Style)
    ensures
        final(spans)@.map_values(|s: Span| crate::paint::span_view(s)) == old(spans)@.map_values(|s: Span| crate::paint::span_view(s)).push((text@, style)),
{
    let ghost before = spans@;
    let ghost tv = text@;
    spans.push(Span::styled(text, style));
    assert(spans@.map_values(|s: Span| crate::paint::span_view(s)) =~= before.map_values(|s: Span| crate::paint::span_view(s)).push((tv, style)));
}

/// The views of a span list.
pub open spec fn spans_view(v: Seq<Span>) -> Seq<SpanView> {
    v.map_values(|s: Span| crate::paint::span_view(s))
}

/// Muted and dim.
fn dim_style(t: &Theme) -> (r: Style)
    ensures
        r == dim_of(*t),
{
    Style::fg_dim(t.fg_muted)
}

/// Append `[folder] ` when the Connection has a folder.
fn add_folder(spans: &mut Vec<Span>, c: &Connection, style: Style)
    ensures
        spans_view(final(spans)@) == spans_view(old(spans)@) + folder_spans(*c, style),
{
    let ghost before = spans_view(spans@);
    match &c.folder {
        Some(f) => {
            let fc = chars_of(f.as_str());
            if fc.len() > 0 {
                let mut text = String::new();
                push_char(&mut text, '[');
                push_chars(&mut text, fc.as_slice());
                let tail = chars_of("] ");
                push_chars(&mut text, tail.as_slice());
                add_owned(spans, text, style);
                assert(spans_view(spans@) =~= before + folder_spans(*c, style));
            } else {
                assert(spans_view(spans@) =~= before + folder_spans(*c, style));
            }
        },
        None => {
            assert(spans_view(spans@) =~= before + folder_spans(*c, style));
        },
    }
}

/// `text` padded with spaces to `n` characters.
fn pad_to(text: &str, n: usize) -> (r: String)
    ensures
        r@ == padded(text@, n as nat),
{
    let c = chars_of(text);
    let mut out = owned(text);
    if c.len() < n {
        let mut k = c.len();
        while k < n
            invariant
                c@ == text@,
                c@.len() <= k <= n,
                out@ == text@ + Seq::new((k - c@.len()) as nat, |i: int| ' '),
            decreases n - k,
        {
            push_char(&mut out, ' ');
            assert(Seq::new((k + 1 - c@.len()) as nat, |i: int| ' ') =~= Seq::new((k - c@.len()) as nat, |i: int| ' ').push(' '));
            k = k + 1;
        }
    } else {
        assert(out@ == padded(text@, n as nat));
    }
    out
}

// ───────────────────────────── the lines ─────────────────────────────

/// The corner that closes the rail.
pub open spec fn corner_spans(t: Theme) -> Seq<SpanView> {
    seq![(CORNER@, role(t.border))]
}

/// A rail and nothing else.
pub open spec fn pad_spans(t: Theme) -> Seq<SpanView> {
    seq![rail_span(t)]
}

/// A state line: the rail plus muted copy, lined up with row content.
pub open spec fn state_spans(text: Seq<char>, t: Theme) -> Seq<SpanView> {
    seq![rail_span(t), (GUTTER_PAD@ + text, role(t.fg_muted))]
}

/// The update note above the frame: `◆ update available: v… — run sshm update`.
pub open spec fn update_note_spans(version: Seq<char>, t: Theme) -> Seq<SpanView> {
    seq![("◆"@, role(t.accent)), (" update available: v"@ + version + " — run sshm update"@, dim_of(t))]
}

/// The `■` line a confirm leaves once answered.
pub open spec fn settled_confirm_spans(c: Connection, answered: bool, t: Theme) -> Seq<SpanView> {
    seq![rail_span(t), (GUTTER_PAD@, dim_of(t)), ("■ "@, dim_of(t)), ("Delete "@, dim_of(t))] + folder_spans(c, dim_of(t))
        + seq![(c.alias@, bold_of()), ("? "@, dim_of(t)), (if answered { "Yes"@ } else { "No"@ }, bold_of())]
}

/// The `◇` note naming a Connection: `◇ <verb> [folder] alias`.
pub open spec fn note_spans(verb: Seq<char>, c: Connection, t: Theme) -> Seq<SpanView> {
    seq![rail_span(t), (GUTTER_PAD@, dim_of(t)), ("◇ "@ + verb + " "@, dim_of(t))] + folder_spans(c, dim_of(t))
        + seq![(c.alias@, bold_of())]
}

/// A `◇` note with no Connection to name.
pub open spec fn plain_note_spans(text: Seq<char>, t: Theme) -> Seq<SpanView> {
    seq![rail_span(t), (GUTTER_PAD@, dim_of(t)), ("◇ "@ + text, dim_of(t))]
}

/// A settled field: `◇ Alias   web-01`, or `—` for one left empty.
pub open spec fn settled_field_spans(label: Seq<char>, value: Option<Seq<char>>, t: Theme) -> Seq<SpanView> {
    seq![
        rail_span(t),
        (GUTTER_PAD@, dim_of(t)),
        ("◇ "@ + padded(label, 6) + "  "@, dim_of(t)),
        match value {
            Some(v) => (v, bold_of()),
            None => (ABSENT@, dim_of(t)),
        },
    ]
}

/// A refusal: `! ` and the sentence, in the warning role.
pub open spec fn error_spans(message: Seq<char>, t: Theme) -> Seq<SpanView> {
    seq![
        rail_span(t),
        (GUTTER_PAD@, dim_of(t)),
        ("! "@, Style { fg: Some(t.warning), add_modifier: Modifier { bold: true, ..no_modifier() }, ..plain_style() }),
        (message, role(t.warning)),
    ]
}

/// The edit form's live field: `◆ Alias   web-01_`.
pub open spec fn edit_field_spans(label: Seq<char>, input: Seq<char>, t: Theme) -> Seq<SpanView> {
    seq![
        rail_span(t),
        (GUTTER_PAD@, dim_of(t)),
        ("◆ "@ + padded(label, 6) + "  "@, dim_of(t)),
        (input, bold_of()),
        (CARET@, dim_of(t)),
    ]
}

/// The corner that closes the rail.
fn corner_line(t: &Theme) -> (r: Line)
    ensures
        line_view(r) == corner_spans(*t),
{
    let mut spans: Vec<Span> = Vec::new();
    add_span(&mut spans, CORNER, Style::fg(t.border));
    line_of(spans)
}

/// A rail and nothing else.
fn pad_line(t: &Theme) -> (r: Line)
    ensures
        line_view(r) == pad_spans(*t),
{
    let mut spans: Vec<Span> = Vec::new();
    add_span(&mut spans, RAIL, Style::fg(t.border));
    line_of(spans)
}

/// A state line.
fn state_line(text: &str, t: &Theme) -> (r: Line)
    ensures
        line_view(r) == state_spans(text@, *t),
{
    let mut spans: Vec<Span> = Vec::new();
    add_span(&mut spans, RAIL, Style::fg(t.border));
    let mut body = owned(GUTTER_PAD);
    let tc = chars_of(text);
    push_chars(&mut body, tc.as_slice());
    add_owned(&mut spans, body, Style::fg(t.fg_muted));
    line_of(spans)
}

/// The update note above the frame.
fn update_note_line(version: &str, t: &Theme) -> (r: Line)
    ensures
        line_view(r) == update_note_spans(version@, *t),
{
    let mut spans: Vec<Span> = Vec::new();
    add_span(&mut spans, "◆", Style::fg(t.accent));
    let mut body = owned(" update available: v");
    let vc = chars_of(version);
    push_chars(&mut body, vc.as_slice());
    let tail = chars_of(" — run sshm update");
    push_chars(&mut body, tail.as_slice());
    add_owned(&mut spans, body, dim_style(t));
    line_of(spans)
}

/// The `■` line a confirm leaves once answered.
fn settled_confirm_line(c: &Connection, answered: bool, t: &Theme) -> (r: Line)
    ensures
        line_view(r) == settled_confirm_spans(*c, answered, *t),
{
    let dim = dim_style(t);
    let mut spans: Vec<Span> = Vec::new();
    add_span(&mut spans, RAIL, Style::fg(t.border));
    add_span(&mut spans, GUTTER_PAD, dim);
    add_span(&mut spans, "■ ", dim);
    add_span(&mut spans, "Delete ", dim);
    add_folder(&mut spans, c, dim);
    add_owned(&mut spans, c.alias.clone(), Style::bold());
    add_span(&mut spans, "? ", dim);
    add_span(&mut spans, if answered {
        "Yes"
    } else {
        "No"
    }, Style::bold());
    let r = line_of(spans);
    assert(line_view(r) =~= settled_confirm_spans(*c, answered, *t));
    r
}

/// The `◇` note naming a Connection.
fn note_line(verb: &str, c: &Connection, t: &Theme) -> (r: Line)
    ensures
        line_view(r) == note_spans(verb@, *c, *t),
{
    let dim = dim_style(t);
    let mut spans: Vec<Span> = Vec::new();
    add_span(&mut spans, RAIL, Style::fg(t.border));
    add_span(&mut spans, GUTTER_PAD, dim);
    let mut head = owned("◇ ");
    let vc = chars_of(verb);
    push_chars(&mut head, vc.as_slice());
    push_char(&mut head, ' ');
    proof {
        reveal_strlit(" ");
    }
    assert(head@ =~= "◇ "@ + verb@ + " "@);
    add_owned(&mut spans, head, dim);
    add_folder(&mut spans, c, dim);
    add_owned(&mut spans, c.alias.clone(), Style::bold());
    let r = line_of(spans);
    assert(line_view(r) =~= note_spans(verb@, *c, *t));
    r
}

/// A `◇` note with no Connection to name.
fn plain_note_line(text: &str, t: &Theme) -> (r: Line)
    ensures
        line_view(r) == plain_note_spans(text@, *t),
{
    let dim = dim_style(t);
    let mut spans: Vec<Span> = Vec::new();
    add_span(&mut spans, RAIL, Style::fg(t.border));
    add_span(&mut spans, GUTTER_PAD, dim);
    let mut body = owned("◇ ");
    let tc = chars_of(text);
    push_chars(&mut body, tc.as_slice());
    add_owned(&mut spans, body, dim);
    line_of(spans)
}

/// A settled field.
fn settled_field_line(s: &SettledField, t: &Theme) -> (r: Line)
    ensures
        line_view(r) == settled_field_spans(s.label@, match s.value {
            Some(v) => Some(v@),
            None => None,
        }, *t),
{
    let dim = dim_style(t);
    let mut spans: Vec<Span> = Vec::new();
    add_span(&mut spans, RAIL, Style::fg(t.border));
    add_span(&mut spans, GUTTER_PAD, dim);
    let mut head = owned("◇ ");
    let p = pad_to(s.label, 6);
    let pc = chars_of(p.as_str());
    push_chars(&mut head, pc.as_slice());
    let gap = chars_of("  ");
    push_chars(&mut head, gap.as_slice());
    add_owned(&mut spans, head, dim);
    match &s.value {
        Some(v) => add_owned(&mut spans, v.clone(), Style::bold()),
        None => add_span(&mut spans, ABSENT, dim),
    }
    let r = line_of(spans);
    assert(line_view(r) =~= settled_field_spans(s.label@, match s.value {
        Some(v) => Some(v@),
        None => None,
    }, *t));
    r
}

/// A refusal line.
fn error_line(message: &str, t: &Theme) -> (r: Line)
    ensures
        line_view(r) == error_spans(message@, *t),
{
    let dim = dim_style(t);
    let mut spans: Vec<Span> = Vec::new();
    add_span(&mut spans, RAIL, Style::fg(t.border));
    add_span(&mut spans, GUTTER_PAD, dim);
    add_span(&mut spans, "! ", Style::fg_bold(t.warning));
    add_span(&mut spans, message, Style::fg(t.warning));
    let r = line_of(spans);
    assert(line_view(r) =~= error_spans(message@, *t));
    r
}

/// The edit form's live field.
fn edit_field_line(e: &EditFlow, t: &Theme) -> (r: Line)
    ensures
        line_view(r) == edit_field_spans(e.label@, e.input@, *t),
{
    let dim = dim_style(t);
    let mut spans: Vec<Span> = Vec::new();
    add_span(&mut spans, RAIL, Style::fg(t.border));
    add_span(&mut spans, GUTTER_PAD, dim);
    let mut head = owned("◆ ");
    let p = pad_to(e.label, 6);
    let pc = chars_of(p.as_str());
    push_chars(&mut head, pc.as_slice());
    let gap = chars_of("  ");
    push_chars(&mut head, gap.as_slice());
    add_owned(&mut spans, head, dim);
    add_owned(&mut spans, e.input.clone(), Style::bold());
    add_span(&mut spans, CARET, dim);
    let r = line_of(spans);
    assert(line_view(r) =~= edit_field_spans(e.label@, e.input@, *t));
    r
}

// ───────────────────────────── the header, the flow and the rail ─────────────────────────────

/// The frame's title when no question is open.
pub open spec fn title_of(mode: FrameMode) -> Seq<char> {
    match mode {
        FrameMode::Pick => "Select a Connection"@,
        FrameMode::Manage => "Manage Connections"@,
    }
}

/// The `◆` line that opens the frame: the open question when there is one
/// (the delete confirm, the import offer, the add form's field, the edit
/// form's Connection), the mode's title otherwise. `home` is the user's
/// home directory, shown as `~` in the offer's path.
pub open spec fn header_spans(mode: FrameMode, f: FrameFlow, home: Option<Seq<char>>, t: Theme) -> Seq<SpanView> {
    let head = seq![("◆"@, role(t.accent)), (" "@, plain_style())];
    if f.confirming is Some {
        let c = f.confirming->0;
        head + seq![("Delete "@, bold_of())] + folder_spans(c, dim_of(t)) + seq![(c.alias@, bold_of()), ("? "@, bold_of()), ("(y/N)"@, dim_of(t))]
    } else if f.import_offer is Some {
        let o = f.import_offer->0;
        head + seq![
            ("Import "@, bold_of()),
            (decimal(o.count as nat), bold_of()),
            (" "@ + noun(o.count as nat) + " from "@, dim_of(t)),
            (shown_path(o.path@, home), bold_of()),
            ("? "@, bold_of()),
            ("(y/N)"@, dim_of(t)),
        ]
    } else if f.add is Some {
        let a = f.add->0;
        head + seq![(a.label@, bold_of()), ("  "@, plain_style()), (a.input@, plain_style()), (CARET@, role(t.fg_muted))]
    } else if f.edit is Some {
        let e = f.edit->0;
        head + seq![("Edit "@, bold_of())] + folder_spans(e.target, dim_of(t)) + seq![(e.target.alias@, bold_of())]
    } else {
        head + seq![(title_of(mode), bold_of())]
    }
}

/// The `◆` line that opens the frame.
fn header_line(mode: FrameMode, f: &FrameFlow, home: Option<&str>, t: &Theme) -> (r: Line)
    ensures
        line_view(r) == header_spans(mode, *f, match home {
            Some(h) => Some(h@),
            None => None,
        }, *t),
{
    let ghost hv = match home {
        Some(h) => Some(h@),
        None => None,
    };
    let dim = dim_style(t);
    let mut spans: Vec<Span> = Vec::new();
    add_span(&mut spans, "◆", Style::fg(t.accent));
    add_span(&mut spans, " ", Style::plain());
    let ghost head = spans_view(spans@);
    if let Some(c) = &f.confirming {
        add_span(&mut spans, "Delete ", Style::bold());
        add_folder(&mut spans, c, dim);
        add_owned(&mut spans, c.alias.clone(), Style::bold());
        add_span(&mut spans, "? ", Style::bold());
        add_span(&mut spans, "(y/N)", dim);
        let r = line_of(spans);
        assert(line_view(r) =~= header_spans(mode, *f, hv, *t));
        return r;
    }
    if let Some(o) = &f.import_offer {
        add_span(&mut spans, "Import ", Style::bold());
        add_owned(&mut spans, decimal_string(o.count as u64), Style::bold());
        let mut glue = owned(" ");
        let n = if o.count == 1 {
            "connection"
        } else {
            "connections"
        };
        let nc = chars_of(n);
        push_chars(&mut glue, nc.as_slice());
        let from = chars_of(" from ");
        push_chars(&mut glue, from.as_slice());
        add_owned(&mut spans, glue, dim);
        add_owned(&mut spans, display_import_path(o.path.as_str(), home), Style::bold());
        add_span(&mut spans, "? ", Style::bold());
        add_span(&mut spans, "(y/N)", dim);
        let r = line_of(spans);
        assert(line_view(r) =~= header_spans(mode, *f, hv, *t));
        return r;
    }
    if let Some(a) = &f.add {
        add_span(&mut spans, a.label, Style::bold());
        add_span(&mut spans, "  ", Style::plain());
        add_owned(&mut spans, a.input.clone(), Style::plain());
        add_span(&mut spans, CARET, Style::fg(t.fg_muted));
        let r = line_of(spans);
        assert(line_view(r) =~= header_spans(mode, *f, hv, *t));
        return r;
    }
    if let Some(e) = &f.edit {
        add_span(&mut spans, "Edit ", Style::bold());
        add_folder(&mut spans, &e.target, dim);
        add_owned(&mut spans, e.target.alias.clone(), Style::bold());
        let r = line_of(spans);
        assert(line_view(r) =~= header_spans(mode, *f, hv, *t));
        return r;
    }
    add_span(&mut spans, match mode {
        FrameMode::Pick => "Select a Connection",
        FrameMode::Manage => "Manage Connections",
    }, Style::bold());
    let r = line_of(spans);
    assert(line_view(r) =~= header_spans(mode, *f, hv, *t));
    r
}

/// The text of the import note: how many Connections arrived, and how many
/// stanzas were skipped when any were.
pub open spec fn imported_text(imported: nat, failed: nat) -> Seq<char> {
    "imported "@ + decimal(imported) + " "@ + noun(imported) + if failed > 0 {
        ", "@ + decimal(failed) + " skipped"@
    } else {
        Seq::empty()
    }
}

/// The lines the last action leaves above the rows.
pub open spec fn trace_lines(tr: Option<Trace>, t: Theme) -> Seq<Seq<SpanView>> {
    match tr {
        Some(Trace::Deleted { connection }) => seq![settled_confirm_spans(connection, true, t), note_spans("deleted"@, connection, t)],
        Some(Trace::DeleteFailed { connection }) => seq![settled_confirm_spans(connection, true, t), note_spans(DELETE_FAILED_NOTE@, connection, t)],
        Some(Trace::Declined { connection }) => seq![settled_confirm_spans(connection, false, t)],
        Some(Trace::AddAbandoned) => seq![plain_note_spans(ADD_ABANDONED_NOTE@, t)],
        Some(Trace::Added { connection }) => seq![note_spans("added"@, connection, t)],
        Some(Trace::Edited { connection }) => seq![note_spans("edited"@, connection, t)],
        Some(Trace::EditAbandoned) => seq![plain_note_spans(EDIT_ABANDONED_NOTE@, t)],
        Some(Trace::EditFailed { connection }) => seq![note_spans(EDIT_FAILED_NOTE@, connection, t)],
        Some(Trace::Imported { imported, failed }) => seq![plain_note_spans(imported_text(imported as nat, failed as nat), t)],
        Some(Trace::ImportDeclined) => seq![plain_note_spans(IMPORT_DECLINED_NOTE@, t)],
        None => Seq::empty(),
    }
}

/// The add form's lines: each settled field, then the refusal if any.
pub open spec fn add_lines(a: Option<AddFlow>, t: Theme) -> Seq<Seq<SpanView>> {
    match a {
        Some(a) => {
            let settled = settled_views(a.settled@).map_values(|s: (Seq<char>, Option<Seq<char>>)| settled_field_spans(s.0, s.1, t));
            match a.error {
                Some(e) => settled.push(error_spans(e@, t)),
                None => settled,
            }
        },
        None => Seq::empty(),
    }
}

/// The edit form's lines: the live field, then the refusal if any.
pub open spec fn edit_lines(e: Option<EditFlow>, t: Theme) -> Seq<Seq<SpanView>> {
    match e {
        Some(e) => match e.error {
            Some(m) => seq![edit_field_spans(e.label@, e.input@, t), error_spans(m@, t)],
            None => seq![edit_field_spans(e.label@, e.input@, t)],
        },
        None => Seq::empty(),
    }
}

/// The flow's lines between the header and the rows, the oldest dropped
/// first when there are more than `budget`.
pub open spec fn flow_line_views(f: FrameFlow, budget: nat, t: Theme) -> Seq<Seq<SpanView>> {
    let all = trace_lines(f.trace, t) + add_lines(f.add, t) + edit_lines(f.edit, t);
    if all.len() > budget {
        all.skip(all.len() - budget)
    } else {
        all
    }
}

/// The flow keeps its newest lines: as many as the budget allows, and they
/// are the last ones, in order; the oldest go first.
pub proof fn lemma_flow_keeps_newest(f: FrameFlow, budget: nat, t: Theme)
    ensures
        ({
            let all = trace_lines(f.trace, t) + add_lines(f.add, t) + edit_lines(f.edit, t);
            let kept = flow_line_views(f, budget, t);
            &&& kept.len() == if all.len() > budget { budget } else { all.len() }
            &&& kept == all.skip(all.len() - kept.len())
        }),
{
    let all = trace_lines(f.trace, t) + add_lines(f.add, t) + edit_lines(f.edit, t);
    if all.len() <= budget {
        assert(all.skip(0) =~= all);
    }
}

/// The lines the last action leaves.
fn trace_line_list(tr: &Option<Trace>, t: &Theme) -> (r: Vec<Line>)
    ensures
        lines_view(r@) == trace_lines(*tr, *t),
{
    let mut out: Vec<Line> = Vec::new();
    match tr {
        Some(Trace::Deleted { connection }) => {
            out.push(settled_confirm_line(connection, true, t));
            out.push(note_line("deleted", connection, t));
        },
        Some(Trace::DeleteFailed { connection }) => {
            out.push(settled_confirm_line(connection, true, t));
            out.push(note_line(DELETE_FAILED_NOTE, connection, t));
        },
        Some(Trace::Declined { connection }) => {
            out.push(settled_confirm_line(connection, false, t));
        },
        Some(Trace::AddAbandoned) => {
            out.push(plain_note_line(ADD_ABANDONED_NOTE, t));
        },
        Some(Trace::Added { connection }) => {
            out.push(note_line("added", connection, t));
        },
        Some(Trace::Edited { connection }) => {
            out.push(note_line("edited", connection, t));
        },
        Some(Trace::EditAbandoned) => {
            out.push(plain_note_line(EDIT_ABANDONED_NOTE, t));
        },
        Some(Trace::EditFailed { connection }) => {
            out.push(note_line(EDIT_FAILED_NOTE, connection, t));
        },
        Some(Trace::Imported { imported, failed }) => {
            let mut text = owned("imported ");
            let d = decimal_string(*imported as u64);
            let dc = chars_of(d.as_str());
            push_chars(&mut text, dc.as_slice());
            push_char(&mut text, ' ');
            let n = chars_of(if *imported == 1 {
                "connection"
            } else {
                "connections"
            });
            push_chars(&mut text, n.as_slice());
            if *failed > 0 {
                let comma = chars_of(", ");
                push_chars(&mut text, comma.as_slice());
                let f = decimal_string(*failed as u64);
                let fc = chars_of(f.as_str());
                push_chars(&mut text, fc.as_slice());
                let tail = chars_of(" skipped");
                push_chars(&mut text, tail.as_slice());
            }
            proof {
                reveal_strlit(" ");
            }
            assert(text@ =~= imported_text(*imported as nat, *failed as nat));
            out.push(plain_note_line(text.as_str(), t));
        },
        Some(Trace::ImportDeclined) => {
            out.push(plain_note_line(IMPORT_DECLINED_NOTE, t));
        },
        None => {},
    }
    assert(lines_view(out@) =~= trace_lines(*tr, *t));
    out
}

/// The lines the flow draws between the header and the rows, capped at
/// `budget`: when they do not all fit, the oldest go first, so the refusal
/// the user is stuck on survives.
fn flow_lines(f: &FrameFlow, budget: usize, t: &Theme) -> (r: Vec<Line>)
    ensures
        lines_view(r@) == flow_line_views(*f, budget as nat, *t),
{
    let mut lines = trace_line_list(&f.trace, t);
    let ghost tl = lines_view(lines@);
    if let Some(a) = &f.add {
        let ghost sv = settled_views(a.settled@).map_values(|s: (Seq<char>, Option<Seq<char>>)| settled_field_spans(s.0, s.1, *t));
        let mut i: usize = 0;
        while i < a.settled.len()
            invariant
                i <= a.settled@.len(),
                sv == settled_views(a.settled@).map_values(|s: (Seq<char>, Option<Seq<char>>)| settled_field_spans(s.0, s.1, *t)),
                lines_view(lines@) == tl + sv.take(i as int),
            decreases a.settled.len() - i,
        {
            let ghost before = lines@;
            lines.push(settled_field_line(&a.settled[i], t));
            assert(lines_view(lines@) =~= lines_view(before).push(sv[i as int]));
            assert(sv.take(i + 1) =~= sv.take(i as int).push(sv[i as int]));
            i = i + 1;
        }
        assert(sv.take(a.settled@.len() as int) =~= sv);
        if let Some(e) = &a.error {
            let ghost before = lines@;
            lines.push(error_line(e.as_str(), t));
            assert(lines_view(lines@) =~= lines_view(before).push(error_spans(e@, *t)));
        }
    }
    assert(lines_view(lines@) =~= trace_lines(f.trace, *t) + add_lines(f.add, *t));
    let ghost mid = lines_view(lines@);
    if let Some(e) = &f.edit {
        let ghost before = lines@;
        lines.push(edit_field_line(e, t));
        if let Some(m) = &e.error {
            lines.push(error_line(m.as_str(), t));
        }
        assert(lines_view(lines@) =~= lines_view(before) + edit_lines(f.edit, *t));
    } else {
        assert(lines_view(lines@) =~= mid + edit_lines(f.edit, *t));
    }
    let ghost all = lines_view(lines@);
    if lines.len() > budget {
        let drop = lines.len() - budget;
        let mut kept: Vec<Line> = Vec::new();
        let mut k = drop;
        while k < lines.len()
            invariant
                drop <= k <= lines@.len(),
                all == lines_view(lines@),
                lines_view(kept@) == all.subrange(drop as int, k as int),
            decreases lines.len() - k,
        {
            let ghost before = kept@;
            kept.push(lines[k].copy());
            assert(lines_view(kept@) =~= lines_view(before).push(all[k as int]));
            assert(all.subrange(drop as int, k + 1) =~= all.subrange(drop as int, k as int).push(all[k as int]));
            k = k + 1;
        }
        assert(all.subrange(drop as int, lines@.len() as int) =~= all.skip(drop as int));
        return kept;
    }
    lines
}

/// The hints a frame offers: the answers while a question is open, the
/// add form's (with what Enter means there), the edit form's, or the
/// mode's own. Most needed first.
pub open spec fn hints_for(mode: FrameMode, f: FrameFlow) -> Seq<Seq<char>> {
    if f.confirming is Some || f.import_offer is Some {
        seq!["Esc back"@, "y confirm"@, "N abort"@, "Ctrl+C quit"@]
    } else if f.add is Some {
        if f.add->0.last {
            seq!["Esc back"@, "Enter add"@, "Ctrl+C quit"@]
        } else {
            seq!["Esc back"@, "Enter next"@, "Ctrl+C quit"@]
        }
    } else if f.edit is Some {
        seq!["Esc back"@, "Enter save"@, "←→ field"@, "Ctrl+C quit"@]
    } else {
        match mode {
            FrameMode::Pick => seq!["Esc cancel"@, "Enter select"@, "↑↓ navigate"@, "sshm manage to add or edit"@],
            FrameMode::Manage => seq!["Esc cancel"@, "↑↓ navigate"@, "Ctrl+X delete"@, "Ctrl+A add"@, "Ctrl+E edit"@],
        }
    }
}

/// The hint rail: the hints that fit after the gutter, in the dim role.
pub open spec fn hint_rail_spans(mode: FrameMode, f: FrameFlow, width: nat, t: Theme) -> Seq<SpanView> {
    let room: nat = if width >= GUTTER { (width - GUTTER) as nat } else { 0 };
    seq![rail_span(t), (GUTTER_PAD@ + fitted_hints(hints_for(mode, f), room, HINT_SEP@), dim_of(t))]
}

/// The hints a frame offers.
fn hint_list(mode: FrameMode, f: &FrameFlow) -> (r: Vec<&'static str>)
    ensures
        texts(r@) == hints_for(mode, *f),
{
    let mut v: Vec<&'static str> = Vec::new();
    if f.confirming.is_some() || f.import_offer.is_some() {
        v.push("Esc back");
        v.push("y confirm");
        v.push("N abort");
        v.push("Ctrl+C quit");
    } else if let Some(a) = &f.add {
        v.push("Esc back");
        v.push(if a.last {
            "Enter add"
        } else {
            "Enter next"
        });
        v.push("Ctrl+C quit");
    } else if f.edit.is_some() {
        v.push("Esc back");
        v.push("Enter save");
        v.push("←→ field");
        v.push("Ctrl+C quit");
    } else {
        match mode {
            FrameMode::Pick => {
                v.push("Esc cancel");
                v.push("Enter select");
                v.push("↑↓ navigate");
                v.push("sshm manage to add or edit");
            },
            FrameMode::Manage => {
                v.push("Esc cancel");
                v.push("↑↓ navigate");
                v.push("Ctrl+X delete");
                v.push("Ctrl+A add");
                v.push("Ctrl+E edit");
            },
        }
    }
    assert(texts(v@) =~= hints_for(mode, *f));
    v
}

/// The hint rail.
fn hint_rail_line(mode: FrameMode, f: &FrameFlow, width: usize, t: &Theme) -> (r: Line)
    ensures
        line_view(r) == hint_rail_spans(mode, *f, width as nat, *t),
{
    let hints = hint_list(mode, f);
    let room = if width >= GUTTER {
        width - GUTTER
    } else {
        0
    };
    let fitted = crate::frame::fit_hints_with(hints.as_slice(), room, HINT_SEP);
    let mut body = owned(GUTTER_PAD);
    let fc = chars_of(fitted.as_str());
    push_chars(&mut body, fc.as_slice());
    let mut spans: Vec<Span> = Vec::new();
    add_span(&mut spans, RAIL, Style::fg(t.border));
    add_owned(&mut spans, body, dim_style(t));
    line_of(spans)
}


// ───────────────────────────── rows ─────────────────────────────

/// Whether a list of hit offsets holds `off`.
pub open spec fn hit_offset(hits: Seq<usize>, off: int) -> bool {
    exists|k: int| 0 <= k < hits.len() && hits[k] as int == off
}

/// Whether character `i` of a segment that starts at character `start` of
/// its row is one the query hit.
pub open spec fn lit_at(text: Seq<char>, start: int, hits: Seq<usize>, i: int) -> bool {
    hit_offset(hits, start + i)
}

/// The first `n` characters of a segment cut into runs of lit and unlit
/// characters: the closed runs, the open one, and whether it is lit.
pub open spec fn run_scan(text: Seq<char>, start: int, hits: Seq<usize>, n: nat) -> (Seq<(Seq<char>, bool)>, Seq<char>, bool)
    decreases n,
{
    if n == 0 {
        (Seq::empty(), Seq::empty(), false)
    } else {
        let (done, open, lit) = run_scan(text, start, hits, (n - 1) as nat);
        let c = text[n - 1];
        let m = lit_at(text, start, hits, n - 1);
        if open.len() == 0 {
            (done, seq![c], m)
        } else if m == lit {
            (done, open.push(c), lit)
        } else {
            (done.push((open, lit)), seq![c], m)
        }
    }
}

/// A segment cut into its maximal runs of lit and unlit characters.
pub open spec fn runs(text: Seq<char>, start: int, hits: Seq<usize>) -> Seq<(Seq<char>, bool)> {
    let (done, open, lit) = run_scan(text, start, hits, text.len());
    if open.len() == 0 {
        done
    } else {
        done.push((open, lit))
    }
}

/// Runs as spans: lit runs in `hit`, the rest in `base`.
pub open spec fn run_spans(rs: Seq<(Seq<char>, bool)>, base: Style, hit: Style) -> Seq<SpanView> {
    rs.map_values(|r: (Seq<char>, bool)| (r.0, if r.1 { hit } else { base }))
}

/// The style a hit is drawn in.
pub open spec fn lit_of(t: Theme) -> Style {
    Style { fg: Some(t.highlight), add_modifier: Modifier { bold: true, ..no_modifier() }, ..plain_style() }
}

/// The cursor column: `❯` on the selected row, a blank elsewhere.
pub open spec fn cursor_view(selected: bool, t: Theme) -> SpanView {
    if selected {
        ("❯"@, Style { fg: Some(t.accent), add_modifier: Modifier { bold: true, ..no_modifier() }, ..plain_style() })
    } else {
        (" "@, plain_style())
    }
}

/// A Connection row: rail, cursor, then `[folder] alias (user@host:port)`
/// with the hit characters lit, the folder and meta dim, the alias bold.
pub open spec fn row_spans(c: Connection, selected: bool, hits: Seq<usize>, t: Theme) -> Seq<SpanView> {
    let head = seq![rail_span(t), (" "@, plain_style()), cursor_view(selected, t), (" "@, plain_style())];
    let folder = opt_text(c.folder);
    let fseg = if folder.len() == 0 {
        Seq::empty()
    } else {
        run_spans(runs(seq!['['] + folder + seq![']'], 0, hits), dim_of(t), lit_of(t)) + seq![(" "@, plain_style())]
    };
    head + fseg + run_spans(runs(c.alias@, alias_start(c), hits), bold_of(), lit_of(t)) + seq![(" "@, plain_style())]
        + run_spans(runs(crate::frame::meta_text(c), meta_start(c), hits), dim_of(t), lit_of(t))
}

/// The text of two lines put end to end is the two texts end to end.
pub proof fn lemma_line_text_concat(a: Seq<SpanView>, b: Seq<SpanView>)
    ensures
        line_text(a + b) == line_text(a) + line_text(b),
    decreases b.len(),
{
    if b.len() == 0 {
        assert(a + b =~= a);
        assert(line_text(a) + line_text(b) =~= line_text(a));
    } else {
        lemma_line_text_concat(a, b.drop_last());
        assert((a + b).drop_last() =~= a + b.drop_last());
        assert((a + b).last() == b.last());
        assert(line_text(a) + line_text(b) =~= line_text(a) + line_text(b.drop_last()) + b.last().0);
    }
}

/// Appending a run to a run list appends its text.
proof fn lemma_run_spans_push(rs: Seq<(Seq<char>, bool)>, r: (Seq<char>, bool), base: Style, hit: Style)
    ensures
        line_text(run_spans(rs.push(r), base, hit)) == line_text(run_spans(rs, base, hit)) + r.0,
{
    let pushed = run_spans(rs.push(r), base, hit);
    assert(pushed.drop_last() =~= run_spans(rs, base, hit));
    assert(pushed.last().0 == r.0);
}

/// The runs closed so far and the open one spell the characters read so far.
proof fn lemma_run_scan_text(text: Seq<char>, start: int, hits: Seq<usize>, n: nat, base: Style, hit: Style)
    requires
        n <= text.len(),
    ensures
        ({
            let (done, open, lit) = run_scan(text, start, hits, n);
            line_text(run_spans(done, base, hit)) + open == text.take(n as int)
        }),
    decreases n,
{
    if n == 0 {
        let (done, open, lit) = run_scan(text, start, hits, n);
        assert(run_spans(done, base, hit) =~= Seq::<SpanView>::empty());
        assert(line_text(run_spans(done, base, hit)) + open =~= text.take(0));
    } else {
        lemma_run_scan_text(text, start, hits, (n - 1) as nat, base, hit);
        let (done, open, lit) = run_scan(text, start, hits, (n - 1) as nat);
        let c = text[n - 1];
        let m = lit_at(text, start, hits, n - 1);
        assert(text.take(n as int) =~= text.take(n - 1).push(c));
        if open.len() == 0 {
            assert(line_text(run_spans(done, base, hit)) + seq![c] =~= (line_text(run_spans(done, base, hit)) + open).push(c));
        } else if m == lit {
            assert(line_text(run_spans(done, base, hit)) + open.push(c) =~= (line_text(run_spans(done, base, hit)) + open).push(c));
        } else {
            lemma_run_spans_push(done, (open, lit), base, hit);
            assert(line_text(run_spans(done, base, hit)) + open + seq![c] =~= (line_text(run_spans(done, base, hit)) + open).push(c));
        }
    }
}

/// A segment cut into lit and unlit runs spells the segment again: nothing
/// is added and nothing is lost.
pub proof fn lemma_runs_text(text: Seq<char>, start: int, hits: Seq<usize>, base: Style, hit: Style)
    ensures
        line_text(run_spans(runs(text, start, hits), base, hit)) == text,
{
    lemma_run_scan_text(text, start, hits, text.len(), base, hit);
    let (done, open, lit) = run_scan(text, start, hits, text.len());
    assert(text.take(text.len() as int) =~= text);
    if open.len() == 0 {
        assert(line_text(run_spans(done, base, hit)) + open =~= line_text(run_spans(done, base, hit)));
    } else {
        lemma_run_spans_push(done, (open, lit), base, hit);
    }
}

/// The text of a row's head: the rail, a space, the cursor column, a space.
proof fn lemma_row_head_text(selected: bool, t: Theme)
    ensures
        line_text(seq![rail_span(t), (" "@, plain_style()), cursor_view(selected, t), (" "@, plain_style())])
            == RAIL@ + " "@ + cursor_view(selected, t).0 + " "@,
{
    let head = seq![rail_span(t), (" "@, plain_style()), cursor_view(selected, t), (" "@, plain_style())];
    reveal_with_fuel(line_text, 5);
    assert(head.drop_last() =~= seq![rail_span(t), (" "@, plain_style()), cursor_view(selected, t)]);
    assert(head.drop_last().drop_last() =~= seq![rail_span(t), (" "@, plain_style())]);
    assert(head.drop_last().drop_last().drop_last() =~= seq![rail_span(t)]);
    assert(head.drop_last().drop_last().drop_last().drop_last() =~= Seq::<SpanView>::empty());
    assert(line_text(head) =~= RAIL@ + " "@ + cursor_view(selected, t).0 + " "@);
}

/// The text of a row's folder segment: `[folder] `, or nothing.
proof fn lemma_row_folder_text(c: Connection, hits: Seq<usize>, t: Theme)
    ensures
        line_text(
            if opt_text(c.folder).len() == 0 {
                Seq::empty()
            } else {
                run_spans(runs(seq!['['] + opt_text(c.folder) + seq![']'], 0, hits), dim_of(t), lit_of(t)) + seq![(" "@, plain_style())]
            },
        ) == if opt_text(c.folder).len() == 0 {
            Seq::<char>::empty()
        } else {
            seq!['['] + opt_text(c.folder) + seq![']', ' ']
        },
{
    let folder = opt_text(c.folder);
    if folder.len() > 0 {
        let space = seq![(" "@, plain_style())];
        let fr = run_spans(runs(seq!['['] + folder + seq![']'], 0, hits), dim_of(t), lit_of(t));
        lemma_line_text_concat(fr, space);
        lemma_runs_text(seq!['['] + folder + seq![']'], 0, hits, dim_of(t), lit_of(t));
        reveal_strlit(" ");
        assert(space.drop_last() =~= Seq::<SpanView>::empty());
        assert(line_text(space) == line_text(space.drop_last()) + space.last().0);
        assert(" "@ =~= seq![' ']);
        assert(line_text(space) =~= seq![' ']);
        assert(line_text(fr + space) =~= seq!['['] + folder + seq![']', ' ']);
    }
}

/// A row's spans join back to its text: the rail, the cursor column, then
/// the very text the matcher scored, `[folder] alias (user@host:port)`, cut
/// into lit and unlit runs with nothing added or lost.
#[verifier::spinoff_prover]
pub proof fn lemma_row_spans_text(c: Connection, selected: bool, hits: Seq<usize>, t: Theme)
    ensures
        line_text(row_spans(c, selected, hits, t)) == RAIL@ + " "@ + cursor_view(selected, t).0 + " "@ + row_text(c),
{
    let head = seq![rail_span(t), (" "@, plain_style()), cursor_view(selected, t), (" "@, plain_style())];
    let folder = opt_text(c.folder);
    let fseg = if folder.len() == 0 {
        Seq::empty()
    } else {
        run_spans(runs(seq!['['] + folder + seq![']'], 0, hits), dim_of(t), lit_of(t)) + seq![(" "@, plain_style())]
    };
    let aseg = run_spans(runs(c.alias@, alias_start(c), hits), bold_of(), lit_of(t));
    let space = seq![(" "@, plain_style())];
    let mseg = run_spans(runs(crate::frame::meta_text(c), meta_start(c), hits), dim_of(t), lit_of(t));
    assert(row_spans(c, selected, hits, t) == head + fseg + aseg + space + mseg);
    lemma_line_text_concat(head + fseg + aseg + space, mseg);
    lemma_line_text_concat(head + fseg + aseg, space);
    lemma_line_text_concat(head + fseg, aseg);
    lemma_line_text_concat(head, fseg);
    lemma_runs_text(c.alias@, alias_start(c), hits, bold_of(), lit_of(t));
    lemma_runs_text(crate::frame::meta_text(c), meta_start(c), hits, dim_of(t), lit_of(t));
    lemma_row_head_text(selected, t);
    lemma_row_folder_text(c, hits, t);
    reveal_strlit(" ");
    assert(space.drop_last() =~= Seq::<SpanView>::empty());
    assert(line_text(space) == line_text(space.drop_last()) + space.last().0);
    assert(" "@ =~= seq![' ']);
    assert(line_text(space) =~= seq![' ']);
    let ftext = if folder.len() == 0 {
        Seq::<char>::empty()
    } else {
        seq!['['] + folder + seq![']', ' ']
    };
    let lead = RAIL@ + " "@ + cursor_view(selected, t).0 + " "@;
    assert(line_text(row_spans(c, selected, hits, t)) == lead + ftext + c.alias@ + seq![' '] + crate::frame::meta_text(c));
    assert(lead + ftext + c.alias@ + seq![' '] + crate::frame::meta_text(c) =~= lead + row_text(c));
}

/// Whether `hits` holds `off`.
fn holds_offset(hits: &[usize], off: usize) -> (r: bool)
    ensures
        r == hit_offset(hits@, off as int),
{
    let mut k: usize = 0;
    while k < hits.len()
        invariant
            k <= hits@.len(),
            forall|j: int| 0 <= j < k ==> hits@[j] != off,
        decreases hits.len() - k,
    {
        if hits[k] == off {
            return true;
        }
        k = k + 1;
    }
    false
}

/// Append `text` as one span per run of hit and missed characters.
///
/// `start` is where `text` begins in its row, in characters; `hits` are the
/// row's hit offsets.
fn push_split(spans: &mut Vec<Span>, text: &str, start: usize, base: Style, hit: Style, hits: &[usize])
    requires
        start + text@.len() <= usize::MAX,
    ensures
        spans_view(final(spans)@) == spans_view(old(spans)@) + run_spans(runs(text@, start as int, hits@), base, hit),
{
    let tc = chars_of(text);
    let ghost before = spans_view(spans@);
    let mut open = String::new();
    let mut running = false;
    let mut lit = false;
    let mut i: usize = 0;
    while i < tc.len()
        invariant
            tc@ == text@,
            i <= tc@.len(),
            start + text@.len() <= usize::MAX,
            running == (open@.len() > 0),
            spans_view(spans@) == before + run_spans(run_scan(text@, start as int, hits@, i as nat).0, base, hit),
            open@ == run_scan(text@, start as int, hits@, i as nat).1,
            running ==> lit == run_scan(text@, start as int, hits@, i as nat).2,
        decreases tc.len() - i,
    {
        let c = tc[i];
        let m = holds_offset(hits, start + i);
        let ghost sc = run_scan(text@, start as int, hits@, i as nat);
        if !running {
            open = String::new();
            push_char(&mut open, c);
            lit = m;
            running = true;
        } else if m == lit {
            push_char(&mut open, c);
        } else {
            let done = open;
            let style = if lit {
                hit
            } else {
                base
            };
            add_owned(spans, done, style);
            proof {
                assert(run_spans(sc.0.push((sc.1, sc.2)), base, hit) =~= run_spans(sc.0, base, hit).push((sc.1, style)));
            }
            open = String::new();
            push_char(&mut open, c);
            lit = m;
        }
        proof {
            assert(open@.len() > 0);
        }
        i = i + 1;
    }
    let ghost sc = run_scan(text@, start as int, hits@, tc@.len());
    if running {
        let style = if lit {
            hit
        } else {
            base
        };
        add_owned(spans, open, style);
        assert(run_spans(sc.0.push((sc.1, sc.2)), base, hit) =~= run_spans(sc.0, base, hit).push((sc.1, style)));
    }
}

/// The cursor column.
fn cursor_span(selected: bool, t: &Theme) -> (r: Span)
    ensures
        crate::paint::span_view(r) == cursor_view(selected, *t),
{
    if selected {
        Span::text("❯", Style::fg_bold(t.accent))
    } else {
        Span::text(" ", Style::plain())
    }
}

/// `(user@host:port)` as a String.
fn meta_string(c: &Connection) -> (r: String)
    ensures
        r@ == crate::frame::meta_text(*c),
{
    let mut out = String::new();
    push_char(&mut out, '(');
    let user = chars_of(c.user.as_str());
    push_chars(&mut out, user.as_slice());
    push_char(&mut out, '@');
    let host = chars_of(c.host.as_str());
    push_chars(&mut out, host.as_slice());
    push_char(&mut out, ':');
    let port = decimal_string(c.port as u64);
    let pc = chars_of(port.as_str());
    push_chars(&mut out, pc.as_slice());
    push_char(&mut out, ')');
    out
}

/// One Connection row, with the query's hits lit.
fn row_line(conn: &Connection, selected: bool, hits: &[usize], t: &Theme) -> (r: Line)
    requires
        row_fits(*conn),
    ensures
        line_view(r) == row_spans(*conn, selected, hits@, *t),
{
    let meta_style = dim_style(t);
    let alias_style = Style::bold();
    let hit_style = Style::fg_bold(t.highlight);
    let segs = crate::frame::row_segments(conn);
    let mut spans: Vec<Span> = Vec::new();
    add_span(&mut spans, RAIL, Style::fg(t.border));
    add_span(&mut spans, " ", Style::plain());
    let cur = cursor_span(selected, t);
    let ghost before_cur = spans_view(spans@);
    spans.push(cur);
    assert(spans_view(spans@) =~= before_cur.push(cursor_view(selected, *t)));
    add_span(&mut spans, " ", Style::plain());
    let ghost head = spans_view(spans@);
    match &conn.folder {
        Some(f) => {
            let fc = chars_of(f.as_str());
            if fc.len() > 0 {
                let mut seg = String::new();
                push_char(&mut seg, '[');
                push_chars(&mut seg, fc.as_slice());
                push_char(&mut seg, ']');
                assert(seg@ =~= seq!['['] + opt_text(conn.folder) + seq![']']);
                push_split(&mut spans, seg.as_str(), 0, meta_style, hit_style, hits);
                add_span(&mut spans, " ", Style::plain());
                assert(spans_view(spans@) =~= head + (run_spans(runs(seq!['['] + opt_text(conn.folder) + seq![']'], 0, hits@), dim_of(*t), lit_of(*t)) + seq![(" "@, plain_style())]));
            } else {
                assert(spans_view(spans@) =~= head + Seq::<SpanView>::empty());
            }
        },
        None => {
            assert(spans_view(spans@) =~= head + Seq::<SpanView>::empty());
        },
    }
    let ghost mid = spans_view(spans@);
    assert(mid =~= head + (if opt_text(conn.folder).len() == 0 {
        Seq::empty()
    } else {
        run_spans(runs(seq!['['] + opt_text(conn.folder) + seq![']'], 0, hits@), dim_of(*t), lit_of(*t)) + seq![(" "@, plain_style())]
    }));
    push_split(&mut spans, conn.alias.as_str(), segs.alias.start, alias_style, hit_style, hits);
    add_span(&mut spans, " ", Style::plain());
    let meta = meta_string(conn);
    push_split(&mut spans, meta.as_str(), segs.meta.start, meta_style, hit_style, hits);
    let r = line_of(spans);
    assert(line_view(r) =~= row_spans(*conn, selected, hits@, *t));
    r
}


// ───────────────────────────── fitting a line ─────────────────────────────

/// What `unicode_width`'s `UnicodeWidthStr::width` answers for a text: the
/// columns it takes on a terminal.
pub uninterp spec fn str_columns(s: Seq<char>) -> usize;

/// What `unicode_width`'s `UnicodeWidthChar::width` answers for a character:
/// the columns it takes, or `None` for a control character.
pub uninterp spec fn char_columns(c: char) -> Option<usize>;

/// `UnicodeWidthStr::width(s)`: claimed to answer `str_columns` of the text.
#[verifier::external_body]
pub(crate) fn text_width(s: &str) -> (r: usize)
    ensures
        r == str_columns(s@),
{
    unicode_width::UnicodeWidthStr::width(s)
}

/// `UnicodeWidthChar::width(c)`: claimed to answer `char_columns` of the
/// character.
#[verifier::external_body]
fn glyph_width(c: char) -> (r: Option<usize>)
    ensures
        r == char_columns(c),
{
    unicode_width::UnicodeWidthChar::width(c)
}

/// The columns a character is counted as when a line is cut: a control
/// character counts none.
pub open spec fn glyph_cols(c: char) -> nat {
    match char_columns(c) {
        Some(w) => w as nat,
        None => 0,
    }
}

/// The whole characters at the front of `s` that fit in `room` columns.
pub open spec fn fitting_chars(s: Seq<char>, room: nat) -> Seq<char>
    decreases s.len(),
{
    if s.len() == 0 {
        s
    } else if glyph_cols(s[0]) <= room {
        seq![s[0]] + fitting_chars(s.drop_first(), (room - glyph_cols(s[0])) as nat)
    } else {
        Seq::empty()
    }
}

/// A line cut to `room` columns: the spans that fit whole, then the whole
/// characters of the first that does not, in its style (nothing when none
/// fit), and nothing after it.
pub open spec fn fitted_spans(spans: Seq<SpanView>, room: nat) -> Seq<SpanView>
    decreases spans.len(),
{
    if spans.len() == 0 {
        spans
    } else if str_columns(spans[0].0) <= room {
        seq![spans[0]] + fitted_spans(spans.drop_first(), (room - str_columns(spans[0].0)) as nat)
    } else {
        let keep = fitting_chars(spans[0].0, room);
        if keep.len() == 0 {
            Seq::empty()
        } else {
            seq![(keep, spans[0].1)]
        }
    }
}

/// The terminal columns a drawn line takes: the display width of each of its
/// spans, added up.
pub open spec fn line_columns(l: Seq<SpanView>) -> nat
    decreases l.len(),
{
    if l.len() == 0 {
        0
    } else {
        line_columns(l.drop_last()) + str_columns(l.last().0) as nat
    }
}

/// The columns of a run of characters, each counted as a cut counts it.
pub open spec fn chars_columns(s: Seq<char>) -> nat
    decreases s.len(),
{
    if s.len() == 0 {
        0
    } else {
        glyph_cols(s[0]) + chars_columns(s.drop_first())
    }
}

/// The columns a line cut to `room` keeps, counted as the cut counts them:
/// each span kept whole by its text's width, the characters kept of the span
/// that is cut each by its own width.
pub open spec fn kept_columns(spans: Seq<SpanView>, room: nat) -> nat
    decreases spans.len(),
{
    if spans.len() == 0 {
        0
    } else if str_columns(spans[0].0) <= room {
        str_columns(spans[0].0) as nat + kept_columns(spans.drop_first(), (room - str_columns(spans[0].0)) as nat)
    } else {
        chars_columns(fitting_chars(spans[0].0, room))
    }
}

/// The characters kept of a cut span fit in the room it had.
proof fn lemma_fitting_chars_fit(s: Seq<char>, room: nat)
    ensures
        chars_columns(fitting_chars(s, room)) <= room,
    decreases s.len(),
{
    if s.len() > 0 && glyph_cols(s[0]) <= room {
        let rest = fitting_chars(s.drop_first(), (room - glyph_cols(s[0])) as nat);
        lemma_fitting_chars_fit(s.drop_first(), (room - glyph_cols(s[0])) as nat);
        let kept = seq![s[0]] + rest;
        assert(kept[0] == s[0]);
        assert(kept.drop_first() =~= rest);
    }
}

/// A fitted line is within its width: what a cut to `room` keeps takes at
/// most `room` columns, counted as the cut counts them.
pub proof fn lemma_fit_line_within_width(spans: Seq<SpanView>, room: nat)
    ensures
        kept_columns(spans, room) <= room,
    decreases spans.len(),
{
    if spans.len() > 0 {
        if str_columns(spans[0].0) <= room {
            lemma_fit_line_within_width(spans.drop_first(), (room - str_columns(spans[0].0)) as nat);
        } else {
            lemma_fitting_chars_fit(spans[0].0, room);
        }
    }
}

/// A line's columns are its first span's and the rest's.
proof fn lemma_line_columns_first(l: Seq<SpanView>)
    requires
        l.len() > 0,
    ensures
        line_columns(l) == str_columns(l[0].0) + line_columns(l.drop_first()),
    decreases l.len(),
{
    if l.len() > 1 {
        lemma_line_columns_first(l.drop_last());
        assert(l.drop_last().drop_first() =~= l.drop_first().drop_last());
        assert(l.drop_last()[0] == l[0]);
        assert(l.drop_first().last() == l.last());
        assert(line_columns(l) == line_columns(l.drop_last()) + str_columns(l.last().0));
        assert(line_columns(l.drop_first()) == line_columns(l.drop_first().drop_last()) + str_columns(
            l.drop_first().last().0,
        ));
    } else {
        assert(l.drop_first().len() == 0);
        assert(l.drop_last().len() == 0);
        assert(l.last() == l[0]);
        assert(line_columns(l.drop_last()) == 0);
        assert(line_columns(l.drop_first()) == 0);
    }
}

/// A line that already fits comes back whole: when its spans take no more
/// than `room` columns, the cut keeps every span as it was.
pub proof fn lemma_fitting_line_kept_whole(spans: Seq<SpanView>, room: nat)
    requires
        line_columns(spans) <= room,
    ensures
        fitted_spans(spans, room) == spans,
    decreases spans.len(),
{
    if spans.len() > 0 {
        lemma_line_columns_first(spans);
        let w = str_columns(spans[0].0) as nat;
        lemma_fitting_line_kept_whole(spans.drop_first(), (room - w) as nat);
        assert(seq![spans[0]] + spans.drop_first() =~= spans);
    }
}

/// The whole characters at the front of `s` that fit in `room` columns.
fn fitting_prefix(s: &str, room: usize) -> (r: String)
    ensures
        r@ == fitting_chars(s@, room as nat),
{
    let cs = chars_of(s);
    let mut out = String::new();
    let mut left = room;
    let mut j: usize = 0;
    assert(cs@.skip(0) =~= cs@);
    assert(out@ + fitting_chars(s@, room as nat) =~= fitting_chars(s@, room as nat));
    while j < cs.len()
        invariant
            cs@ == s@,
            j <= cs@.len(),
            out@ + fitting_chars(cs@.skip(j as int), left as nat) == fitting_chars(s@, room as nat),
        decreases cs.len() - j,
    {
        let c = cs[j];
        let w = match glyph_width(c) {
            Some(w) => w,
            None => 0,
        };
        let ghost rest = cs@.skip(j as int);
        assert(rest[0] == c);
        if w > left {
            assert(fitting_chars(rest, left as nat) =~= Seq::<char>::empty());
            assert(out@ + Seq::<char>::empty() =~= out@);
            return out;
        }
        assert(rest.drop_first() =~= cs@.skip(j + 1));
        let ghost prev = out@;
        push_char(&mut out, c);
        left = left - w;
        assert(out@ + fitting_chars(cs@.skip(j + 1), left as nat) =~= prev + (seq![c] + fitting_chars(cs@.skip(j + 1), left as nat)));
        j = j + 1;
    }
    assert(cs@.skip(j as int) =~= Seq::<char>::empty());
    assert(out@ + Seq::<char>::empty() =~= out@);
    out
}

/// Trim a line to `width` display columns, keeping the styles of what
/// survives: the spans that fit whole, then the whole characters of the
/// first one that does not, and nothing after it.
pub fn fit_line(line: Line, width: usize) -> (r: Line)
    ensures
        line_view(r) == fitted_spans(line_view(line), width as nat),
{
    let ghost lv = line_view(line);
    let mut spans: Vec<Span> = Vec::new();
    let mut used: usize = 0;
    let mut i: usize = 0;
    assert(lv.skip(0) =~= lv);
    assert(spans_view(spans@) + fitted_spans(lv, width as nat) =~= fitted_spans(lv, width as nat));
    while i < line.spans.len()
        invariant
            lv == line_view(line),
            i <= line.spans@.len(),
            used <= width,
            spans_view(spans@) + fitted_spans(lv.skip(i as int), (width - used) as nat) == fitted_spans(lv, width as nat),
        decreases line.spans.len() - i,
    {
        let span = line.spans[i].copy();
        let ghost rest = lv.skip(i as int);
        assert(rest[0] == crate::paint::span_view(span));
        let w = text_width(span.content.as_str());
        if w <= width - used {
            assert(rest.drop_first() =~= lv.skip(i + 1));
            let ghost prev = spans_view(spans@);
            let ghost sv = crate::paint::span_view(span);
            spans.push(span);
            assert(spans_view(spans@) =~= prev.push(sv));
            used = used + w;
            assert(spans_view(spans@) + fitted_spans(lv.skip(i + 1), (width - used) as nat) =~= prev + (seq![sv] + fitted_spans(lv.skip(i + 1), (width - used) as nat)));
            i = i + 1;
        } else {
            let keep = fitting_prefix(span.content.as_str(), width - used);
            let ghost prev = spans_view(spans@);
            if !keep.as_str().is_empty() {
                let ghost kv = keep@;
                spans.push(Span::styled(keep, span.style));
                assert(spans_view(spans@) =~= prev + seq![(kv, span.style)]);
            } else {
                assert(spans_view(spans@) =~= prev + Seq::<SpanView>::empty());
            }
            return line_of(spans);
        }
    }
    assert(lv.skip(i as int) =~= Seq::<SpanView>::empty());
    assert(spans_view(spans@) + Seq::<SpanView>::empty() =~= spans_view(spans@));
    line_of(spans)
}


// ───────────────────────────── the frame ─────────────────────────────

/// What `format!("{:?}", s)` writes for a text: Rust's quoted, escaped
/// form of it.
pub uninterp spec fn debug_text(s: Seq<char>) -> Seq<char>;

/// `format!("{:?}", s)`: claimed to answer `debug_text` of the text.
#[verifier::external_body]
fn debug_quoted(s: &str) -> (r: String)
    ensures
        r@ == debug_text(s@),
{
    format!("{:?}", s)
}

/// `dirs::home_dir()`, as text when it is valid UTF-8. It reads the
/// environment and the password database, so nothing is claimed of what
/// comes back.
#[verifier::external_body]
fn home_text() -> (r: Option<String>) {
    match dirs::home_dir() {
        Some(p) => match p.to_str() {
            Some(h) => Some(h.to_string()),
            None => None,
        },
        None => None,
    }
}

/// A rendered frame: the lines to print, top to bottom, rail included; which
/// layout it took; which Connections it shows, in display order; and the row
/// the cursor is on.
#[derive(Debug, Clone, PartialEq)]
pub struct Frame {
    lines: Vec<Line>,
    state: FrameState,
    matched: Vec<usize>,
    selection: usize,
}

impl View for Frame {
    type V = (Seq<Seq<SpanView>>, FrameState, Seq<usize>, nat);

    closed spec fn view(&self) -> Self::V {
        (lines_view(self.lines@), self.state, self.matched@, self.selection as nat)
    }
}

impl Frame {
    /// Every line the frame draws, in order.
    pub fn lines(&self) -> (r: &[Line])
        ensures
            lines_view(r@) == self@.0,
    {
        self.lines.as_slice()
    }

    /// Which layout the frame took.
    pub fn state(&self) -> (r: FrameState)
        ensures
            r == self@.1,
    {
        self.state
    }

    /// Which Connections of the caller's slice the frame shows, in display
    /// order.
    pub fn matched(&self) -> (r: &[usize])
        ensures
            r@ == self@.2,
    {
        self.matched.as_slice()
    }

    /// The row the cursor is on, clamped to the rows that exist.
    pub fn selection(&self) -> (r: usize)
        ensures
            r == self@.3,
    {
        self.selection
    }

    /// The index into the caller's slice that the cursor points at, or
    /// `None` when the frame has no rows.
    pub fn selected_connection_index(&self) -> (r: Option<usize>)
        ensures
            r == if self@.3 < self@.2.len() {
                Some(self@.2[self@.3 as int])
            } else {
                None
            },
    {
        if self.selection < self.matched.len() {
            Some(self.matched[self.selection])
        } else {
            None
        }
    }

    /// The frame as ANSI text, one line per frame line.
    pub fn to_ansi(&self) -> (r: String)
        ensures
            r@ == lines_ansi(self@.0),
    {
        lines_to_ansi(self.lines.as_slice())
    }
}

/// The palette a canvas gets: the Clack palette, every role reset when the
/// terminal renders no colour.
pub open spec fn resolved_theme(support: ColorSupport) -> Theme {
    if support == ColorSupport::Monochrome {
        monochrome_theme()
    } else {
        clack_theme()
    }
}

/// No flow at all: what a pick frame draws with.
pub open spec fn no_flow() -> FrameFlow {
    FrameFlow { confirming: None, trace: None, add: None, edit: None, import_offer: None }
}

/// The flow a frame draws: its own in the manage frame, none in the pick
/// frame.
pub open spec fn shown_flow(mode: FrameMode, f: FrameFlow) -> FrameFlow {
    match mode {
        FrameMode::Manage => f,
        FrameMode::Pick => no_flow(),
    }
}

/// `a - b`, or 0 when `b` is larger.
pub open spec fn less(a: nat, b: nat) -> nat {
    if a >= b {
        (a - b) as nat
    } else {
        0
    }
}

/// `n` rail-only lines.
pub open spec fn pad_block(n: nat, t: Theme) -> Seq<Seq<SpanView>> {
    Seq::new(n, |i: int| pad_spans(t))
}

/// The layout a frame over `total` Connections with `matched` matches takes.
pub open spec fn state_of(total: nat, matched: nat) -> FrameState {
    if total == 0 {
        FrameState::Empty
    } else if matched == 0 {
        FrameState::NoMatch
    } else {
        FrameState::Rows
    }
}

/// The selection clamped to the rows that exist.
pub open spec fn clamped_selection(selection: nat, n: nat) -> nat {
    if selection < less(n, 1) {
        selection
    } else {
        less(n, 1)
    }
}

/// The columns a canvas lets the frame spend.
pub open spec fn budget_of(c: Canvas) -> nat {
    if c.width > 0 {
        (c.width - 1) as nat
    } else {
        0
    }
}

/// What the empty frame says.
pub open spec fn empty_text(mode: FrameMode) -> Seq<char> {
    match mode {
        FrameMode::Pick => "No Connections yet — run sshm manage to add one"@,
        FrameMode::Manage => "No Connections yet — Ctrl+A to add one"@,
    }
}

/// The list area: the window of matched rows around the selection, padded
/// with rail to `rows` lines.
pub open spec fn list_rows(
    conns: Seq<Connection>,
    ms: Seq<(usize, i64, Seq<usize>)>,
    sel: nat,
    rows: nat,
    t: Theme,
) -> Seq<Seq<SpanView>> {
    if rows == 0 || ms.len() == 0 {
        pad_block(rows, t)
    } else {
        let v: nat = if rows < ms.len() {
            rows
        } else {
            ms.len()
        };
        let ws = window_start(ms.len(), sel, rows);
        Seq::new(v, |k: int| row_spans(conns[ms[ws + k].0 as int], ws + k == sel, ms[ws + k].2, t)) + pad_block(
            (rows - v) as nat,
            t,
        )
    }
}

/// What sits between the flow lines and the hint rail.
pub open spec fn body_lines(
    conns: Seq<Connection>,
    ms: Seq<(usize, i64, Seq<usize>)>,
    query: Seq<char>,
    sel: nat,
    rows: nat,
    mode: FrameMode,
    t: Theme,
) -> Seq<Seq<SpanView>> {
    match state_of(conns.len(), ms.len()) {
        FrameState::Empty => seq![state_spans(empty_text(mode), t)] + pad_block(less(rows, 1), t),
        FrameState::NoMatch => seq![state_spans("No matches for "@ + debug_text(query), t)] + pad_block(less(rows, 1), t),
        FrameState::Rows => list_rows(conns, ms, sel, rows, t),
    }
}

/// The rows the frame's list area has once the note and the flow lines have
/// taken theirs.
pub open spec fn note_rows(note: Option<Seq<char>>) -> nat {
    if note is Some {
        1
    } else {
        0
    }
}

/// The list rows a frame can show before the note.
pub open spec fn canvas_rows(c: Canvas) -> nat {
    match fitted_rows(c.height as nat) {
        Some(v) => v,
        None => 0,
    }
}

/// Every line of a frame, before fitting: the update note, the header, the
/// flow's lines, the body, the hint rail and the corner.
pub open spec fn frame_lines_unfitted(
    conns: Seq<Connection>,
    ms: Seq<(usize, i64, Seq<usize>)>,
    query: Seq<char>,
    selection: nat,
    mode: FrameMode,
    canvas: Canvas,
    flow: FrameFlow,
    note: Option<Seq<char>>,
    home: Option<Seq<char>>,
) -> Seq<Seq<SpanView>> {
    let t = resolved_theme(canvas.support);
    let f = shown_flow(mode, flow);
    let sel = clamped_selection(selection, ms.len());
    let visible = less(canvas_rows(canvas), note_rows(note));
    let above = flow_line_views(f, visible, t);
    let rows = less(visible, above.len());
    let note_l = match note {
        Some(v) => seq![update_note_spans(v, t)],
        None => Seq::empty(),
    };
    note_l + seq![header_spans(mode, f, home, t)] + above + body_lines(conns, ms, query, sel, rows, mode, t) + seq![
        hint_rail_spans(mode, f, budget_of(canvas), t),
        corner_spans(t),
    ]
}

/// A frame: its lines each cut to the canvas's budget, its layout, the
/// Connections it shows and the clamped selection.
pub open spec fn frame_of(
    conns: Seq<Connection>,
    ms: Seq<(usize, i64, Seq<usize>)>,
    query: Seq<char>,
    selection: nat,
    mode: FrameMode,
    canvas: Canvas,
    flow: FrameFlow,
    note: Option<Seq<char>>,
    home: Option<Seq<char>>,
) -> (Seq<Seq<SpanView>>, FrameState, Seq<usize>, nat) {
    (
        frame_lines_unfitted(conns, ms, query, selection, mode, canvas, flow, note, home).map_values(
            |l: Seq<SpanView>| fitted_spans(l, budget_of(canvas)),
        ),
        state_of(conns.len(), ms.len()),
        ms.map_values(|m: (usize, i64, Seq<usize>)| m.0),
        clamped_selection(selection, ms.len()),
    )
}

/// No frame line is wider than the canvas allows: each is its line cut to
/// the budget (one column short of the width), and what the cut keeps takes
/// at most the budget's columns, counted as the cut counts them.
pub proof fn lemma_frame_lines_within_budget(
    conns: Seq<Connection>,
    ms: Seq<(usize, i64, Seq<usize>)>,
    query: Seq<char>,
    selection: nat,
    mode: FrameMode,
    canvas: Canvas,
    flow: FrameFlow,
    note: Option<Seq<char>>,
    home: Option<Seq<char>>,
    i: int,
)
    requires
        0 <= i < frame_of(conns, ms, query, selection, mode, canvas, flow, note, home).0.len(),
    ensures
        ({
            let u = frame_lines_unfitted(conns, ms, query, selection, mode, canvas, flow, note, home)[i];
            &&& frame_of(conns, ms, query, selection, mode, canvas, flow, note, home).0[i] == fitted_spans(u, budget_of(canvas))
            &&& kept_columns(u, budget_of(canvas)) <= budget_of(canvas)
        }),
{
    let u = frame_lines_unfitted(conns, ms, query, selection, mode, canvas, flow, note, home)[i];
    lemma_fit_line_within_width(u, budget_of(canvas));
}

/// A frame lists each matched Connection once: its matched indices are
/// distinct Connections of the set.
pub proof fn lemma_frame_matched_distinct(
    conns: Seq<Connection>,
    ms: Seq<(usize, i64, Seq<usize>)>,
    query: Seq<char>,
    selection: nat,
    mode: FrameMode,
    canvas: Canvas,
    flow: FrameFlow,
    note: Option<Seq<char>>,
    home: Option<Seq<char>>,
)
    requires
        conns.len() <= usize::MAX,
        crate::frame::is_match_list(conns, query, ms),
    ensures
        ({
            let m = frame_of(conns, ms, query, selection, mode, canvas, flow, note, home).2;
            &&& forall|i: int| 0 <= i < m.len() ==> #[trigger] m[i] < conns.len()
            &&& forall|i: int, j: int| 0 <= i < j < m.len() ==> #[trigger] m[i] != #[trigger] m[j]
        }),
{
    crate::frame::lemma_match_indices_distinct(conns, query, ms);
    let m = frame_of(conns, ms, query, selection, mode, canvas, flow, note, home).2;
    assert forall|i: int| 0 <= i < m.len() implies #[trigger] m[i] < conns.len() by {
        assert(m[i] == ms[i].0);
    }
    assert forall|i: int, j: int| 0 <= i < j < m.len() implies #[trigger] m[i] != #[trigger] m[j] by {
        assert(m[i] == ms[i].0);
        assert(m[j] == ms[j].0);
    }
}

/// Whether every Connection's row fits in the offset arithmetic.
pub open spec fn rows_fit(conns: Seq<Connection>) -> bool {
    forall|i: int| 0 <= i < conns.len() ==> row_fits(#[trigger] conns[i])
}

/// Append `n` rail-only lines.
fn push_pads(lines: &mut Vec<Line>, n: usize, t: &Theme)
    ensures
        lines_view(final(lines)@) == lines_view(old(lines)@) + pad_block(n as nat, *t),
{
    let ghost before = lines_view(lines@);
    let mut k: usize = 0;
    while k < n
        invariant
            k <= n,
            lines_view(lines@) == before + pad_block(k as nat, *t),
        decreases n - k,
    {
        let ghost prev = lines@;
        lines.push(pad_line(t));
        assert(lines_view(lines@) =~= lines_view(prev).push(pad_spans(*t)));
        assert(pad_block((k + 1) as nat, *t) =~= pad_block(k as nat, *t).push(pad_spans(*t)));
        k = k + 1;
    }
}

/// Append a list of lines.
fn push_all(lines: &mut Vec<Line>, more: Vec<Line>)
    ensures
        lines_view(final(lines)@) == lines_view(old(lines)@) + lines_view(more@),
{
    let ghost before = lines_view(lines@);
    let mut k: usize = 0;
    while k < more.len()
        invariant
            k <= more@.len(),
            lines_view(lines@) == before + lines_view(more@).take(k as int),
        decreases more.len() - k,
    {
        let ghost prev = lines@;
        lines.push(more[k].copy());
        assert(lines_view(lines@) =~= lines_view(prev).push(line_view(more@[k as int])));
        assert(lines_view(more@).take(k + 1) =~= lines_view(more@).take(k as int).push(line_view(more@[k as int])));
        k = k + 1;
    }
    assert(lines_view(more@).take(more@.len() as int) =~= lines_view(more@));
}

/// The Connection indices of a match list.
fn matched_ids(matches: &Vec<MatchResult>) -> (r: Vec<usize>)
    ensures
        r@ == match_views(matches@).map_values(|m: (usize, i64, Seq<usize>)| m.0),
{
    let ghost ms = match_views(matches@);
    let mut matched: Vec<usize> = Vec::new();
    let mut k: usize = 0;
    while k < matches.len()
        invariant
            k <= matches@.len(),
            ms == match_views(matches@),
            matched@ == ms.take(k as int).map_values(|m: (usize, i64, Seq<usize>)| m.0),
        decreases matches.len() - k,
    {
        matched.push(matches[k].0);
        assert(ms.take(k + 1) =~= ms.take(k as int).push(ms[k as int]));
        assert(matched@ =~= ms.take(k + 1).map_values(|m: (usize, i64, Seq<usize>)| m.0));
        k = k + 1;
    }
    assert(ms.take(ms.len() as int) =~= ms);
    matched
}

/// Append the list area: the window of rows around the selection, then rail
/// to `rows` lines.
fn push_window_rows(
    lines: &mut Vec<Line>,
    connections: &[Connection],
    matches: &Vec<MatchResult>,
    sel: usize,
    rows: usize,
    t: &Theme,
)
    requires
        rows_fit(connections@),
        matches@.len() > 0,
        forall|j: int| 0 <= j < matches@.len() ==> (#[trigger] matches@[j]).0 < connections@.len(),
    ensures
        lines_view(final(lines)@) == lines_view(old(lines)@) + list_rows(connections@, match_views(matches@), sel as nat, rows as nat, *t),
{
    let ghost ms = match_views(matches@);
    let ghost base = lines_view(lines@);
    let window = crate::frame::visible_window(matches.len(), sel, rows);
    proof {
        if rows > 0 {
            crate::frame::lemma_window_bounds(ms.len(), sel as nat, rows as nat);
        }
    }
    let mut i = window.start;
    while i < window.end
        invariant
            window.start <= i <= window.end,
            window.end <= matches@.len(),
            ms == match_views(matches@),
            rows_fit(connections@),
            forall|j: int| 0 <= j < matches@.len() ==> (#[trigger] matches@[j]).0 < connections@.len(),
            lines_view(lines@) == base + Seq::new(
                (i - window.start) as nat,
                |k: int| row_spans(connections@[ms[window.start + k].0 as int], window.start + k == sel, ms[window.start + k].2, *t),
            ),
        decreases window.end - i,
    {
        let m = &matches[i];
        assert(m.0 < connections@.len());
        let ghost prev = lines_view(lines@);
        let line = row_line(&connections[m.0], i == sel, m.2.as_slice(), t);
        lines.push(line);
        assert(ms[i as int] == (m.0, m.1, m.2@));
        assert(lines_view(lines@) =~= prev.push(line_view(line)));
        assert(lines_view(lines@) =~= base + Seq::new(
            (i + 1 - window.start) as nat,
            |k: int| row_spans(connections@[ms[window.start + k].0 as int], window.start + k == sel, ms[window.start + k].2, *t),
        ));
        i = i + 1;
    }
    let shown = window.end - window.start;
    push_pads(lines, if rows >= shown {
        rows - shown
    } else {
        0
    }, t);
    assert(lines_view(lines@) =~= base + list_rows(connections@, ms, sel as nat, rows as nat, *t));
}

/// Append what sits between the flow lines and the hint rail.
fn push_body(
    lines: &mut Vec<Line>,
    connections: &[Connection],
    matches: &Vec<MatchResult>,
    query: &str,
    sel: usize,
    rows: usize,
    mode: FrameMode,
    t: &Theme,
)
    requires
        rows_fit(connections@),
        forall|j: int| 0 <= j < matches@.len() ==> (#[trigger] matches@[j]).0 < connections@.len(),
    ensures
        lines_view(final(lines)@) == lines_view(old(lines)@) + body_lines(connections@, match_views(matches@), query@, sel as nat, rows as nat, mode, *t),
{
    let ghost base = lines_view(lines@);
    let pads = if rows >= 1 {
        rows - 1
    } else {
        0
    };
    if connections.len() == 0 {
        lines.push(state_line(empty_message(mode), t));
        push_pads(lines, pads, t);
        assert(lines_view(lines@) =~= base + body_lines(connections@, match_views(matches@), query@, sel as nat, rows as nat, mode, *t));
    } else if matches.len() == 0 {
        let mut text = owned("No matches for ");
        let dq = debug_quoted(query);
        let dc = chars_of(dq.as_str());
        push_chars(&mut text, dc.as_slice());
        lines.push(state_line(text.as_str(), t));
        push_pads(lines, pads, t);
        assert(lines_view(lines@) =~= base + body_lines(connections@, match_views(matches@), query@, sel as nat, rows as nat, mode, *t));
    } else {
        push_window_rows(lines, connections, matches, sel, rows, t);
    }
}

/// Cut every line to `budget` columns.
fn fit_lines(lines: &Vec<Line>, budget: usize) -> (r: Vec<Line>)
    ensures
        lines_view(r@) == lines_view(lines@).map_values(|l: Seq<SpanView>| fitted_spans(l, budget as nat)),
{
    let ghost unfitted = lines_view(lines@);
    let mut out: Vec<Line> = Vec::new();
    let mut j: usize = 0;
    while j < lines.len()
        invariant
            j <= lines@.len(),
            unfitted == lines_view(lines@),
            lines_view(out@) == unfitted.take(j as int).map_values(|l: Seq<SpanView>| fitted_spans(l, budget as nat)),
        decreases lines.len() - j,
    {
        let ghost prev = lines_view(out@);
        let fitted = fit_line(lines[j].copy(), budget);
        out.push(fitted);
        assert(lines_view(out@) =~= prev.push(line_view(fitted)));
        assert(unfitted.take(j + 1) =~= unfitted.take(j as int).push(unfitted[j as int]));
        assert(lines_view(out@) =~= unfitted.take(j + 1).map_values(|l: Seq<SpanView>| fitted_spans(l, budget as nat)));
        j = j + 1;
    }
    assert(unfitted.take(lines@.len() as int) =~= unfitted);
    out
}

/// The view of an optional text.
pub open spec fn opt_view(o: Option<&str>) -> Option<Seq<char>> {
    match o {
        Some(v) => Some(v@),
        None => None,
    }
}

/// The frame for a set of Connections, a query, a selected row, a mode, the
/// terminal it is drawn into, the manage flow, the cached update note and
/// the home directory the import path is shown against.
#[verifier::rlimit(60)]
#[verifier::spinoff_prover]
pub fn build_frame_at(
    connections: &[Connection],
    query: &str,
    selection: usize,
    mode: FrameMode,
    canvas: Canvas,
    flow: &FrameFlow,
    note: Option<&str>,
    home: Option<&str>,
) -> (r: Frame)
    requires
        rows_fit(connections@),
    ensures
        r@ == frame_of(
            connections@,
            the_matches(connections@, query@),
            query@,
            selection as nat,
            mode,
            canvas,
            *flow,
            opt_view(note),
            opt_view(home),
        ),
{
    let t = Theme::clack().resolve(canvas.support);
    let matches = compute_matches(connections, query);
    let ghost ms = match_views(matches@);
    let empty = FrameFlow::default();
    let f = match mode {
        FrameMode::Manage => flow,
        FrameMode::Pick => &empty,
    };
    assert(*f == shown_flow(mode, *flow));
    let state = crate::frame::frame_state(connections.len(), matches.len());
    let matched = matched_ids(&matches);
    let last = if matches.len() > 0 {
        matches.len() - 1
    } else {
        0
    };
    let sel = if selection < last {
        selection
    } else {
        last
    };
    let note_count: usize = if note.is_some() {
        1
    } else {
        0
    };
    let fitted = match canvas.visible_rows() {
        Some(v) => v,
        None => 0,
    };
    let visible = if fitted >= note_count {
        fitted - note_count
    } else {
        0
    };
    let ghost nv = opt_view(note);
    let ghost hv = opt_view(home);
    let mut lines: Vec<Line> = Vec::new();
    match note {
        Some(v) => {
            lines.push(update_note_line(v, &t));
        },
        None => {},
    }
    let ghost note_l: Seq<Seq<SpanView>> = match nv {
        Some(v) => seq![update_note_spans(v, t)],
        None => Seq::empty(),
    };
    assert(lines_view(lines@) =~= note_l);
    let header = header_line(mode, f, home, &t);
    lines.push(header);
    assert(lines_view(lines@) =~= note_l + seq![header_spans(mode, *f, hv, t)]);
    let above = flow_lines(f, visible, &t);
    let ghost above_v = lines_view(above@);
    let rows = if visible >= above.len() {
        visible - above.len()
    } else {
        0
    };
    push_all(&mut lines, above);
    let ghost l3 = lines_view(lines@);
    push_body(&mut lines, connections, &matches, query, sel, rows, mode, &t);
    let ghost body = body_lines(connections@, ms, query@, sel as nat, rows as nat, mode, t);
    let hint = hint_rail_line(mode, f, canvas.fit_width(), &t);
    lines.push(hint);
    let corner = corner_line(&t);
    lines.push(corner);
    let budget = canvas.fit_width();
    proof {
        assert(t == resolved_theme(canvas.support));
        assert(visible as nat == less(canvas_rows(canvas), note_rows(nv)));
        assert(above_v == flow_line_views(shown_flow(mode, *flow), visible as nat, t));
        assert(rows as nat == less(visible as nat, above_v.len()));
        assert(sel as nat == clamped_selection(selection as nat, ms.len()));
        assert(budget as nat == budget_of(canvas));
        assert(lines_view(lines@) =~= note_l + seq![header_spans(mode, *f, hv, t)] + above_v + body + seq![
            hint_rail_spans(mode, *f, budget as nat, t),
            corner_spans(t),
        ]);
        assert(lines_view(lines@) =~= frame_lines_unfitted(connections@, ms, query@, selection as nat, mode, canvas, *flow, nv, hv));
    }
    let out = fit_lines(&lines, budget);
    Frame { lines: out, state, matched, selection: sel }
}


/// The home directory only matters to the import offer's question.
pub proof fn lemma_home_only_shows_in_the_offer(
    conns: Seq<Connection>,
    ms: Seq<(usize, i64, Seq<usize>)>,
    query: Seq<char>,
    selection: nat,
    mode: FrameMode,
    canvas: Canvas,
    flow: FrameFlow,
    note: Option<Seq<char>>,
    home: Option<Seq<char>>,
)
    requires
        shown_flow(mode, flow).import_offer is None,
    ensures
        frame_of(conns, ms, query, selection, mode, canvas, flow, note, home) == frame_of(
            conns,
            ms,
            query,
            selection,
            mode,
            canvas,
            flow,
            note,
            None,
        ),
{
    let t = resolved_theme(canvas.support);
    assert(header_spans(mode, shown_flow(mode, flow), home, t) == header_spans(mode, shown_flow(mode, flow), None, t));
    assert(frame_lines_unfitted(conns, ms, query, selection, mode, canvas, flow, note, home) =~= frame_lines_unfitted(
        conns,
        ms,
        query,
        selection,
        mode,
        canvas,
        flow,
        note,
        None,
    ));
}

/// [`build_frame_with_flow`] with the cached update note drawn above the
/// header, out of the row budget: the frame is the same height with or
/// without it. The home directory the import offer's path is shown against
/// is read only when the manage frame is asking that question.
pub fn build_frame_with_note(
    connections: &[Connection],
    query: &str,
    selection: usize,
    mode: FrameMode,
    canvas: Canvas,
    flow: &FrameFlow,
    note: Option<&str>,
) -> (r: Frame)
    requires
        rows_fit(connections@),
    ensures
        exists|home: Option<Seq<char>>|
            r@ == frame_of(
                connections@,
                the_matches(connections@, query@),
                query@,
                selection as nat,
                mode,
                canvas,
                *flow,
                opt_view(note),
                home,
            ),
        shown_flow(mode, *flow).import_offer is None ==> r@ == frame_of(
            connections@,
            the_matches(connections@, query@),
            query@,
            selection as nat,
            mode,
            canvas,
            *flow,
            opt_view(note),
            None,
        ),
{
    let asks_import = match mode {
        FrameMode::Manage => flow.import_offer.is_some(),
        FrameMode::Pick => false,
    };
    if asks_import {
        let home = home_text();
        match home {
            Some(h) => build_frame_at(connections, query, selection, mode, canvas, flow, note, Some(h.as_str())),
            None => build_frame_at(connections, query, selection, mode, canvas, flow, note, None),
        }
    } else {
        build_frame_at(connections, query, selection, mode, canvas, flow, note, None)
    }
}

/// [`build_frame`] with the manage flow layered on: the delete question in
/// the header, the form or the note the last action left above the rows.
pub fn build_frame_with_flow(
    connections: &[Connection],
    query: &str,
    selection: usize,
    mode: FrameMode,
    canvas: Canvas,
    flow: &FrameFlow,
) -> (r: Frame)
    requires
        rows_fit(connections@),
    ensures
        exists|home: Option<Seq<char>>|
            r@ == frame_of(
                connections@,
                the_matches(connections@, query@),
                query@,
                selection as nat,
                mode,
                canvas,
                *flow,
                None,
                home,
            ),
        shown_flow(mode, *flow).import_offer is None ==> r@ == frame_of(
            connections@,
            the_matches(connections@, query@),
            query@,
            selection as nat,
            mode,
            canvas,
            *flow,
            None,
            None,
        ),
{
    build_frame_with_note(connections, query, selection, mode, canvas, flow, None)
}

/// The frame for a set of Connections, a live query, a selected row, a mode
/// and the terminal it is drawn into, with no flow and no note.
pub fn build_frame(connections: &[Connection], query: &str, selection: usize, mode: FrameMode, canvas: Canvas) -> (r: Frame)
    requires
        rows_fit(connections@),
    ensures
        r@ == frame_of(
            connections@,
            the_matches(connections@, query@),
            query@,
            selection as nat,
            mode,
            canvas,
            no_flow(),
            None,
            None,
        ),
{
    let none = FrameFlow::default();
    let r = build_frame_with_flow(connections, query, selection, mode, canvas, &none);
    assert(none == no_flow());
    r
}


/// The rows the list area keeps once the note and the flow lines have
/// taken theirs.
pub open spec fn list_area_rows(mode: FrameMode, canvas: Canvas, flow: FrameFlow, note: Option<Seq<char>>) -> nat {
    let visible = less(canvas_rows(canvas), note_rows(note));
    less(visible, flow_line_views(shown_flow(mode, flow), visible, resolved_theme(canvas.support)).len())
}

/// A frame is one height: three lines of chrome plus the rows the canvas
/// leaves, whatever the query, the selection, the flow and the note, as
/// long as the list area keeps a row (a list of matches always fills its
/// area; an empty or unmatched list needs one row for its message).
pub proof fn lemma_frame_height(
    conns: Seq<Connection>,
    ms: Seq<(usize, i64, Seq<usize>)>,
    query: Seq<char>,
    selection: nat,
    mode: FrameMode,
    canvas: Canvas,
    flow: FrameFlow,
    note: Option<Seq<char>>,
    home: Option<Seq<char>>,
)
    requires
        canvas_rows(canvas) >= note_rows(note),
        list_area_rows(mode, canvas, flow, note) >= 1 || state_of(conns.len(), ms.len()) == FrameState::Rows,
    ensures
        frame_of(conns, ms, query, selection, mode, canvas, flow, note, home).0.len() == canvas_rows(canvas) + 3,
{
    let t = resolved_theme(canvas.support);
    let f = shown_flow(mode, flow);
    let visible = less(canvas_rows(canvas), note_rows(note));
    let above = flow_line_views(f, visible, t);
    let rows = less(visible, above.len());
    let sel = clamped_selection(selection, ms.len());
    assert(above.len() <= visible);
    let body = body_lines(conns, ms, query, sel, rows, mode, t);
    if state_of(conns.len(), ms.len()) == FrameState::Rows {
        if rows == 0 || ms.len() == 0 {
            assert(body.len() == rows);
        } else {
            let v: nat = if rows < ms.len() {
                rows
            } else {
                ms.len()
            };
            assert(body.len() == v + (rows - v));
        }
    } else {
        assert(body.len() == 1 + less(rows, 1));
    }
    assert(body.len() == rows);
}


/// A pick frame draws no flow: whatever the manage interaction holds, the
/// pick frame is the same.
pub proof fn lemma_pick_ignores_flow(
    conns: Seq<Connection>,
    ms: Seq<(usize, i64, Seq<usize>)>,
    query: Seq<char>,
    selection: nat,
    canvas: Canvas,
    a: FrameFlow,
    b: FrameFlow,
    note: Option<Seq<char>>,
    home: Option<Seq<char>>,
)
    ensures
        frame_of(conns, ms, query, selection, FrameMode::Pick, canvas, a, note, home) == frame_of(
            conns,
            ms,
            query,
            selection,
            FrameMode::Pick,
            canvas,
            b,
            note,
            home,
        ),
{
    assert(shown_flow(FrameMode::Pick, a) == shown_flow(FrameMode::Pick, b));
}


/// A line's text, read from its first span.
proof fn lemma_line_text_front(first: SpanView, rest: Seq<SpanView>)
    ensures
        line_text(seq![first] + rest) == first.0 + line_text(rest),
    decreases rest.len(),
{
    if rest.len() == 0 {
        assert(seq![first] + rest =~= seq![first]);
        assert(seq![first].drop_last() =~= Seq::<SpanView>::empty());
        assert(line_text(seq![first]) == line_text(Seq::<SpanView>::empty()) + first.0);
        assert(line_text(seq![first]) =~= first.0);
        assert(first.0 + line_text(rest) =~= first.0);
    } else {
        lemma_line_text_front(first, rest.drop_last());
        assert((seq![first] + rest).drop_last() =~= seq![first] + rest.drop_last());
        assert((seq![first] + rest).last() == rest.last());
        assert(first.0 + line_text(rest) =~= first.0 + line_text(rest.drop_last()) + rest.last().0);
    }
}

/// The characters that fit are the front of the text.
proof fn lemma_fitting_chars_prefix(s: Seq<char>, room: nat)
    ensures
        fitting_chars(s, room).is_prefix_of(s),
    decreases s.len(),
{
    if s.len() > 0 && glyph_cols(s[0]) <= room {
        lemma_fitting_chars_prefix(s.drop_first(), (room - glyph_cols(s[0])) as nat);
        let t = fitting_chars(s.drop_first(), (room - glyph_cols(s[0])) as nat);
        assert(seq![s[0]] + t =~= s.take((t.len() + 1) as int)) by {
            assert(t =~= s.drop_first().take(t.len() as int));
        }
    }
}

/// Fitting a line only cuts its tail: what survives reads as the front of
/// what was there, span by span in the same styles, and no span after the
/// cut survives.
pub proof fn lemma_fit_keeps_the_front(spans: Seq<SpanView>, room: nat)
    ensures
        line_text(fitted_spans(spans, room)).is_prefix_of(line_text(spans)),
        fitted_spans(spans, room).len() <= spans.len(),
        forall|i: int| 0 <= i < fitted_spans(spans, room).len() ==> (#[trigger] fitted_spans(spans, room)[i]).1 == spans[i].1,
    decreases spans.len(),
{
    if spans.len() > 0 {
        let rest = spans.drop_first();
        assert(spans =~= seq![spans[0]] + rest);
        lemma_line_text_front(spans[0], rest);
        if str_columns(spans[0].0) <= room {
            let r2 = (room - str_columns(spans[0].0)) as nat;
            lemma_fit_keeps_the_front(rest, r2);
            lemma_line_text_front(spans[0], fitted_spans(rest, r2));
            let a = line_text(fitted_spans(rest, r2));
            let b = line_text(rest);
            assert(a =~= b.take(a.len() as int));
            assert(spans[0].0 + a =~= (spans[0].0 + b).take((spans[0].0.len() + a.len()) as int));
        } else {
            let keep = fitting_chars(spans[0].0, room);
            lemma_fitting_chars_prefix(spans[0].0, room);
            if keep.len() > 0 {
                lemma_line_text_front((keep, spans[0].1), Seq::empty());
                assert(seq![(keep, spans[0].1)] =~= seq![(keep, spans[0].1)] + Seq::<SpanView>::empty());
                assert(keep + line_text(Seq::<SpanView>::empty()) =~= keep);
                assert(keep =~= (spans[0].0 + line_text(rest)).take(keep.len() as int));
            } else {
                assert(line_text(Seq::<SpanView>::empty()) =~= Seq::<char>::empty());
            }
        }
    }
}

} // verus!
