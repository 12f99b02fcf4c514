//! What a live inline frame decides and writes.
//!
//! A frame is a value ([`crate::frame::Frame`]); this module is what makes it
//! live in somebody's shell without wrecking it. The model is pure: how a
//! frame closes ([`settle_trace`]), what a resize means ([`plan_resize`]),
//! which rows a redraw has to touch ([`diff_rows`]) and what a keystroke does
//! to the query and the cursor ([`inline_key`]). [`LiveFrame`] remembers what
//! is on the glass and answers each step with the exact bytes to write; the
//! program writes them and reads the next key.
//!
//! The bytes never ask for the alternate screen, the frame keeps one height
//! while it is live, and every exit collapses the live rows away.

use vstd::prelude::*;
use crate::config::Connection;
use crate::draw::{bold_of, dim_of, line_columns, resolved_theme, role, spans_view, text_width, SpanView};
use crate::frame::{fit_visible_rows, meta_text, Canvas};
use crate::keys::{KeyCode, KeyEvent};
use crate::paint::{
    ansi_runs, line_text, line_to_ansi, line_view, lines_view, plain_style, same_line, Line, Span,
    Style, Theme, RESET,
};
use crate::text::{chars_of, decimal, decimal_string, owned, push_char, push_chars, without_last, drop_last_char};

verus! {

/// What the live frame collapses to when it closes.
#[derive(Debug, Clone, PartialEq, Eq)]
pub enum Settle {
    /// A Connection was chosen.
    Picked(Connection),
    /// The user left with `Esc`/`Ctrl+C`, or the frame could not be preserved.
    Cancelled,
}

/// What is on screen under the live frame: the two facts a resize decision
/// needs.
#[derive(Debug, Clone, Copy, PartialEq, Eq)]
pub struct Live {
    /// How many rows the frame occupies right now.
    pub rows: usize,
    /// The display width of the widest row drawn.
    pub widest: usize,
}

/// What to do when the terminal changes size mid-frame.
#[derive(Debug, Clone, Copy, PartialEq, Eq)]
pub enum ResizePlan {
    /// Tear the frame down and re-open it at the new size.
    Reopen {
        /// How many list rows the new terminal leaves the frame.
        visible_rows: usize,
    },
    /// The live rows cannot be erased cleanly at the new size, or the new
    /// terminal cannot hold a frame at all: cancel and give the screen back.
    CancelAndRestore,
}

/// Decide what a resize means for a live frame: cancel when a drawn row is
/// wider than the new terminal (it has wrapped, and a wrapped row cannot be
/// counted) or when the new terminal is too short for a frame, and reopen
/// with the rows it leaves otherwise.
pub fn plan_resize(live: Live, new_width: usize, new_height: usize) -> (r: ResizePlan)
    ensures
        live.widest > new_width ==> r == ResizePlan::CancelAndRestore,
        live.widest <= new_width ==> r == match crate::frame::fitted_rows(new_height as nat) {
            Some(v) => ResizePlan::Reopen { visible_rows: v as usize },
            None => ResizePlan::CancelAndRestore,
        },
{
    if live.widest > new_width {
        return ResizePlan::CancelAndRestore;
    }
    match fit_visible_rows(new_height) {
        Some(visible_rows) => ResizePlan::Reopen { visible_rows },
        None => ResizePlan::CancelAndRestore,
    }
}

/// What the user did with a live frame.
#[derive(Debug, Clone, PartialEq, Eq)]
pub enum InlineOutcome {
    /// Enter on a row: the frame's own selection.
    Picked(Connection),
    /// `Esc`, `Ctrl+C`, or a resize the frame could not survive.
    Cancelled,
}

// ───────────────────────────── the settle trace ─────────────────────────────

/// The one line a closed frame leaves behind: `◆ picked  alias  (user@host:port)`
/// or `◆ cancelled`.
pub open spec fn settle_spans(s: Settle, t: Theme) -> Seq<SpanView> {
    match s {
        Settle::Picked(c) => seq![
            ("◆"@, role(t.accent)),
            (" picked  "@, plain_style()),
            (c.alias@, bold_of()),
            ("  "@, plain_style()),
            (meta_text(c), dim_of(t)),
        ],
        Settle::Cancelled => seq![("◆"@, role(t.border)), (" cancelled"@, dim_of(t))],
    }
}

/// `(user@host:port)`.
fn meta_of(c: &Connection) -> (r: String)
    ensures
        r@ == meta_text(*c),
{
    let mut out = String::new();
    push_char(&mut out, '(');
    let user = chars_of(c.user.as_str());
    push_chars(&mut out, user.as_slice());
    push_char(&mut out, '@');
    let host = chars_of(c.host.as_str());
    push_chars(&mut out, host.as_slice());
    push_char(&mut out, ':');
    let port = decimal_string(c.port as u64);
    let pc = chars_of(port.as_str());
    push_chars(&mut out, pc.as_slice());
    push_char(&mut out, ')');
    out
}

/// The line a closed frame leaves behind, in the frame's own grammar:
/// accent icon, bold alias, dim meta. The folder is not named.
pub fn settle_trace(settle: &Settle, canvas: Canvas) -> (r: Vec<Line>)
    ensures
        lines_view(r@) == seq![settle_spans(*settle, resolved_theme(canvas.support))],
{
    let t = Theme::clack().resolve(canvas.support);
    let dim = Style::fg_dim(t.fg_muted);
    let mut spans: Vec<Span> = Vec::new();
    match settle {
        Settle::Picked(c) => {
            spans.push(Span::text("◆", Style::fg(t.accent)));
            spans.push(Span::text(" picked  ", Style::plain()));
            spans.push(Span::text(c.alias.as_str(), Style::bold()));
            spans.push(Span::text("  ", Style::plain()));
            spans.push(Span::styled(meta_of(c), dim));
        },
        Settle::Cancelled => {
            spans.push(Span::text("◆", Style::fg(t.border)));
            spans.push(Span::text(" cancelled", dim));
        },
    }
    assert(spans_view(spans@) =~= settle_spans(*settle, t));
    let line = Line { spans };
    let mut out: Vec<Line> = Vec::new();
    out.push(line);
    assert(lines_view(out@) =~= seq![settle_spans(*settle, resolved_theme(canvas.support))]);
    out
}

// ───────────────────────────── the row diff ─────────────────────────────

/// One row of the frame, as an instruction to the driver.
#[derive(Debug, Clone, PartialEq)]
pub enum RowOp {
    /// The row already shows what it should. Move past it.
    Keep,
    /// Replace this row with the line. Move past it.
    Rewrite(Line),
    /// This row is gone. Delete it and stay on the row that took its place.
    Erase,
}

/// The instruction row `i` needs to turn `prev` into `next`: keep a row
/// that shows the same thing, rewrite one that changed or is new, erase one
/// that is gone.
pub open spec fn op_fits(op: RowOp, prev: Seq<Seq<SpanView>>, next: Seq<Seq<SpanView>>, i: int) -> bool {
    if i < prev.len() && i < next.len() && prev[i] == next[i] {
        op is Keep
    } else if i < next.len() {
        op matches RowOp::Rewrite(l) && line_view(l) == next[i]
    } else if i < prev.len() {
        op is Erase
    } else {
        op is Keep
    }
}

/// The larger of two lengths.
pub open spec fn longer(a: nat, b: nat) -> nat {
    if a >= b {
        a
    } else {
        b
    }
}

/// Row-diff the live frame against what it should become, position by
/// position: row `i` of the old frame and row `i` of the new one are the
/// same row.
pub fn diff_rows(prev: &[Line], next: &[Line]) -> (r: Vec<RowOp>)
    ensures
        r@.len() == longer(prev@.len(), next@.len()),
        forall|i: int| 0 <= i < r@.len() ==> op_fits(#[trigger] r@[i], lines_view(prev@), lines_view(next@), i),
{
    let n = if prev.len() >= next.len() {
        prev.len()
    } else {
        next.len()
    };
    let mut ops: Vec<RowOp> = Vec::new();
    let mut i: usize = 0;
    while i < n
        invariant
            i <= n,
            n == longer(prev@.len(), next@.len()),
            ops@.len() == i,
            forall|k: int| 0 <= k < i ==> op_fits(#[trigger] ops@[k], lines_view(prev@), lines_view(next@), k),
        decreases n - i,
    {
        let op = if i < prev.len() && i < next.len() {
            if same_line(&prev[i], &next[i]) {
                RowOp::Keep
            } else {
                RowOp::Rewrite(next[i].copy())
            }
        } else if i < next.len() {
            RowOp::Rewrite(next[i].copy())
        } else if i < prev.len() {
            RowOp::Erase
        } else {
            RowOp::Keep
        };
        ops.push(op);
        i = i + 1;
    }
    ops
}

// ───────────────────────────── keystrokes ─────────────────────────────

/// What a keystroke asks of a live frame.
#[derive(Debug, Clone, Copy, PartialEq, Eq)]
pub enum InlineAction {
    /// Collapse to the cancel trace and give the shell back.
    Cancel,
    /// Collapse to the pick trace with the frame's own selection.
    Pick,
    /// Rebuild the frame from the new query and selection and redraw it.
    Redraw,
    /// Nothing to do.
    Ignore,
}

/// The cursor one row down, held at `usize::MAX`.
pub open spec fn one_down(selection: nat) -> nat {
    if selection < usize::MAX {
        selection + 1
    } else {
        selection
    }
}

/// What a keystroke does to a live frame's query and cursor: `Esc` and
/// `Ctrl+C` cancel; `↑`/`k` and `↓`/`j` move the cursor (never below zero,
/// never past `usize::MAX`);
/// Enter picks when the frame has a row under the cursor and otherwise just
/// redraws; Backspace drops the query's last character; any other character
/// typed without Ctrl joins the query; anything else is ignored.
pub open spec fn key_effect(query: Seq<char>, selection: nat, key: KeyEvent, can_pick: bool) -> (Seq<char>, nat, InlineAction) {
    match key.code {
        KeyCode::Esc => (query, selection, InlineAction::Cancel),
        KeyCode::Char(c) => if c == 'c' && key.modifiers.control {
            (query, selection, InlineAction::Cancel)
        } else if c == 'k' {
            (query, if selection > 0 {
                (selection - 1) as nat
            } else {
                0
            }, InlineAction::Redraw)
        } else if c == 'j' {
            (query, one_down(selection), InlineAction::Redraw)
        } else if !key.modifiers.control {
            (query.push(c), selection, InlineAction::Redraw)
        } else {
            (query, selection, InlineAction::Ignore)
        },
        KeyCode::Up => (query, if selection > 0 {
            (selection - 1) as nat
        } else {
            0
        }, InlineAction::Redraw),
        KeyCode::Down => (query, one_down(selection), InlineAction::Redraw),
        KeyCode::Enter => if can_pick {
            (query, selection, InlineAction::Pick)
        } else {
            (query, selection, InlineAction::Redraw)
        },
        KeyCode::Backspace => (drop_last_char(query), selection, InlineAction::Redraw),
        _ => (query, selection, InlineAction::Ignore),
    }
}

/// Apply a keystroke to a live frame's query and cursor, and say what the
/// frame has to do next. `can_pick` is whether the frame has a row under the
/// cursor. The cursor saturates at `usize::MAX` going down; the frame clamps
/// it to its rows when it is rebuilt.
pub fn inline_key(query: &mut String, selection: &mut usize, key: KeyEvent, can_pick: bool) -> (r: InlineAction)
    ensures
        (final(query)@, *final(selection) as nat, r) == key_effect(old(query)@, *old(selection) as nat, key, can_pick),
{
    match key.code {
        KeyCode::Esc => InlineAction::Cancel,
        KeyCode::Char(c) => {
            if c == 'c' && key.modifiers.control {
                InlineAction::Cancel
            } else if c == 'k' {
                if *selection > 0 {
                    *selection = *selection - 1;
                }
                InlineAction::Redraw
            } else if c == 'j' {
                if *selection < usize::MAX {
                    *selection = *selection + 1;
                }
                InlineAction::Redraw
            } else if !key.modifiers.control {
                push_char(query, c);
                InlineAction::Redraw
            } else {
                InlineAction::Ignore
            }
        },
        KeyCode::Up => {
            if *selection > 0 {
                *selection = *selection - 1;
            }
            InlineAction::Redraw
        },
        KeyCode::Down => {
            if *selection < usize::MAX {
                *selection = *selection + 1;
            }
            InlineAction::Redraw
        },
        KeyCode::Enter => if can_pick {
            InlineAction::Pick
        } else {
            InlineAction::Redraw
        },
        KeyCode::Backspace => {
            *query = without_last(query);
            InlineAction::Redraw
        },
        _ => InlineAction::Ignore,
    }
}


// ───────────────────────────── the driver ─────────────────────────────

/// Clear the row the cursor is on.
pub const ERASE_ROW: &'static str = "\x1b[2K";

/// Delete the row the cursor is on, pulling the rows below it up.
pub const DELETE_ROW: &'static str = "\x1b[M";

/// Step down to the start of the next row.
pub const NEXT_ROW: &'static str = "\r\n";

/// Move the cursor up `rows` rows, to column zero.
pub open spec fn up_text(rows: nat) -> Seq<char> {
    "\x1b["@ + decimal(rows) + "A\r"@
}

/// Delete `rows` rows at the cursor.
pub open spec fn delete_text(rows: nat) -> Seq<char> {
    "\x1b["@ + decimal(rows) + "M"@
}

/// One drawn row: clear the line, draw it, step down.
pub open spec fn row_bytes(l: Seq<SpanView>) -> Seq<char> {
    ERASE_ROW@ + ansi_runs(l, None) + RESET@ + NEXT_ROW@
}

/// Lines drawn one after another from the cursor.
pub open spec fn paint_text(ls: Seq<Seq<SpanView>>) -> Seq<char>
    decreases ls.len(),
{
    if ls.len() == 0 {
        Seq::empty()
    } else {
        paint_text(ls.drop_last()) + row_bytes(ls.last())
    }
}

/// What one instruction writes.
pub open spec fn op_text(op: RowOp) -> Seq<char> {
    match op {
        RowOp::Keep => NEXT_ROW@,
        RowOp::Rewrite(l) => row_bytes(line_view(l)),
        RowOp::Erase => DELETE_ROW@,
    }
}

/// What a list of instructions writes.
pub open spec fn ops_text(ops: Seq<RowOp>) -> Seq<char>
    decreases ops.len(),
{
    if ops.len() == 0 {
        Seq::empty()
    } else {
        ops_text(ops.drop_last()) + op_text(ops.last())
    }
}

/// What row `i` shows after its instruction: the row that was there, the
/// line it was rewritten to, or nothing once erased.
pub open spec fn op_leaves(op: RowOp, drawn: Seq<Seq<SpanView>>, i: int) -> Seq<Seq<SpanView>> {
    match op {
        RowOp::Keep => if 0 <= i < drawn.len() {
            seq![drawn[i]]
        } else {
            Seq::empty()
        },
        RowOp::Rewrite(l) => seq![line_view(l)],
        RowOp::Erase => Seq::empty(),
    }
}

/// What is on screen after a list of instructions over `drawn`.
pub open spec fn ops_leave(ops: Seq<RowOp>, drawn: Seq<Seq<SpanView>>) -> Seq<Seq<SpanView>>
    decreases ops.len(),
{
    if ops.len() == 0 {
        Seq::empty()
    } else {
        ops_leave(ops.drop_last(), drawn) + op_leaves(ops.last(), drawn, ops.len() - 1)
    }
}

/// The widest of a set of drawn lines, in terminal columns.
pub open spec fn widest_of(ls: Seq<Seq<SpanView>>) -> nat
    decreases ls.len(),
{
    if ls.len() == 0 {
        0
    } else {
        let w = widest_of(ls.drop_last());
        if line_columns(ls.last()) > w {
            line_columns(ls.last())
        } else {
            w
        }
    }
}

/// A count held in a `usize`, stopping at its top.
pub open spec fn capped(n: nat) -> nat {
    if n > usize::MAX {
        usize::MAX as nat
    } else {
        n
    }
}

/// The diff of two frames leaves exactly the second on screen.
pub proof fn lemma_diff_lands(prev: Seq<Seq<SpanView>>, next: Seq<Seq<SpanView>>, ops: Seq<RowOp>)
    requires
        ops.len() == longer(prev.len(), next.len()),
        forall|i: int| 0 <= i < ops.len() ==> op_fits(#[trigger] ops[i], prev, next, i),
    ensures
        ops_leave(ops, prev) == next,
{
    assert forall|k: nat| k <= ops.len() implies #[trigger] ops_leave(ops.take(k as int), prev) == next.take(
        if k < next.len() {
            k as int
        } else {
            next.len() as int
        },
    ) by {
        lemma_diff_prefix(prev, next, ops, k);
    }
    assert(ops.take(ops.len() as int) =~= ops);
    assert(ops_leave(ops.take(ops.len() as int), prev) == next.take(next.len() as int));
    assert(next.take(next.len() as int) =~= next);
}

/// The first `k` instructions of a diff leave the first `k` rows of the new
/// frame (all of them, once `k` passes its end).
proof fn lemma_diff_prefix(prev: Seq<Seq<SpanView>>, next: Seq<Seq<SpanView>>, ops: Seq<RowOp>, k: nat)
    requires
        ops.len() == longer(prev.len(), next.len()),
        forall|i: int| 0 <= i < ops.len() ==> op_fits(#[trigger] ops[i], prev, next, i),
        k <= ops.len(),
    ensures
        ops_leave(ops.take(k as int), prev) == next.take(
            if k < next.len() {
                k as int
            } else {
                next.len() as int
            },
        ),
    decreases k,
{
    if k == 0 {
        assert(ops.take(0) =~= Seq::<RowOp>::empty());
        assert(next.take(0) =~= Seq::<Seq<SpanView>>::empty());
    } else {
        lemma_diff_prefix(prev, next, ops, (k - 1) as nat);
        let t = ops.take(k as int);
        assert(t.drop_last() =~= ops.take(k - 1));
        assert(t.last() == ops[k - 1]);
        assert(op_fits(ops[k - 1], prev, next, k - 1));
        if k - 1 < next.len() {
            assert(next.take(k as int) =~= next.take(k - 1).push(next[k - 1]));
        } else {
            assert(op_leaves(ops[k - 1], prev, k - 1) =~= Seq::<Seq<SpanView>>::empty());
        }
    }
}

/// A live frame: what is on the glass, in the user's own scrollback, and how
/// wide its widest row is. Each step answers with the bytes to write.
#[derive(Debug)]
pub struct LiveFrame {
    drawn: Vec<Line>,
    widest: usize,
}

impl View for LiveFrame {
    type V = Seq<Seq<SpanView>>;

    closed spec fn view(&self) -> Self::V {
        lines_view(self.drawn@)
    }
}

/// Append `s`.
fn append(out: &mut String, s: &str)
    ensures
        final(out)@ == old(out)@ + s@,
{
    let c = chars_of(s);
    push_chars(out, c.as_slice());
}

/// `\x1b[<rows><letter>`.
fn csi_count(rows: usize, tail: &str) -> (r: String)
    ensures
        r@ == "\x1b["@ + decimal(rows as nat) + tail@,
{
    let mut out = owned("\x1b[");
    let d = decimal_string(rows as u64);
    append(&mut out, d.as_str());
    append(&mut out, tail);
    out
}

/// The columns a line takes, counted up to `usize::MAX`.
fn line_width(line: &Line) -> (r: usize)
    ensures
        r as nat == capped(line_columns(line_view(*line))),
{
    let ghost lv = line_view(*line);
    let mut w: usize = 0;
    let mut k: usize = 0;
    while k < line.spans.len()
        invariant
            k <= line.spans@.len(),
            lv == line_view(*line),
            w as nat == capped(line_columns(lv.take(k as int))),
        decreases line.spans.len() - k,
    {
        let n = text_width(line.spans[k].content.as_str());
        assert(lv.take(k + 1).drop_last() =~= lv.take(k as int));
        assert(lv.take(k + 1).last() == lv[k as int]);
        w = if w > usize::MAX - n {
            usize::MAX
        } else {
            w + n
        };
        k = k + 1;
    }
    assert(lv.take(lv.len() as int) =~= lv);
    w
}

/// The widest of a set of lines, counted up to `usize::MAX`.
fn widest_line(lines: &Vec<Line>) -> (r: usize)
    ensures
        r as nat == capped(widest_of(lines_view(lines@))),
{
    let ghost lv = lines_view(lines@);
    let mut w: usize = 0;
    let mut k: usize = 0;
    while k < lines.len()
        invariant
            k <= lines@.len(),
            lv == lines_view(lines@),
            w as nat == capped(widest_of(lv.take(k as int))),
        decreases lines.len() - k,
    {
        let n = line_width(&lines[k]);
        assert(lv.take(k + 1).drop_last() =~= lv.take(k as int));
        assert(lv.take(k + 1).last() == lv[k as int]);
        if n > w {
            w = n;
        }
        k = k + 1;
    }
    assert(lv.take(lv.len() as int) =~= lv);
    w
}

impl LiveFrame {
    /// What the driver keeps true: the widest count is the widest drawn row.
    #[verifier::type_invariant]
    spec fn counted(self) -> bool {
        self.widest as nat == capped(widest_of(lines_view(self.drawn@)))
    }

    /// A driver with nothing drawn yet.
    pub fn new() -> (r: Self)
        ensures
            r@ == Seq::<Seq<SpanView>>::empty(),
    {
        let r = LiveFrame { drawn: Vec::new(), widest: 0 };
        assert(lines_view(r.drawn@) =~= Seq::<Seq<SpanView>>::empty());
        r
    }

    /// What is on screen right now, for [`plan_resize`] to decide against.
    pub fn geometry(&self) -> (r: Live)
        ensures
            r.rows == self@.len(),
            r.widest as nat == capped(widest_of(self@)),
    {
        proof {
            use_type_invariant(self);
        }
        Live { rows: self.drawn.len(), widest: self.widest }
    }

    /// Record what is now on screen.
    fn commit(&mut self, drawn: Vec<Line>)
        ensures
            final(self)@ == lines_view(drawn@),
    {
        let widest = widest_line(&drawn);
        *self = LiveFrame { drawn, widest };
    }

    /// Move the cursor back to the top of the live frame.
    fn rewind(&self) -> (r: String)
        ensures
            r@ == if self@.len() == 0 {
                Seq::<char>::empty()
            } else {
                up_text(self@.len())
            },
    {
        if self.drawn.len() == 0 {
            String::new()
        } else {
            csi_count(self.drawn.len(), "A\r")
        }
    }

    /// Draw `lines` from where the cursor stands, one row per line.
    fn paint(&mut self, lines: &[Line]) -> (r: String)
        ensures
            r@ == paint_text(lines_view(lines@)),
            final(self)@ == lines_view(lines@),
    {
        let ghost lv = lines_view(lines@);
        let mut out = String::new();
        let mut next: Vec<Line> = Vec::new();
        let mut k: usize = 0;
        while k < lines.len()
            invariant
                k <= lines@.len(),
                lv == lines_view(lines@),
                out@ == paint_text(lv.take(k as int)),
                lines_view(next@) == lv.take(k as int),
            decreases lines.len() - k,
        {
            append(&mut out, ERASE_ROW);
            let a = line_to_ansi(&lines[k]);
            append(&mut out, a.as_str());
            append(&mut out, NEXT_ROW);
            let ghost prev = next@;
            next.push(lines[k].copy());
            assert(lv.take(k + 1).drop_last() =~= lv.take(k as int));
            assert(lv.take(k + 1).last() == lv[k as int]);
            assert(lines_view(next@) =~= lines_view(prev).push(lv[k as int]));
            k = k + 1;
        }
        assert(lv.take(lv.len() as int) =~= lv);
        self.commit(next);
        out
    }

    /// Carry out a row diff from where the cursor stands.
    fn apply(&mut self, ops: &Vec<RowOp>) -> (r: String)
        ensures
            r@ == ops_text(ops@),
            final(self)@ == ops_leave(ops@, old(self)@),
    {
        let ghost drawn = self@;
        let mut out = String::new();
        let mut next: Vec<Line> = Vec::new();
        let mut k: usize = 0;
        while k < ops.len()
            invariant
                k <= ops@.len(),
                drawn == lines_view(self.drawn@),
                out@ == ops_text(ops@.take(k as int)),
                lines_view(next@) == ops_leave(ops@.take(k as int), drawn),
            decreases ops.len() - k,
        {
            let ghost prev = next@;
            assert(ops@.take(k + 1).drop_last() =~= ops@.take(k as int));
            assert(ops@.take(k + 1).last() == ops@[k as int]);
            match &ops[k] {
                RowOp::Keep => {
                    append(&mut out, NEXT_ROW);
                    if k < self.drawn.len() {
                        next.push(self.drawn[k].copy());
                        assert(lines_view(next@) =~= lines_view(prev) + seq![drawn[k as int]]);
                    } else {
                        assert(lines_view(next@) =~= lines_view(prev) + Seq::<Seq<SpanView>>::empty());
                    }
                },
                RowOp::Rewrite(line) => {
                    append(&mut out, ERASE_ROW);
                    let a = line_to_ansi(line);
                    append(&mut out, a.as_str());
                    append(&mut out, NEXT_ROW);
                    next.push(line.copy());
                    assert(lines_view(next@) =~= lines_view(prev) + seq![line_view(*line)]);
                },
                RowOp::Erase => {
                    append(&mut out, DELETE_ROW);
                    assert(lines_view(next@) =~= lines_view(prev) + Seq::<Seq<SpanView>>::empty());
                },
            }
            k = k + 1;
        }
        assert(ops@.take(ops@.len() as int) =~= ops@);
        self.commit(next);
        out
    }

    /// Delete the rows the frame occupies.
    fn delete_live_rows(&mut self) -> (r: String)
        ensures
            r@ == if old(self)@.len() > 0 {
                delete_text(old(self)@.len())
            } else {
                Seq::<char>::empty()
            },
            final(self)@ == Seq::<Seq<SpanView>>::empty(),
    {
        let rows = self.drawn.len();
        let out = if rows > 0 {
            csi_count(rows, "M")
        } else {
            String::new()
        };
        let none: Vec<Line> = Vec::new();
        self.commit(none);
        assert(lines_view(none@) =~= Seq::<Seq<SpanView>>::empty());
        out
    }

    /// Open the frame on the line below the cursor, so the prompt stays
    /// where it was.
    pub fn open(&mut self, lines: &[Line]) -> (r: String)
        ensures
            r@ == NEXT_ROW@ + paint_text(lines_view(lines@)),
            final(self)@ == lines_view(lines@),
    {
        let mut out = owned(NEXT_ROW);
        let p = self.paint(lines);
        append(&mut out, p.as_str());
        out
    }

    /// Redraw in place, writing only the rows that changed. What is on
    /// screen afterwards is exactly the new frame.
    pub fn redraw(&mut self, lines: &[Line]) -> (r: String)
        ensures
            exists|ops: Seq<RowOp>|
                {
                    &&& ops.len() == longer(old(self)@.len(), lines@.len())
                    &&& forall|i: int| 0 <= i < ops.len() ==> op_fits(#[trigger] ops[i], old(self)@, lines_view(lines@), i)
                    &&& r@ == (if old(self)@.len() == 0 {
                        Seq::<char>::empty()
                    } else {
                        up_text(old(self)@.len())
                    }) + ops_text(ops)
                },
            final(self)@ == lines_view(lines@),
    {
        let mut out = self.rewind();
        let ops = diff_rows(self.drawn.as_slice(), lines);
        proof {
            lemma_diff_lands(self@, lines_view(lines@), ops@);
        }
        let a = self.apply(&ops);
        append(&mut out, a.as_str());
        out
    }

    /// Collapse the live frame to `trace`: the first rows become the trace
    /// and every row below it is deleted. What is left on screen is the
    /// trace.
    pub fn collapse(&mut self, trace: &[Line]) -> (r: String)
        ensures
            exists|ops: Seq<RowOp>|
                {
                    &&& ops.len() == longer(old(self)@.len(), trace@.len())
                    &&& forall|i: int| 0 <= i < ops.len() ==> op_fits(#[trigger] ops[i], old(self)@, lines_view(trace@), i)
                    &&& r@ == (if old(self)@.len() == 0 {
                        Seq::<char>::empty()
                    } else {
                        up_text(old(self)@.len())
                    }) + ops_text(ops)
                },
            final(self)@ == lines_view(trace@),
    {
        self.redraw(trace)
    }

    /// Tear the frame down and draw a new one where it stood.
    pub fn reopen(&mut self, lines: &[Line]) -> (r: String)
        ensures
            r@ == (if old(self)@.len() == 0 {
                Seq::<char>::empty()
            } else {
                up_text(old(self)@.len()) + delete_text(old(self)@.len())
            }) + paint_text(lines_view(lines@)),
            final(self)@ == lines_view(lines@),
    {
        let mut out = self.rewind();
        let d = self.delete_live_rows();
        append(&mut out, d.as_str());
        let p = self.paint(lines);
        append(&mut out, p.as_str());
        out
    }

    /// Remove every live row, giving back the screen as it was before the
    /// frame opened.
    pub fn erase(&mut self) -> (r: String)
        ensures
            r@ == if old(self)@.len() == 0 {
                Seq::<char>::empty()
            } else {
                up_text(old(self)@.len()) + delete_text(old(self)@.len())
            },
            final(self)@ == Seq::<Seq<SpanView>>::empty(),
    {
        let mut out = self.rewind();
        let d = self.delete_live_rows();
        append(&mut out, d.as_str());
        out
    }
}


/// Redrawing the frame that is already on screen rewrites no row: every
/// instruction of the diff is a keep.
pub proof fn lemma_same_frame_keeps_every_row(lines: Seq<Seq<SpanView>>, ops: Seq<RowOp>)
    requires
        ops.len() == longer(lines.len(), lines.len()),
        forall|i: int| 0 <= i < ops.len() ==> op_fits(#[trigger] ops[i], lines, lines, i),
    ensures
        forall|i: int| 0 <= i < ops.len() ==> #[trigger] ops[i] == RowOp::Keep,
{
    assert forall|i: int| 0 <= i < ops.len() implies #[trigger] ops[i] == RowOp::Keep by {
        assert(op_fits(ops[i], lines, lines, i));
    }
}

} // verus!
