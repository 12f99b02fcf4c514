//! The manage frame's interaction, as a pure state machine.
//!
//! [`crate::frame`] turns a state into the lines of a frame; the program puts
//! them on the glass. This module is what lies in between: **which keystroke
//! means what**. The whole interaction is a function of `(state, key,
//! selection)`, so every dangerous path is answered here with no terminal in
//! sight.
//!
//! Three rules bind the module, and each stands below as a proof:
//!
//! 1. **No I/O.** The state machine decides; the driver performs. Effects
//!    leave as data ([`Effect`]) and come back as outcomes
//!    ([`DeleteOutcome`], [`EditOutcome`], [`ImportOutcome`]).
//! 2. **A printable is never a management action.** Every printable the user
//!    can type on the list goes to the filter; the management chords are Ctrl
//!    chords so that `a`, `e` and `x` can be searched for.
//! 3. **The confirm is scoped to the target, not to the cursor.** `Ctrl+X`
//!    captures the Connection under the cursor at that moment; nothing typed
//!    afterwards can move the delete onto another one.

use vstd::prelude::*;
use crate::config::{position_of_id, Connection, ImportReport, find_id, lemma_position_of_id};
use crate::connections::ConnectionDraft;
use crate::form::{
    all_settle, changed_fields, conn_field_text, cursor_down, cursor_index, cursor_next,
    cursor_prev, cursor_up, draft_problems, field_order, field_text, field_value, is_map_row,
    is_settled_form, lemma_no_problems_iff_settles, lemma_with_field, problem_views,
    refusal_text,
};
pub use crate::form::{
    field_problems, map_rows, refusal_line, settled_draft, AddField, FormCursor, MapRow, RowGlyph,
};
use crate::inline::InlineOutcome;
use crate::keys::{
    answers, at_most_shift, chord, is_answer, is_chord, KeyCode, KeyEvent, KeyModifiers,
};
use crate::text::{drop_last_char, push_char, without_last};

verus! {

/// A copy of an optional text, equal to it.
fn copy_text(o: &Option<String>) -> (r: Option<String>)
    ensures
        r == *o,
{
    match o {
        Some(s) => Some(s.clone()),
        None => None,
    }
}

// ───────────────────────────── the forms ─────────────────────────────

/// A draft with every field empty.
pub open spec fn blank_draft(d: ConnectionDraft) -> bool {
    forall|f: AddField| (#[trigger] field_text(f, d)).len() == 0
}

/// `out` is `d` after `ch` was typed on row `c`: the field under the cursor
/// grew by `ch`, every other field is as it was, and on the submit row
/// nothing changed.
pub open spec fn typed_draft(d: ConnectionDraft, c: FormCursor, ch: char, out: ConnectionDraft) -> bool {
    match c {
        FormCursor::Field(f) => {
            &&& field_text(f, out) == field_text(f, d).push(ch)
            &&& forall|g: AddField| g != f ==> #[trigger] field_value(g, out) == field_value(g, d)
        },
        FormCursor::Submit => out == d,
    }
}

/// `out` is `d` after a Backspace on row `c`: the field under the cursor
/// lost its last character, if it had one.
pub open spec fn deleted_draft(d: ConnectionDraft, c: FormCursor, out: ConnectionDraft) -> bool {
    match c {
        FormCursor::Field(f) => {
            &&& field_text(f, out) == drop_last_char(field_text(f, d))
            &&& forall|g: AddField| g != f ==> #[trigger] field_value(g, out) == field_value(g, d)
        },
        FormCursor::Submit => out == d,
    }
}

/// The refusal a keystroke leaves: cleared by one that reached a field,
/// kept by one swallowed on the submit row.
pub open spec fn error_after_edit(c: FormCursor, before: Option<String>) -> Option<String> {
    match c {
        FormCursor::Field(_) => None,
        FormCursor::Submit => before,
    }
}

/// Write `ch` (or, with `None`, a Backspace) into the field under `cursor`.
fn edit_field(draft: &mut ConnectionDraft, cursor: FormCursor, ch: Option<char>)
    ensures
        match ch {
            Some(c) => typed_draft(*old(draft), cursor, c, *final(draft)),
            None => deleted_draft(*old(draft), cursor, *final(draft)),
        },
{
    match cursor {
        FormCursor::Field(field) => {
            let ghost before = *draft;
            let value = match ch {
                Some(c) => {
                    let mut v = field.field_of(draft).clone();
                    push_char(&mut v, c);
                    v
                },
                None => without_last(field.field_of(draft)),
            };
            let ghost v = value;
            field.commit(draft, value);
            assert forall|g: AddField| g != field implies #[trigger] field_value(g, *draft) == field_value(g, before) by {
                lemma_with_field(before, field, v, g);
            }
            proof {
                lemma_with_field(before, field, v, field);
            }
        },
        FormCursor::Submit => {},
    }
}

/// The add form as a value: where the cursor is, and what the map holds.
///
/// The draft is live — every keystroke writes straight into the field the
/// cursor is on — and it is not normalised while typing: [`settled_draft`]
/// applies the defaults at the moment the value becomes a write.
#[derive(Debug, Clone, PartialEq, Eq)]
pub struct AddSequence {
    /// Which row of the map the cursor is on.
    pub cursor: FormCursor,
    /// The form's live content. Nothing here has been written anywhere.
    pub draft: ConnectionDraft,
    /// The last refusal, drawn in the rule row.
    pub error: Option<String>,
}

/// A freshly opened add form: blank, cursor on the first field, no refusal.
pub open spec fn is_add_start(q: AddSequence) -> bool {
    &&& q.cursor == FormCursor::Field(AddField::Alias)
    &&& blank_draft(q.draft)
    &&& q.error is None
}

impl AddSequence {
    /// A blank form with the cursor on the first field.
    pub fn start() -> (r: Self)
        ensures
            is_add_start(r),
    {
        let draft = ConnectionDraft::default();
        AddSequence { cursor: FormCursor::Field(AddField::Alias), draft, error: None }
    }

    /// A copy equal to `self`.
    pub fn copy(&self) -> (r: Self)
        ensures
            r == *self,
    {
        AddSequence { cursor: self.cursor, draft: self.draft.copy(), error: copy_text(&self.error) }
    }

    /// The map the frame draws.
    pub fn rows(&self) -> (r: Vec<MapRow>)
        ensures
            r@.len() == 6,
            forall|i: int| 0 <= i < 6 ==> is_map_row(#[trigger] r@[i], field_order()[i], self.draft, self.cursor, None),
    {
        map_rows(&self.draft, self.cursor, None)
    }

    /// Whether the `▶ Add connection` row would be accepted now.
    pub fn ready(&self) -> (r: bool)
        ensures
            r == all_settle(self.draft),
    {
        settled_draft(&self.draft).is_some()
    }

    /// Every problem with the form, in map order.
    pub fn problems(&self) -> (r: Vec<(&'static str, String)>)
        ensures
            problem_views(r@) == draft_problems(self.draft),
    {
        field_problems(&self.draft)
    }

    /// Type into the field under the cursor. On the submit row typing does
    /// nothing: the user would be changing a row they are not looking at.
    fn typed(self, ch: char) -> (r: Self)
        ensures
            r.cursor == self.cursor,
            typed_draft(self.draft, self.cursor, ch, r.draft),
            r.error == error_after_edit(self.cursor, self.error),
    {
        let mut out = self;
        edit_field(&mut out.draft, out.cursor, Some(ch));
        if !out.cursor.is_submit() {
            out.error = None;
        }
        out
    }

    /// Delete one character from the field under the cursor.
    fn deleted(self) -> (r: Self)
        ensures
            r.cursor == self.cursor,
            deleted_draft(self.draft, self.cursor, r.draft),
            r.error == error_after_edit(self.cursor, self.error),
    {
        let mut out = self;
        edit_field(&mut out.draft, out.cursor, None);
        if !out.cursor.is_submit() {
            out.error = None;
        }
        out
    }
}

/// The edit form as a value: the same map the add form draws, seeded from a
/// Connection that already exists, with that Connection captured by value.
#[derive(Debug, Clone, PartialEq, Eq)]
pub struct EditSequence {
    /// The Connection being edited, captured at the chord.
    pub target: Connection,
    /// Which row of the map the cursor is on.
    pub cursor: FormCursor,
    /// The live copy, seeded from `target`.
    pub draft: ConnectionDraft,
    /// The untouched copy the draft is diffed against.
    pub baseline: ConnectionDraft,
    /// The last refusal, drawn in the rule row.
    pub error: Option<String>,
}

/// A freshly opened edit form on `t`: every row holds what `t` holds, the
/// baseline is the same draft, cursor on the first field, no refusal.
pub open spec fn is_edit_start(e: EditSequence, t: Connection) -> bool {
    &&& e.target == t
    &&& e.cursor == FormCursor::Field(AddField::Alias)
    &&& e.baseline == e.draft
    &&& forall|f: AddField| #[trigger] field_text(f, e.draft) == conn_field_text(f, t)
    &&& e.error is None
}

impl EditSequence {
    /// Open the map on a Connection, cursor on the first field.
    pub fn start(target: Connection) -> (r: Self)
        ensures
            is_edit_start(r, target),
    {
        let draft = ConnectionDraft::from_connection(&target);
        let baseline = draft.copy();
        EditSequence { target, cursor: FormCursor::Field(AddField::Alias), draft, baseline, error: None }
    }

    /// A copy equal to `self`.
    pub fn copy(&self) -> (r: Self)
        ensures
            r == *self,
    {
        EditSequence {
            target: self.target.copy(),
            cursor: self.cursor,
            draft: self.draft.copy(),
            baseline: self.baseline.copy(),
            error: copy_text(&self.error),
        }
    }

    /// The map the frame draws, with the stored Connection as the baseline.
    pub fn rows(&self) -> (r: Vec<MapRow>)
        ensures
            r@.len() == 6,
            forall|i: int| 0 <= i < 6 ==> is_map_row(#[trigger] r@[i], field_order()[i], self.draft, self.cursor, Some(self.baseline)),
    {
        map_rows(&self.draft, self.cursor, Some(&self.baseline))
    }

    /// The fields that differ, trimmed, from the stored Connection, in map
    /// order.
    pub fn changed(&self) -> (r: Vec<AddField>)
        ensures
            r@ == changed_fields(self.draft, self.baseline),
    {
        crate::form::changed(&self.draft, &self.baseline)
    }

    /// Whether the `▶ Save` row would be accepted now: nothing invalid, and
    /// something actually changed.
    pub fn ready(&self) -> (r: bool)
        ensures
            r == (changed_fields(self.draft, self.baseline).len() > 0 && all_settle(self.draft)),
    {
        let c = self.changed();
        c.len() > 0 && settled_draft(&self.draft).is_some()
    }

    /// Every problem with the form, in map order.
    pub fn problems(&self) -> (r: Vec<(&'static str, String)>)
        ensures
            problem_views(r@) == draft_problems(self.draft),
    {
        field_problems(&self.draft)
    }

    /// Type into the field under the cursor.
    fn typed(self, ch: char) -> (r: Self)
        ensures
            r.target == self.target,
            r.baseline == self.baseline,
            r.cursor == self.cursor,
            typed_draft(self.draft, self.cursor, ch, r.draft),
            r.error == error_after_edit(self.cursor, self.error),
    {
        let mut out = self;
        edit_field(&mut out.draft, out.cursor, Some(ch));
        if !out.cursor.is_submit() {
            out.error = None;
        }
        out
    }

    /// Delete one character from the field under the cursor.
    fn deleted(self) -> (r: Self)
        ensures
            r.target == self.target,
            r.baseline == self.baseline,
            r.cursor == self.cursor,
            deleted_draft(self.draft, self.cursor, r.draft),
            r.error == error_after_edit(self.cursor, self.error),
    {
        let mut out = self;
        edit_field(&mut out.draft, out.cursor, None);
        if !out.cursor.is_submit() {
            out.error = None;
        }
        out
    }
}

// ───────────────────────────── the state ─────────────────────────────

/// The step the manage frame is on.
#[derive(Debug, Clone, PartialEq, Eq)]
pub enum Phase {
    /// The list: the filter is live and the cursor picks a target.
    List,
    /// The inline delete confirm, about the Connection the cursor was on when
    /// `Ctrl+X` was pressed.
    ConfirmDelete { target: Connection },
    /// The `Ctrl+A` add form.
    Add(AddSequence),
    /// The `Ctrl+E` edit form.
    Edit(EditSequence),
    /// The first-run import offer: `count` Host stanzas found at `path`.
    ConfirmImport { count: usize, path: String },
}

impl Phase {
    /// A copy equal to `self`.
    pub fn copy(&self) -> (r: Self)
        ensures
            r == *self,
    {
        match self {
            Phase::List => Phase::List,
            Phase::ConfirmDelete { target } => Phase::ConfirmDelete { target: target.copy() },
            Phase::Add(q) => Phase::Add(q.copy()),
            Phase::Edit(e) => Phase::Edit(e.copy()),
            Phase::ConfirmImport { count, path } => Phase::ConfirmImport { count: *count, path: path.clone() },
        }
    }
}

/// What the last management action did, shown above the rows. Every claim
/// about the file is earned through a `settle_*` function, never by the
/// keystroke that asked for it.
#[derive(Debug, Clone, PartialEq, Eq)]
pub enum Trace {
    /// The confirm was answered `y` and the store really removed it.
    Deleted { connection: Connection },
    /// The confirm was answered `y` and the store had no such Connection.
    DeleteFailed { connection: Connection },
    /// The confirm was answered no, or abandoned. Nothing changed.
    Declined { connection: Connection },
    /// The add form was submitted and the store really wrote the Connection.
    Added { connection: Connection },
    /// The add form was backed out of. Nothing was written.
    AddAbandoned,
    /// The edit form was submitted and the store really wrote it.
    Edited { connection: Connection },
    /// The edit form was backed out of. Nothing was written.
    EditAbandoned,
    /// The edit form was submitted and the store had no such Connection.
    EditFailed { connection: Connection },
    /// The import ran and the store really wrote `imported` Connections;
    /// `failed` stanzas could not become Connections at all.
    Imported { imported: usize, failed: usize },
    /// The import offer was answered no, or abandoned.
    ImportDeclined,
}

impl Trace {
    /// A copy equal to `self`.
    pub fn copy(&self) -> (r: Self)
        ensures
            r == *self,
    {
        match self {
            Trace::Deleted { connection } => Trace::Deleted { connection: connection.copy() },
            Trace::DeleteFailed { connection } => Trace::DeleteFailed { connection: connection.copy() },
            Trace::Declined { connection } => Trace::Declined { connection: connection.copy() },
            Trace::Added { connection } => Trace::Added { connection: connection.copy() },
            Trace::AddAbandoned => Trace::AddAbandoned,
            Trace::Edited { connection } => Trace::Edited { connection: connection.copy() },
            Trace::EditAbandoned => Trace::EditAbandoned,
            Trace::EditFailed { connection } => Trace::EditFailed { connection: connection.copy() },
            Trace::Imported { imported, failed } => Trace::Imported { imported: *imported, failed: *failed },
            Trace::ImportDeclined => Trace::ImportDeclined,
        }
    }
}

/// Everything the manage frame's interaction consists of.
#[derive(Debug, Clone, PartialEq, Eq)]
pub struct ManageState {
    /// The live filter text.
    pub query: String,
    /// The row the cursor is on, in the frame's own (filtered) coordinates.
    pub selection: usize,
    /// Which step the frame is on.
    pub phase: Phase,
    /// What the last management action did.
    pub trace: Option<Trace>,
}

impl Default for ManageState {
    fn default() -> (r: Self)
        ensures
            r.query@.len() == 0,
            r.selection == 0,
            r.phase == Phase::List,
            r.trace is None,
    {
        ManageState::new()
    }
}

impl ManageState {
    /// An empty list step.
    pub fn new() -> (r: Self)
        ensures
            r.query@.len() == 0,
            r.selection == 0,
            r.phase == Phase::List,
            r.trace is None,
    {
        ManageState { query: String::new(), selection: 0, phase: Phase::List, trace: None }
    }

    /// A list step seeded with a filter.
    pub fn with_query(query: &str) -> (r: Self)
        ensures
            r.query@ == query@,
            r.selection == 0,
            r.phase == Phase::List,
            r.trace is None,
    {
        ManageState { query: query.to_string(), selection: 0, phase: Phase::List, trace: None }
    }

    /// A copy equal to `self`.
    pub fn copy(&self) -> (r: Self)
        ensures
            r == *self,
    {
        ManageState {
            query: self.query.clone(),
            selection: self.selection,
            phase: self.phase.copy(),
            trace: match &self.trace {
                Some(t) => Some(t.copy()),
                None => None,
            },
        }
    }
}

/// What the driver must go and do because of a key.
#[derive(Debug, Clone, PartialEq, Eq)]
pub enum Effect {
    /// Persist the removal of the Connection the confirm named.
    Delete { target: Connection },
    /// Build a Connection from the completed, settled draft and persist it.
    Add { draft: ConnectionDraft },
    /// Replace `target` with what the edit produced, keeping its id.
    Update { target: Connection, draft: ConnectionDraft },
    /// Leave the frame with this outcome.
    Exit(InlineOutcome),
    /// Fold the ssh config at `path` into the set and persist the result.
    Import { path: String },
}

// ───────────────────────────── what the store answered ─────────────────────────────

/// What a removal from the store actually did.
#[derive(Debug, Clone, PartialEq, Eq)]
pub enum DeleteOutcome {
    /// A Connection really was removed, and the store hands it back.
    Removed(Connection),
    /// No Connection had that id: nothing was deleted and nothing written.
    Absent,
    /// The store refused the delete and said why.
    Failed(String),
}

impl DeleteOutcome {
    /// Classify what the store's removal returned. `Ok(None)` is its own arm
    /// and not a success.
    pub fn from_remove(result: Result<Option<Connection>, String>) -> (r: Self)
        ensures
            r == match result {
                Ok(Some(c)) => DeleteOutcome::Removed(c),
                Ok(None) => DeleteOutcome::Absent,
                Err(m) => DeleteOutcome::Failed(m),
            },
    {
        match result {
            Ok(Some(conn)) => DeleteOutcome::Removed(conn),
            Ok(None) => DeleteOutcome::Absent,
            Err(message) => DeleteOutcome::Failed(message),
        }
    }
}

/// Fold the store's answer to [`Effect::Delete`] into the state: `deleted`
/// only for a real removal, naming what the store removed; the honest
/// substitute for an absent one; and the store's refusal as `Err`.
pub fn settle_delete(state: &ManageState, target: &Connection, outcome: DeleteOutcome) -> (r: Result<ManageState, String>)
    ensures
        r == match outcome {
            DeleteOutcome::Removed(c) => Ok::<ManageState, String>(ManageState { trace: Some(Trace::Deleted { connection: c }), ..*state }),
            DeleteOutcome::Absent => Ok(ManageState { trace: Some(Trace::DeleteFailed { connection: *target }), ..*state }),
            DeleteOutcome::Failed(m) => Err(m),
        },
{
    match outcome {
        DeleteOutcome::Removed(conn) => {
            let mut next = state.copy();
            next.trace = Some(Trace::Deleted { connection: conn });
            Ok(next)
        },
        DeleteOutcome::Absent => {
            let mut next = state.copy();
            next.trace = Some(Trace::DeleteFailed { connection: target.copy() });
            Ok(next)
        },
        DeleteOutcome::Failed(message) => Err(message),
    }
}

/// The row a Connection with this id sits on, or 0 when none does.
pub open spec fn row_of_id(connections: Seq<Connection>, id: Seq<char>) -> usize {
    match position_of_id(connections, id) {
        Some(i) => i as usize,
        None => 0,
    }
}

/// The row a Connection sits on in `connections`, or 0 if it is not there.
fn index_of_id(connections: &[Connection], id: &str) -> (r: usize)
    ensures
        r == row_of_id(connections@, id@),
        r == 0 || r < connections@.len(),
{
    proof {
        lemma_position_of_id(connections@, id@);
    }
    match find_id(connections, id) {
        Some(i) => i,
        None => 0,
    }
}

/// The list a write returns to: filter cleared, cursor on `row`, the note
/// set to `trace`.
pub open spec fn landed_on(s: ManageState, r: ManageState, row: usize, trace: Trace) -> bool {
    &&& r.phase == Phase::List
    &&& r.query@.len() == 0
    &&& r.selection == row
    &&& r.trace == Some(trace)
}

/// Fold the store's answer to [`Effect::Add`] into the state: the note earns
/// `added`, naming the Connection the store built, and the list comes back
/// unfiltered with the cursor on that Connection's row. A refusal is `Err`.
pub fn settle_add(state: &ManageState, connections: &[Connection], outcome: Result<Connection, String>) -> (r: Result<ManageState, String>)
    ensures
        match outcome {
            Ok(c) => r is Ok && landed_on(*state, r->Ok_0, row_of_id(connections@, c.id@), Trace::Added { connection: c }),
            Err(m) => r == Err::<ManageState, String>(m),
        },
{
    match outcome {
        Ok(connection) => {
            let selection = index_of_id(connections, connection.id.as_str());
            Ok(ManageState { phase: Phase::List, query: String::new(), selection, trace: Some(Trace::Added { connection }) })
        },
        Err(message) => Err(message),
    }
}

/// What an update in the store actually did.
#[derive(Debug, Clone, PartialEq, Eq)]
pub enum EditOutcome {
    /// A Connection really was changed, and the store hands it back.
    Updated(Connection),
    /// No Connection had that id: nothing changed and nothing was written.
    Absent,
    /// The store refused the edit and said why.
    Failed(String),
}

impl EditOutcome {
    /// Classify what the store's update returned.
    pub fn from_update(result: Result<Option<Connection>, String>) -> (r: Self)
        ensures
            r == match result {
                Ok(Some(c)) => EditOutcome::Updated(c),
                Ok(None) => EditOutcome::Absent,
                Err(m) => EditOutcome::Failed(m),
            },
    {
        match result {
            Ok(Some(conn)) => EditOutcome::Updated(conn),
            Ok(None) => EditOutcome::Absent,
            Err(message) => EditOutcome::Failed(message),
        }
    }
}

/// Fold the store's answer to [`Effect::Update`] into the state: `edited`,
/// naming what the store wrote, with the list unfiltered on its row; the
/// honest substitute when the store had no such Connection; `Err` for a
/// refusal.
pub fn settle_edit(state: &ManageState, connections: &[Connection], target: &Connection, outcome: EditOutcome) -> (r: Result<ManageState, String>)
    ensures
        match outcome {
            EditOutcome::Updated(c) => r is Ok && landed_on(*state, r->Ok_0, row_of_id(connections@, c.id@), Trace::Edited { connection: c }),
            EditOutcome::Absent => r == Ok::<ManageState, String>(ManageState { trace: Some(Trace::EditFailed { connection: *target }), ..*state }),
            EditOutcome::Failed(m) => r == Err::<ManageState, String>(m),
        },
{
    match outcome {
        EditOutcome::Updated(connection) => {
            let selection = index_of_id(connections, connection.id.as_str());
            Ok(ManageState { phase: Phase::List, query: String::new(), selection, trace: Some(Trace::Edited { connection }) })
        },
        EditOutcome::Absent => {
            let mut next = state.copy();
            next.trace = Some(Trace::EditFailed { connection: target.copy() });
            Ok(next)
        },
        EditOutcome::Failed(message) => Err(message),
    }
}

/// What an import into the store actually did.
#[derive(Debug, Clone, PartialEq, Eq)]
pub enum ImportOutcome {
    /// The import ran: `imported` Connections were written, `failed` stanzas
    /// could not become Connections.
    Imported { imported: usize, failed: usize },
    /// The store refused the import and said why.
    Failed(String),
}

impl ImportOutcome {
    /// Classify what the store's import returned.
    pub fn from_report(result: Result<ImportReport, String>) -> (r: Self)
        ensures
            r == match result {
                Ok(rep) => ImportOutcome::Imported { imported: rep.imported, failed: rep.skipped },
                Err(m) => ImportOutcome::Failed(m),
            },
    {
        match result {
            Ok(report) => ImportOutcome::Imported { imported: report.imported, failed: report.failed() },
            Err(message) => ImportOutcome::Failed(message),
        }
    }
}

/// Fold the store's answer to [`Effect::Import`] into the state: the note
/// carries the numbers the store reported, and the list comes back
/// unfiltered at the top. A refusal is `Err`.
pub fn settle_import(state: &ManageState, outcome: ImportOutcome) -> (r: Result<ManageState, String>)
    ensures
        match outcome {
            ImportOutcome::Imported { imported, failed } => r is Ok && landed_on(*state, r->Ok_0, 0, Trace::Imported { imported, failed }),
            ImportOutcome::Failed(m) => r == Err::<ManageState, String>(m),
        },
{
    match outcome {
        ImportOutcome::Imported { imported, failed } => Ok(ManageState {
            phase: Phase::List,
            query: String::new(),
            selection: 0,
            trace: Some(Trace::Imported { imported, failed }),
        }),
        ImportOutcome::Failed(message) => Err(message),
    }
}

// ───────────────────────────── one keystroke ─────────────────────────────

/// The outcome of one keystroke: the state to become, and the effects to run.
#[derive(Debug, Clone, PartialEq, Eq)]
pub struct Step {
    pub state: ManageState,
    pub effects: Vec<Effect>,
}

impl Step {
    /// A keystroke that changed the state and asks for nothing.
    fn state_only(state: ManageState) -> (r: Self)
        ensures
            r.state == state,
            r.effects@.len() == 0,
    {
        Step { state, effects: Vec::new() }
    }

    /// A keystroke that leaves the frame.
    fn exit(state: ManageState, outcome: InlineOutcome) -> (r: Self)
        ensures
            r.state == state,
            r.effects@ == seq![Effect::Exit(outcome)],
    {
        let mut effects = Vec::new();
        effects.push(Effect::Exit(outcome));
        Step { state, effects }
    }
}

/// `r` stays on `s` and asks for nothing.
pub open spec fn stays(s: ManageState, r: Step) -> bool {
    r.state == s && r.effects@.len() == 0
}

/// `r` becomes `next` and asks for nothing.
pub open spec fn moves_to(r: Step, next: ManageState) -> bool {
    r.state == next && r.effects@.len() == 0
}

/// `r` leaves the frame cancelled, from `s`.
pub open spec fn cancels(s: ManageState, r: Step) -> bool {
    r.state == s && r.effects@ == seq![Effect::Exit(InlineOutcome::Cancelled)]
}

/// `r` is `s` with the filter changed to `query`, and asks for nothing.
pub open spec fn filters(s: ManageState, r: Step, query: Seq<char>, phase: Phase, trace: Option<Trace>) -> bool {
    &&& r.effects@.len() == 0
    &&& r.state.query@ == query
    &&& r.state.selection == s.selection
    &&& r.state.phase == phase
    &&& r.state.trace == trace
}

/// The list step: filter, movement, and the chords that start an action.
/// Every printable character typed with nothing held but perhaps Shift goes
/// to the filter.
pub open spec fn list_rule(s: ManageState, key: KeyEvent, sel: Option<Connection>, r: Step) -> bool {
    if chord(key, 'c') {
        cancels(s, r)
    } else if chord(key, 'x') {
        match sel {
            Some(t) => moves_to(r, ManageState { phase: Phase::ConfirmDelete { target: t }, ..s }),
            None => stays(s, r),
        }
    } else if chord(key, 'e') {
        match sel {
            Some(t) => {
                &&& r.effects@.len() == 0
                &&& r.state.phase matches Phase::Edit(e) && is_edit_start(e, t)
                &&& r.state == ManageState { phase: r.state.phase, trace: None, ..s }
            },
            None => stays(s, r),
        }
    } else if chord(key, 'a') {
        &&& r.effects@.len() == 0
        &&& r.state.phase matches Phase::Add(q) && is_add_start(q)
        &&& r.state == ManageState { phase: r.state.phase, trace: None, ..s }
    } else {
        match key.code {
            KeyCode::Esc => cancels(s, r),
            KeyCode::Enter => match sel {
                Some(c) => r.state == s && r.effects@ == seq![Effect::Exit(InlineOutcome::Picked(c))],
                None => stays(s, r),
            },
            KeyCode::Up => moves_to(r, ManageState { selection: if s.selection > 0 { (s.selection - 1) as usize } else { 0 }, ..s }),
            KeyCode::Down => moves_to(r, ManageState { selection: if s.selection < usize::MAX { (s.selection + 1) as usize } else { s.selection }, ..s }),
            KeyCode::Backspace => filters(s, r, drop_last_char(s.query@), s.phase, s.trace),
            KeyCode::Char(ch) => if at_most_shift(key.modifiers) {
                filters(s, r, s.query@.push(ch), s.phase, s.trace)
            } else {
                stays(s, r)
            },
            _ => stays(s, r),
        }
    }
}

/// The delete confirm about `t`: `y` asks for the delete of `t` and of
/// nothing else; `n` and `Esc` decline; another printable declines and
/// goes to the filter; anything else is ignored.
pub open spec fn confirm_rule(s: ManageState, key: KeyEvent, t: Connection, r: Step) -> bool {
    if chord(key, 'c') {
        cancels(s, r)
    } else if answers(key, 'y') {
        r.state == ManageState { phase: Phase::List, trace: None, ..s } && r.effects@ == seq![Effect::Delete { target: t }]
    } else if answers(key, 'n') || key.code == KeyCode::Esc {
        moves_to(r, ManageState { phase: Phase::List, trace: Some(Trace::Declined { connection: t }), ..s })
    } else {
        match key.code {
            KeyCode::Char(ch) => if at_most_shift(key.modifiers) {
                filters(s, r, s.query@.push(ch), Phase::List, Some(Trace::Declined { connection: t }))
            } else {
                stays(s, r)
            },
            _ => stays(s, r),
        }
    }
}

/// The import offer about `path`: the delete confirm's answer set, with the
/// import of that file in place of the delete.
pub open spec fn import_rule(s: ManageState, key: KeyEvent, path: String, r: Step) -> bool {
    if chord(key, 'c') {
        cancels(s, r)
    } else if answers(key, 'y') {
        r.state == ManageState { phase: Phase::List, trace: None, ..s } && r.effects@ == seq![Effect::Import { path }]
    } else if answers(key, 'n') || key.code == KeyCode::Esc {
        moves_to(r, ManageState { phase: Phase::List, trace: Some(Trace::ImportDeclined), ..s })
    } else {
        match key.code {
            KeyCode::Char(ch) => if at_most_shift(key.modifiers) {
                filters(s, r, s.query@.push(ch), Phase::List, Some(Trace::ImportDeclined))
            } else {
                stays(s, r)
            },
            _ => stays(s, r),
        }
    }
}

/// The add form with the cursor moved to `c`, nothing else touched.
pub open spec fn add_on(s: ManageState, q: AddSequence, c: FormCursor, r: Step) -> bool {
    moves_to(r, ManageState { phase: Phase::Add(AddSequence { cursor: c, ..q }), ..s })
}

/// The add form after its content changed: the same list underneath, the
/// same cursor, the draft and the refusal as `edit` says.
pub open spec fn add_edited(s: ManageState, q: AddSequence, r: Step, edit: spec_fn(ConnectionDraft) -> bool) -> bool {
    &&& r.effects@.len() == 0
    &&& r.state.phase matches Phase::Add(q2) && q2.cursor == q.cursor && edit(q2.draft) && q2.error == error_after_edit(q.cursor, q.error)
    &&& r.state == ManageState { phase: r.state.phase, ..s }
}

/// The form's refusal line reads `msg`.
pub open spec fn refuses_with(error: Option<String>, msg: Seq<char>) -> bool {
    match error {
        Some(m) => m@ == msg,
        None => false,
    }
}

/// Accepting the `▶ Add connection` row: the settled draft goes out as the
/// one effect when every field settles; otherwise the form stays, with
/// every problem on the refusal line.
pub open spec fn submit_add_rule(s: ManageState, q: AddSequence, r: Step) -> bool {
    if all_settle(q.draft) {
        &&& r.state == ManageState { phase: Phase::List, trace: None, ..s }
        &&& r.effects@.len() == 1
        &&& r.effects@[0] matches Effect::Add { draft } && is_settled_form(q.draft, draft)
    } else {
        &&& r.effects@.len() == 0
        &&& r.state.phase matches Phase::Add(q2) && q2.cursor == q.cursor && q2.draft == q.draft
            && refuses_with(q2.error, refusal_text(draft_problems(q.draft), false))
        &&& r.state == ManageState { phase: r.state.phase, ..s }
    }
}

/// The add form: typing edits the field under the cursor, movement is never
/// refused, `Esc` backs up a row or out of the form from the top one, and
/// nothing is asked of the store until the `▶` row is accepted.
pub open spec fn add_rule(s: ManageState, key: KeyEvent, q: AddSequence, r: Step) -> bool {
    if chord(key, 'c') {
        cancels(s, r)
    } else {
        match key.code {
            KeyCode::Enter => if q.cursor is Submit {
                submit_add_rule(s, q, r)
            } else {
                add_on(s, q, cursor_next(q.cursor), r)
            },
            KeyCode::Down => add_on(s, q, cursor_down(q.cursor), r),
            KeyCode::Up => add_on(s, q, cursor_up(q.cursor), r),
            KeyCode::Tab => add_on(s, q, cursor_next(q.cursor), r),
            KeyCode::BackTab => add_on(s, q, cursor_prev(q.cursor), r),
            KeyCode::Esc => if cursor_index(q.cursor) == 0 {
                moves_to(r, ManageState { phase: Phase::List, trace: Some(Trace::AddAbandoned), ..s })
            } else {
                add_on(s, q, cursor_up(q.cursor), r)
            },
            KeyCode::Backspace => add_edited(s, q, r, |d: ConnectionDraft| deleted_draft(q.draft, q.cursor, d)),
            KeyCode::Char(ch) => if at_most_shift(key.modifiers) {
                add_edited(s, q, r, |d: ConnectionDraft| typed_draft(q.draft, q.cursor, ch, d))
            } else {
                stays(s, r)
            },
            _ => stays(s, r),
        }
    }
}

/// The edit form with the cursor moved to `c`, nothing else touched.
pub open spec fn edit_on(s: ManageState, e: EditSequence, c: FormCursor, r: Step) -> bool {
    moves_to(r, ManageState { phase: Phase::Edit(EditSequence { cursor: c, ..e }), ..s })
}

/// The edit form after its content changed: same target, same baseline,
/// same cursor, the draft and the refusal as `edit` says.
pub open spec fn edit_edited(s: ManageState, e: EditSequence, r: Step, edit: spec_fn(ConnectionDraft) -> bool) -> bool {
    &&& r.effects@.len() == 0
    &&& r.state.phase matches Phase::Edit(e2) && e2.target == e.target && e2.baseline == e.baseline
        && e2.cursor == e.cursor && edit(e2.draft) && e2.error == error_after_edit(e.cursor, e.error)
    &&& r.state == ManageState { phase: r.state.phase, ..s }
}

/// Accepting the `▶ Save` row: the update of the captured target goes out
/// when every field settles and something changed; otherwise the form
/// stays, with every problem, and `nothing to save` when nothing changed,
/// on the refusal line.
pub open spec fn submit_edit_rule(s: ManageState, e: EditSequence, r: Step) -> bool {
    let nothing_changed = changed_fields(e.draft, e.baseline).len() == 0;
    if all_settle(e.draft) && !nothing_changed {
        &&& r.state == ManageState { phase: Phase::List, trace: None, ..s }
        &&& r.effects@.len() == 1
        &&& r.effects@[0] matches Effect::Update { target, draft } && target == e.target && is_settled_form(e.draft, draft)
    } else {
        &&& r.effects@.len() == 0
        &&& r.state.phase matches Phase::Edit(e2) && e2.target == e.target && e2.baseline == e.baseline
            && e2.cursor == e.cursor && e2.draft == e.draft
            && refuses_with(e2.error, refusal_text(draft_problems(e.draft), nothing_changed))
        &&& r.state == ManageState { phase: r.state.phase, ..s }
    }
}

/// The edit form: the add form's rules, about the Connection captured at
/// the chord.
pub open spec fn edit_rule(s: ManageState, key: KeyEvent, e: EditSequence, r: Step) -> bool {
    if chord(key, 'c') {
        cancels(s, r)
    } else {
        match key.code {
            KeyCode::Enter => if e.cursor is Submit {
                submit_edit_rule(s, e, r)
            } else {
                edit_on(s, e, cursor_next(e.cursor), r)
            },
            KeyCode::Down => edit_on(s, e, cursor_down(e.cursor), r),
            KeyCode::Up => edit_on(s, e, cursor_up(e.cursor), r),
            KeyCode::Tab => edit_on(s, e, cursor_next(e.cursor), r),
            KeyCode::BackTab => edit_on(s, e, cursor_prev(e.cursor), r),
            KeyCode::Esc => if cursor_index(e.cursor) == 0 {
                moves_to(r, ManageState { phase: Phase::List, trace: Some(Trace::EditAbandoned), ..s })
            } else {
                edit_on(s, e, cursor_up(e.cursor), r)
            },
            KeyCode::Backspace => edit_edited(s, e, r, |d: ConnectionDraft| deleted_draft(e.draft, e.cursor, d)),
            KeyCode::Char(ch) => if at_most_shift(key.modifiers) {
                edit_edited(s, e, r, |d: ConnectionDraft| typed_draft(e.draft, e.cursor, ch, d))
            } else {
                stays(s, r)
            },
            _ => stays(s, r),
        }
    }
}

/// What one keystroke does, by the phase the frame is on.
pub open spec fn step_rule(s: ManageState, key: KeyEvent, sel: Option<Connection>, r: Step) -> bool {
    match s.phase {
        Phase::List => list_rule(s, key, sel, r),
        Phase::ConfirmDelete { target } => confirm_rule(s, key, target, r),
        Phase::Add(q) => add_rule(s, key, q, r),
        Phase::Edit(e) => edit_rule(s, key, e, r),
        Phase::ConfirmImport { path, .. } => import_rule(s, key, path, r),
    }
}

/// Advance the manage interaction by one key. `selected` is the Connection
/// the frame's cursor points at, or `None` when there is no row to point
/// at; a chord with nothing selected asks for nothing.
pub fn step(state: &ManageState, key: KeyEvent, selected: Option<&Connection>) -> (r: Step)
    ensures
        step_rule(*state, key, match selected {
            Some(c) => Some(*c),
            None => None,
        }, r),
{
    match &state.phase {
        Phase::List => list_step(state, key, selected),
        Phase::ConfirmDelete { target } => confirm_step(state, key, target),
        Phase::Add(sequence) => add_step(state, key, sequence),
        Phase::Edit(editor) => edit_step(state, key, editor),
        Phase::ConfirmImport { path, .. } => confirm_import_step(state, key, path),
    }
}

/// The list step.
fn list_step(state: &ManageState, key: KeyEvent, selected: Option<&Connection>) -> (r: Step)
    ensures
        list_rule(*state, key, match selected {
            Some(c) => Some(*c),
            None => None,
        }, r),
{
    if is_chord(key, 'c') {
        return Step::exit(state.copy(), InlineOutcome::Cancelled);
    }
    if is_chord(key, 'x') {
        if let Some(target) = selected {
            let mut next = state.copy();
            next.phase = Phase::ConfirmDelete { target: target.copy() };
            return Step::state_only(next);
        }
        return Step::state_only(state.copy());
    }
    if is_chord(key, 'e') {
        if let Some(target) = selected {
            let mut next = state.copy();
            next.phase = Phase::Edit(EditSequence::start(target.copy()));
            next.trace = None;
            return Step::state_only(next);
        }
        return Step::state_only(state.copy());
    }
    if is_chord(key, 'a') {
        let mut next = state.copy();
        next.phase = Phase::Add(AddSequence::start());
        next.trace = None;
        return Step::state_only(next);
    }
    let mut next = state.copy();
    match key.code {
        KeyCode::Esc => Step::exit(next, InlineOutcome::Cancelled),
        KeyCode::Enter => match selected {
            Some(conn) => Step::exit(next, InlineOutcome::Picked(conn.copy())),
            None => Step::state_only(next),
        },
        KeyCode::Up => {
            if next.selection > 0 {
                next.selection = next.selection - 1;
            }
            Step::state_only(next)
        },
        KeyCode::Down => {
            if next.selection < usize::MAX {
                next.selection = next.selection + 1;
            }
            Step::state_only(next)
        },
        KeyCode::Backspace => {
            next.query = without_last(&next.query);
            Step::state_only(next)
        },
        KeyCode::Char(ch) => {
            if key.modifiers.is_empty_but_shift() {
                push_char(&mut next.query, ch);
            }
            Step::state_only(next)
        },
        _ => Step::state_only(next),
    }
}

/// Back on the list with the decline left as the note.
fn declined(state: &ManageState, target: &Connection) -> (r: ManageState)
    ensures
        r == (ManageState { phase: Phase::List, trace: Some(Trace::Declined { connection: *target }), ..*state }),
{
    let mut next = state.copy();
    next.phase = Phase::List;
    next.trace = Some(Trace::Declined { connection: target.copy() });
    next
}

/// The delete confirm.
fn confirm_step(state: &ManageState, key: KeyEvent, target: &Connection) -> (r: Step)
    ensures
        confirm_rule(*state, key, *target, r),
{
    if is_chord(key, 'c') {
        return Step::exit(state.copy(), InlineOutcome::Cancelled);
    }
    if is_answer(key, 'y') {
        let mut next = state.copy();
        next.phase = Phase::List;
        next.trace = None;
        let mut effects = Vec::new();
        effects.push(Effect::Delete { target: target.copy() });
        return Step { state: next, effects };
    }
    if is_answer(key, 'n') || key.code == KeyCode::Esc {
        return Step::state_only(declined(state, target));
    }
    if let KeyCode::Char(ch) = key.code {
        if key.modifiers.is_empty_but_shift() {
            let mut next = declined(state, target);
            push_char(&mut next.query, ch);
            return Step::state_only(next);
        }
    }
    Step::state_only(state.copy())
}

/// Back on the list with the import's decline left as the note.
fn import_declined(state: &ManageState) -> (r: ManageState)
    ensures
        r == (ManageState { phase: Phase::List, trace: Some(Trace::ImportDeclined), ..*state }),
{
    let mut next = state.copy();
    next.phase = Phase::List;
    next.trace = Some(Trace::ImportDeclined);
    next
}

/// The first-run import offer.
fn confirm_import_step(state: &ManageState, key: KeyEvent, path: &String) -> (r: Step)
    ensures
        import_rule(*state, key, *path, r),
{
    if is_chord(key, 'c') {
        return Step::exit(state.copy(), InlineOutcome::Cancelled);
    }
    if is_answer(key, 'y') {
        let mut next = state.copy();
        next.phase = Phase::List;
        next.trace = None;
        let mut effects = Vec::new();
        effects.push(Effect::Import { path: path.clone() });
        return Step { state: next, effects };
    }
    if is_answer(key, 'n') || key.code == KeyCode::Esc {
        return Step::state_only(import_declined(state));
    }
    if let KeyCode::Char(ch) = key.code {
        if key.modifiers.is_empty_but_shift() {
            let mut next = import_declined(state);
            push_char(&mut next.query, ch);
            return Step::state_only(next);
        }
    }
    Step::state_only(state.copy())
}

/// The add form with its cursor moved.
fn add_on_step(state: &ManageState, sequence: &AddSequence, cursor: FormCursor) -> (r: Step)
    ensures
        add_on(*state, *sequence, cursor, r),
{
    let mut q = sequence.copy();
    q.cursor = cursor;
    let mut next = state.copy();
    next.phase = Phase::Add(q);
    Step::state_only(next)
}

/// The add form.
fn add_step(state: &ManageState, key: KeyEvent, sequence: &AddSequence) -> (r: Step)
    ensures
        add_rule(*state, key, *sequence, r),
{
    if is_chord(key, 'c') {
        return Step::exit(state.copy(), InlineOutcome::Cancelled);
    }
    match key.code {
        KeyCode::Enter => {
            if sequence.cursor.is_submit() {
                return submit_add(state, sequence);
            }
            add_on_step(state, sequence, sequence.cursor.next())
        },
        KeyCode::Down => add_on_step(state, sequence, sequence.cursor.down()),
        KeyCode::Up => add_on_step(state, sequence, sequence.cursor.up()),
        KeyCode::Tab => add_on_step(state, sequence, sequence.cursor.next()),
        KeyCode::BackTab => add_on_step(state, sequence, sequence.cursor.prev()),
        KeyCode::Esc => {
            if sequence.cursor.index() == 0 {
                let mut next = state.copy();
                next.phase = Phase::List;
                next.trace = Some(Trace::AddAbandoned);
                Step::state_only(next)
            } else {
                add_on_step(state, sequence, sequence.cursor.up())
            }
        },
        KeyCode::Backspace => {
            let mut next = state.copy();
            next.phase = Phase::Add(sequence.copy().deleted());
            Step::state_only(next)
        },
        KeyCode::Char(ch) => {
            if key.modifiers.is_empty_but_shift() {
                let mut next = state.copy();
                next.phase = Phase::Add(sequence.copy().typed(ch));
                Step::state_only(next)
            } else {
                Step::state_only(state.copy())
            }
        },
        _ => Step::state_only(state.copy()),
    }
}

/// Accept or refuse the `▶ Add connection` row.
fn submit_add(state: &ManageState, sequence: &AddSequence) -> (r: Step)
    ensures
        submit_add_rule(*state, *sequence, r),
{
    match settled_draft(&sequence.draft) {
        Some(draft) => {
            let mut next = state.copy();
            next.phase = Phase::List;
            next.trace = None;
            let mut effects = Vec::new();
            effects.push(Effect::Add { draft });
            Step { state: next, effects }
        },
        None => {
            let problems = sequence.problems();
            let mut q = sequence.copy();
            q.error = Some(refusal_line(problems.as_slice(), false));
            let mut next = state.copy();
            next.phase = Phase::Add(q);
            Step::state_only(next)
        },
    }
}

/// The edit form with its cursor moved.
fn edit_on_step(state: &ManageState, editor: &EditSequence, cursor: FormCursor) -> (r: Step)
    ensures
        edit_on(*state, *editor, cursor, r),
{
    let mut e = editor.copy();
    e.cursor = cursor;
    let mut next = state.copy();
    next.phase = Phase::Edit(e);
    Step::state_only(next)
}

/// The edit form.
fn edit_step(state: &ManageState, key: KeyEvent, editor: &EditSequence) -> (r: Step)
    ensures
        edit_rule(*state, key, *editor, r),
{
    if is_chord(key, 'c') {
        return Step::exit(state.copy(), InlineOutcome::Cancelled);
    }
    match key.code {
        KeyCode::Enter => {
            if editor.cursor.is_submit() {
                return submit_edit(state, editor);
            }
            edit_on_step(state, editor, editor.cursor.next())
        },
        KeyCode::Down => edit_on_step(state, editor, editor.cursor.down()),
        KeyCode::Up => edit_on_step(state, editor, editor.cursor.up()),
        KeyCode::Tab => edit_on_step(state, editor, editor.cursor.next()),
        KeyCode::BackTab => edit_on_step(state, editor, editor.cursor.prev()),
        KeyCode::Esc => {
            if editor.cursor.index() == 0 {
                let mut next = state.copy();
                next.phase = Phase::List;
                next.trace = Some(Trace::EditAbandoned);
                Step::state_only(next)
            } else {
                edit_on_step(state, editor, editor.cursor.up())
            }
        },
        KeyCode::Backspace => {
            let mut next = state.copy();
            next.phase = Phase::Edit(editor.copy().deleted());
            Step::state_only(next)
        },
        KeyCode::Char(ch) => {
            if key.modifiers.is_empty_but_shift() {
                let mut next = state.copy();
                next.phase = Phase::Edit(editor.copy().typed(ch));
                Step::state_only(next)
            } else {
                Step::state_only(state.copy())
            }
        },
        _ => Step::state_only(state.copy()),
    }
}

/// Accept or refuse the `▶ Save changes` row.
fn submit_edit(state: &ManageState, editor: &EditSequence) -> (r: Step)
    ensures
        submit_edit_rule(*state, *editor, r),
{
    let problems = editor.problems();
    let nothing_changed = editor.changed().len() == 0;
    proof {
        lemma_no_problems_iff_settles(editor.draft);
    }
    let settled = if problems.len() == 0 {
        settled_draft(&editor.draft)
    } else {
        None
    };
    match settled {
        Some(draft) => {
            if !nothing_changed {
                let mut next = state.copy();
                next.phase = Phase::List;
                next.trace = None;
                let mut effects = Vec::new();
                effects.push(Effect::Update { target: editor.target.copy(), draft });
                return Step { state: next, effects };
            }
        },
        None => {},
    }
    let mut e = editor.copy();
    e.error = Some(refusal_line(problems.as_slice(), nothing_changed));
    let mut next = state.copy();
    next.phase = Phase::Edit(e);
    Step::state_only(next)
}

// ───────────────────────────── what every keystroke keeps ─────────────────────────────

/// The key a printable is, typed with Shift held or not.
pub open spec fn printable(ch: char, shift: bool) -> KeyEvent {
    KeyEvent { code: KeyCode::Char(ch), modifiers: KeyModifiers { shift, control: false, alt: false, other: false } }
}

/// A printable is never a management action: on the list, every printable
/// character, Shift held or not, goes to the filter, and asks for nothing.
pub proof fn lemma_printable_filters(s: ManageState, ch: char, shift: bool, sel: Option<Connection>, r: Step)
    requires
        s.phase is List,
        step_rule(s, printable(ch, shift), sel, r),
    ensures
        r.effects@.len() == 0,
        r.state.phase == s.phase,
        r.state.query@ == s.query@.push(ch),
        r.state.selection == s.selection,
{
}

/// The list writes nothing: whatever the key and whatever is selected, the
/// only effect a list keystroke can ask for is leaving the frame.
pub proof fn lemma_list_never_writes(s: ManageState, key: KeyEvent, sel: Option<Connection>, r: Step, i: int)
    requires
        s.phase is List,
        step_rule(s, key, sel, r),
        0 <= i < r.effects@.len(),
    ensures
        r.effects@[i] is Exit,
{
}

/// `Ctrl+C` leaves the frame from every phase, cancelled, touching nothing.
pub proof fn lemma_ctrl_c_cancels(s: ManageState, key: KeyEvent, sel: Option<Connection>, r: Step)
    requires
        chord(key, 'c'),
        step_rule(s, key, sel, r),
    ensures
        r.state == s,
        r.effects@ == seq![Effect::Exit(InlineOutcome::Cancelled)],
{
}

/// `e` leaves the frame cancelled, or deletes `t` and nothing else.
pub open spec fn deletes_only(e: Effect, t: Connection) -> bool {
    e == Effect::Exit(InlineOutcome::Cancelled) || e == (Effect::Delete { target: t })
}

/// The confirm is scoped to the target, not to the cursor: what a key does
/// on the delete confirm does not depend on what is selected, and the only
/// delete it can ask for is of the Connection captured at the chord.
pub proof fn lemma_confirm_scoped_to_target(
    s: ManageState,
    key: KeyEvent,
    sel: Option<Connection>,
    other: Option<Connection>,
    r: Step,
    i: int,
)
    requires
        s.phase is ConfirmDelete,
        step_rule(s, key, sel, r),
    ensures
        step_rule(s, key, other, r),
        0 <= i < r.effects@.len() ==> deletes_only(r.effects@[i], s.phase->target),
{
}

/// Capturing is by value: `Ctrl+X` on the list puts exactly the selected
/// Connection in the confirm.
pub proof fn lemma_ctrl_x_captures_selection(s: ManageState, key: KeyEvent, t: Connection, r: Step)
    requires
        s.phase is List,
        chord(key, 'x'),
        step_rule(s, key, Some(t), r),
    ensures
        r.state.phase is ConfirmDelete,
        r.state.phase->target == t,
        r.effects@.len() == 0,
{
}

/// Nothing is written before the `▶` row is accepted: an add form asks for
/// an add only on `Enter` from the submit row, and only with every field
/// settled, carrying the settled draft.
pub proof fn lemma_add_only_from_submit(s: ManageState, key: KeyEvent, sel: Option<Connection>, r: Step, i: int)
    requires
        s.phase is Add,
        step_rule(s, key, sel, r),
        0 <= i < r.effects@.len(),
        !(r.effects@[i] is Exit),
    ensures
        key.code == KeyCode::Enter,
        s.phase->Add_0.cursor is Submit,
        all_settle(s.phase->Add_0.draft),
        r.effects@[i] matches Effect::Add { draft } && is_settled_form(s.phase->Add_0.draft, draft),
{
}

/// Accepting the `▶` row with every field settled asks for exactly one add,
/// carrying the settled draft, and goes back to the list; `Esc` on the top
/// row abandons the form and asks for nothing.
pub proof fn lemma_submit_adds(s: ManageState, key: KeyEvent, sel: Option<Connection>, r: Step)
    requires
        s.phase is Add,
        step_rule(s, key, sel, r),
    ensures
        key.code == KeyCode::Enter && s.phase->Add_0.cursor is Submit && all_settle(s.phase->Add_0.draft) ==> {
            &&& r.effects@.len() == 1
            &&& r.effects@[0] matches Effect::Add { draft } && is_settled_form(s.phase->Add_0.draft, draft)
            &&& r.state == ManageState { phase: Phase::List, trace: None, ..s }
        },
        key.code == KeyCode::Esc && cursor_index(s.phase->Add_0.cursor) == 0 ==> {
            &&& r.effects@.len() == 0
            &&& r.state == ManageState { phase: Phase::List, trace: Some(Trace::AddAbandoned), ..s }
        },
{
}

/// On the delete confirm about `t`, a delete is asked for exactly when the
/// key is `y` or `Y` with nothing held but perhaps Shift, and then it is the
/// delete of `t` alone, with the list back and no trace; `n`, `N` and `Esc`
/// decline, asking for nothing and leaving the decline as the trace.
pub proof fn lemma_confirm_deletes_only_on_yes(s: ManageState, key: KeyEvent, t: Connection, sel: Option<Connection>, r: Step)
    requires
        s.phase == (Phase::ConfirmDelete { target: t }),
        step_rule(s, key, sel, r),
    ensures
        (exists|i: int| 0 <= i < r.effects@.len() && #[trigger] r.effects@[i] is Delete) <==> answers(key, 'y'),
        answers(key, 'y') ==> {
            &&& r.effects@ == seq![Effect::Delete { target: t }]
            &&& r.state == ManageState { phase: Phase::List, trace: None, ..s }
        },
        answers(key, 'n') || key.code == KeyCode::Esc ==> {
            &&& r.effects@.len() == 0
            &&& r.state == ManageState { phase: Phase::List, trace: Some(Trace::Declined { connection: t }), ..s }
        },
{
    if answers(key, 'y') {
        assert(!chord(key, 'c'));
        assert(r.effects@[0] is Delete);
    } else if chord(key, 'c') {
        assert(r.effects@ == seq![Effect::Exit(InlineOutcome::Cancelled)]);
        assert forall|i: int| 0 <= i < r.effects@.len() implies !(#[trigger] r.effects@[i] is Delete) by {
            assert(r.effects@[i] == Effect::Exit(InlineOutcome::Cancelled));
        }
    }
}

/// The edit is about the Connection captured at the chord: while the form
/// stays open its target and baseline never change, and the one write it
/// can ask for is an update of that target, from the submit row, with every
/// field settled and something changed.
pub proof fn lemma_edit_target_fixed(s: ManageState, key: KeyEvent, sel: Option<Connection>, r: Step, i: int)
    requires
        s.phase is Edit,
        step_rule(s, key, sel, r),
    ensures
        r.state.phase is Edit ==> r.state.phase->Edit_0.target == s.phase->Edit_0.target
            && r.state.phase->Edit_0.baseline == s.phase->Edit_0.baseline,
        0 <= i < r.effects@.len() && !(r.effects@[i] is Exit) ==> {
            &&& key.code == KeyCode::Enter
            &&& s.phase->Edit_0.cursor is Submit
            &&& all_settle(s.phase->Edit_0.draft)
            &&& changed_fields(s.phase->Edit_0.draft, s.phase->Edit_0.baseline).len() > 0
            &&& r.effects@[i] matches Effect::Update { target, draft } && target == s.phase->Edit_0.target
                && is_settled_form(s.phase->Edit_0.draft, draft)
        },
{
}

/// Movement is never refused and never edits: the arrows and `Tab` in a
/// form move the cursor and leave the draft as it was.
pub proof fn lemma_form_movement_keeps_draft(s: ManageState, key: KeyEvent, sel: Option<Connection>, r: Step)
    requires
        s.phase is Add,
        !chord(key, 'c'),
        key.code == KeyCode::Up || key.code == KeyCode::Down || key.code == KeyCode::Tab || key.code == KeyCode::BackTab,
        step_rule(s, key, sel, r),
    ensures
        r.effects@.len() == 0,
        r.state.phase is Add,
        r.state.phase->Add_0.draft == s.phase->Add_0.draft,
        r.state.query == s.query,
        r.state.selection == s.selection,
{
}

/// A Backspace undoes the character just typed, in a form field: the field
/// reads as it did, and every other field is untouched.
pub proof fn lemma_type_then_delete_restores(d: ConnectionDraft, c: FormCursor, ch: char, d1: ConnectionDraft, d2: ConnectionDraft, f: AddField)
    requires
        typed_draft(d, c, ch, d1),
        deleted_draft(d1, c, d2),
    ensures
        field_text(f, d2) == field_text(f, d),
{
    match c {
        FormCursor::Field(g) => {
            assert(field_text(g, d).push(ch).drop_last() == field_text(g, d));
            if f != g {
                assert(field_value(f, d1) == field_value(f, d));
                assert(field_value(f, d2) == field_value(f, d1));
            }
        },
        FormCursor::Submit => {},
    }
}

/// On the list, a Backspace undoes the character just typed into the filter.
pub proof fn lemma_filter_type_then_delete(s: ManageState, ch: char, shift: bool, r1: Step, r2: Step)
    requires
        s.phase is List,
        step_rule(s, printable(ch, shift), None, r1),
        step_rule(r1.state, KeyEvent { code: KeyCode::Backspace, modifiers: printable(ch, false).modifiers }, None, r2),
    ensures
        r2.state.query@ == s.query@,
        r2.state.selection == s.selection,
        r2.state.phase == s.phase,
        r2.effects@.len() == 0,
{
    assert(s.query@.push(ch).drop_last() == s.query@);
}

} // verus!
