//! The form map the manage frame adds and edits Connections through.
//!
//! Six fields, each with its own optionality and its own validation, both
//! taken from the Connection model:
//!
//! * **Alias, Host** — required: empty is refused.
//! * **User** — optional, absent when empty.
//! * **Port** — optional with the SSH default: empty settles as `22`, and
//!   anything that is not a number in `1..=65535` is refused.
//! * **Key, Folder** — optional, absent when empty.
//!
//! The cursor walks the six fields and a submit row below them. The glyph a
//! row wears, the refusal line, and whether the form may be submitted are
//! all answered by the same per-field rule, [`field_settles_to`].

use vstd::prelude::*;
use crate::config::Connection;
use crate::connections::{opt_text, ConnectionDraft};
use crate::text::{
    chars_of, decimal, decimal_string, owned, parse_unsigned, parse_unsigned_spec, same_chars,
    string_of, trim, trim_chars,
};

verus! {

/// Which field of the form a map row stands for.
#[derive(Debug, Clone, Copy, PartialEq, Eq, Structural)]
pub enum AddField {
    Alias,
    Host,
    User,
    Port,
    Key,
    Folder,
}

/// The order the map walks, top to bottom.
pub open spec fn field_order() -> Seq<AddField> {
    seq![
        AddField::Alias,
        AddField::Host,
        AddField::User,
        AddField::Port,
        AddField::Key,
        AddField::Folder,
    ]
}

/// A field's position in the map.
pub open spec fn field_index(f: AddField) -> nat {
    match f {
        AddField::Alias => 0,
        AddField::Host => 1,
        AddField::User => 2,
        AddField::Port => 3,
        AddField::Key => 4,
        AddField::Folder => 5,
    }
}

/// The word a field wears in the map.
pub open spec fn label_text(f: AddField) -> Seq<char> {
    match f {
        AddField::Alias => "Alias"@,
        AddField::Host => "Host"@,
        AddField::User => "User"@,
        AddField::Port => "Port"@,
        AddField::Key => "Key"@,
        AddField::Folder => "Folder"@,
    }
}

/// The field's word in lower case, as the refusal sentences use it.
pub open spec fn word_text(f: AddField) -> Seq<char> {
    match f {
        AddField::Alias => "alias"@,
        AddField::Host => "host"@,
        AddField::User => "user"@,
        AddField::Port => "port"@,
        AddField::Key => "key"@,
        AddField::Folder => "folder"@,
    }
}

/// Whether a field must be answered with something.
pub open spec fn is_required(f: AddField) -> bool {
    f is Alias || f is Host
}

/// The refusal for a required field left empty.
pub open spec fn required_message(f: AddField) -> Seq<char> {
    word_text(f) + " is required"@
}

/// The refusal for a port that is not a number in `1..=65535`.
pub open spec fn port_message() -> Seq<char> {
    "port must be 1–65535 (e.g. 22)"@
}

/// The draft member a field is.
pub open spec fn field_value(f: AddField, d: ConnectionDraft) -> String {
    match f {
        AddField::Alias => d.alias,
        AddField::Host => d.host,
        AddField::User => d.user,
        AddField::Port => d.port,
        AddField::Key => d.key_path,
        AddField::Folder => d.folder,
    }
}

/// The text a field holds in a draft.
pub open spec fn field_text(f: AddField, d: ConnectionDraft) -> Seq<char> {
    field_value(f, d)@
}

/// The text a field holds in a stored Connection, spelled the way a draft of
/// it is: the port as its decimal digits, an absent optional as empty.
pub open spec fn conn_field_text(f: AddField, c: Connection) -> Seq<char> {
    match f {
        AddField::Alias => c.alias@,
        AddField::Host => c.host@,
        AddField::User => c.user@,
        AddField::Port => decimal(c.port as nat),
        AddField::Key => opt_text(c.key_path),
        AddField::Folder => opt_text(c.folder),
    }
}

/// The draft with one member replaced.
pub open spec fn with_field(d: ConnectionDraft, f: AddField, v: String) -> ConnectionDraft {
    match f {
        AddField::Alias => ConnectionDraft { alias: v, ..d },
        AddField::Host => ConnectionDraft { host: v, ..d },
        AddField::User => ConnectionDraft { user: v, ..d },
        AddField::Port => ConnectionDraft { port: v, ..d },
        AddField::Key => ConnectionDraft { key_path: v, ..d },
        AddField::Folder => ConnectionDraft { folder: v, ..d },
    }
}

/// What one field's answer settles to: `Ok` with the value written to the
/// draft — trimmed, the empty port replaced by `22`, a valid port in its
/// plain decimal spelling — or `Err` with the sentence the frame shows.
pub open spec fn field_settles_to(f: AddField, raw: Seq<char>) -> Result<Seq<char>, Seq<char>> {
    let v = trim(raw);
    if v.len() == 0 {
        if is_required(f) {
            Err(required_message(f))
        } else if f is Port {
            Ok(decimal(22))
        } else {
            Ok(Seq::empty())
        }
    } else if f is Port {
        match parse_unsigned_spec(v, 65535) {
            Some(p) => if p == 0 {
                Err(port_message())
            } else {
                Ok(decimal(p))
            },
            None => Err(port_message()),
        }
    } else {
        Ok(v)
    }
}

/// Why a field of a draft is wrong, if it is.
pub open spec fn field_problem(f: AddField, d: ConnectionDraft) -> Option<Seq<char>> {
    match field_settles_to(f, field_text(f, d)) {
        Ok(_) => None,
        Err(m) => Some(m),
    }
}

impl AddField {
    /// The order the map walks, top to bottom.
    pub const ORDER: [AddField; 6] = [
        AddField::Alias,
        AddField::Host,
        AddField::User,
        AddField::Port,
        AddField::Key,
        AddField::Folder,
    ];

    /// The field at position `i` of the map.
    pub fn at(i: usize) -> (r: AddField)
        requires
            i < 6,
        ensures
            r == field_order()[i as int],
            field_index(r) == i,
    {
        match i {
            0 => AddField::Alias,
            1 => AddField::Host,
            2 => AddField::User,
            3 => AddField::Port,
            4 => AddField::Key,
            _ => AddField::Folder,
        }
    }

    /// The position of this field in the map.
    pub fn position(self) -> (r: usize)
        ensures
            r == field_index(self),
            r < 6,
            field_order()[r as int] == self,
    {
        match self {
            AddField::Alias => 0,
            AddField::Host => 1,
            AddField::User => 2,
            AddField::Port => 3,
            AddField::Key => 4,
            AddField::Folder => 5,
        }
    }

    /// The word that names the field in the map.
    pub fn label(self) -> (r: &'static str)
        ensures
            r@ == label_text(self),
    {
        match self {
            AddField::Alias => "Alias",
            AddField::Host => "Host",
            AddField::User => "User",
            AddField::Port => "Port",
            AddField::Key => "Key",
            AddField::Folder => "Folder",
        }
    }

    /// The field's word in lower case.
    fn word(self) -> (r: &'static str)
        ensures
            r@ == word_text(self),
    {
        match self {
            AddField::Alias => "alias",
            AddField::Host => "host",
            AddField::User => "user",
            AddField::Port => "port",
            AddField::Key => "key",
            AddField::Folder => "folder",
        }
    }

    /// The next field down, or `None` after the last one.
    pub fn next(self) -> (r: Option<AddField>)
        ensures
            field_index(self) < 5 ==> r == Some(field_order()[field_index(self) + 1int]),
            field_index(self) == 5 ==> r is None,
    {
        let i = self.position();
        if i + 1 < 6 {
            Some(AddField::at(i + 1))
        } else {
            None
        }
    }

    /// Whether this field must be answered with something.
    pub fn required(self) -> (r: bool)
        ensures
            r == is_required(self),
    {
        match self {
            AddField::Alias | AddField::Host => true,
            _ => false,
        }
    }

    /// Validate and normalise one field's answer.
    pub fn settle(self, raw: &str) -> (r: Result<String, String>)
        ensures
            match r {
                Ok(v) => field_settles_to(self, raw@) == Ok::<Seq<char>, Seq<char>>(v@),
                Err(m) => field_settles_to(self, raw@) == Err::<Seq<char>, Seq<char>>(m@),
            },
    {
        let rc = chars_of(raw);
        let value = trim_chars(rc.as_slice());
        if value.len() == 0 {
            if self.required() {
                let mut m = owned(self.word());
                m.append(" is required");
                return Err(m);
            }
            return match self {
                AddField::Port => Ok(decimal_string(22)),
                _ => Ok(String::new()),
            };
        }
        match self {
            AddField::Port => match parse_unsigned(value.as_slice(), 65535) {
                Some(p) => if p == 0 {
                    Err(owned("port must be 1–65535 (e.g. 22)"))
                } else {
                    Ok(decimal_string(p))
                },
                None => Err(owned("port must be 1–65535 (e.g. 22)")),
            },
            _ => Ok(string_of(value.as_slice())),
        }
    }

    /// The draft member this field is.
    pub fn field_of(self, draft: &ConnectionDraft) -> (r: &String)
        ensures
            *r == field_value(self, *draft),
    {
        match self {
            AddField::Alias => &draft.alias,
            AddField::Host => &draft.host,
            AddField::User => &draft.user,
            AddField::Port => &draft.port,
            AddField::Key => &draft.key_path,
            AddField::Folder => &draft.folder,
        }
    }

    /// The value this field holds in a live Connection, spelled the way a
    /// draft of it would: the port as digits, an absent optional as empty.
    pub fn current(self, conn: &Connection) -> (r: String)
        ensures
            r@ == conn_field_text(self, *conn),
    {
        let d = ConnectionDraft::from_connection(conn);
        self.field_of(&d).clone()
    }

    /// Why this field is wrong, if it is.
    pub fn problem(self, draft: &ConnectionDraft) -> (r: Option<String>)
        ensures
            r.deep_view() == field_problem(self, *draft),
    {
        match self.settle(self.field_of(draft).as_str()) {
            Ok(_) => None,
            Err(m) => Some(m),
        }
    }

    /// Write a settled value into the draft.
    pub fn commit(self, draft: &mut ConnectionDraft, value: String)
        ensures
            *final(draft) == with_field(*old(draft), self, value),
    {
        match self {
            AddField::Alias => draft.alias = value,
            AddField::Host => draft.host = value,
            AddField::User => draft.user = value,
            AddField::Port => draft.port = value,
            AddField::Key => draft.key_path = value,
            AddField::Folder => draft.folder = value,
        }
    }
}

/// Replacing a member and reading it back gives what was written; the other
/// members are untouched.
pub proof fn lemma_with_field(d: ConnectionDraft, f: AddField, v: String, g: AddField)
    ensures
        field_value(g, with_field(d, f, v)) == if g == f {
            v
        } else {
            field_value(g, d)
        },
{
}

// ───────────────────────────── the cursor ─────────────────────────────

/// Where the cursor sits in a form map: on a field, or on the submit row
/// below them.
#[derive(Debug, Clone, Copy, PartialEq, Eq, Structural)]
pub enum FormCursor {
    Field(AddField),
    Submit,
}

/// The row a cursor stands on, top to bottom.
pub open spec fn cursor_index(c: FormCursor) -> nat {
    match c {
        FormCursor::Field(f) => field_index(f),
        FormCursor::Submit => 6,
    }
}

/// The cursor on row `i`: a field, or the submit row from six on.
pub open spec fn cursor_at(i: nat) -> FormCursor {
    if i >= 6 {
        FormCursor::Submit
    } else {
        FormCursor::Field(field_order()[i as int])
    }
}

/// `↓`: one row down, stopping at the submit row.
pub open spec fn cursor_down(c: FormCursor) -> FormCursor {
    cursor_at(if cursor_index(c) + 1 < 7 {
        cursor_index(c) + 1
    } else {
        6
    })
}

/// `↑`: one row up, stopping at the first field.
pub open spec fn cursor_up(c: FormCursor) -> FormCursor {
    cursor_at(if cursor_index(c) > 0 {
        (cursor_index(c) - 1) as nat
    } else {
        0
    })
}

/// `Tab`: one row down, wrapping from the submit row to the first field.
pub open spec fn cursor_next(c: FormCursor) -> FormCursor {
    cursor_at((cursor_index(c) + 1) % 7)
}

/// `Shift+Tab`: one row up, wrapping from the first field to the submit row.
pub open spec fn cursor_prev(c: FormCursor) -> FormCursor {
    cursor_at((cursor_index(c) + 6) % 7)
}

impl FormCursor {
    /// Fields plus the submit row.
    pub const ROWS: usize = 7;

    /// The row's position, top to bottom.
    pub fn index(self) -> (r: usize)
        ensures
            r == cursor_index(self),
            r < 7,
    {
        match self {
            FormCursor::Field(f) => f.position(),
            FormCursor::Submit => 6,
        }
    }

    /// The cursor on row `i`.
    pub fn from_index(i: usize) -> (r: Self)
        ensures
            r == cursor_at(i as nat),
    {
        if i >= 6 {
            FormCursor::Submit
        } else {
            FormCursor::Field(AddField::at(i))
        }
    }

    /// One row down, stopping at the bottom rather than wrapping.
    pub fn down(self) -> (r: Self)
        ensures
            r == cursor_down(self),
    {
        let i = self.index() + 1;
        Self::from_index(if i < 7 {
            i
        } else {
            6
        })
    }

    /// One row up, stopping at the top.
    pub fn up(self) -> (r: Self)
        ensures
            r == cursor_up(self),
    {
        let i = self.index();
        Self::from_index(if i > 0 {
            i - 1
        } else {
            0
        })
    }

    /// One row down, wrapping to the top from the bottom.
    pub fn next(self) -> (r: Self)
        ensures
            r == cursor_next(self),
    {
        Self::from_index((self.index() + 1) % 7)
    }

    /// One row up, wrapping to the bottom from the top.
    pub fn prev(self) -> (r: Self)
        ensures
            r == cursor_prev(self),
    {
        Self::from_index((self.index() + 6) % 7)
    }

    /// Whether the cursor is on the submit row.
    pub fn is_submit(self) -> (r: bool)
        ensures
            r == (self is Submit),
    {
        match self {
            FormCursor::Submit => true,
            _ => false,
        }
    }
}

/// Every cursor is the cursor on its own row, and every row has one.
pub proof fn lemma_cursor_rows(c: FormCursor, i: nat)
    ensures
        cursor_at(cursor_index(c)) == c,
        cursor_index(c) < 7,
        i < 7 ==> cursor_index(cursor_at(i)) == i,
{
}

/// `Tab` and `Shift+Tab` undo each other: one row down with wrap, then one
/// row up with wrap, lands where it started, and the other way round too.
pub proof fn lemma_next_prev_inverse(c: FormCursor)
    ensures
        cursor_prev(cursor_next(c)) == c,
        cursor_next(cursor_prev(c)) == c,
{
}

/// `↓` stops at the submit row and `↑` at the first field: neither wraps.
/// Everywhere else they are `Tab` and `Shift+Tab`.
pub proof fn lemma_down_up_saturate(c: FormCursor)
    ensures
        cursor_down(FormCursor::Submit) == FormCursor::Submit,
        cursor_up(FormCursor::Field(AddField::Alias)) == FormCursor::Field(AddField::Alias),
        !(c is Submit) ==> cursor_down(c) == cursor_next(c),
        c != FormCursor::Field(AddField::Alias) ==> cursor_up(c) == cursor_prev(c),
{
}

/// `Tab` visits every row once before it comes back: seven steps from any
/// row return to it, and no fewer do.
pub proof fn lemma_next_cycles(c: FormCursor, k: nat)
    requires
        1 <= k <= 7,
    ensures
        cursor_at((cursor_index(c) + k) % 7) == c <==> k == 7,
{
}

// ───────────────────────────── glyphs and rows ─────────────────────────────

/// What a map row's leading glyph says about its field.
#[derive(Debug, Clone, Copy, PartialEq, Eq, Structural)]
pub enum RowGlyph {
    /// Filled and valid.
    Valid,
    /// Valid, and different from what the stored Connection holds.
    Changed,
    /// Required and still empty.
    Needed,
    /// Has content that will not validate.
    Invalid,
    /// Optional and empty.
    Empty,
}

impl RowGlyph {
    /// The glyph's character.
    pub fn char(self) -> (r: char)
        ensures
            r == match self {
                RowGlyph::Valid => '\u{2713}',
                RowGlyph::Changed => '\u{25cf}',
                RowGlyph::Needed => '\u{25cb}',
                RowGlyph::Invalid => '!',
                RowGlyph::Empty => '\u{b7}',
            },
    {
        match self {
            RowGlyph::Valid => '\u{2713}',
            RowGlyph::Changed => '\u{25cf}',
            RowGlyph::Needed => '\u{25cb}',
            RowGlyph::Invalid => '!',
            RowGlyph::Empty => '\u{b7}',
        }
    }
}

/// The glyph a field's row wears: `!` for content that will not validate,
/// `○` for a required field still empty, `●` for a valid value that differs
/// (trimmed) from the stored one, `·` for an empty optional, `✓` otherwise.
pub open spec fn glyph_for(f: AddField, d: ConnectionDraft, baseline: Option<ConnectionDraft>) -> RowGlyph {
    let raw = field_text(f, d);
    let blank = trim(raw).len() == 0;
    if !blank && field_settles_to(f, raw) is Err {
        RowGlyph::Invalid
    } else if blank && is_required(f) {
        RowGlyph::Needed
    } else if baseline is Some && trim(field_text(f, baseline->0)) != trim(raw) {
        RowGlyph::Changed
    } else if blank {
        RowGlyph::Empty
    } else {
        RowGlyph::Valid
    }
}

/// The glyph and the refusal line never disagree: a row shows `!` or `○`
/// exactly when its field has a problem.
pub proof fn lemma_glyph_matches_problem(f: AddField, d: ConnectionDraft, baseline: Option<ConnectionDraft>)
    ensures
        (glyph_for(f, d, baseline) is Invalid || glyph_for(f, d, baseline) is Needed)
            <==> field_problem(f, d) is Some,
{
}

/// One row of the form map, ready for the frame to draw.
#[derive(Debug, Clone, PartialEq, Eq)]
pub struct MapRow {
    pub field: AddField,
    pub label: &'static str,
    /// Whether this field must be filled.
    pub required: bool,
    pub glyph: RowGlyph,
    /// The field's content, or `None` when it is blank.
    pub value: Option<String>,
    pub focused: bool,
}

/// Whether `row` is the map row for field `f` of `d`.
pub open spec fn is_map_row(row: MapRow, f: AddField, d: ConnectionDraft, focus: FormCursor, baseline: Option<ConnectionDraft>) -> bool {
    &&& row.field == f
    &&& row.label@ == label_text(f)
    &&& row.required == is_required(f)
    &&& row.glyph == glyph_for(f, d, baseline)
    &&& row.value.deep_view() == if trim(field_text(f, d)).len() == 0 {
        None
    } else {
        Some(field_text(f, d))
    }
    &&& row.focused == (focus == FormCursor::Field(f))
}

/// The trimmed text of a member.
fn trimmed(s: &String) -> (r: Vec<char>)
    ensures
        r@ == trim(s@),
{
    let c = chars_of(s.as_str());
    trim_chars(c.as_slice())
}

/// The map rows for a draft, one per field in map order. `baseline` is
/// what the stored Connection holds; `None` on a new Connection, where
/// nothing can be *changed* — only filled.
pub fn map_rows(draft: &ConnectionDraft, focus: FormCursor, baseline: Option<&ConnectionDraft>) -> (r: Vec<MapRow>)
    ensures
        r@.len() == 6,
        forall|i: int| 0 <= i < 6 ==> is_map_row(#[trigger] r@[i], field_order()[i], *draft, focus, match baseline {
            Some(b) => Some(*b),
            None => None,
        }),
{
    let ghost base = match baseline {
        Some(b) => Some(*b),
        None => None,
    };
    let mut rows: Vec<MapRow> = Vec::new();
    let mut i: usize = 0;
    while i < 6
        invariant
            i <= 6,
            rows@.len() == i,
            base == match baseline {
                Some(b) => Some(*b),
                None => None,
            },
            forall|j: int| 0 <= j < i ==> is_map_row(#[trigger] rows@[j], field_order()[j], *draft, focus, base),
        decreases 6 - i,
    {
        let f = AddField::at(i);
        let raw = f.field_of(draft);
        let t = trimmed(raw);
        let blank = t.len() == 0;
        let invalid = !blank && f.settle(raw.as_str()).is_err();
        let changed = match baseline {
            Some(b) => {
                let bt = trimmed(f.field_of(b));
                !same_chars(bt.as_slice(), t.as_slice())
            },
            None => false,
        };
        let glyph = if invalid {
            RowGlyph::Invalid
        } else if blank && f.required() {
            RowGlyph::Needed
        } else if changed {
            RowGlyph::Changed
        } else if blank {
            RowGlyph::Empty
        } else {
            RowGlyph::Valid
        };
        let value = if blank {
            None
        } else {
            Some(raw.clone())
        };
        let focused = match focus {
            FormCursor::Field(g) => g == f,
            FormCursor::Submit => false,
        };
        rows.push(MapRow { field: f, label: f.label(), required: f.required(), glyph, value, focused });
        i = i + 1;
    }
    rows
}

// ───────────────────────────── problems ─────────────────────────────

/// The problems of the first `k` fields of `d`, in map order, as
/// `(label, message)`.
pub open spec fn problems_upto(d: ConnectionDraft, k: nat) -> Seq<(Seq<char>, Seq<char>)>
    decreases k,
{
    if k == 0 {
        Seq::empty()
    } else {
        let f = field_order()[k - 1];
        let before = problems_upto(d, (k - 1) as nat);
        match field_problem(f, d) {
            Some(m) => before.push((label_text(f), m)),
            None => before,
        }
    }
}

/// Every problem with a draft, in map order.
pub open spec fn draft_problems(d: ConnectionDraft) -> Seq<(Seq<char>, Seq<char>)> {
    problems_upto(d, 6)
}

/// The views of a problem list.
pub open spec fn problem_views(v: Seq<(&'static str, String)>) -> Seq<(Seq<char>, Seq<char>)> {
    v.map_values(|p: (&'static str, String)| (p.0@, p.1@))
}

/// Every problem with a draft, in map order, as `(label, message)`.
pub fn field_problems(draft: &ConnectionDraft) -> (r: Vec<(&'static str, String)>)
    ensures
        problem_views(r@) == draft_problems(*draft),
{
    let mut out: Vec<(&'static str, String)> = Vec::new();
    let mut i: usize = 0;
    while i < 6
        invariant
            i <= 6,
            problem_views(out@) == problems_upto(*draft, i as nat),
        decreases 6 - i,
    {
        let f = AddField::at(i);
        match f.problem(draft) {
            Some(m) => {
                out.push((f.label(), m));
            },
            None => {},
        }
        i = i + 1;
    }
    out
}

/// Whether field `f` holds, trimmed, something else in `d` than in `b`.
pub open spec fn differs(f: AddField, d: ConnectionDraft, b: ConnectionDraft) -> bool {
    trim(field_text(f, d)) != trim(field_text(f, b))
}

/// The fields that differ, trimmed, between `d` and `b`, in map order.
pub open spec fn changed_fields(d: ConnectionDraft, b: ConnectionDraft) -> Seq<AddField> {
    field_order().filter(|f: AddField| differs(f, d, b))
}

/// The fields whose trimmed text differs between `draft` and `baseline`, in
/// map order. Typing spaces into an empty optional is no change.
pub fn changed(draft: &ConnectionDraft, baseline: &ConnectionDraft) -> (r: Vec<AddField>)
    ensures
        r@ == changed_fields(*draft, *baseline),
{
    let ghost pred = |f: AddField| differs(f, *draft, *baseline);
    let mut out: Vec<AddField> = Vec::new();
    let mut i: usize = 0;
    while i < 6
        invariant
            i <= 6,
            pred == (|f: AddField| differs(f, *draft, *baseline)),
            out@ == field_order().take(i as int).filter(pred),
        decreases 6 - i,
    {
        let f = AddField::at(i);
        proof {
            field_order().take(i as int).lemma_filter_push(f, pred);
            assert(field_order().take(i + 1) == field_order().take(i as int).push(f));
        }
        let a = trimmed(f.field_of(draft));
        let b = trimmed(f.field_of(baseline));
        if !same_chars(a.as_slice(), b.as_slice()) {
            out.push(f);
        }
        i = i + 1;
    }
    assert(field_order().take(6) == field_order());
    out
}

/// Whether every field of `d` settles.
pub open spec fn all_settle(d: ConnectionDraft) -> bool {
    forall|i: int| 0 <= i < 6 ==> (#[trigger] field_settles_to(field_order()[i], field_text(field_order()[i], d))) is Ok
}

/// Whether `out` is `d` with every field replaced by what it settles to.
pub open spec fn is_settled_form(d: ConnectionDraft, out: ConnectionDraft) -> bool {
    forall|i: int| 0 <= i < 6 ==> field_settles_to(field_order()[i], field_text(field_order()[i], d))
        == Ok::<Seq<char>, Seq<char>>(#[trigger] field_text(field_order()[i], out))
}

/// A draft has no problems exactly when every field settles: the refusal
/// line and the submit row answer the same question.
pub proof fn lemma_no_problems_iff_settles(d: ConnectionDraft)
    ensures
        draft_problems(d).len() == 0 <==> all_settle(d),
{
    lemma_problems_upto(d, 6);
}

proof fn lemma_problems_upto(d: ConnectionDraft, k: nat)
    requires
        k <= 6,
    ensures
        problems_upto(d, k).len() == 0 <==> forall|i: int| 0 <= i < k ==> (#[trigger] field_settles_to(field_order()[i], field_text(field_order()[i], d))) is Ok,
    decreases k,
{
    if k > 0 {
        lemma_problems_upto(d, (k - 1) as nat);
    }
}

/// The draft with every field run through its own settle rule, or `None`
/// if any field will not settle.
pub fn settled_draft(draft: &ConnectionDraft) -> (r: Option<ConnectionDraft>)
    ensures
        r is Some <==> all_settle(*draft),
        r is Some ==> is_settled_form(*draft, r->0),
{
    let mut out = draft.copy();
    let mut i: usize = 0;
    while i < 6
        invariant
            i <= 6,
            forall|j: int| 0 <= j < i ==> field_settles_to(field_order()[j], field_text(field_order()[j], *draft)) == Ok::<Seq<char>, Seq<char>>(#[trigger] field_text(field_order()[j], out)),
            forall|j: int| i <= j < 6 ==> #[trigger] field_text(field_order()[j], out) == field_text(field_order()[j], *draft),
        decreases 6 - i,
    {
        let f = AddField::at(i);
        match f.settle(f.field_of(draft).as_str()) {
            Ok(value) => {
                let ghost before = out;
                let ghost v = value;
                f.commit(&mut out, value);
                assert forall|j: int| 0 <= j < 6 && j != i implies #[trigger] field_text(field_order()[j], out) == field_text(field_order()[j], before) by {
                    lemma_with_field(before, f, v, field_order()[j]);
                }
                proof {
                    lemma_with_field(before, f, v, f);
                }
            },
            Err(_) => {
                assert(field_settles_to(field_order()[i as int], field_text(field_order()[i as int], *draft)) is Err);
                return None;
            },
        }
        i = i + 1;
    }
    assert forall|j: int| 0 <= j < 6 implies (#[trigger] field_settles_to(field_order()[j], field_text(field_order()[j], *draft))) is Ok by {
        assert(field_text(field_order()[j], out) == field_text(field_order()[j], out));
    }
    Some(out)
}

/// A field's settled text settles to itself.
pub proof fn lemma_field_settle_idempotent(f: AddField, raw: Seq<char>)
    requires
        field_settles_to(f, raw) is Ok,
    ensures
        field_settles_to(f, field_settles_to(f, raw)->Ok_0) == field_settles_to(f, raw),
{
    let v = trim(raw);
    crate::text::lemma_trim_idempotent(raw);
    if f is Port {
        if v.len() == 0 {
            crate::text::lemma_decimal_round_trip(22);
            crate::text::lemma_trim_digits(decimal(22));
        } else {
            let p = parse_unsigned_spec(v, 65535)->0;
            crate::text::lemma_decimal_round_trip(p);
            crate::text::lemma_trim_digits(decimal(p));
        }
    }
}

/// Settling is idempotent: the draft a draft settles to settles again, to
/// itself, so settling twice gives what settling once gave.
pub proof fn lemma_settled_draft_idempotent(d: ConnectionDraft, out: ConnectionDraft)
    requires
        all_settle(d),
        is_settled_form(d, out),
    ensures
        all_settle(out),
        is_settled_form(out, out),
{
    assert forall|i: int| 0 <= i < 6 implies field_settles_to(field_order()[i], field_text(field_order()[i], out))
        == Ok::<Seq<char>, Seq<char>>(#[trigger] field_text(field_order()[i], out)) by {
        let f = field_order()[i];
        assert(field_settles_to(f, field_text(f, d)) is Ok);
        lemma_field_settle_idempotent(f, field_text(f, d));
    }
}

/// `parts` joined with `sep` between each two.
pub open spec fn joined(parts: Seq<Seq<char>>, sep: Seq<char>) -> Seq<char>
    decreases parts.len(),
{
    if parts.len() == 0 {
        Seq::empty()
    } else if parts.len() == 1 {
        parts[0]
    } else {
        joined(parts.drop_last(), sep) + sep + parts.last()
    }
}

/// The refusal line: every problem's message, then `nothing to save` when
/// nothing changed, joined with ` · `.
pub open spec fn refusal_text(problems: Seq<(Seq<char>, Seq<char>)>, nothing_changed: bool) -> Seq<char> {
    let msgs = problems.map_values(|p: (Seq<char>, Seq<char>)| p.1);
    let parts = if nothing_changed {
        msgs.push("nothing to save"@)
    } else {
        msgs
    };
    joined(parts, " \u{b7} "@)
}

/// The refusal line: every problem with the form, joined for one row.
pub fn refusal_line(problems: &[(&'static str, String)], nothing_changed: bool) -> (r: String)
    ensures
        r@ == refusal_text(problem_views(problems@), nothing_changed),
{
    let ghost msgs = problem_views(problems@).map_values(|p: (Seq<char>, Seq<char>)| p.1);
    let mut parts: Vec<String> = Vec::new();
    let mut i: usize = 0;
    while i < problems.len()
        invariant
            i <= problems@.len(),
            msgs == problem_views(problems@).map_values(|p: (Seq<char>, Seq<char>)| p.1),
            parts@.len() == i,
            forall|j: int| 0 <= j < i ==> (#[trigger] parts@[j])@ == msgs[j],
        decreases problems.len() - i,
    {
        parts.push(problems[i].1.clone());
        i = i + 1;
    }
    if nothing_changed {
        parts.push(owned("nothing to save"));
    }
    let ghost wanted = if nothing_changed {
        msgs.push("nothing to save"@)
    } else {
        msgs
    };
    assert(parts@.len() == wanted.len());
    let sep = chars_of(" \u{b7} ");
    let mut out = String::new();
    let mut k: usize = 0;
    while k < parts.len()
        invariant
            k <= parts@.len(),
            parts@.len() == wanted.len(),
            forall|j: int| 0 <= j < parts@.len() ==> (#[trigger] parts@[j])@ == wanted[j],
            sep@ == " \u{b7} "@,
            out@ == joined(wanted.take(k as int), sep@),
        decreases parts.len() - k,
    {
        assert(wanted.take(k + 1).drop_last() == wanted.take(k as int));
        assert(wanted.take(k + 1).last() == wanted[k as int]);
        if k > 0 {
            crate::text::push_chars(&mut out, sep.as_slice());
        }
        let pc = chars_of(parts[k].as_str());
        crate::text::push_chars(&mut out, pc.as_slice());
        if k == 0 {
            assert(wanted.take(1)[0] == wanted[0]);
        }
        k = k + 1;
    }
    assert(wanted.take(parts@.len() as int) == wanted);
    out
}

} // verus!
