//! The inline frame's geometry and text.
//!
//! The frame is a fixed-height stack of lines: a header, the list rows, a
//! hint rail and a closing corner. What is decided here is how much of the
//! terminal it spends — how many list rows fit, which window of a long list
//! is shown, how many physical rows a drawn line occupies — and what its
//! text says: a row's `[folder] alias (user@host:port)`, where each field sits
//! in it, which hints survive a narrow terminal, and how the import path is
//! shown.
//!
//! The unit throughout is the terminal column or the character, as each
//! function says; field offsets into a row count its characters.

use vstd::prelude::*;
use crate::config::Connection;
use crate::connections::opt_text;
use crate::form::joined;
use crate::text::{chars_of, decimal, decimal_string, push_char, push_chars, owned, same_text};
use crate::theme::ColorSupport;
pub use crate::draw::{
    build_frame, build_frame_at, build_frame_with_flow, build_frame_with_note, fit_line, AddFlow, EditFlow, Frame,
    FrameFlow, ImportOfferFlow, SettledField,
};

verus! {

/// The lines of a frame that are not list rows: the header, the hint rail
/// and the corner.
pub const CHROME_LINES: usize = 3;

/// The list rows a frame shows when the terminal has room for all of them.
pub const VISIBLE_ROWS: usize = 8;

/// The lines of a full frame: the list area plus the chrome around it.
pub const FRAME_LINES: usize = 11;

/// The line the frame leaves for the user's own prompt.
pub const PROMPT_LINES: usize = 1;

/// The list rows a terminal of `height` rows leaves a frame: what is left
/// after the chrome and the prompt line, at most eight, and none at all when
/// nothing is left.
pub open spec fn fitted_rows(height: nat) -> Option<nat> {
    if height <= 4 {
        None
    } else if height - 4 < 8 {
        Some((height - 4) as nat)
    } else {
        Some(8)
    }
}

/// How many list rows a terminal `terminal_height` rows tall can show, or
/// `None` when it cannot hold a frame at all.
pub fn fit_visible_rows(terminal_height: usize) -> (r: Option<usize>)
    ensures
        match r {
            Some(v) => fitted_rows(terminal_height as nat) == Some(v as nat),
            None => fitted_rows(terminal_height as nat) is None,
        },
{
    let room = if terminal_height > CHROME_LINES + PROMPT_LINES {
        terminal_height - (CHROME_LINES + PROMPT_LINES)
    } else {
        0
    };
    if room == 0 {
        None
    } else if room < VISIBLE_ROWS {
        Some(room)
    } else {
        Some(VISIBLE_ROWS)
    }
}

/// The start of the window a list of `total` rows shows around `selection`.
pub open spec fn window_start(total: nat, selection: nat, visible: nat) -> nat {
    let v = if visible < total {
        visible
    } else {
        total
    };
    let s = if selection >= v / 2 {
        (selection - v / 2) as nat
    } else {
        0
    };
    if s < total - v {
        s
    } else {
        (total - v) as nat
    }
}

/// The rows a fixed-height window shows for a given selection: `visible`
/// rows (or all of them, if fewer), with the selection `visible / 2` rows
/// down from the top where the list allows, pinned at either end rather than
/// scrolling past it.
pub fn visible_window(total: usize, selection: usize, visible: usize) -> (r: core::ops::Range<
    usize,
>)
    ensures
        (total == 0 || visible == 0) ==> r.start == 0 && r.end == 0,
        (total > 0 && visible > 0) ==> {
            &&& r.start == window_start(total as nat, selection as nat, visible as nat)
            &&& r.end - r.start == if visible < total {
                visible as int
            } else {
                total as int
            }
        },
{
    if total == 0 || visible == 0 {
        return 0..0;
    }
    let visible = if visible < total {
        visible
    } else {
        total
    };
    let half = visible / 2;
    let s = if selection >= half {
        selection - half
    } else {
        0
    };
    let start = if s < total - visible {
        s
    } else {
        total - visible
    };
    start..start + visible
}

/// The window stays inside the list, and shows the selection whenever the
/// selection is a row that exists.
pub proof fn lemma_window_bounds(total: nat, selection: nat, visible: nat)
    requires
        total > 0,
        visible > 0,
    ensures
        ({
            let v = if visible < total {
                visible
            } else {
                total
            };
            let s = window_start(total, selection, visible);
            &&& s + v <= total
            &&& selection < total ==> s <= selection < s + v
        }),
{
}

/// How many physical rows a drawn line of `columns` display columns occupies
/// in a terminal `width` columns wide: one while it fits, more once the
/// terminal wraps it.
pub fn physical_rows(columns: usize, width: usize) -> (r: usize)
    ensures
        width == 0 ==> r == 1,
        width > 0 ==> r == if columns == 0 {
            1
        } else {
            (columns + width - 1) as int / (width as int)
        },
        r >= 1,
{
    if width == 0 {
        return 1;
    }
    let base = columns / width;
    let rem = columns % width;
    proof {
        assert(rem != 0 ==> base < usize::MAX) by (nonlinear_arith)
            requires
                width > 0,
                base == columns / width,
                rem == columns % width,
                columns <= usize::MAX,
        ;
    }
    let q = if rem != 0 {
        base + 1
    } else {
        base
    };
    proof {
        if columns > 0 {
            assert(q == (columns + width - 1) as int / (width as int) && q >= 1) by (nonlinear_arith)
                requires
                    width > 0,
                    columns > 0,
                    base == columns / width,
                    rem == columns % width,
                    q == if rem != 0 {
                        base + 1
                    } else {
                        base as int
                    },
            ;
        }
    }
    if q > 1 {
        q
    } else {
        1
    }
}

/// The terminal the frame is being drawn into.
#[derive(Debug, Clone, Copy, PartialEq, Eq)]
pub struct Canvas {
    /// Columns available to the frame.
    pub width: usize,
    /// Rows of the terminal.
    pub height: usize,
    /// How much colour this terminal can render.
    pub support: ColorSupport,
}

impl Canvas {
    /// A canvas `width` by `height` with the given colour capability.
    pub fn new(width: usize, height: usize, support: ColorSupport) -> (r: Self)
        ensures
            r.width == width,
            r.height == height,
            r.support == support,
    {
        Canvas { width, height, support }
    }

    /// How many list rows this canvas leaves the frame, or `None` when it is
    /// too short to hold one.
    pub fn visible_rows(&self) -> (r: Option<usize>)
        ensures
            match r {
                Some(v) => fitted_rows(self.height as nat) == Some(v as nat),
                None => fitted_rows(self.height as nat) is None,
            },
    {
        fit_visible_rows(self.height)
    }

    /// The columns the frame may spend: one fewer than the canvas owns, so a
    /// one-column narrowing re-wraps nothing.
    pub fn fit_width(&self) -> (r: usize)
        ensures
            r == if self.width > 0 {
                self.width - 1
            } else {
                0
            },
    {
        if self.width > 0 {
            self.width - 1
        } else {
            0
        }
    }
}

/// What the frame is being used for.
#[derive(Debug, Clone, Copy, PartialEq, Eq)]
pub enum FrameMode {
    /// Choose a Connection.
    Pick,
    /// Add, edit and delete Connections.
    Manage,
}

/// Which layout the frame took.
#[derive(Debug, Clone, Copy, PartialEq, Eq)]
pub enum FrameState {
    /// There are no Connections at all.
    Empty,
    /// There are Connections, but none match the query.
    NoMatch,
    /// At least one row to show.
    Rows,
}

/// Which layout a frame over `total` Connections with `matched` matches
/// takes.
pub fn frame_state(total: usize, matched: usize) -> (r: FrameState)
    ensures
        r == if total == 0 {
            FrameState::Empty
        } else if matched == 0 {
            FrameState::NoMatch
        } else {
            FrameState::Rows
        },
{
    if total == 0 {
        FrameState::Empty
    } else if matched == 0 {
        FrameState::NoMatch
    } else {
        FrameState::Rows
    }
}

// ───────────────────────────── hints ─────────────────────────────

/// The hint line built from `hints` in order, each joined with `sep`, and
/// whether a hint was refused: a hint is kept only while the line, with it
/// and the separator before it, still fits in `width` characters, and the
/// first one that does not fit ends the line.
pub open spec fn hint_scan(hints: Seq<Seq<char>>, width: nat, sep: Seq<char>) -> (Seq<char>, bool)
    decreases hints.len(),
{
    if hints.len() == 0 {
        (Seq::empty(), false)
    } else {
        let (out, stopped) = hint_scan(hints.drop_last(), width, sep);
        let h = hints.last();
        if stopped {
            (out, true)
        } else {
            let extra = if out.len() == 0 {
                0
            } else {
                sep.len()
            };
            if out.len() + extra + h.len() > width {
                (out, true)
            } else if out.len() == 0 {
                (h, false)
            } else {
                (out + sep + h, false)
            }
        }
    }
}

/// The fitted hint line: hints dropped from the end until the rest fit.
pub open spec fn fitted_hints(hints: Seq<Seq<char>>, width: nat, sep: Seq<char>) -> Seq<char> {
    hint_scan(hints, width, sep).0
}

/// The views of a list of texts.
pub open spec fn texts(hints: Seq<&str>) -> Seq<Seq<char>> {
    hints.map_values(|h: &str| h@)
}

/// A fitted hint line is never wider than the width it was fitted to.
pub proof fn lemma_fitted_hints_fit(hints: Seq<Seq<char>>, width: nat, sep: Seq<char>)
    ensures
        fitted_hints(hints, width, sep).len() <= width,
    decreases hints.len(),
{
    if hints.len() > 0 {
        lemma_fitted_hints_fit(hints.drop_last(), width, sep);
    }
}

/// Joining non-empty hints gives an empty line only when there are none.
proof fn lemma_joined_empty(hints: Seq<Seq<char>>, sep: Seq<char>)
    requires
        forall|i: int| 0 <= i < hints.len() ==> (#[trigger] hints[i]).len() > 0,
    ensures
        joined(hints, sep).len() == 0 <==> hints.len() == 0,
{
    if hints.len() > 1 {
        assert(hints.last() == hints[hints.len() - 1]);
    }
}

/// The joined line grows with every hint taken.
proof fn lemma_joined_grows(hints: Seq<Seq<char>>, sep: Seq<char>, a: int, b: int)
    requires
        0 <= a <= b <= hints.len(),
    ensures
        joined(hints.take(a), sep).len() <= joined(hints.take(b), sep).len(),
    decreases b - a,
{
    if a < b {
        lemma_joined_grows(hints, sep, a, b - 1);
        assert(hints.take(b).drop_last() =~= hints.take(b - 1));
    }
}

/// The fitted hint line is the longest run of leading hints whose joined
/// line fits: it is the first `k` hints joined, that line fits in `width`,
/// and taking any more hints would not fit (hints are dropped from the end,
/// never from the middle). Stated for hints that are not empty.
pub proof fn lemma_fitted_hints_largest_prefix(hints: Seq<Seq<char>>, width: nat, sep: Seq<char>) -> (k: nat)
    requires
        forall|i: int| 0 <= i < hints.len() ==> (#[trigger] hints[i]).len() > 0,
    ensures
        k <= hints.len(),
        fitted_hints(hints, width, sep) == joined(hints.take(k as int), sep),
        joined(hints.take(k as int), sep).len() <= width,
        forall|m: int| k < m <= hints.len() ==> #[trigger] joined(hints.take(m), sep).len() > width,
        hint_scan(hints, width, sep).1 <==> k < hints.len(),
    decreases hints.len(),
{
    if hints.len() == 0 {
        assert(hints.take(0) =~= hints);
        0
    } else {
        let n = hints.len() as int;
        let prev = hints.drop_last();
        assert forall|i: int| 0 <= i < prev.len() implies (#[trigger] prev[i]).len() > 0 by {
            assert(prev[i] == hints[i]);
        }
        let kp = lemma_fitted_hints_largest_prefix(prev, width, sep);
        assert forall|m: int| 0 <= m <= n - 1 implies #[trigger] hints.take(m) == prev.take(m) by {
            assert(hints.take(m) =~= prev.take(m));
        }
        assert(hints.take(n) =~= hints);
        assert(hints.take(n).drop_last() =~= prev);
        assert(prev.take(n - 1) =~= prev);
        let (out, stopped) = hint_scan(prev, width, sep);
        let h = hints.last();
        if stopped {
            assert forall|m: int| kp < m <= n implies #[trigger] joined(hints.take(m), sep).len() > width by {
                if m == n {
                    lemma_joined_grows(hints, sep, n - 1, n);
                    assert(joined(hints.take(n - 1), sep) == joined(prev.take(n - 1), sep));
                } else {
                    assert(joined(hints.take(m), sep) == joined(prev.take(m), sep));
                }
            }
            assert(joined(hints.take(kp as int), sep) == joined(prev.take(kp as int), sep));
            kp
        } else {
            assert(kp == n - 1);
            assert(out == joined(prev, sep));
            lemma_joined_empty(prev, sep);
            assert(joined(hints.take(n - 1), sep) == joined(prev.take(n - 1), sep));
            if n == 1 {
                assert(joined(hints, sep) == h);
            } else {
                assert(joined(hints, sep) == joined(prev, sep) + sep + h);
            }
            let extra: int = if out.len() == 0 {
                0
            } else {
                sep.len() as int
            };
            if out.len() + extra + h.len() > width {
                assert forall|m: int| kp < m <= n implies #[trigger] joined(hints.take(m), sep).len() > width by {
                    assert(m == n);
                }
                kp
            } else {
                n as nat
            }
        }
    }
}

/// Join hint labels with ` | `, dropping the ones that do not fit.
pub fn fit_hints(hints: &[&str], width: usize) -> (r: String)
    ensures
        r@ == fitted_hints(texts(hints@), width as nat, " | "@),
{
    fit_hints_with(hints, width, " | ")
}

/// [`fit_hints`] with the separator chosen by the caller. Hints are dropped
/// from the end, so a caller decides what survives a narrow terminal by
/// ordering them by importance.
pub fn fit_hints_with(hints: &[&str], width: usize, sep: &str) -> (r: String)
    ensures
        r@ == fitted_hints(texts(hints@), width as nat, sep@),
{
    let sep_chars = chars_of(sep);
    let ghost hs = texts(hints@);
    let mut out = String::new();
    let mut out_len: usize = 0;
    let mut stopped = false;
    let mut i: usize = 0;
    while i < hints.len()
        invariant
            i <= hints@.len(),
            hs == texts(hints@),
            sep_chars@ == sep@,
            (out@, stopped) == hint_scan(hs.take(i as int), width as nat, sep@),
            out_len == out@.len(),
            out_len <= width,
        decreases hints.len() - i,
    {
        proof {
            lemma_fitted_hints_fit(hs.take(i as int), width as nat, sep@);
            assert(hs.take(i + 1).drop_last() == hs.take(i as int));
            assert(hs.take(i + 1).last() == hints@[i as int]@);
        }
        if !stopped {
            let h = chars_of(hints[i]);
            let extra = if out_len == 0 {
                0
            } else {
                sep_chars.len()
            };
            if extra > width - out_len || h.len() > width - out_len - extra {
                stopped = true;
            } else {
                if out_len != 0 {
                    push_chars(&mut out, sep_chars.as_slice());
                }
                push_chars(&mut out, h.as_slice());
                out_len = out_len + extra + h.len();
            }
        }
        i = i + 1;
    }
    assert(hs.take(hints@.len() as int) == hs);
    out
}

// ───────────────────────────── rows ─────────────────────────────

/// The `(user@host:port)` part of a row.
pub open spec fn meta_text(c: Connection) -> Seq<char> {
    seq!['('] + c.user@ + seq!['@'] + c.host@ + seq![':'] + decimal(c.port as nat) + seq![')']
}

/// What a frame row says: `[folder] alias (user@host:port)`, or
/// `alias (user@host:port)` when the Connection has no folder (or an empty
/// one).
pub open spec fn row_text(c: Connection) -> Seq<char> {
    let body = c.alias@ + seq![' '] + meta_text(c);
    let folder = opt_text(c.folder);
    if folder.len() == 0 {
        body
    } else {
        seq!['['] + folder + seq![']', ' '] + body
    }
}

/// The display text of a frame row, without the rail or cursor.
pub fn build_row_text(conn: &Connection) -> (r: String)
    ensures
        r@ == row_text(*conn),
{
    let mut out = String::new();
    match &conn.folder {
        Some(f) => {
            let fc = chars_of(f.as_str());
            if fc.len() > 0 {
                push_char(&mut out, '[');
                push_chars(&mut out, fc.as_slice());
                push_char(&mut out, ']');
                push_char(&mut out, ' ');
            }
        },
        None => {},
    }
    let alias = chars_of(conn.alias.as_str());
    push_chars(&mut out, alias.as_slice());
    push_char(&mut out, ' ');
    push_char(&mut out, '(');
    let user = chars_of(conn.user.as_str());
    push_chars(&mut out, user.as_slice());
    push_char(&mut out, '@');
    let host = chars_of(conn.host.as_str());
    push_chars(&mut out, host.as_slice());
    push_char(&mut out, ':');
    let port = decimal_string(conn.port as u64);
    let pc = chars_of(port.as_str());
    push_chars(&mut out, pc.as_slice());
    push_char(&mut out, ')');
    proof {
        let folder = opt_text(conn.folder);
        if folder.len() == 0 {
            assert(out@ == row_text(*conn));
        } else {
            assert(out@ == row_text(*conn));
        }
    }
    out
}

/// Whether a Connection's row is short enough for its character offsets to
/// be counted in a `usize`.
pub open spec fn row_fits(c: Connection) -> bool {
    opt_text(c.folder).len() + c.alias@.len() + c.user@.len() + c.host@.len() + decimal(
        c.port as nat,
    ).len() + 8 <= usize::MAX
}

/// Where the alias starts in a row: after `[folder] ` when there is a folder.
pub open spec fn alias_start(c: Connection) -> int {
    let folder = opt_text(c.folder);
    if folder.len() == 0 {
        0
    } else {
        folder.len() + 3int
    }
}

/// Where the `(user@host:port)` segment starts: one space past the alias.
pub open spec fn meta_start(c: Connection) -> int {
    alias_start(c) + c.alias@.len() + 1
}

/// Where the user starts: one past the `(`.
pub open spec fn user_start(c: Connection) -> int {
    meta_start(c) + 1
}

/// Where the host starts: one past the `@`.
pub open spec fn host_start(c: Connection) -> int {
    user_start(c) + c.user@.len() + 1
}

/// Where the port starts: one past the `:`.
pub open spec fn port_start(c: Connection) -> int {
    host_start(c) + c.host@.len() + 1
}

/// The searchable fields of a row, as `(name, start, end)` character ranges into
/// its text: the folder (inside its brackets) when there is one, then alias,
/// user, host and port.
pub open spec fn field_offsets(c: Connection) -> Seq<(Seq<char>, int, int)> {
    let folder = opt_text(c.folder);
    let rest = seq![
        ("alias"@, alias_start(c), alias_start(c) + c.alias@.len()),
        ("user"@, user_start(c), user_start(c) + c.user@.len()),
        ("host"@, host_start(c), host_start(c) + c.host@.len()),
        ("port"@, port_start(c), port_start(c) + decimal(c.port as nat).len()),
    ];
    if folder.len() == 0 {
        rest
    } else {
        seq![("folder"@, 1int, 1int + folder.len())] + rest
    }
}

/// The views of an offset list.
pub open spec fn offsets_view(v: Seq<(&'static str, usize, usize)>) -> Seq<(Seq<char>, int, int)> {
    v.map_values(|o: (&'static str, usize, usize)| (o.0@, o.1 as int, o.2 as int))
}

/// The three segments a row is drawn from, as character ranges into its text.
pub(crate) struct RowSegments {
    /// `[folder]`, absent when the Connection has no folder.
    pub(crate) folder: Option<core::ops::Range<usize>>,
    /// The alias.
    pub(crate) alias: core::ops::Range<usize>,
    /// `(user@host:port)`.
    pub(crate) meta: core::ops::Range<usize>,
}

/// A text's length in characters.
fn char_count(s: &str) -> (r: usize)
    ensures
        r as nat == s@.len(),
{
    chars_of(s).len()
}

/// The row's geometry: where each drawn segment sits inside its text.
pub(crate) fn row_segments(conn: &Connection) -> (r: RowSegments)
    requires
        row_fits(*conn),
    ensures
        r.alias.start == alias_start(*conn),
        r.alias.end == alias_start(*conn) + conn.alias@.len(),
        r.meta.start == meta_start(*conn),
        r.meta.end == port_start(*conn) + decimal(conn.port as nat).len() + 1,
        match r.folder {
            Some(f) => opt_text(conn.folder).len() > 0 && f.start == 0 && f.end == opt_text(conn.folder).len() + 2,
            None => opt_text(conn.folder).len() == 0,
        },
{
    let port = decimal_string(conn.port as u64);
    let folder_len: Option<usize> = match &conn.folder {
        Some(f) => if f.as_str().is_empty() {
            None
        } else {
            Some(char_count(f.as_str()))
        },
        None => None,
    };
    let alias_start = match folder_len {
        Some(n) => n + 3,
        None => 0,
    };
    let alias_end = alias_start + char_count(conn.alias.as_str());
    let meta_start = alias_end + 1;
    let meta_end = meta_start + 1 + char_count(conn.user.as_str()) + 1 + char_count(conn.host.as_str()) + 1
        + char_count(port.as_str()) + 1;
    RowSegments {
        folder: match folder_len {
            Some(n) => Some(0..n + 2),
            None => None,
        },
        alias: alias_start..alias_end,
        meta: meta_start..meta_end,
    }
}

/// The start and end character offsets of each searchable field within the
/// row's display text.
pub fn compute_field_offsets(conn: &Connection) -> (r: Vec<(&'static str, usize, usize)>)
    requires
        row_fits(*conn),
    ensures
        offsets_view(r@) == field_offsets(*conn),
{
    let segs = row_segments(conn);
    let port = decimal_string(conn.port as u64);
    let mut offsets: Vec<(&'static str, usize, usize)> = Vec::new();
    match segs.folder {
        Some(f) => {
            offsets.push(("folder", 1, f.end - 1));
        },
        None => {},
    }
    offsets.push(("alias", segs.alias.start, segs.alias.end));
    let user_start = segs.meta.start + 1;
    let user_len = char_count(conn.user.as_str());
    offsets.push(("user", user_start, user_start + user_len));
    let host_start = user_start + user_len + 1;
    let host_len = char_count(conn.host.as_str());
    offsets.push(("host", host_start, host_start + host_len));
    let port_start = host_start + host_len + 1;
    offsets.push(("port", port_start, port_start + char_count(port.as_str())));
    assert(offsets_view(offsets@) =~= field_offsets(*conn));
    offsets
}

// ───────────────────────────── fuzzy matching ─────────────────────────────

/// A fuzzy match result: the Connection's index in the set, its score, and
/// the highlight positions within its row.
pub type MatchResult = (usize, i64, Vec<usize>);

/// What `fuzzy_matcher`'s default skim matcher (`SkimMatcherV2`) answers to
/// `fuzzy_indices(choice, pattern)`: the score and the matched positions, in
/// characters of `choice`, or `None` when the pattern does not match.
pub uninterp spec fn skim_indices(choice: Seq<char>, pattern: Seq<char>) -> Option<(i64, Seq<usize>)>;

/// `SkimMatcherV2::default().fuzzy_indices(choice, pattern)`.
///
/// Claimed of it: its answer is `skim_indices` of the two texts; each
/// position it returns indexes a character of `choice` (the matcher pushes
/// `j - 1` for a column `j` of its score matrix, whose columns run one past
/// the characters of `choice`); and an empty pattern matches with score 0
/// and no positions (its first test). How a non-empty pattern is scored is
/// left to the name.
#[verifier::external_body]
fn fuzzy_indices(choice: &str, pattern: &str) -> (r: Option<(i64, Vec<usize>)>)
    ensures
        match r {
            Some(m) => skim_indices(choice@, pattern@) == Some((m.0, m.1@)) && (forall|k: int|
                0 <= k < m.1@.len() ==> m.1@[k] < choice@.len()),
            None => skim_indices(choice@, pattern@) is None,
        },
        pattern@.len() == 0 ==> match r {
            Some(m) => m.0 == 0 && m.1@.len() == 0,
            None => false,
        },
{
    let matcher = fuzzy_matcher::skim::SkimMatcherV2::default();
    fuzzy_matcher::FuzzyMatcher::fuzzy_indices(&matcher, choice, pattern)
}

/// The `k`-th field the matcher tries on a Connection: alias, host, user,
/// then the folder (empty when there is none).
pub open spec fn candidate_text(c: Connection, k: int) -> Seq<char> {
    if k == 0 {
        c.alias@
    } else if k == 1 {
        c.host@
    } else if k == 2 {
        c.user@
    } else {
        opt_text(c.folder)
    }
}

/// Where the `k`-th field starts in the row; 0 for a folder the row does not
/// show.
pub open spec fn candidate_start(c: Connection, k: int) -> int {
    if k == 0 {
        alias_start(c)
    } else if k == 1 {
        host_start(c)
    } else if k == 2 {
        user_start(c)
    } else if opt_text(c.folder).len() > 0 {
        1
    } else {
        0
    }
}

/// Positions within a field moved to positions within the row.
pub open spec fn shifted(idx: Seq<usize>, start: int) -> Seq<usize> {
    idx.map_values(|i: usize| (i + start) as usize)
}

/// The best of the first `k` fields for `query`: the first field with the
/// highest score, strictly above every earlier one, and its positions in the
/// row; `(i64::MIN, None)` when none of them matches.
pub open spec fn best_field(c: Connection, query: Seq<char>, k: nat) -> (i64, Option<Seq<usize>>)
    decreases k,
{
    if k == 0 {
        (i64::MIN, None)
    } else {
        let prev = best_field(c, query, (k - 1) as nat);
        match skim_indices(candidate_text(c, k - 1), query) {
            Some(m) => if m.0 > prev.0 {
                (m.0, Some(shifted(m.1, candidate_start(c, k - 1))))
            } else {
                prev
            },
            None => prev,
        }
    }
}

/// The matches among the first `n` Connections, in set order: each one
/// whose best field matched, with that field's score and positions.
pub open spec fn matches_upto(conns: Seq<Connection>, query: Seq<char>, n: nat) -> Seq<(usize, i64, Seq<usize>)>
    decreases n,
{
    if n == 0 {
        Seq::empty()
    } else {
        let prev = matches_upto(conns, query, (n - 1) as nat);
        let b = best_field(conns[n - 1], query, 4);
        match b.1 {
            Some(idx) => prev.push(((n - 1) as usize, b.0, idx)),
            None => prev,
        }
    }
}

/// `a` is listed before `b`: a higher score, or the same score and an
/// earlier Connection.
pub open spec fn ranks_before(a: (usize, i64, Seq<usize>), b: (usize, i64, Seq<usize>)) -> bool {
    a.1 > b.1 || (a.1 == b.1 && a.0 < b.0)
}

/// Best match first, ties in set order.
pub open spec fn ranked(s: Seq<(usize, i64, Seq<usize>)>) -> bool {
    forall|i: int, j: int| 0 <= i < j < s.len() ==> ranks_before(#[trigger] s[i], #[trigger] s[j])
}

/// The views of a match list.
pub open spec fn match_views(v: Seq<MatchResult>) -> Seq<(usize, i64, Seq<usize>)> {
    v.map_values(|m: MatchResult| (m.0, m.1, m.2@))
}

/// A row's length in characters: everything up to the port, the port, and
/// the closing parenthesis.
proof fn lemma_row_len(c: Connection)
    ensures
        row_text(c).len() == port_start(c) + decimal(c.port as nat).len() + 1,
{
}

/// The `k`-th field the matcher tries, and where it starts in the row.
fn candidate(conn: &Connection, k: usize) -> (r: (&str, usize))
    requires
        k < 4,
        row_fits(*conn),
    ensures
        r.0@ == candidate_text(*conn, k as int),
        r.1 == candidate_start(*conn, k as int),
        r.1 + candidate_text(*conn, k as int).len() <= usize::MAX,
        r.1 + candidate_text(*conn, k as int).len() <= row_text(*conn).len(),
{
    proof {
        lemma_row_len(*conn);
    }
    let segs = row_segments(conn);
    if k == 0 {
        (conn.alias.as_str(), segs.alias.start)
    } else if k == 1 {
        let user_len = char_count(conn.user.as_str());
        (conn.host.as_str(), segs.meta.start + 1 + user_len + 1)
    } else if k == 2 {
        (conn.user.as_str(), segs.meta.start + 1)
    } else {
        match &conn.folder {
            Some(f) => (f.as_str(), if f.as_str().is_empty() {
                0
            } else {
                1
            }),
            None => {
                proof {
                    reveal_strlit("");
                }
                ("", 0)
            },
        }
    }
}

/// The best field of one Connection for `query`.
fn best_match(conn: &Connection, query: &str) -> (r: (i64, Option<Vec<usize>>))
    requires
        row_fits(*conn),
    ensures
        r.0 == best_field(*conn, query@, 4).0,
        match r.1 {
            Some(v) => best_field(*conn, query@, 4).1 == Some(v@) && forall|t: int|
                0 <= t < v@.len() ==> v@[t] < row_text(*conn).len(),
            None => best_field(*conn, query@, 4).1 is None,
        },
{
    let mut best_score: i64 = i64::MIN;
    let mut best: Option<Vec<usize>> = None;
    let mut k: usize = 0;
    while k < 4
        invariant
            k <= 4,
            row_fits(*conn),
            best_score == best_field(*conn, query@, k as nat).0,
            match best {
                Some(v) => best_field(*conn, query@, k as nat).1 == Some(v@) && forall|t: int|
                    0 <= t < v@.len() ==> v@[t] < row_text(*conn).len(),
                None => best_field(*conn, query@, k as nat).1 is None,
            },
        decreases 4 - k,
    {
        let (text, start) = candidate(conn, k);
        match fuzzy_indices(text, query) {
            Some((score, indices)) => {
                if score > best_score {
                    let mut shifted_idx: Vec<usize> = Vec::new();
                    let mut j: usize = 0;
                    while j < indices.len()
                        invariant
                            j <= indices@.len(),
                            forall|t: int| 0 <= t < indices@.len() ==> indices@[t] < text@.len(),
                            start + text@.len() <= usize::MAX,
                            start + text@.len() <= row_text(*conn).len(),
                            shifted_idx@ == shifted(indices@.take(j as int), start as int),
                            forall|t: int| 0 <= t < shifted_idx@.len() ==> shifted_idx@[t] < row_text(*conn).len(),
                        decreases indices.len() - j,
                    {
                        shifted_idx.push(indices[j] + start);
                        assert(shifted(indices@.take(j + 1), start as int) == shifted(indices@.take(j as int), start as int).push((indices@[j as int] + start) as usize));
                        j = j + 1;
                    }
                    assert(indices@.take(indices@.len() as int) == indices@);
                    best_score = score;
                    best = Some(shifted_idx);
                }
            },
            None => {},
        }
        k = k + 1;
    }
    (best_score, best)
}

/// Put `m` into a ranked list at its place.
fn insert_ranked(results: &mut Vec<MatchResult>, m: MatchResult)
    requires
        ranked(match_views(old(results)@)),
        forall|k: int| 0 <= k < old(results)@.len() ==> (#[trigger] old(results)@[k]).0 < m.0,
    ensures
        ranked(match_views(final(results)@)),
        match_views(final(results)@).to_multiset() == match_views(old(results)@).to_multiset().insert((m.0, m.1, m.2@)),
        forall|k: int| 0 <= k < final(results)@.len() ==> (#[trigger] final(results)@[k]).0 <= m.0,
        exists|p: int| 0 <= p <= old(results)@.len() && final(results)@ == old(results)@.insert(p, m),
{
    let ghost mv = (m.0, m.1, m.2@);
    let ghost before = match_views(results@);
    let mut p: usize = 0;
    while p < results.len() && !(m.1 > results[p].1)
        invariant
            p <= results@.len(),
            before == match_views(results@),
            forall|k: int| 0 <= k < p ==> ranks_before(#[trigger] before[k], mv),
            forall|k: int| 0 <= k < results@.len() ==> (#[trigger] results@[k]).0 < m.0,
            mv == (m.0, m.1, m.2@),
        decreases results.len() - p,
    {
        assert(before[p as int] == (results@[p as int].0, results@[p as int].1, results@[p as int].2@));
        p = p + 1;
    }
    proof {
        if p < results@.len() {
            assert(before[p as int].1 < mv.1);
            assert forall|k: int| p <= k < before.len() implies ranks_before(mv, #[trigger] before[k]) by {
                if k > p {
                    assert(ranks_before(before[p as int], before[k]));
                }
            }
        }
    }
    results.insert(p, m);
    proof {
        let after = match_views(results@);
        assert(after =~= before.insert(p as int, mv));
        vstd::seq_lib::to_multiset_insert(before, p as int, mv);
        assert forall|i: int, j: int| 0 <= i < j < after.len() implies ranks_before(#[trigger] after[i], #[trigger] after[j]) by {
            if j < p {
                assert(ranks_before(before[i], before[j]));
            } else if j == p {
                assert(after[j] == mv);
            } else if i < p {
                assert(after[j] == before[j - 1]);
                assert(ranks_before(before[i], mv));
                assert(ranks_before(mv, before[j - 1]));
            } else if i == p {
                assert(ranks_before(mv, before[j - 1]));
            } else {
                assert(ranks_before(before[i - 1], before[j - 1]));
            }
        }
    }
}

/// The match list a query gives: every Connection in set order with score 0
/// and nothing lit when the query is empty; otherwise the Connections whose
/// best field matched, best first, ties in set order.
pub open spec fn is_match_list(conns: Seq<Connection>, query: Seq<char>, ms: Seq<(usize, i64, Seq<usize>)>) -> bool {
    if query.len() == 0 {
        &&& ms.len() == conns.len()
        &&& forall|i: int| 0 <= i < ms.len() ==> (#[trigger] ms[i]).0 == i && ms[i].1 == 0 && ms[i].2.len() == 0
    } else {
        &&& ranked(ms)
        &&& ms.to_multiset() == matches_upto(conns, query, conns.len()).to_multiset()
    }
}

/// The match list of a query.
pub open spec fn the_matches(conns: Seq<Connection>, query: Seq<char>) -> Seq<(usize, i64, Seq<usize>)> {
    choose|ms: Seq<(usize, i64, Seq<usize>)>| is_match_list(conns, query, ms)
}

/// Ranking leaves no choice: two ranked lists that hold the same matches are
/// the same list.
pub proof fn lemma_ranked_unique(a: Seq<(usize, i64, Seq<usize>)>, b: Seq<(usize, i64, Seq<usize>)>)
    requires
        ranked(a),
        ranked(b),
        a.to_multiset() == b.to_multiset(),
    ensures
        a == b,
    decreases a.len(),
{
    vstd::seq_lib::to_multiset_len(a);
    vstd::seq_lib::to_multiset_len(b);
    if a.len() == 0 {
        assert(a =~= b);
    } else {
        vstd::seq_lib::to_multiset_contains(a, a[0]);
        vstd::seq_lib::to_multiset_contains(b, a[0]);
        vstd::seq_lib::to_multiset_contains(a, b[0]);
        vstd::seq_lib::to_multiset_contains(b, b[0]);
        assert(a.contains(a[0]));
        assert(b.contains(b[0]));
        let j = choose|j: int| 0 <= j < b.len() && b[j] == a[0];
        let i = choose|i: int| 0 <= i < a.len() && a[i] == b[0];
        if j > 0 {
            assert(ranks_before(b[0], b[j]));
            if i > 0 {
                assert(ranks_before(a[0], a[i]));
            }
            assert(false);
        }
        assert(a[0] == b[0]);
        vstd::seq_lib::to_multiset_remove(a, 0);
        vstd::seq_lib::to_multiset_remove(b, 0);
        assert(a.remove(0) =~= a.drop_first());
        assert(b.remove(0) =~= b.drop_first());
        assert(ranked(a.drop_first())) by {
            assert forall|x: int, y: int| 0 <= x < y < a.drop_first().len() implies ranks_before(
                #[trigger] a.drop_first()[x],
                #[trigger] a.drop_first()[y],
            ) by {
                assert(ranks_before(a[x + 1], a[y + 1]));
            }
        }
        assert(ranked(b.drop_first())) by {
            assert forall|x: int, y: int| 0 <= x < y < b.drop_first().len() implies ranks_before(
                #[trigger] b.drop_first()[x],
                #[trigger] b.drop_first()[y],
            ) by {
                assert(ranks_before(b[x + 1], b[y + 1]));
            }
        }
        lemma_ranked_unique(a.drop_first(), b.drop_first());
        assert forall|k: int| 0 <= k < a.len() implies a[k] == b[k] by {
            if k > 0 {
                assert(a[k] == a.drop_first()[k - 1]);
                assert(b[k] == b.drop_first()[k - 1]);
            }
        }
        assert(a =~= b);
    }
}

/// Every field the matcher scores is tried, alias, host, user and folder:
/// the best score is at least the score of each of them that matches; a
/// field that matches with any score above the floor gives the Connection a
/// best field; and a best field comes only from a field that matched.
pub proof fn lemma_best_field_tries_every_field(c: Connection, query: Seq<char>)
    ensures
        ({
            let best = best_field(c, query, 4);
            let fields = seq![c.alias@, c.host@, c.user@, opt_text(c.folder)];
            &&& forall|k: int| 0 <= k < 4 ==> (#[trigger] skim_indices(fields[k], query) matches Some(m) ==> best.0 >= m.0
                && (m.0 > i64::MIN ==> best.1 is Some))
            &&& best.1 is Some ==> exists|k: int| 0 <= k < 4 && #[trigger] skim_indices(fields[k], query) is Some
        }),
{
    reveal_with_fuel(best_field, 5);
    let fields = seq![c.alias@, c.host@, c.user@, opt_text(c.folder)];
    assert(fields[0] == candidate_text(c, 0));
    assert(fields[1] == candidate_text(c, 1));
    assert(fields[2] == candidate_text(c, 2));
    assert(fields[3] == candidate_text(c, 3));
    let best = best_field(c, query, 4);
    if best.1 is Some {
        if skim_indices(fields[0], query) is None && skim_indices(fields[1], query) is None && skim_indices(fields[2], query) is None
            && skim_indices(fields[3], query) is None {
            assert(best_field(c, query, 1).1 is None);
            assert(best_field(c, query, 2).1 is None);
            assert(best_field(c, query, 3).1 is None);
            assert(false);
        }
    }
}

/// The host's place in a row holds the host: its `p`-th character is the
/// row's character at `host_start + p`.
proof fn lemma_host_in_row(c: Connection, p: int)
    requires
        0 <= p < c.host@.len(),
    ensures
        row_text(c)[host_start(c) + p] == c.host@[p],
{
    let folder = opt_text(c.folder);
    let meta = meta_text(c);
    let body = c.alias@ + seq![' '] + meta;
    assert(meta[1 + c.user@.len() + 1 + p] == c.host@[p]);
    assert(body[c.alias@.len() + 1 + 1 + c.user@.len() + 1 + p] == c.host@[p]);
    if folder.len() > 0 {
        let head = seq!['['] + folder + seq![']', ' '];
        assert(row_text(c) == head + body);
        assert(row_text(c)[head.len() + c.alias@.len() + 1 + 1 + c.user@.len() + 1 + p] == c.host@[p]);
    }
}

/// A Connection whose host alone matches the query is matched on its host:
/// it is in the match list with the host's score, and its highlight
/// positions are the host's matched positions moved to where the host sits
/// in the row, so each lights a character of the host.
pub proof fn lemma_host_only_match(conns: Seq<Connection>, query: Seq<char>, ms: Seq<(usize, i64, Seq<usize>)>, i: int)
    requires
        conns.len() <= usize::MAX,
        query.len() > 0,
        is_match_list(conns, query, ms),
        0 <= i < conns.len(),
        row_fits(conns[i]),
        skim_indices(conns[i].alias@, query) is None,
        skim_indices(conns[i].user@, query) is None,
        skim_indices(opt_text(conns[i].folder), query) is None,
        skim_indices(conns[i].host@, query) is Some,
        (skim_indices(conns[i].host@, query)->0).0 > i64::MIN,
        forall|k: int|
            0 <= k < (skim_indices(conns[i].host@, query)->0).1.len() ==> #[trigger] (skim_indices(conns[i].host@, query)->0).1[k]
                < conns[i].host@.len(),
    ensures
        ({
            let m = skim_indices(conns[i].host@, query)->0;
            let pos = shifted(m.1, host_start(conns[i]));
            &&& ms.contains((i as usize, m.0, pos))
            &&& forall|k: int| 0 <= k < m.1.len() ==> row_text(conns[i])[#[trigger] pos[k] as int] == conns[i].host@[m.1[k] as int]
        }),
{
    let c = conns[i];
    let m = skim_indices(c.host@, query)->0;
    let pos = shifted(m.1, host_start(c));
    reveal_with_fuel(best_field, 5);
    assert(best_field(c, query, 2) == (m.0, Some(pos)));
    assert(best_field(c, query, 4) == (m.0, Some(pos)));
    lemma_matches_upto_has(conns, query, conns.len(), i);
    let all = matches_upto(conns, query, conns.len());
    vstd::seq_lib::to_multiset_contains(all, (i as usize, m.0, pos));
    vstd::seq_lib::to_multiset_contains(ms, (i as usize, m.0, pos));
    assert forall|k: int| 0 <= k < m.1.len() implies row_text(c)[#[trigger] pos[k] as int] == c.host@[m.1[k] as int] by {
        lemma_host_in_row(c, m.1[k] as int);
        assert(pos[k] as int == m.1[k] + host_start(c));
    }
}

/// A Connection among the first `n` that has a best field is listed among
/// the matches with that field's score and positions.
proof fn lemma_matches_upto_has(conns: Seq<Connection>, query: Seq<char>, n: nat, i: int)
    requires
        n <= conns.len(),
        n <= usize::MAX + 1,
        0 <= i < n,
        best_field(conns[i], query, 4).1 is Some,
    ensures
        matches_upto(conns, query, n).contains(
            (i as usize, best_field(conns[i], query, 4).0, best_field(conns[i], query, 4).1->0),
        ),
    decreases n,
{
    let prev = matches_upto(conns, query, (n - 1) as nat);
    let b = best_field(conns[n - 1], query, 4);
    let item = (i as usize, best_field(conns[i], query, 4).0, best_field(conns[i], query, 4).1->0);
    if i < n - 1 {
        lemma_matches_upto_has(conns, query, (n - 1) as nat, i);
        let w = choose|w: int| 0 <= w < prev.len() && prev[w] == item;
        match b.1 {
            Some(idx) => {
                assert(matches_upto(conns, query, n)[w] == item);
            },
            None => {},
        }
    } else {
        assert(matches_upto(conns, query, n) == prev.push(item));
        assert(matches_upto(conns, query, n)[prev.len() as int] == item);
    }
}

/// The matches among the first `n` Connections come in set order, each
/// index below `n`.
proof fn lemma_matches_upto_in_order(conns: Seq<Connection>, query: Seq<char>, n: nat)
    requires
        n <= usize::MAX + 1,
    ensures
        forall|i: int| 0 <= i < matches_upto(conns, query, n).len() ==> (#[trigger] matches_upto(conns, query, n)[i]).0 < n,
        forall|i: int, j: int|
            0 <= i < j < matches_upto(conns, query, n).len() ==> (#[trigger] matches_upto(conns, query, n)[i]).0
                < (#[trigger] matches_upto(conns, query, n)[j]).0,
    decreases n,
{
    if n > 0 {
        lemma_matches_upto_in_order(conns, query, (n - 1) as nat);
        let prev = matches_upto(conns, query, (n - 1) as nat);
        let cur = matches_upto(conns, query, n);
        let b = best_field(conns[n - 1], query, 4);
        match b.1 {
            Some(idx) => {
                assert(cur == prev.push(((n - 1) as usize, b.0, idx)));
                assert(((n - 1) as usize) as int == n - 1);
                assert forall|i: int| 0 <= i < cur.len() implies (#[trigger] cur[i]).0 < n by {
                    if i < prev.len() {
                        assert(cur[i] == prev[i]);
                    }
                }
                assert forall|i: int, j: int| 0 <= i < j < cur.len() implies (#[trigger] cur[i]).0 < (#[trigger] cur[j]).0 by {
                    assert(cur[i] == prev[i]);
                    if j < prev.len() {
                        assert(cur[j] == prev[j]);
                    }
                }
            },
            None => {
                assert(cur == prev);
            },
        }
    }
}

/// No Connection is listed twice in a match list, and every listed index is
/// a Connection of the set.
pub proof fn lemma_match_indices_distinct(conns: Seq<Connection>, query: Seq<char>, ms: Seq<(usize, i64, Seq<usize>)>)
    requires
        conns.len() <= usize::MAX,
        is_match_list(conns, query, ms),
    ensures
        forall|i: int| 0 <= i < ms.len() ==> (#[trigger] ms[i]).0 < conns.len(),
        forall|i: int, j: int| 0 <= i < j < ms.len() ==> (#[trigger] ms[i]).0 != (#[trigger] ms[j]).0,
{
    if query.len() > 0 {
        let all = matches_upto(conns, query, conns.len());
        lemma_matches_upto_in_order(conns, query, conns.len());
        assert forall|i: int| 0 <= i < ms.len() implies exists|a: int| 0 <= a < all.len() && all[a] == #[trigger] ms[i] by {
            vstd::seq_lib::to_multiset_contains(ms, ms[i]);
            vstd::seq_lib::to_multiset_contains(all, ms[i]);
            assert(ms.contains(ms[i]));
        }
        assert forall|i: int| 0 <= i < ms.len() implies (#[trigger] ms[i]).0 < conns.len() by {
            let a = choose|a: int| 0 <= a < all.len() && all[a] == ms[i];
            assert(all[a].0 < conns.len());
        }
        assert forall|i: int, j: int| 0 <= i < j < ms.len() implies (#[trigger] ms[i]).0 != (#[trigger] ms[j]).0 by {
            let a = choose|a: int| 0 <= a < all.len() && all[a] == ms[i];
            let b = choose|b: int| 0 <= b < all.len() && all[b] == ms[j];
            if ms[i].0 == ms[j].0 {
                if a < b {
                    assert(all[a].0 < all[b].0);
                } else if b < a {
                    assert(all[b].0 < all[a].0);
                }
                assert(ranks_before(ms[i], ms[j]));
            }
        }
    }
}

/// A query has one match list.
pub proof fn lemma_match_list_unique(
    conns: Seq<Connection>,
    query: Seq<char>,
    a: Seq<(usize, i64, Seq<usize>)>,
    b: Seq<(usize, i64, Seq<usize>)>,
)
    requires
        is_match_list(conns, query, a),
        is_match_list(conns, query, b),
    ensures
        a == b,
{
    if query.len() == 0 {
        assert forall|k: int| 0 <= k < a.len() implies a[k] == b[k] by {
            assert(a[k].2 =~= b[k].2);
        }
        assert(a =~= b);
    } else {
        lemma_ranked_unique(a, b);
    }
}

/// A list that is a query's match list is the one `the_matches` names.
pub proof fn lemma_the_matches(conns: Seq<Connection>, query: Seq<char>, ms: Seq<(usize, i64, Seq<usize>)>)
    requires
        is_match_list(conns, query, ms),
    ensures
        the_matches(conns, query) == ms,
{
    lemma_match_list_unique(conns, query, the_matches(conns, query), ms);
}

/// Fuzzy-filter a set of Connections by `query` over alias, host, user and
/// folder. Each Connection is scored by its best field, with that field's
/// positions moved into the row's text; the matches come best first, ties
/// in set order. An empty query keeps every Connection, in order, with score
/// 0 and nothing highlighted.
pub fn compute_matches(connections: &[Connection], query: &str) -> (r: Vec<MatchResult>)
    requires
        forall|i: int| 0 <= i < connections@.len() ==> row_fits(#[trigger] connections@[i]),
    ensures
        query@.len() == 0 ==> {
            &&& r@.len() == connections@.len()
            &&& forall|i: int| 0 <= i < r@.len() ==> (#[trigger] r@[i]).0 == i && r@[i].1 == 0 && r@[i].2@.len() == 0
        },
        query@.len() > 0 ==> {
            &&& ranked(match_views(r@))
            &&& match_views(r@).to_multiset() == matches_upto(connections@, query@, connections@.len()).to_multiset()
        },
        is_match_list(connections@, query@, match_views(r@)),
        match_views(r@) == the_matches(connections@, query@),
        forall|j: int| 0 <= j < r@.len() ==> (#[trigger] r@[j]).0 < connections@.len(),
        forall|j: int, t: int|
            0 <= j < r@.len() && 0 <= t < r@[j].2@.len() ==> #[trigger] r@[j].2@[t] < row_text(
                connections@[r@[j].0 as int],
            ).len(),
{
    let mut results: Vec<MatchResult> = Vec::new();
    if query.is_empty() {
        let mut i: usize = 0;
        while i < connections.len()
            invariant
                i <= connections@.len(),
                results@.len() == i,
                forall|k: int| 0 <= k < i ==> (#[trigger] results@[k]).0 == k && results@[k].1 == 0 && results@[k].2@.len() == 0,
            decreases connections.len() - i,
        {
            results.push((i, 0, Vec::new()));
            i = i + 1;
        }
        proof {
            lemma_the_matches(connections@, query@, match_views(results@));
        }
        return results;
    }
    assert(match_views(results@) =~= matches_upto(connections@, query@, 0));
    let mut i: usize = 0;
    while i < connections.len()
        invariant
            i <= connections@.len(),
            forall|k: int| 0 <= k < connections@.len() ==> row_fits(#[trigger] connections@[k]),
            ranked(match_views(results@)),
            match_views(results@).to_multiset() == matches_upto(connections@, query@, i as nat).to_multiset(),
            forall|k: int| 0 <= k < results@.len() ==> (#[trigger] results@[k]).0 < i,
            forall|j: int, t: int|
                0 <= j < results@.len() && 0 <= t < results@[j].2@.len() ==> #[trigger] results@[j].2@[t] < row_text(
                    connections@[results@[j].0 as int],
                ).len(),
        decreases connections.len() - i,
    {
        let (score, found) = best_match(&connections[i], query);
        match found {
            Some(indices) => {
                proof {
                    vstd::seq_lib::to_multiset_build(matches_upto(connections@, query@, i as nat), (i, score, indices@));
                }
                insert_ranked(&mut results, (i, score, indices));
            },
            None => {},
        }
        i = i + 1;
    }
    proof {
        lemma_the_matches(connections@, query@, match_views(results@));
    }
    results
}

// ───────────────────────────── the import path ─────────────────────────────

/// The import path as shown: the home directory written `~` when the path is
/// that directory or lies inside it (the cut falls at a `/`), and the raw
/// path otherwise — including when there is no home to explain it.
pub open spec fn shown_path(path: Seq<char>, home: Option<Seq<char>>) -> Seq<char> {
    match home {
        Some(h) => if h.len() == 0 {
            path
        } else if path == h {
            seq!['~']
        } else if h.len() < path.len() && path.take(h.len() as int) == h && path[h.len() as int]
            == '/' {
            seq!['~'] + path.skip(h.len() as int)
        } else {
            path
        },
        None => path,
    }
}

/// The import offer's path in the form the user recognises: a home-directory
/// prefix shown as `~`, the way they type it.
pub fn display_import_path(path: &str, home: Option<&str>) -> (r: String)
    ensures
        r@ == shown_path(path@, match home {
            Some(h) => Some(h@),
            None => None,
        }),
{
    let h = match home {
        Some(h) => h,
        None => {
            return owned(path);
        },
    };
    let hc = chars_of(h);
    if hc.len() == 0 {
        return owned(path);
    }
    if same_text(path, h) {
        let mut r = String::new();
        push_char(&mut r, '~');
        return r;
    }
    let pc = chars_of(path);
    if hc.len() < pc.len() && crate::text::starts_with_chars(pc.as_slice(), hc.as_slice()) && pc[hc.len()]
        == '/' {
        let mut r = String::new();
        push_char(&mut r, '~');
        let mut i = hc.len();
        while i < pc.len()
            invariant
                hc@.len() <= i <= pc@.len(),
                r@ == seq!['~'] + pc@.subrange(hc@.len() as int, i as int),
            decreases pc.len() - i,
        {
            push_char(&mut r, pc[i]);
            assert(pc@.subrange(hc@.len() as int, i + 1) == pc@.subrange(
                hc@.len() as int,
                i as int,
            ).push(pc@[i as int]));
            i = i + 1;
        }
        assert(pc@.subrange(hc@.len() as int, pc@.len() as int) == pc@.skip(hc@.len() as int));
        return r;
    }
    owned(path)
}

/// What the empty frame tells the user to do next.
pub fn empty_message(mode: FrameMode) -> (r: &'static str)
    ensures
        r@ == match mode {
            FrameMode::Pick => "No Connections yet — run sshm manage to add one"@,
            FrameMode::Manage => "No Connections yet — Ctrl+A to add one"@,
        },
{
    match mode {
        FrameMode::Pick => "No Connections yet — run sshm manage to add one",
        FrameMode::Manage => "No Connections yet — Ctrl+A to add one",
    }
}

} // verus!
