//! The fullscreen TUI's state and what each keystroke does to it.
//!
//! The program owns the terminal: it draws, reads a key, hands it to the
//! method for the current mode, and performs what comes back — connect,
//! quit, or write the set to disk and report how that went. Everything the
//! screen shows is decided here: which Connections the filter keeps, which
//! one is selected, what the input form holds, and the message on top.

use vstd::prelude::*;
use crate::config::{Config, Connection, SshConfigEntry};
use crate::connections::{self, ConnectionDraft};
use crate::form::{conn_field_text, field_text, AddField};
use crate::keys::{KeyCode, KeyEvent};
use crate::text::{
    chars_of, decimal, decimal_string, drop_last_char, owned, push_char, push_chars, without_last,
    words_of,
};
use crate::update::UpdateInfo;

verus! {

/// The narrowest terminal the fullscreen TUI lays out in.
pub const MIN_TUI_WIDTH: u16 = 60;

/// The shortest terminal the fullscreen TUI lays out in.
pub const MIN_TUI_HEIGHT: u16 = 14;

/// Which screen the TUI is on.
#[derive(Debug, Clone, Copy, PartialEq, Eq, Structural)]
pub enum AppMode {
    Normal,
    Add,
    Edit,
    Search,
    Help,
    Update,
}

// ───────────────────────────── filtering ─────────────────────────────

/// What `fuzzy_matcher`'s default skim matcher (`SkimMatcherV2`) answers to
/// `fuzzy_match(choice, pattern)`: a score, or `None` when the pattern does
/// not match.
pub uninterp spec fn skim_score(choice: Seq<char>, pattern: Seq<char>) -> Option<i64>;

/// `SkimMatcherV2::default().fuzzy_match(choice, pattern)`.
///
/// Claimed of it: its answer is `skim_score` of the two texts. Which texts
/// match is left to the name.
#[verifier::external_body]
fn fuzzy_match(choice: &str, pattern: &str) -> (r: Option<i64>)
    ensures
        r == skim_score(choice@, pattern@),
{
    let matcher = fuzzy_matcher::skim::SkimMatcherV2::default();
    fuzzy_matcher::FuzzyMatcher::fuzzy_match(&matcher, choice, pattern)
}

/// Whether a Connection's alias, host or user matches `query`.
pub open spec fn matches_query(c: Connection, query: Seq<char>) -> bool {
    skim_score(c.alias@, query) is Some || skim_score(c.host@, query) is Some || skim_score(c.user@, query)
        is Some
}

/// The positions, among the first `n`, of the Connections the filter keeps:
/// all of them for an empty query, the matching ones otherwise, in order.
pub open spec fn kept_upto(conns: Seq<Connection>, query: Seq<char>, n: nat) -> Seq<usize>
    decreases n,
{
    if n == 0 {
        Seq::empty()
    } else {
        let prev = kept_upto(conns, query, (n - 1) as nat);
        if query.len() == 0 || matches_query(conns[n - 1], query) {
            prev.push((n - 1) as usize)
        } else {
            prev
        }
    }
}

/// The positions of the Connections the filter keeps.
pub open spec fn kept(conns: Seq<Connection>, query: Seq<char>) -> Seq<usize> {
    kept_upto(conns, query, conns.len())
}

/// A selection pulled back onto the last of `len` rows when it has run past
/// them.
pub open spec fn clamped(selected: usize, len: nat) -> usize {
    if selected >= len {
        if len > 0 {
            (len - 1) as usize
        } else {
            0
        }
    } else {
        selected
    }
}

/// Every kept position indexes the set.
pub proof fn lemma_kept_in_range(conns: Seq<Connection>, query: Seq<char>, n: nat)
    requires
        n <= conns.len(),
    ensures
        forall|i: int| 0 <= i < kept_upto(conns, query, n).len() ==> #[trigger] kept_upto(conns, query, n)[i] < n,
        kept_upto(conns, query, n).len() <= n,
    decreases n,
{
    if n > 0 {
        lemma_kept_in_range(conns, query, (n - 1) as nat);
    }
}

/// An empty query keeps every Connection, in order.
pub proof fn lemma_empty_query_keeps_all(conns: Seq<Connection>, n: nat)
    requires
        n <= conns.len(),
        n <= usize::MAX,
    ensures
        kept_upto(conns, Seq::empty(), n).len() == n,
        forall|i: int| 0 <= i < n ==> #[trigger] kept_upto(conns, Seq::empty(), n)[i] == i,
    decreases n,
{
    if n > 0 {
        lemma_empty_query_keeps_all(conns, (n - 1) as nat);
        let prev = kept_upto(conns, Seq::empty(), (n - 1) as nat);
        assert(kept_upto(conns, Seq::empty(), n) == prev.push((n - 1) as usize));
        assert forall|i: int| 0 <= i < n implies #[trigger] kept_upto(conns, Seq::empty(), n)[i] == i by {
            if i < n - 1 {
                assert(prev[i] == i);
            }
        }
    }
}

/// For a non-empty query, every kept position is a Connection among the
/// first `n` whose alias, host or user matches the query.
proof fn lemma_kept_match(conns: Seq<Connection>, query: Seq<char>, n: nat)
    requires
        n <= conns.len(),
        conns.len() <= usize::MAX,
        query.len() > 0,
    ensures
        forall|k: int|
            0 <= k < kept_upto(conns, query, n).len() ==> #[trigger] kept_upto(conns, query, n)[k] < n
                && matches_query(conns[kept_upto(conns, query, n)[k] as int], query),
    decreases n,
{
    if n > 0 {
        lemma_kept_match(conns, query, (n - 1) as nat);
        let prev = kept_upto(conns, query, (n - 1) as nat);
        let cur = kept_upto(conns, query, n);
        if matches_query(conns[n - 1], query) {
            assert(cur == prev.push((n - 1) as usize));
            assert forall|k: int| 0 <= k < cur.len() implies #[trigger] cur[k] < n && matches_query(
                conns[cur[k] as int],
                query,
            ) by {
                if k < prev.len() {
                    assert(cur[k] == prev[k]);
                }
            }
        } else {
            assert(cur == prev);
        }
    }
}

// ───────────────────────────── the state ─────────────────────────────

/// The fullscreen TUI's state.
pub struct App {
    /// The Connection set.
    pub config: Config,
    /// The selected row of the filtered list.
    pub selected_index: usize,
    /// The live filter.
    pub search_query: String,
    /// The screen the TUI is on.
    pub mode: AppMode,
    /// The positions in the set of the Connections the filter keeps.
    pub filtered_indices: Vec<usize>,
    /// The message the next frame shows on top, if any.
    pub message: Option<String>,
    /// The add or edit form's content.
    pub input_buffer: ConnectionDraft,
    /// Which field of the form the cursor is on, `0..=5`.
    pub input_field: usize,
    /// The Connection to open a session to once the TUI closes.
    pub should_connect: Option<Connection>,
    /// How many `Ctrl+C` in a row; the second one quits.
    pub ctrl_c_count: usize,
    /// The update the update screen offers.
    pub update_info: Option<UpdateInfo>,
}

/// The Connection the selection is on, if it is on one.
pub open spec fn selected_of(a: App) -> Option<Connection> {
    if a.selected_index < a.filtered_indices@.len() && a.filtered_indices@[a.selected_index as int]
        < a.config.connections@.len() {
        Some(a.config.connections@[a.filtered_indices@[a.selected_index as int] as int])
    } else {
        None
    }
}

/// `b` holds the filter `query`, the rows it keeps of `a`'s set, and `a`'s
/// selection pulled onto them.
pub open spec fn filtered_to(a: App, b: App, query: Seq<char>) -> bool {
    &&& b.search_query@ == query
    &&& b.filtered_indices@ == kept(a.config.connections@, query)
    &&& b.selected_index == clamped(a.selected_index, kept(a.config.connections@, query).len())
}

/// `b` is `a` after the filter was run again over `query`.
pub open spec fn refiltered(a: App, b: App, query: Seq<char>) -> bool {
    &&& filtered_to(a, b, query)
    &&& b.config == a.config
    &&& b.mode == a.mode
    &&& b.message == a.message
    &&& b.input_buffer == a.input_buffer
    &&& b.input_field == a.input_field
    &&& b.should_connect == a.should_connect
    &&& b.update_info == a.update_info
}

/// After the filter runs over a non-empty query, the Connection under the
/// cursor is one the filter kept: its alias, host or user matches the query.
pub proof fn lemma_selection_is_kept(a: App, b: App, query: Seq<char>)
    requires
        filtered_to(a, b, query),
        b.config == a.config,
        query.len() > 0,
        a.config.connections@.len() <= usize::MAX,
    ensures
        selected_of(b) matches Some(c) ==> matches_query(c, query),
{
    lemma_kept_match(a.config.connections@, query, a.config.connections@.len());
    if b.selected_index < b.filtered_indices@.len() {
        assert(b.filtered_indices@[b.selected_index as int] == kept(a.config.connections@, query)[b.selected_index as int]);
    }
}

impl App {
    /// A TUI on the Normal screen over `config`, showing every Connection.
    pub fn new(config: Config) -> (r: Self)
        ensures
            r.config == config,
            r.selected_index == 0,
            r.search_query@.len() == 0,
            r.mode == AppMode::Normal,
            r.filtered_indices@ == kept(config.connections@, Seq::empty()),
            r.message is None,
            r.input_field == 0,
            r.should_connect is None,
            r.ctrl_c_count == 0,
            r.update_info is None,
    {
        let mut filtered_indices: Vec<usize> = Vec::new();
        let mut i: usize = 0;
        while i < config.connections.len()
            invariant
                i <= config.connections@.len(),
                filtered_indices@ == kept_upto(config.connections@, Seq::empty(), i as nat),
            decreases config.connections.len() - i,
        {
            filtered_indices.push(i);
            i = i + 1;
        }
        App {
            config,
            selected_index: 0,
            search_query: String::new(),
            mode: AppMode::Normal,
            filtered_indices,
            message: None,
            input_buffer: ConnectionDraft::default(),
            input_field: 0,
            should_connect: None,
            ctrl_c_count: 0,
            update_info: None,
        }
    }

    /// Run the filter again over the current query, and pull the selection
    /// back onto the list if the list got shorter than it.
    pub fn update_filter(&mut self)
        ensures
            refiltered(*old(self), *final(self), old(self).search_query@),
            final(self).search_query == old(self).search_query,
            final(self).ctrl_c_count == old(self).ctrl_c_count,
    {
        let ghost conns = self.config.connections@;
        let ghost q = self.search_query@;
        let empty = self.search_query.as_str().is_empty();
        let mut kept_now: Vec<usize> = Vec::new();
        let mut i: usize = 0;
        while i < self.config.connections.len()
            invariant
                i <= conns.len(),
                conns == self.config.connections@,
                q == self.search_query@,
                empty == (q.len() == 0),
                kept_now@ == kept_upto(conns, q, i as nat),
            decreases conns.len() - i,
        {
            let keep = if empty {
                true
            } else {
                let c = &self.config.connections[i];
                let a = fuzzy_match(c.alias.as_str(), self.search_query.as_str());
                let h = fuzzy_match(c.host.as_str(), self.search_query.as_str());
                let u = fuzzy_match(c.user.as_str(), self.search_query.as_str());
                a.is_some() || h.is_some() || u.is_some()
            };
            if keep {
                kept_now.push(i);
            }
            i = i + 1;
        }
        self.filtered_indices = kept_now;
        if self.selected_index >= self.filtered_indices.len() {
            self.selected_index = if self.filtered_indices.len() > 0 {
                self.filtered_indices.len() - 1
            } else {
                0
            };
        }
    }

    /// The id of the Connection under the cursor, if the cursor is on one.
    fn selected_connection_id(&self) -> (r: Option<String>)
        ensures
            match selected_of(*self) {
                Some(c) => r is Some && r->0@ == c.id@,
                None => r is None,
            },
    {
        if self.selected_index < self.filtered_indices.len() {
            let idx = self.filtered_indices[self.selected_index];
            if idx < self.config.connections.len() {
                return Some(self.config.connections[idx].id.clone());
            }
        }
        None
    }

    /// The Connection under the cursor, copied, if the cursor is on one.
    fn selected_connection(&self) -> (r: Option<Connection>)
        ensures
            r == selected_of(*self),
    {
        if self.selected_index < self.filtered_indices.len() {
            let idx = self.filtered_indices[self.selected_index];
            if idx < self.config.connections.len() {
                return Some(self.config.connections[idx].copy());
            }
        }
        None
    }
}

// ───────────────────────────── keystrokes ─────────────────────────────

/// What the program must do after a keystroke.
#[derive(Debug, Clone, Copy, PartialEq, Eq, Structural)]
pub enum AppAction {
    /// Nothing but draw the next frame.
    Continue,
    /// Leave the TUI and open a session to `should_connect`.
    Connect,
    /// Leave the TUI.
    Quit,
    /// Write the set to disk, then report how it went through [`App::saved`].
    Save(SaveKind),
    /// Read the user's ssh config and hand its stanzas to
    /// [`App::import_entries`].
    ReadSshConfig,
}

/// Which change a pending write carries, so its message can name it.
#[derive(Debug, Clone, Copy, PartialEq, Eq, Structural)]
pub enum SaveKind {
    /// The form's Connection was added or edited.
    Saved,
    /// The selected Connection was deleted.
    Deleted,
    /// This many Connections were imported.
    Imported(usize),
}

/// What a keystroke does to a message shown on top.
#[derive(Debug, Clone, Copy, PartialEq, Eq, Structural)]
pub enum MessageAction {
    /// The message stays up.
    Stay,
    /// The message was dismissed.
    Dismiss,
    /// The second `Ctrl+C`: leave the TUI.
    Quit,
}

/// The message the first `Ctrl+C` leaves.
pub open spec fn ctrl_c_message() -> Seq<char> {
    "Press Ctrl+C again to exit"@
}

/// One more `Ctrl+C`, counted without overflow.
pub open spec fn one_more(n: usize) -> usize {
    if n < usize::MAX {
        (n + 1) as usize
    } else {
        n
    }
}

/// The last row of a list of `len`, or 0 for an empty one.
pub open spec fn last_row(len: nat) -> usize {
    if len > 0 {
        (len - 1) as usize
    } else {
        0
    }
}

/// `b` is `a` with only the selection and the `Ctrl+C` count changed.
pub open spec fn moved(a: App, b: App, selected: usize) -> bool {
    b == App { selected_index: selected, ctrl_c_count: 0, ..a }
}

/// `b` is `a` with the filter run over `query` and the `Ctrl+C` count reset.
pub open spec fn typed_filter(a: App, b: App, query: Seq<char>) -> bool {
    refiltered(a, b, query) && b.ctrl_c_count == 0
}

/// The form opened blank for an add: empty fields and the SSH default port.
pub open spec fn blank_form(d: ConnectionDraft) -> bool {
    forall|f: AddField| #[trigger] field_text(f, d) == if f is Port {
        "22"@
    } else {
        Seq::<char>::empty()
    }
}

/// The form opened on a Connection for an edit: each field holds what the
/// Connection holds.
pub open spec fn form_of(d: ConnectionDraft, c: Connection) -> bool {
    forall|f: AddField| #[trigger] field_text(f, d) == conn_field_text(f, c)
}

/// A printable key, whatever modifiers come with it.
pub open spec fn char_of(key: KeyEvent) -> Option<char> {
    match key.code {
        KeyCode::Char(c) => Some(c),
        _ => None,
    }
}

/// What a key does on the Normal screen. The letters `a`, `e`, `d` and `i`
/// only type into a filter already in progress; their capitals act.
pub open spec fn normal_rule(a: App, key: KeyEvent, b: App, act: AppAction) -> bool {
    let len = a.filtered_indices@.len();
    if key.code == KeyCode::Up || key.code == KeyCode::Char('k') {
        act == AppAction::Continue && moved(a, b, if a.selected_index > 0 { (a.selected_index - 1) as usize } else { 0 })
    } else if key.code == KeyCode::Down || key.code == KeyCode::Char('j') {
        act == AppAction::Continue && moved(a, b, if a.selected_index < last_row(len) { (a.selected_index + 1) as usize } else { a.selected_index })
    } else if key.code == KeyCode::Enter {
        act == AppAction::Connect && b == App {
            ctrl_c_count: 0,
            should_connect: if selected_of(a) is Some { selected_of(a) } else { a.should_connect },
            ..a
        }
    } else if key.code == KeyCode::Char('c') && key.modifiers.control {
        if one_more(a.ctrl_c_count) >= 2 {
            act == AppAction::Quit && b == App { ctrl_c_count: one_more(a.ctrl_c_count), ..a }
        } else {
            &&& act == AppAction::Continue
            &&& b.message matches Some(m) && m@ == ctrl_c_message()
            &&& b == App { ctrl_c_count: one_more(a.ctrl_c_count), message: b.message, ..a }
        }
    } else if key.code == KeyCode::Char('a') || key.code == KeyCode::Char('e') || key.code == KeyCode::Char('d')
        || key.code == KeyCode::Char('i') {
        act == AppAction::Continue && if a.search_query@.len() > 0 {
            typed_filter(a, b, a.search_query@.push(char_of(key)->0))
        } else {
            b == App { ctrl_c_count: 0, ..a }
        }
    } else if key.code == KeyCode::Char('A') {
        &&& act == AppAction::Continue
        &&& blank_form(b.input_buffer)
        &&& b == App { mode: AppMode::Add, input_field: 0, ctrl_c_count: 0, input_buffer: b.input_buffer, ..a }
    } else if key.code == KeyCode::Char('E') {
        &&& act == AppAction::Continue
        &&& match selected_of(a) {
            Some(c) => form_of(b.input_buffer, c) && b == App {
                mode: AppMode::Edit,
                input_field: 0,
                ctrl_c_count: 0,
                input_buffer: b.input_buffer,
                ..a
            },
            None => b == App { ctrl_c_count: 0, ..a },
        }
    } else if key.code == KeyCode::Char('D') {
        match selected_of(a) {
            Some(c) => {
                &&& act == AppAction::Save(SaveKind::Deleted)
                &&& b.config.connections@ == a.config.connections@.filter(crate::config::keeps_id(c.id@))
                &&& b == App { config: b.config, ctrl_c_count: 0, ..a }
            },
            None => act == AppAction::Continue && b == App { ctrl_c_count: 0, ..a },
        }
    } else if key.code == KeyCode::Char('I') {
        act == AppAction::ReadSshConfig && b == App { ctrl_c_count: 0, ..a }
    } else if key.code == KeyCode::Char('/') {
        act == AppAction::Continue && b == App { mode: AppMode::Search, ctrl_c_count: 0, ..a }
    } else if key.code == KeyCode::Char('?') {
        act == AppAction::Continue && b == App { mode: AppMode::Help, ctrl_c_count: 0, ..a }
    } else if key.code == KeyCode::Home || key.code == KeyCode::Char('g') {
        act == AppAction::Continue && moved(a, b, 0)
    } else if key.code == KeyCode::End || key.code == KeyCode::Char('G') {
        act == AppAction::Continue && moved(a, b, last_row(len))
    } else if key.code == KeyCode::Backspace {
        act == AppAction::Continue && if a.search_query@.len() > 0 {
            typed_filter(a, b, drop_last_char(a.search_query@))
        } else {
            b == App { ctrl_c_count: 0, ..a }
        }
    } else {
        act == AppAction::Continue && match key.code {
            KeyCode::Char(c) => typed_filter(a, b, a.search_query@.push(c)),
            _ => b == App { ctrl_c_count: 0, ..a },
        }
    }
}

/// The TUI acts on the row under the cursor in the filtered list, the
/// Connection `config.connections[filtered_indices[selected_index]]`: Enter
/// connects to it, `E` opens it in the edit form, `D` deletes it (every
/// Connection with its id) and nothing else.
pub proof fn lemma_actions_take_the_row_under_the_cursor(a: App, key: KeyEvent, b: App, act: AppAction)
    requires
        normal_rule(a, key, b, act),
        a.selected_index < a.filtered_indices@.len(),
        a.filtered_indices@[a.selected_index as int] < a.config.connections@.len(),
    ensures
        ({
            let c = a.config.connections@[a.filtered_indices@[a.selected_index as int] as int];
            &&& key.code == KeyCode::Enter ==> act == AppAction::Connect && b.should_connect == Some(c)
            &&& key.code == KeyCode::Char('E') ==> b.mode == AppMode::Edit && form_of(b.input_buffer, c)
            &&& key.code == KeyCode::Char('D') ==> act == AppAction::Save(SaveKind::Deleted)
                && b.config.connections@ == a.config.connections@.filter(crate::config::keeps_id(c.id@))
        }),
{
}

impl App {
    /// The selection one row up, stopping at the top.
    fn up_one(&mut self)
        ensures
            *final(self) == (App { selected_index: if old(self).selected_index > 0 { (old(self).selected_index - 1) as usize } else { 0 }, ..*old(self) }),
    {
        if self.selected_index > 0 {
            self.selected_index = self.selected_index - 1;
        }
    }

    /// The selection one row down, stopping at the last row.
    fn down_one(&mut self)
        ensures
            *final(self) == (App {
                selected_index: if old(self).selected_index < last_row(old(self).filtered_indices@.len()) {
                    (old(self).selected_index + 1) as usize
                } else {
                    old(self).selected_index
                },
                ..*old(self)
            }),
    {
        let len = self.filtered_indices.len();
        let last = if len > 0 {
            len - 1
        } else {
            0
        };
        if self.selected_index < last {
            self.selected_index = self.selected_index + 1;
        }
    }

    /// Type `c` into the filter and run it again.
    fn type_into_filter(&mut self, c: char)
        ensures
            refiltered(*old(self), *final(self), old(self).search_query@.push(c)),
            final(self).ctrl_c_count == old(self).ctrl_c_count,
    {
        let ghost a = *self;
        push_char(&mut self.search_query, c);
        self.update_filter();
    }

    /// Take the filter's last character off and run it again.
    fn backspace_filter(&mut self)
        ensures
            refiltered(*old(self), *final(self), drop_last_char(old(self).search_query@)),
            final(self).ctrl_c_count == old(self).ctrl_c_count,
    {
        self.search_query = without_last(&self.search_query);
        self.update_filter();
    }

    /// Handle one key on the Normal screen.
    pub fn normal_key(&mut self, key: KeyEvent) -> (act: AppAction)
        ensures
            normal_rule(*old(self), key, *final(self), act),
    {
        if key.code == KeyCode::Up || key.code == KeyCode::Char('k') {
            self.up_one();
            self.ctrl_c_count = 0;
            return AppAction::Continue;
        }
        if key.code == KeyCode::Down || key.code == KeyCode::Char('j') {
            self.down_one();
            self.ctrl_c_count = 0;
            return AppAction::Continue;
        }
        if key.code == KeyCode::Enter {
            self.ctrl_c_count = 0;
            match self.selected_connection() {
                Some(c) => {
                    self.should_connect = Some(c);
                },
                None => {},
            }
            return AppAction::Connect;
        }
        if key.code == KeyCode::Char('c') && key.modifiers.control {
            if self.ctrl_c_count < usize::MAX {
                self.ctrl_c_count = self.ctrl_c_count + 1;
            }
            if self.ctrl_c_count >= 2 {
                return AppAction::Quit;
            }
            self.message = Some(owned("Press Ctrl+C again to exit"));
            return AppAction::Continue;
        }
        match key.code {
            KeyCode::Char(c) => {
                if c == 'a' || c == 'e' || c == 'd' || c == 'i' {
                    if !self.search_query.as_str().is_empty() {
                        self.type_into_filter(c);
                        self.ctrl_c_count = 0;
                    } else {
                        self.ctrl_c_count = 0;
                    }
                    return AppAction::Continue;
                }
                if c == 'A' {
                    self.mode = AppMode::Add;
                    self.input_buffer.clear();
                    self.input_field = 0;
                    self.ctrl_c_count = 0;
                    proof {
                        assert(self.input_buffer.alias@ =~= Seq::<char>::empty());
                        assert(self.input_buffer.host@ =~= Seq::<char>::empty());
                        assert(self.input_buffer.user@ =~= Seq::<char>::empty());
                        assert(self.input_buffer.key_path@ =~= Seq::<char>::empty());
                        assert(self.input_buffer.folder@ =~= Seq::<char>::empty());
                    }
                    return AppAction::Continue;
                }
                if c == 'E' {
                    match self.selected_connection() {
                        Some(conn) => {
                            self.input_buffer = ConnectionDraft::from_connection(&conn);
                            self.mode = AppMode::Edit;
                            self.input_field = 0;
                        },
                        None => {},
                    }
                    self.ctrl_c_count = 0;
                    return AppAction::Continue;
                }
                if c == 'D' {
                    self.ctrl_c_count = 0;
                    match self.selected_connection_id() {
                        Some(id) => {
                            proof {
                                crate::config::lemma_position_of_id(self.config.connections@, id@);
                                let i = self.filtered_indices@[self.selected_index as int] as int;
                                assert(self.config.connections@[i].id@ == id@);
                            }
                            connections::remove(&mut self.config, id.as_str());
                            return AppAction::Save(SaveKind::Deleted);
                        },
                        None => {
                            return AppAction::Continue;
                        },
                    }
                }
                if c == 'I' {
                    self.ctrl_c_count = 0;
                    return AppAction::ReadSshConfig;
                }
                if c == '/' {
                    self.mode = AppMode::Search;
                    self.ctrl_c_count = 0;
                    return AppAction::Continue;
                }
                if c == '?' {
                    self.mode = AppMode::Help;
                    self.ctrl_c_count = 0;
                    return AppAction::Continue;
                }
                if c == 'g' {
                    self.selected_index = 0;
                    self.ctrl_c_count = 0;
                    return AppAction::Continue;
                }
                if c == 'G' {
                    let len = self.filtered_indices.len();
                    self.selected_index = if len > 0 {
                        len - 1
                    } else {
                        0
                    };
                    self.ctrl_c_count = 0;
                    return AppAction::Continue;
                }
                self.type_into_filter(c);
                self.ctrl_c_count = 0;
                AppAction::Continue
            },
            KeyCode::Home => {
                self.selected_index = 0;
                self.ctrl_c_count = 0;
                AppAction::Continue
            },
            KeyCode::End => {
                let len = self.filtered_indices.len();
                self.selected_index = if len > 0 {
                    len - 1
                } else {
                    0
                };
                self.ctrl_c_count = 0;
                AppAction::Continue
            },
            KeyCode::Backspace => {
                if !self.search_query.as_str().is_empty() {
                    self.backspace_filter();
                }
                self.ctrl_c_count = 0;
                AppAction::Continue
            },
            _ => {
                self.ctrl_c_count = 0;
                AppAction::Continue
            },
        }
    }
}

/// The form field the cursor is on, by its position `0..=5`.
pub open spec fn input_field_at(i: usize) -> Option<AddField> {
    if i == 0 {
        Some(AddField::Alias)
    } else if i == 1 {
        Some(AddField::Host)
    } else if i == 2 {
        Some(AddField::User)
    } else if i == 3 {
        Some(AddField::Port)
    } else if i == 4 {
        Some(AddField::Key)
    } else if i == 5 {
        Some(AddField::Folder)
    } else {
        None
    }
}

/// Whether a character is an ASCII digit.
pub open spec fn is_ascii_digit(c: char) -> bool {
    '0' <= c <= '9'
}

/// The form after `c` was typed on field `i`: appended to that field, except
/// that the port takes digits only and at most five of them.
pub open spec fn appended(d: ConnectionDraft, i: usize, c: char, out: ConnectionDraft) -> bool {
    match input_field_at(i) {
        Some(f) => if f is Port && !(is_ascii_digit(c) && d.port@.len() < 5) {
            out == d
        } else {
            &&& field_text(f, out) == field_text(f, d).push(c)
            &&& forall|g: AddField| g != f ==> #[trigger] crate::form::field_value(g, out) == crate::form::field_value(g, d)
        },
        None => out == d,
    }
}

/// The form after a Backspace on field `i`: the last character off that
/// field, except that the port keeps its first one.
pub open spec fn backspaced(d: ConnectionDraft, i: usize, out: ConnectionDraft) -> bool {
    match input_field_at(i) {
        Some(f) => if f is Port && d.port@.len() <= 1 {
            out == d
        } else {
            &&& field_text(f, out) == drop_last_char(field_text(f, d))
            &&& forall|g: AddField| g != f ==> #[trigger] crate::form::field_value(g, out) == crate::form::field_value(g, d)
        },
        None => out == d,
    }
}

/// What a key does on the Add and Edit forms. `Enter` asks for the write;
/// an edit with nothing selected says so instead.
pub open spec fn input_rule(a: App, key: KeyEvent, b: App, act: AppAction) -> bool {
    if key.code == KeyCode::Enter {
        if a.mode == AppMode::Edit && selected_of(a) is None {
            &&& act == AppAction::Continue
            &&& b.message matches Some(m) && m@ == "No Connection selected to edit"@
            &&& b == App { mode: AppMode::Normal, message: b.message, ..a }
        } else {
            &&& act == AppAction::Save(SaveKind::Saved)
            &&& b == App { mode: AppMode::Normal, config: b.config, ..a }
            &&& if a.mode == AppMode::Edit {
                let id = selected_of(a)->0.id@;
                exists|c: Connection| #![trigger crate::config::fields_of(c)]
                    c.id@ == id && crate::config::fields_of(c) == crate::connections::draft_fields(a.input_buffer)
                    && b.config.connections@ == match crate::config::position_of_id(a.config.connections@, id) {
                        Some(i) => a.config.connections@.update(i, c),
                        None => a.config.connections@,
                    }
            } else {
                exists|c: Connection| #![trigger crate::config::fields_of(c)]
                    crate::config::fields_of(c) == crate::connections::draft_fields(a.input_buffer)
                    && b.config.connections@ == a.config.connections@.push(c)
            }
        }
    } else if key.code == KeyCode::Esc || key.code == KeyCode::Char('q') {
        act == AppAction::Continue && b == App { mode: AppMode::Normal, ..a }
    } else if key.code == KeyCode::Tab || key.code == KeyCode::Right || key.code == KeyCode::Down
        || key.code == KeyCode::Char('j') {
        act == AppAction::Continue && b == App { input_field: if a.input_field < 5 { (a.input_field + 1) as usize } else { a.input_field }, ..a }
    } else if key.code == KeyCode::BackTab || key.code == KeyCode::Left || key.code == KeyCode::Up
        || key.code == KeyCode::Char('k') {
        act == AppAction::Continue && b == App { input_field: if a.input_field > 0 { (a.input_field - 1) as usize } else { 0 }, ..a }
    } else if key.code == KeyCode::Backspace {
        act == AppAction::Continue && backspaced(a.input_buffer, a.input_field, b.input_buffer) && b == App { input_buffer: b.input_buffer, ..a }
    } else {
        act == AppAction::Continue && match key.code {
            KeyCode::Char(c) => appended(a.input_buffer, a.input_field, c, b.input_buffer) && b == App { input_buffer: b.input_buffer, ..a },
            _ => b == App { ..a },
        }
    }
}

/// What a key does on the Search screen: `Enter` keeps the filter, `Esc` and
/// `q` clear it, the arrows (and `j`, `k`) move, anything else types.
pub open spec fn search_rule(a: App, key: KeyEvent, b: App) -> bool {
    let len = a.filtered_indices@.len();
    if key.code == KeyCode::Enter {
        b == App { mode: AppMode::Normal, ..a }
    } else if key.code == KeyCode::Esc || key.code == KeyCode::Char('q') {
        filtered_to(a, b, Seq::empty()) && b == App { mode: AppMode::Normal, search_query: b.search_query, filtered_indices: b.filtered_indices, selected_index: b.selected_index, ..a }
    } else if key.code == KeyCode::Up || key.code == KeyCode::Char('k') {
        b == App { selected_index: if a.selected_index > 0 { (a.selected_index - 1) as usize } else { 0 }, ..a }
    } else if key.code == KeyCode::Down || key.code == KeyCode::Char('j') {
        b == App { selected_index: if a.selected_index < last_row(len) { (a.selected_index + 1) as usize } else { a.selected_index }, ..a }
    } else if key.code == KeyCode::Backspace {
        refiltered(a, b, drop_last_char(a.search_query@)) && b.ctrl_c_count == a.ctrl_c_count
    } else {
        match key.code {
            KeyCode::Char(c) => refiltered(a, b, a.search_query@.push(c)) && b.ctrl_c_count == a.ctrl_c_count,
            _ => b == a,
        }
    }
}

/// What a key does on the Help screen: `Esc`, `q` and `Enter` close it.
pub open spec fn help_rule(a: App, key: KeyEvent, b: App) -> bool {
    if key.code == KeyCode::Esc || key.code == KeyCode::Char('q') || key.code == KeyCode::Enter {
        b == App { mode: AppMode::Normal, ..a }
    } else {
        b == a
    }
}

/// What a key does on the Update screen: `u` answers that updating from
/// here is not there yet, `l` and `Esc` dismiss.
pub open spec fn update_rule(a: App, key: KeyEvent, b: App) -> bool {
    if key.code == KeyCode::Char('u') || key.code == KeyCode::Char('U') {
        &&& b.message matches Some(m) && m@ == "Update functionality not yet implemented"@
        &&& b == App { mode: AppMode::Normal, message: b.message, ..a }
    } else if key.code == KeyCode::Char('l') || key.code == KeyCode::Char('L') || key.code == KeyCode::Esc {
        b == App { mode: AppMode::Normal, ..a }
    } else {
        b == a
    }
}

/// The message a failed write leaves.
pub open spec fn save_error(e: Seq<char>) -> Seq<char> {
    "Error saving: "@ + e
}

/// The message a finished write leaves.
pub open spec fn saved_message(kind: SaveKind) -> Seq<char> {
    match kind {
        SaveKind::Saved => "Connection saved!"@,
        SaveKind::Deleted => "Connection deleted"@,
        SaveKind::Imported(n) => "Imported "@ + decimal(n as nat) + " connections"@,
    }
}

impl App {
    /// The field under the cursor, as a draft member.
    fn current_field(&self) -> (r: Option<AddField>)
        ensures
            r == input_field_at(self.input_field),
    {
        if self.input_field == 0 {
            Some(AddField::Alias)
        } else if self.input_field == 1 {
            Some(AddField::Host)
        } else if self.input_field == 2 {
            Some(AddField::User)
        } else if self.input_field == 3 {
            Some(AddField::Port)
        } else if self.input_field == 4 {
            Some(AddField::Key)
        } else if self.input_field == 5 {
            Some(AddField::Folder)
        } else {
            None
        }
    }

    /// Type `c` into the field under the cursor.
    fn append_input_char(&mut self, c: char)
        ensures
            appended(old(self).input_buffer, old(self).input_field, c, final(self).input_buffer),
            *final(self) == (App { input_buffer: final(self).input_buffer, ..*old(self) }),
    {
        match self.current_field() {
            Some(f) => {
                if f == AddField::Port && !(('0' <= c && c <= '9') && chars_of(self.input_buffer.port.as_str()).len() < 5) {
                    return;
                }
                let ghost before = self.input_buffer;
                let mut v = f.field_of(&self.input_buffer).clone();
                push_char(&mut v, c);
                let ghost vv = v;
                f.commit(&mut self.input_buffer, v);
                assert forall|g: AddField| g != f implies #[trigger] crate::form::field_value(g, self.input_buffer) == crate::form::field_value(g, before) by {
                    crate::form::lemma_with_field(before, f, vv, g);
                }
                proof {
                    crate::form::lemma_with_field(before, f, vv, f);
                }
            },
            None => {},
        }
    }

    /// Delete the last character of the field under the cursor.
    fn delete_input_char(&mut self)
        ensures
            backspaced(old(self).input_buffer, old(self).input_field, final(self).input_buffer),
            *final(self) == (App { input_buffer: final(self).input_buffer, ..*old(self) }),
    {
        match self.current_field() {
            Some(f) => {
                if f == AddField::Port && chars_of(self.input_buffer.port.as_str()).len() <= 1 {
                    return;
                }
                let ghost before = self.input_buffer;
                let v = without_last(f.field_of(&self.input_buffer));
                let ghost vv = v;
                f.commit(&mut self.input_buffer, v);
                assert forall|g: AddField| g != f implies #[trigger] crate::form::field_value(g, self.input_buffer) == crate::form::field_value(g, before) by {
                    crate::form::lemma_with_field(before, f, vv, g);
                }
                proof {
                    crate::form::lemma_with_field(before, f, vv, f);
                }
            },
            None => {},
        }
    }

    /// Handle one key on the Add or Edit form.
    pub fn input_key(&mut self, key: KeyEvent) -> (act: AppAction)
        ensures
            input_rule(*old(self), key, *final(self), act),
    {
        if key.code == KeyCode::Enter {
            if self.mode == AppMode::Edit {
                match self.selected_connection_id() {
                    Some(id) => {
                        let conn = connections::edit(&mut self.config, id.as_str(), &self.input_buffer);
                        self.mode = AppMode::Normal;
                        return AppAction::Save(SaveKind::Saved);
                    },
                    None => {
                        self.message = Some(owned("No Connection selected to edit"));
                        self.mode = AppMode::Normal;
                        return AppAction::Continue;
                    },
                }
            }
            let conn = connections::add(&mut self.config, &self.input_buffer);
            self.mode = AppMode::Normal;
            return AppAction::Save(SaveKind::Saved);
        }
        if key.code == KeyCode::Esc || key.code == KeyCode::Char('q') {
            self.mode = AppMode::Normal;
            return AppAction::Continue;
        }
        if key.code == KeyCode::Tab || key.code == KeyCode::Right || key.code == KeyCode::Down || key.code
            == KeyCode::Char('j') {
            if self.input_field < 5 {
                self.input_field = self.input_field + 1;
            }
            return AppAction::Continue;
        }
        if key.code == KeyCode::BackTab || key.code == KeyCode::Left || key.code == KeyCode::Up || key.code
            == KeyCode::Char('k') {
            if self.input_field > 0 {
                self.input_field = self.input_field - 1;
            }
            return AppAction::Continue;
        }
        if key.code == KeyCode::Backspace {
            self.delete_input_char();
            return AppAction::Continue;
        }
        match key.code {
            KeyCode::Char(c) => {
                self.append_input_char(c);
            },
            _ => {},
        }
        AppAction::Continue
    }

    /// Handle one key on the Search screen.
    pub fn search_key(&mut self, key: KeyEvent)
        ensures
            search_rule(*old(self), key, *final(self)),
    {
        if key.code == KeyCode::Enter {
            self.mode = AppMode::Normal;
            return;
        }
        if key.code == KeyCode::Esc || key.code == KeyCode::Char('q') {
            self.search_query = String::new();
            self.update_filter();
            self.mode = AppMode::Normal;
            return;
        }
        if key.code == KeyCode::Up || key.code == KeyCode::Char('k') {
            self.up_one();
            return;
        }
        if key.code == KeyCode::Down || key.code == KeyCode::Char('j') {
            self.down_one();
            return;
        }
        if key.code == KeyCode::Backspace {
            self.backspace_filter();
            return;
        }
        match key.code {
            KeyCode::Char(c) => {
                self.type_into_filter(c);
            },
            _ => {},
        }
    }

    /// Handle one key on the Help screen.
    pub fn help_key(&mut self, key: KeyEvent)
        ensures
            help_rule(*old(self), key, *final(self)),
    {
        if key.code == KeyCode::Esc || key.code == KeyCode::Char('q') || key.code == KeyCode::Enter {
            self.mode = AppMode::Normal;
        }
    }

    /// Handle one key on the Update screen.
    pub fn update_key(&mut self, key: KeyEvent)
        ensures
            update_rule(*old(self), key, *final(self)),
    {
        if key.code == KeyCode::Char('u') || key.code == KeyCode::Char('U') {
            self.mode = AppMode::Normal;
            self.message = Some(owned("Update functionality not yet implemented"));
        } else if key.code == KeyCode::Char('l') || key.code == KeyCode::Char('L') || key.code == KeyCode::Esc {
            self.mode = AppMode::Normal;
        }
    }

    /// Handle one key while the message `shown` is up: `Enter`, `Esc` and `q`
    /// dismiss it; over the first `Ctrl+C`'s message, `c` counts towards the
    /// second.
    pub fn message_key(&mut self, shown: &str, key: KeyEvent) -> (r: MessageAction)
        ensures
            shown@ == ctrl_c_message() && key.code == KeyCode::Char('c') ==> if one_more(old(self).ctrl_c_count) >= 2 {
                r == MessageAction::Quit && *final(self) == (App { ctrl_c_count: one_more(old(self).ctrl_c_count), ..*old(self) })
            } else {
                &&& r == MessageAction::Stay
                &&& final(self).message matches Some(m) && m@ == ctrl_c_message()
                &&& *final(self) == (App { ctrl_c_count: one_more(old(self).ctrl_c_count), message: final(self).message, ..*old(self) })
            },
            !(shown@ == ctrl_c_message() && key.code == KeyCode::Char('c')) ==> if key.code == KeyCode::Enter || key.code
                == KeyCode::Esc || key.code == KeyCode::Char('q') {
                r == MessageAction::Dismiss && *final(self) == (App { message: None, ..*old(self) })
            } else {
                r == MessageAction::Stay && *final(self) == *old(self)
            },
    {
        if crate::text::same_text(shown, "Press Ctrl+C again to exit") && key.code == KeyCode::Char('c') {
            if self.ctrl_c_count < usize::MAX {
                self.ctrl_c_count = self.ctrl_c_count + 1;
            }
            if self.ctrl_c_count >= 2 {
                return MessageAction::Quit;
            }
            self.message = Some(owned("Press Ctrl+C again to exit"));
            return MessageAction::Stay;
        }
        if key.code == KeyCode::Enter || key.code == KeyCode::Esc || key.code == KeyCode::Char('q') {
            self.message = None;
            return MessageAction::Dismiss;
        }
        MessageAction::Stay
    }

    /// Fold the ssh config's stanzas into the set; the write comes next.
    pub fn import_entries(&mut self, entries: Vec<SshConfigEntry>) -> (act: AppAction)
        ensures
            act == AppAction::Save(SaveKind::Imported(
                crate::config::import_plan(
                    crate::config::all_fields(old(self).config.connections@),
                    entries@.map_values(|e: SshConfigEntry| e@),
                ).len() as usize,
            )),
            *final(self) == (App { config: final(self).config, ..*old(self) }),
            final(self).config.connections@.take(old(self).config.connections@.len() as int) == old(self).config.connections@,
            ({
                let plan = crate::config::import_plan(
                    crate::config::all_fields(old(self).config.connections@),
                    entries@.map_values(|e: SshConfigEntry| e@),
                );
                &&& final(self).config.connections@.len() == old(self).config.connections@.len() + plan.len()
                &&& forall|i: int|
                    0 <= i < plan.len() ==> crate::config::fields_of(
                        #[trigger] final(self).config.connections@[old(self).config.connections@.len() + i],
                    ) == plan[i]
            }),
    {
        let n = connections::import(&mut self.config, entries);
        AppAction::Save(SaveKind::Imported(n))
    }

    /// Report how the write of a `kind` change went: on success the filter
    /// runs again over the changed set and the message names the change; on
    /// failure the message carries the reason.
    pub fn saved(&mut self, kind: SaveKind, result: Result<(), String>)
        ensures
            match result {
                Ok(()) => {
                    &&& final(self).filtered_indices@ == kept(old(self).config.connections@, old(self).search_query@)
                    &&& final(self).selected_index == clamped(old(self).selected_index, kept(old(self).config.connections@, old(self).search_query@).len())
                    &&& final(self).message matches Some(m) && m@ == saved_message(kind)
                    &&& *final(self) == (App {
                        filtered_indices: final(self).filtered_indices,
                        selected_index: final(self).selected_index,
                        message: final(self).message,
                        ..*old(self)
                    })
                },
                Err(e) => {
                    &&& final(self).message matches Some(m) && m@ == save_error(e@)
                    &&& *final(self) == (App { message: final(self).message, ..*old(self) })
                },
            },
    {
        match result {
            Ok(()) => {
                self.update_filter();
                let msg = match kind {
                    SaveKind::Saved => owned("Connection saved!"),
                    SaveKind::Deleted => owned("Connection deleted"),
                    SaveKind::Imported(n) => {
                        let mut m = owned("Imported ");
                        let d = decimal_string(n as u64);
                        let dc = chars_of(d.as_str());
                        push_chars(&mut m, dc.as_slice());
                        let tail = chars_of(" connections");
                        push_chars(&mut m, tail.as_slice());
                        m
                    },
                };
                self.message = Some(msg);
            },
            Err(e) => {
                let mut m = owned("Error saving: ");
                let ec = chars_of(e.as_str());
                push_chars(&mut m, ec.as_slice());
                self.message = Some(m);
            },
        }
    }

    /// Take the update check's answer: an available update opens the Update
    /// screen, a failed check leaves its reason as the message.
    pub fn note_arrived(&mut self, note: Result<Option<UpdateInfo>, String>)
        ensures
            match note {
                Ok(Some(info)) => *final(self) == (App { update_info: Some(info), mode: AppMode::Update, ..*old(self) }),
                Ok(None) => *final(self) == *old(self),
                Err(e) => {
                    &&& final(self).message matches Some(m) && m@ == "Update check failed: "@ + e@
                    &&& *final(self) == (App { message: final(self).message, ..*old(self) })
                },
            },
    {
        match note {
            Ok(Some(info)) => {
                self.update_info = Some(info);
                self.mode = AppMode::Update;
            },
            Ok(None) => {},
            Err(e) => {
                let mut m = owned("Update check failed: ");
                let ec = chars_of(e.as_str());
                push_chars(&mut m, ec.as_slice());
                self.message = Some(m);
            },
        }
    }
}

// ───────────────────────────── what the screen says ─────────────────────────────

/// Join hint labels with ` | `, dropping from the end the ones that do not
/// fit in `width` characters.
pub fn fit_hints(hints: &[&str], width: usize) -> (r: String)
    ensures
        r@ == crate::frame::fitted_hints(crate::frame::texts(hints@), width as nat, " | "@),
{
    crate::frame::fit_hints_with(hints, width, " | ")
}

/// Greedy wrapping of words into lines of at most `width` characters, left
/// to right: the lines finished so far and the line being filled. A word
/// longer than `width` gets a line of its own, whole.
pub open spec fn wrap_scan(ws: Seq<Seq<char>>, width: nat) -> (Seq<Seq<char>>, Seq<char>)
    decreases ws.len(),
{
    if ws.len() == 0 {
        (Seq::empty(), Seq::empty())
    } else {
        let (done, line) = wrap_scan(ws.drop_last(), width);
        let w = ws.last();
        if line.len() != 0 && line.len() + 1 + w.len() > width {
            (done.push(line), w)
        } else if line.len() != 0 {
            (done, line + seq![' '] + w)
        } else {
            (done, w)
        }
    }
}

/// One paragraph wrapped: its finished lines and the last one.
pub open spec fn wrapped_paragraph(p: Seq<char>, width: nat) -> Seq<Seq<char>> {
    let (done, line) = wrap_scan(crate::text::words(p), width);
    done.push(line)
}

/// The paragraphs wrapped one after the other.
pub open spec fn wrapped_paragraphs(ps: Seq<Seq<char>>, width: nat) -> Seq<Seq<char>>
    decreases ps.len(),
{
    if ps.len() == 0 {
        Seq::empty()
    } else {
        wrapped_paragraphs(ps.drop_last(), width) + wrapped_paragraph(ps.last(), width)
    }
}

/// `text` word-wrapped to `width` cells (at least one): each line of the
/// text wrapped on its own, words kept whole.
pub open spec fn wrapped(text: Seq<char>, width: nat) -> Seq<Seq<char>> {
    wrapped_paragraphs(crate::text::pieces(text, '\n'), if width == 0 { 1 } else { width })
}

/// The views of a list of lines.
pub open spec fn line_views(v: Seq<String>) -> Seq<Seq<char>> {
    v.map_values(|s: String| s@)
}

/// One paragraph wrapped into `out`.
fn wrap_paragraph(p: &[char], width: usize, out: &mut Vec<String>)
    requires
        width >= 1,
    ensures
        line_views(final(out)@) == line_views(old(out)@) + wrapped_paragraph(p@, width as nat),
{
    let ws = words_of(p);
    let ghost wsv = crate::text::words(p@);
    let mut line = String::new();
    let mut len: usize = 0;
    let ghost start = line_views(out@);
    let mut k: usize = 0;
    while k < ws.len()
        invariant
            k <= ws@.len(),
            ws@.len() == wsv.len(),
            forall|j: int| 0 <= j < ws@.len() ==> (#[trigger] ws@[j])@ == wsv[j],
            width >= 1,
            line_views(out@) == start + wrap_scan(wsv.take(k as int), width as nat).0,
            line@ == wrap_scan(wsv.take(k as int), width as nat).1,
            len == line@.len(),
        decreases ws.len() - k,
    {
        assert(wsv.take(k + 1).drop_last() == wsv.take(k as int));
        assert(wsv.take(k + 1).last() == wsv[k as int]);
        let w = &ws[k];
        if len != 0 && (w.len() >= width || len > width - 1 - w.len()) {
            let ghost before = out@;
            let done_line = line;
            out.push(done_line);
            assert(line_views(out@) == line_views(before).push(done_line@));
            line = String::new();
            len = 0;
        }
        if len != 0 {
            push_char(&mut line, ' ');
            len = len + 1;
        }
        push_chars(&mut line, w.as_slice());
        len = len + w.len();
        k = k + 1;
    }
    assert(wsv.take(ws@.len() as int) == wsv);
    let ghost before = out@;
    out.push(line);
    assert(line_views(out@) == line_views(before).push(line@));
}

/// Word-wrap `text` to `width` cells, one entry per display line. A word
/// wider than `width` is kept whole on a line of its own.
pub fn wrap_to_width(text: &str, width: usize) -> (r: Vec<String>)
    ensures
        line_views(r@) == wrapped(text@, width as nat),
{
    let width = if width == 0 {
        1
    } else {
        width
    };
    let chars = chars_of(text);
    let paragraphs = crate::text::pieces_of(chars.as_slice(), '\n');
    let ghost ps = crate::text::pieces(chars@, '\n');
    let mut out: Vec<String> = Vec::new();
    let mut i: usize = 0;
    assert(line_views(out@) =~= wrapped_paragraphs(ps.take(0), width as nat));
    while i < paragraphs.len()
        invariant
            i <= paragraphs@.len(),
            paragraphs@.len() == ps.len(),
            forall|j: int| 0 <= j < paragraphs@.len() ==> (#[trigger] paragraphs@[j])@ == ps[j],
            width >= 1,
            line_views(out@) == wrapped_paragraphs(ps.take(i as int), width as nat),
        decreases paragraphs.len() - i,
    {
        assert(ps.take(i + 1).drop_last() == ps.take(i as int));
        assert(ps.take(i + 1).last() == ps[i as int]);
        wrap_paragraph(paragraphs[i].as_slice(), width, &mut out);
        i = i + 1;
    }
    assert(ps.take(paragraphs@.len() as int) == ps);
    out
}

/// The title a screen wears.
pub fn mode_title(mode: AppMode) -> (r: &'static str)
    ensures
        r@ == match mode {
            AppMode::Normal => " SSH Connection Manager "@,
            AppMode::Add => " Add Connection "@,
            AppMode::Edit => " Edit Connection "@,
            AppMode::Search => " Search Connections "@,
            AppMode::Help => " Help "@,
            AppMode::Update => " Update Available "@,
        },
{
    match mode {
        AppMode::Normal => " SSH Connection Manager ",
        AppMode::Add => " Add Connection ",
        AppMode::Edit => " Edit Connection ",
        AppMode::Search => " Search Connections ",
        AppMode::Help => " Help ",
        AppMode::Update => " Update Available ",
    }
}

/// The footer's hints for a screen, most needed first.
pub open spec fn mode_hints(mode: AppMode) -> Seq<Seq<char>> {
    match mode {
        AppMode::Normal => seq![
            "↑↓/j k: Navigate"@,
            "Enter: Connect"@,
            "/: Search"@,
            "?: Help"@,
            "q: Quit"@,
            "a: Add"@,
            "e: Edit"@,
            "d: Delete"@,
            "i: Import"@,
        ],
        AppMode::Add | AppMode::Edit => seq![
            "Type text"@,
            "Tab: Next field"@,
            "Enter: Save"@,
            "Esc/q: Cancel"@,
            "←: Backspace"@,
        ],
        AppMode::Search => seq!["Type to filter"@, "Enter/Esc/q: Exit search"@],
        AppMode::Help => seq!["Press Esc or q to return"@],
        AppMode::Update => seq!["U: Update now"@, "L: Ignore"@, "Esc: Dismiss"@],
    }
}

/// The footer's hints for a screen.
pub fn footer_hints(mode: AppMode) -> (r: Vec<&'static str>)
    ensures
        crate::frame::texts(r@) == mode_hints(mode),
{
    let mut v: Vec<&'static str> = Vec::new();
    match mode {
        AppMode::Normal => {
            v.push("↑↓/j k: Navigate");
            v.push("Enter: Connect");
            v.push("/: Search");
            v.push("?: Help");
            v.push("q: Quit");
            v.push("a: Add");
            v.push("e: Edit");
            v.push("d: Delete");
            v.push("i: Import");
        },
        AppMode::Add | AppMode::Edit => {
            v.push("Type text");
            v.push("Tab: Next field");
            v.push("Enter: Save");
            v.push("Esc/q: Cancel");
            v.push("←: Backspace");
        },
        AppMode::Search => {
            v.push("Type to filter");
            v.push("Enter/Esc/q: Exit search");
        },
        AppMode::Help => {
            v.push("Press Esc or q to return");
        },
        AppMode::Update => {
            v.push("U: Update now");
            v.push("L: Ignore");
            v.push("Esc: Dismiss");
        },
    }
    assert(crate::frame::texts(v@) =~= mode_hints(mode));
    v
}

/// The footer for a screen `width` columns wide: the hints that fit inside
/// its border.
pub fn footer_text(mode: AppMode, width: u16) -> (r: String)
    ensures
        r@ == crate::frame::fitted_hints(mode_hints(mode), if width >= 2 { (width - 2) as nat } else { 0 }, " | "@),
{
    let hints = footer_hints(mode);
    let interior: usize = if width >= 2 {
        (width - 2) as usize
    } else {
        0
    };
    fit_hints(hints.as_slice(), interior)
}

/// A list row of the Normal screen: ` > alias (user@host:port)` with `>` on
/// the selected row, and the alias after `[folder] ` (and one more space)
/// when the Connection has a folder.
pub open spec fn list_row_text(c: Connection, selected: bool) -> Seq<char> {
    let folder = crate::connections::opt_text(c.folder);
    let alias = if folder.len() == 0 {
        c.alias@
    } else {
        seq!['['] + folder + "]  "@ + c.alias@
    };
    seq![' '] + (if selected { seq!['>'] } else { seq![' '] }) + seq![' '] + alias + seq![' '] + crate::frame::meta_text(c)
}

/// A list row of the Normal screen.
pub fn list_row(conn: &Connection, selected: bool) -> (r: String)
    ensures
        r@ == list_row_text(*conn, selected),
{
    proof {
        reveal_strlit("]  ");
    }
    let mut out = String::new();
    push_char(&mut out, ' ');
    push_char(&mut out, if selected {
        '>'
    } else {
        ' '
    });
    push_char(&mut out, ' ');
    match &conn.folder {
        Some(f) => {
            let fc = chars_of(f.as_str());
            if fc.len() > 0 {
                push_char(&mut out, '[');
                push_chars(&mut out, fc.as_slice());
                push_char(&mut out, ']');
                push_char(&mut out, ' ');
                push_char(&mut out, ' ');
            }
        },
        None => {},
    }
    let alias = chars_of(conn.alias.as_str());
    push_chars(&mut out, alias.as_slice());
    push_char(&mut out, ' ');
    push_char(&mut out, '(');
    let user = chars_of(conn.user.as_str());
    push_chars(&mut out, user.as_slice());
    push_char(&mut out, '@');
    let host = chars_of(conn.host.as_str());
    push_chars(&mut out, host.as_slice());
    push_char(&mut out, ':');
    let port = decimal_string(conn.port as u64);
    let pc = chars_of(port.as_str());
    push_chars(&mut out, pc.as_slice());
    push_char(&mut out, ')');
    proof {
        let folder = crate::connections::opt_text(conn.folder);
        if folder.len() == 0 {
            assert(out@ =~= list_row_text(*conn, selected));
        } else {
            assert(out@ =~= list_row_text(*conn, selected));
        }
    }
    out
}

/// What the list says when it has no rows: how to add one, or that the
/// filter matched nothing.
pub fn empty_list_message(query_empty: bool) -> (r: &'static str)
    ensures
        r@ == if query_empty {
            "No connections. Press 'a' to add a new connection."@
        } else {
            "No connections match your search."@
        },
{
    if query_empty {
        "No connections. Press 'a' to add a new connection."
    } else {
        "No connections match your search."
    }
}

/// The label a form row starts with, by position.
pub open spec fn input_label(i: int) -> Seq<char> {
    if i == 0 {
        "Alias: "@
    } else if i == 1 {
        "Host: "@
    } else if i == 2 {
        "User: "@
    } else if i == 3 {
        "Port: "@
    } else if i == 4 {
        "Key: "@
    } else {
        "Folder: "@
    }
}

/// The form's rows: label, value, and a block cursor on the current one.
pub open spec fn input_line_text(d: ConnectionDraft, i: int, current: usize) -> Seq<char> {
    input_label(i) + field_text(crate::form::field_order()[i], d) + (if current == i { "█"@ } else { " "@ })
}

impl App {
    /// The six rows the Add and Edit forms draw, top to bottom.
    pub fn input_lines(&self) -> (r: Vec<String>)
        ensures
            r@.len() == 6,
            forall|i: int| 0 <= i < 6 ==> (#[trigger] r@[i])@ == input_line_text(self.input_buffer, i, self.input_field),
    {
        let mut out: Vec<String> = Vec::new();
        let mut i: usize = 0;
        while i < 6
            invariant
                i <= 6,
                out@.len() == i,
                forall|j: int| 0 <= j < i ==> (#[trigger] out@[j])@ == input_line_text(self.input_buffer, j, self.input_field),
            decreases 6 - i,
        {
            let f = AddField::at(i);
            let label = if i == 0 {
                "Alias: "
            } else if i == 1 {
                "Host: "
            } else if i == 2 {
                "User: "
            } else if i == 3 {
                "Port: "
            } else if i == 4 {
                "Key: "
            } else {
                "Folder: "
            };
            let mut line = owned(label);
            let v = chars_of(f.field_of(&self.input_buffer).as_str());
            push_chars(&mut line, v.as_slice());
            let cursor = chars_of(if self.input_field == i {
                "█"
            } else {
                " "
            });
            push_chars(&mut line, cursor.as_slice());
            out.push(line);
            i = i + 1;
        }
        out
    }

    /// The search bar's text: the filter, or its placeholder while empty.
    pub fn search_bar_text(&self) -> (r: String)
        ensures
            r@ == if self.search_query@.len() == 0 {
                "Type to search..."@
            } else {
                self.search_query@
            },
    {
        if self.search_query.as_str().is_empty() {
            owned("Type to search...")
        } else {
            self.search_query.clone()
        }
    }

    /// The text of the Update screen.
    pub fn update_popup_text(&self) -> (r: String)
        ensures
            r@ == "A new version is available!\nCurrent: v"@ + match self.update_info {
                Some(i) => i.current_version@,
                None => "0.1.0"@,
            } + "\nNew: v"@ + match self.update_info {
                Some(i) => i.new_version@,
                None => "0.2.0"@,
            } + "\n\nPress U to update, L to ignore"@,
    {
        let mut out = owned("A new version is available!\nCurrent: v");
        let cur = match &self.update_info {
            Some(i) => chars_of(i.current_version.as_str()),
            None => chars_of("0.1.0"),
        };
        push_chars(&mut out, cur.as_slice());
        let mid = chars_of("\nNew: v");
        push_chars(&mut out, mid.as_slice());
        let new = match &self.update_info {
            Some(i) => chars_of(i.new_version.as_str()),
            None => chars_of("0.2.0"),
        };
        push_chars(&mut out, new.as_slice());
        let tail = chars_of("\n\nPress U to update, L to ignore");
        push_chars(&mut out, tail.as_slice());
        out
    }
}

/// The keyboard reference the Help screen shows.
pub fn help_text() -> (r: &'static str)
    ensures
        r@ == "\n  SSH Connection Manager - Keyboard Shortcuts\n\n Navigation\n   ↑↓ or j/k   Move up/down in list\n   g            Go to first item\n   G            Go to last item\n   Enter        Connect to selected server\n\n Actions\n   a            Add new connection\n   e            Edit selected connection\n   d            Delete selected connection\n   i            Import from ~/.ssh/config\n   /            Search/filter connections\n   ?            Show this help menu\n\n General\n   q            Quit application\n   Esc          Cancel current action\n\n"@,
{
    "\n  SSH Connection Manager - Keyboard Shortcuts\n\n Navigation\n   ↑↓ or j/k   Move up/down in list\n   g            Go to first item\n   G            Go to last item\n   Enter        Connect to selected server\n\n Actions\n   a            Add new connection\n   e            Edit selected connection\n   d            Delete selected connection\n   i            Import from ~/.ssh/config\n   /            Search/filter connections\n   ?            Show this help menu\n\n General\n   q            Quit application\n   Esc          Cancel current action\n\n"
}

/// What the TUI draws in place of its layout on a terminal too small for
/// it.
pub struct TooSmall {
    /// Whether the message is drawn inside a border.
    pub boxed: bool,
    /// The message's lines, top to bottom.
    pub lines: Vec<String>,
    /// How many rows down from the top of the interior the message starts.
    pub top: u16,
}

/// The instruction the too-small screen gives.
pub open spec fn resize_instruction(width: u16, height: u16) -> Seq<char> {
    "Resize to at least 60x14 (currently "@ + decimal(width as nat) + seq!['x'] + decimal(height as nat) + ")."@
}

/// The too-small screen for a `width` by `height` terminal: a border when
/// there is room for one, the title and a blank line above the wrapped
/// instruction when all of it fits (only the instruction otherwise), and the
/// message centred in what is left.
pub fn too_small_layout(width: u16, height: u16) -> (r: TooSmall)
    ensures
        r.boxed == (width >= 5 && height >= 5),
        ({
            let inner_w: nat = if r.boxed { (width - 2) as nat } else { width as nat };
            let inner_h: nat = if r.boxed { (height - 2) as nat } else { height as nat };
            let instruction = wrapped(resize_instruction(width, height), inner_w);
            let full = seq!["Terminal too small."@, Seq::<char>::empty()] + instruction;
            let lines = if full.len() <= inner_h { full } else { instruction };
            let count: nat = if lines.len() < inner_h { lines.len() } else { inner_h };
            &&& line_views(r.lines@) == lines
            &&& r.top == (inner_h - count) / 2
        }),
{
    let boxed = width >= 5 && height >= 5;
    let inner_w: u16 = if boxed {
        width - 2
    } else {
        width
    };
    let inner_h: u16 = if boxed {
        height - 2
    } else {
        height
    };
    let mut text = owned("Resize to at least 60x14 (currently ");
    let wd = decimal_string(width as u64);
    let wc = chars_of(wd.as_str());
    push_chars(&mut text, wc.as_slice());
    push_char(&mut text, 'x');
    let hd = decimal_string(height as u64);
    let hc = chars_of(hd.as_str());
    push_chars(&mut text, hc.as_slice());
    let tail = chars_of(").");
    push_chars(&mut text, tail.as_slice());
    assert(text@ =~= resize_instruction(width, height));
    let instruction = wrap_to_width(text.as_str(), inner_w as usize);
    let total = instruction.len();
    let lines = if total <= inner_h as usize && 2 <= inner_h as usize - total {
        let mut full: Vec<String> = Vec::new();
        full.push(owned("Terminal too small."));
        full.push(String::new());
        assert(line_views(full@) =~= seq!["Terminal too small."@, Seq::<char>::empty()] + line_views(instruction@.take(0)));
        let mut k: usize = 0;
        while k < instruction.len()
            invariant
                k <= instruction@.len(),
                full@.len() == k + 2,
                line_views(full@) == seq!["Terminal too small."@, Seq::<char>::empty()] + line_views(instruction@.take(k as int)),
            decreases instruction.len() - k,
        {
            let ghost before = full@;
            full.push(instruction[k].clone());
            assert(line_views(full@) == line_views(before).push(instruction@[k as int]@));
            assert(line_views(instruction@.take(k + 1)) == line_views(instruction@.take(k as int)).push(instruction@[k as int]@));
            k = k + 1;
        }
        assert(instruction@.take(instruction@.len() as int) == instruction@);
        proof {
            reveal_strlit("Terminal too small.");
        }
        full
    } else {
        instruction
    };
    let count: u16 = if lines.len() < inner_h as usize {
        lines.len() as u16
    } else {
        inner_h
    };
    TooSmall { boxed, lines, top: (inner_h - count) / 2 }
}

} // verus!
