//! The Connection manager.
//!
//! Every change to the Connection set lives here: add, edit, delete, the
//! `~/.ssh/config` import, and the update note. Each operation changes the
//! set and reports what it changed, so a surface can render its own trace
//! without re-implementing the rules. Writing the set back to disk is the
//! caller's step after the change.
//!
//! Nothing here knows how a Connection is drawn, filtered or selected — a
//! caller passes the draft it collected and the id it is acting on, and gets
//! the changed Connection out.

use vstd::prelude::*;
use crate::config::{
    all_fields, fields_of, import_plan, keeps_id, lemma_position_of_id, new_id,
    port_value, position_of_id, find_id, Config, ConnFields, Connection, SshConfigEntry, EntryView,
    ImportReport,
};
use crate::text::{chars_of, decimal, decimal_string, owned, parse_unsigned};
use crate::update::{UpdateInfo, UpdateResult, CURRENT_VERSION};

verus! {

/// The field values a Connection is built from while the user adds or
/// edits one.
///
/// Every field is text because it arrives from keystrokes: the port is
/// digits-as-text, and an optional field left alone is empty rather than
/// absent.
#[derive(Debug, Clone, PartialEq, Eq)]
pub struct ConnectionDraft {
    pub alias: String,
    pub host: String,
    pub user: String,
    pub port: String,
    pub key_path: String,
    pub folder: String,
}

impl Default for ConnectionDraft {
    fn default() -> (r: Self)
        ensures
            r.alias@.len() == 0,
            r.host@.len() == 0,
            r.user@.len() == 0,
            r.port@.len() == 0,
            r.key_path@.len() == 0,
            r.folder@.len() == 0,
    {
        ConnectionDraft {
            alias: String::new(),
            host: String::new(),
            user: String::new(),
            port: String::new(),
            key_path: String::new(),
            folder: String::new(),
        }
    }
}

/// The text an optional field holds in a draft: its value, or nothing.
pub open spec fn opt_text(o: Option<String>) -> Seq<char> {
    match o {
        Some(s) => s@,
        None => Seq::empty(),
    }
}

/// An optional value as stored: absent when the text is empty.
pub open spec fn present(s: Seq<char>) -> Option<Seq<char>> {
    if s.len() == 0 {
        None
    } else {
        Some(s)
    }
}

/// The port a draft's text stands for: the number when it parses as a
/// `u16`, and the SSH default otherwise.
pub open spec fn draft_port(s: Seq<char>) -> u16 {
    match port_value(s) {
        Some(p) => p,
        None => 22,
    }
}

/// The Connection fields a draft describes.
pub open spec fn draft_fields(d: ConnectionDraft) -> ConnFields {
    ConnFields {
        alias: d.alias@,
        host: d.host@,
        user: d.user@,
        port: draft_port(d.port@),
        key_path: present(d.key_path@),
        folder: present(d.folder@),
    }
}

impl ConnectionDraft {
    /// A copy equal to `self` in every field.
    pub fn copy(&self) -> (r: Self)
        ensures
            r == *self,
    {
        ConnectionDraft {
            alias: self.alias.clone(),
            host: self.host.clone(),
            user: self.user.clone(),
            port: self.port.clone(),
            key_path: self.key_path.clone(),
            folder: self.folder.clone(),
        }
    }

    /// Reset to a blank draft, with the SSH default port already filled in.
    pub fn clear(&mut self)
        ensures
            final(self).alias@.len() == 0,
            final(self).host@.len() == 0,
            final(self).user@.len() == 0,
            final(self).port@ == "22"@,
            final(self).key_path@.len() == 0,
            final(self).folder@.len() == 0,
    {
        self.alias = String::new();
        self.host = String::new();
        self.user = String::new();
        self.port = owned("22");
        self.key_path = String::new();
        self.folder = String::new();
    }

    /// Seed a draft from an existing Connection, so an edit starts where that
    /// Connection left off: the port as its decimal digits, an absent key or
    /// folder as empty text.
    pub fn from_connection(conn: &Connection) -> (r: Self)
        ensures
            r.alias@ == conn.alias@,
            r.host@ == conn.host@,
            r.user@ == conn.user@,
            r.port@ == decimal(conn.port as nat),
            r.key_path@ == opt_text(conn.key_path),
            r.folder@ == opt_text(conn.folder),
    {
        ConnectionDraft {
            alias: conn.alias.clone(),
            host: conn.host.clone(),
            user: conn.user.clone(),
            port: decimal_string(conn.port as u64),
            key_path: match &conn.key_path {
                Some(k) => k.clone(),
                None => String::new(),
            },
            folder: match &conn.folder {
                Some(f) => f.clone(),
                None => String::new(),
            },
        }
    }
}

/// An optional field as stored: absent when its text is empty, so a
/// Connection never carries `key_path: Some("")` — ssh would get `-i ""`.
pub fn none_if_blank(value: &str) -> (r: Option<String>)
    ensures
        r.deep_view() == present(value@),
{
    let chars = chars_of(value);
    if chars.len() == 0 {
        None
    } else {
        Some(owned(value))
    }
}

/// The port a draft's text stands for.
fn port_of(text: &String) -> (r: u16)
    ensures
        r == draft_port(text@),
{
    let chars = chars_of(text.as_str());
    match parse_unsigned(chars.as_slice(), 65535) {
        Some(v) => v as u16,
        None => 22,
    }
}

/// Build the Connection a draft describes, under a fresh id.
fn connection_from(draft: &ConnectionDraft) -> (r: Connection)
    ensures
        fields_of(r) == draft_fields(*draft),
        crate::config::is_uuid_v4_text(r.id@),
{
    Connection {
        id: new_id(),
        alias: draft.alias.clone(),
        host: draft.host.clone(),
        user: draft.user.clone(),
        port: port_of(&draft.port),
        key_path: none_if_blank(draft.key_path.as_str()),
        folder: none_if_blank(draft.folder.as_str()),
    }
}

/// Add a Connection built from `draft` at the end of the set, under a fresh
/// id, and return it.
pub fn add(config: &mut Config, draft: &ConnectionDraft) -> (conn: Connection)
    ensures
        final(config).connections@ == old(config).connections@.push(conn),
        fields_of(conn) == draft_fields(*draft),
        crate::config::is_uuid_v4_text(conn.id@),
{
    let conn = connection_from(draft);
    config.add_connection(conn.copy());
    conn
}

/// Edit the Connection identified by `existing_id` so it holds what `draft`
/// describes, keeping that id, and return the edited Connection.
///
/// An id that is not in the set changes nothing.
pub fn edit(config: &mut Config, existing_id: &str, draft: &ConnectionDraft) -> (conn: Connection)
    ensures
        conn.id@ == existing_id@,
        fields_of(conn) == draft_fields(*draft),
        final(config).connections@ == match position_of_id(
            old(config).connections@,
            existing_id@,
        ) {
            Some(i) => old(config).connections@.update(i, conn),
            None => old(config).connections@,
        },
{
    let made = connection_from(draft);
    let conn = Connection { id: owned(existing_id), ..made };
    config.update_connection(conn.copy());
    conn
}

/// Delete the Connection with `id` and return what was removed. `None`
/// means no Connection had that id, and the set is unchanged.
pub fn remove(config: &mut Config, id: &str) -> (r: Option<Connection>)
    ensures
        match position_of_id(old(config).connections@, id@) {
            Some(i) => r == Some(old(config).connections@[i]) && final(config).connections@
                == old(config).connections@.filter(keeps_id(id@)),
            None => r is None && final(config).connections@ == old(config).connections@,
        },
{
    proof {
        lemma_position_of_id(config.connections@, id@);
    }
    match find_id(config.connections.as_slice(), id) {
        None => None,
        Some(i) => {
            let removed = config.connections[i].copy();
            config.remove_connection(id);
            Some(removed)
        },
    }
}

/// Import ssh config stanzas into the set and return how many Connections
/// were added. Stanzas whose login the set already holds are left alone, so
/// importing twice adds nothing the second time.
pub fn import(config: &mut Config, entries: Vec<SshConfigEntry>) -> (imported: usize)
    ensures
        ({
            let plan = import_plan(
                all_fields(old(config).connections@),
                entries@.map_values(|e: SshConfigEntry| e@),
            );
            &&& imported == plan.len()
            &&& final(config).connections@.len() == old(config).connections@.len() + plan.len()
            &&& final(config).connections@.take(old(config).connections@.len() as int)
                == old(config).connections@
            &&& forall|i: int|
                0 <= i < plan.len() ==> fields_of(
                    #[trigger] final(config).connections@[old(config).connections@.len() + i],
                ) == plan[i]
        }),
{
    crate::config::import_from_ssh_config(config, entries)
}

/// An import adds at most one Connection per stanza.
pub proof fn lemma_import_plan_len(existing: Seq<ConnFields>, entries: Seq<EntryView>)
    ensures
        import_plan(existing, entries).len() <= entries.len(),
    decreases entries.len(),
{
    if entries.len() > 0 {
        lemma_import_plan_len(existing, entries.drop_last());
    }
}

/// Import ssh config stanzas into the set and report how it went: how many
/// Connections were added, and how many stanzas were left out because the
/// set already logs in where they point.
pub fn import_report(config: &mut Config, entries: Vec<SshConfigEntry>) -> (r: ImportReport)
    ensures
        ({
            let plan = import_plan(
                all_fields(old(config).connections@),
                entries@.map_values(|e: SshConfigEntry| e@),
            );
            &&& r.imported == plan.len()
            &&& r.imported + r.skipped == entries@.len()
            &&& final(config).connections@.len() == old(config).connections@.len() + plan.len()
            &&& final(config).connections@.take(old(config).connections@.len() as int)
                == old(config).connections@
            &&& forall|i: int|
                0 <= i < plan.len() ==> fields_of(
                    #[trigger] final(config).connections@[old(config).connections@.len() + i],
                ) == plan[i]
        }),
{
    let total = entries.len();
    proof {
        lemma_import_plan_len(all_fields(config.connections@), entries@.map_values(|e: SshConfigEntry| e@));
    }
    let imported = import(config, entries);
    ImportReport { imported, skipped: total - imported }
}

/// Adding a Connection and then deleting it by its id gives back the set
/// that was there before, as long as no Connection already in the set
/// carries that id.
pub proof fn lemma_add_then_remove_restores(before: Seq<Connection>, conn: Connection)
    requires
        forall|i: int| 0 <= i < before.len() ==> (#[trigger] before[i]).id@ != conn.id@,
    ensures
        position_of_id(before.push(conn), conn.id@) == Some(before.len() as int),
        before.push(conn).filter(keeps_id(conn.id@)) == before,
{
    lemma_position_of_id(before.push(conn), conn.id@);
    assert(before.push(conn).drop_last() == before);
    lemma_position_of_id(before, conn.id@);
    before.lemma_filter_push(conn, keeps_id(conn.id@));
    lemma_filter_keeps_all(before, conn.id@);
}

/// Removing an id that nobody carries keeps every Connection.
pub proof fn lemma_filter_keeps_all(s: Seq<Connection>, id: Seq<char>)
    requires
        forall|i: int| 0 <= i < s.len() ==> (#[trigger] s[i]).id@ != id,
    ensures
        s.filter(keeps_id(id)) == s,
    decreases s.len(),
{
    reveal(Seq::filter);
    if s.len() > 0 {
        assert forall|i: int| 0 <= i < s.drop_last().len() implies (#[trigger] s.drop_last()[i]).id@
            != id by {
            assert(s.drop_last()[i] == s[i]);
        }
        lemma_filter_keeps_all(s.drop_last(), id);
        assert(s.drop_last().push(s.last()) == s);
    }
}

/// The plan over a prefix of the stanzas is a prefix of the plan over all
/// of them.
proof fn lemma_plan_prefix(existing: Seq<ConnFields>, entries: Seq<crate::config::EntryView>, k: int)
    requires
        0 <= k <= entries.len(),
    ensures
        import_plan(existing, entries.take(k)).len() <= import_plan(existing, entries).len(),
        import_plan(existing, entries) .take(import_plan(existing, entries.take(k)).len() as int)
            == import_plan(existing, entries.take(k)),
    decreases entries.len() - k,
{
    if k < entries.len() {
        let t = entries.drop_last();
        assert(t.take(k) == entries.take(k));
        lemma_plan_prefix(existing, t, k);
        let p = import_plan(existing, t);
        let q = import_plan(existing, t.take(k));
        assert(import_plan(existing, entries) == p || import_plan(existing, entries) == p.push(
            crate::config::entry_fields(entries.last()),
        ));
        if import_plan(existing, entries) != p {
            assert(p.push(crate::config::entry_fields(entries.last())).take(q.len() as int) == p.take(
                q.len() as int,
            ));
        }
    } else {
        assert(entries.take(k) == entries);
        assert(import_plan(existing, entries).take(import_plan(existing, entries).len() as int)
            == import_plan(existing, entries));
    }
}

/// After an import, every stanza's login is held by the set.
proof fn lemma_plan_covers(existing: Seq<ConnFields>, entries: Seq<crate::config::EntryView>, k: int)
    requires
        0 <= k < entries.len(),
    ensures
        crate::config::holds_login(
            existing + import_plan(existing, entries),
            crate::config::entry_fields(entries[k]).host,
            crate::config::entry_fields(entries[k]).user,
        ),
{
    let full = import_plan(existing, entries);
    let before = import_plan(existing, entries.take(k));
    let upto = import_plan(existing, entries.take(k + 1));
    let f = crate::config::entry_fields(entries[k]);
    assert(entries.take(k + 1).drop_last() == entries.take(k));
    assert(entries.take(k + 1).last() == entries[k]);
    lemma_plan_prefix(existing, entries, k + 1);
    assert(full.take(upto.len() as int) == upto);
    if crate::config::holds_login(existing + before, f.host, f.user) {
        let j = choose|j: int|
            0 <= j < (existing + before).len() && (#[trigger] (existing + before)[j]).host == f.host
                && (existing + before)[j].user == f.user;
        lemma_plan_prefix(existing, entries.take(k + 1), k);
        assert(entries.take(k + 1).take(k) == entries.take(k));
        assert(upto.take(before.len() as int) == before);
        assert((existing + full)[j] == (existing + before)[j]);
    } else {
        assert(upto == before.push(f));
        assert(full.take(upto.len() as int)[before.len() as int] == f);
        assert(full[before.len() as int] == f);
        assert((existing + full)[existing.len() + before.len() as int] == f);
    }
}

/// Importing the same stanzas a second time adds nothing: every login the
/// first import could add, it added.
pub proof fn lemma_import_twice_adds_nothing(
    existing: Seq<ConnFields>,
    entries: Seq<crate::config::EntryView>,
)
    ensures
        import_plan(existing + import_plan(existing, entries), entries).len() == 0,
{
    let after = existing + import_plan(existing, entries);
    assert forall|k: int| 0 <= k <= entries.len() implies import_plan(after, #[trigger] entries.take(k)).len() == 0 by {
        lemma_second_plan_empty(existing, entries, k);
    }
    assert(entries.take(entries.len() as int) == entries);
}

proof fn lemma_second_plan_empty(existing: Seq<ConnFields>, entries: Seq<crate::config::EntryView>, k: int)
    requires
        0 <= k <= entries.len(),
    ensures
        import_plan(existing + import_plan(existing, entries), entries.take(k)).len() == 0,
    decreases k,
{
    let after = existing + import_plan(existing, entries);
    if k > 0 {
        lemma_second_plan_empty(existing, entries, k - 1);
        assert(entries.take(k).drop_last() == entries.take(k - 1));
        assert(entries.take(k).last() == entries[k - 1]);
        lemma_plan_covers(existing, entries, k - 1);
        let p = import_plan(after, entries.take(k - 1));
        assert(p.len() == 0);
        assert(after + p == after);
    }
}

/// What an update check leaves a surface to show: a note carrying versions,
/// nothing at all, or the reason the check failed.
#[derive(Debug, Clone)]
pub enum UpdateNote {
    /// A newer release exists, with the versions to name in the note.
    Available(UpdateInfo),
    /// Nothing to show.
    Nothing,
    /// The check failed; the string is what the surface shows.
    Failed(String),
}

/// Turn the outcome of an update check into the note a surface shows.
pub fn update_note_from(result: UpdateResult) -> (r: UpdateNote)
    ensures
        match result {
            UpdateResult::UpdateAvailable { version } => r is Available && r->Available_0.new_version
                == version && r->Available_0.current_version@ == CURRENT_VERSION@,
            UpdateResult::NoUpdate => r is Nothing,
            UpdateResult::Error(m) => r == UpdateNote::Failed(m),
        },
{
    match result {
        UpdateResult::UpdateAvailable { version } => UpdateNote::Available(
            UpdateInfo { current_version: owned(CURRENT_VERSION), new_version: version },
        ),
        UpdateResult::NoUpdate => UpdateNote::Nothing,
        UpdateResult::Error(message) => UpdateNote::Failed(message),
    }
}

} // verus!
