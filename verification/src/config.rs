//! The Connection set and the `~/.ssh/config` reader.
//!
//! A [`Connection`] is one saved SSH target; a [`Config`] is the ordered set of
//! them. Reading and writing `connections.json`, and reading the ssh config
//! file, are the program's business: this module holds what those bytes mean.
//! [`parse_ssh_config`] turns the text of an ssh config into its `Host`
//! stanzas, and [`import_from_ssh_config`] folds those stanzas into a set
//! without duplicating a login it already holds.

use vstd::prelude::*;
use crate::text::{
    chars_of, lowercase, parse_unsigned, parse_unsigned_spec, pieces, pieces_of, same_text,
    string_of, to_lowercase, trim, trim_chars, words, words_of,
};

verus! {

/// One saved SSH target.
#[derive(Debug, Clone, PartialEq, Eq)]
pub struct Connection {
    pub id: String,
    pub alias: String,
    pub host: String,
    pub user: String,
    pub port: u16,
    pub key_path: Option<String>,
    pub folder: Option<String>,
}

/// A Connection's fields as text, the id left out: everything about a
/// Connection that its user chose.
pub struct ConnFields {
    pub alias: Seq<char>,
    pub host: Seq<char>,
    pub user: Seq<char>,
    pub port: u16,
    pub key_path: Option<Seq<char>>,
    pub folder: Option<Seq<char>>,
}

/// The user-chosen fields of `c`.
pub open spec fn fields_of(c: Connection) -> ConnFields {
    ConnFields {
        alias: c.alias@,
        host: c.host@,
        user: c.user@,
        port: c.port,
        key_path: c.key_path.deep_view(),
        folder: c.folder.deep_view(),
    }
}

/// Whether a character is a lower-case hexadecimal digit.
pub open spec fn is_lower_hex(c: char) -> bool {
    ('0' <= c && c <= '9') || ('a' <= c && c <= 'f')
}

/// The text of a version-4 UUID as `Uuid`'s `Display` writes it: 36
/// characters, hyphens after the 8th, 12th, 16th and 20th hex digits,
/// lower-case hex digits elsewhere, and the version digit `4`.
pub open spec fn is_uuid_v4_text(s: Seq<char>) -> bool {
    &&& s.len() == 36
    &&& forall|i: int|
        #![trigger s[i]]
        0 <= i < 36 ==> if i == 8 || i == 13 || i == 18 || i == 23 {
            s[i] == '-'
        } else {
            is_lower_hex(s[i])
        }
    &&& s[14] == '4'
}

/// `uuid::Uuid::new_v4().to_string()`: a fresh random identifier. Which one
/// is chance; claimed is only its shape, which `Uuid`'s `Display` (the
/// hyphenated lower-case form) and the version bits `new_v4` sets fix.
#[verifier::external_body]
pub(crate) fn new_id() -> (r: String)
    ensures
        is_uuid_v4_text(r@),
{
    uuid::Uuid::new_v4().to_string()
}

/// A copy of an optional text, equal to the one it was made from.
pub fn copy_opt(o: &Option<String>) -> (r: Option<String>)
    ensures
        r == *o,
{
    match o {
        Some(s) => Some(s.clone()),
        None => None,
    }
}

impl Connection {
    /// A Connection on the SSH default port with no key and no folder, under a
    /// fresh id.
    pub fn new(alias: String, host: String, user: String) -> (r: Self)
        ensures
            r.alias == alias,
            r.host == host,
            r.user == user,
            r.port == 22,
            r.key_path is None,
            r.folder is None,
            is_uuid_v4_text(r.id@),
    {
        Connection {
            id: new_id(),
            alias,
            host,
            user,
            port: 22,
            key_path: None,
            folder: None,
        }
    }

    /// A copy equal to `self` in every field, the id included.
    pub fn copy(&self) -> (r: Self)
        ensures
            r == *self,
    {
        Connection {
            id: self.id.clone(),
            alias: self.alias.clone(),
            host: self.host.clone(),
            user: self.user.clone(),
            port: self.port,
            key_path: copy_opt(&self.key_path),
            folder: copy_opt(&self.folder),
        }
    }
}

/// The position of the first Connection in `s` whose id is `id`.
pub open spec fn position_of_id(s: Seq<Connection>, id: Seq<char>) -> Option<int>
    decreases s.len(),
{
    if s.len() == 0 {
        None
    } else {
        match position_of_id(s.drop_last(), id) {
            Some(i) => Some(i),
            None => if s.last().id@ == id {
                Some(s.len() - 1)
            } else {
                None
            },
        }
    }
}

/// Where the first Connection with a given id sits: in range, carrying that
/// id, and after no other that does.
pub proof fn lemma_position_of_id(s: Seq<Connection>, id: Seq<char>)
    ensures
        match position_of_id(s, id) {
            Some(i) => 0 <= i < s.len() && s[i].id@ == id && forall|j: int|
                0 <= j < i ==> (#[trigger] s[j]).id@ != id,
            None => forall|j: int| 0 <= j < s.len() ==> (#[trigger] s[j]).id@ != id,
        },
    decreases s.len(),
{
    if s.len() > 0 {
        let t = s.drop_last();
        lemma_position_of_id(t, id);
        assert forall|j: int| 0 <= j < t.len() implies s[j] == (#[trigger] t[j]) by {}
        match position_of_id(t, id) {
            Some(i) => {
                assert forall|j: int| 0 <= j < i implies (#[trigger] s[j]).id@ != id by {
                    assert(s[j] == t[j]);
                }
            },
            None => {
                assert forall|j: int| 0 <= j < s.len() - 1 implies (#[trigger] s[j]).id@ != id by {
                    assert(s[j] == t[j]);
                }
            },
        }
    }
}

/// Finds the position of the first Connection with id `id`.
pub fn find_id(conns: &[Connection], id: &str) -> (r: Option<usize>)
    ensures
        match r {
            Some(i) => position_of_id(conns@, id@) == Some(i as int),
            None => position_of_id(conns@, id@) is None,
        },
{
    let mut i: usize = 0;
    while i < conns.len()
        invariant
            i <= conns@.len(),
            position_of_id(conns@.take(i as int), id@) is None,
        decreases conns.len() - i,
    {
        assert(conns@.take(i + 1).drop_last() == conns@.take(i as int));
        if same_text(conns[i].id.as_str(), id) {
            assert(position_of_id(conns@.take(i + 1), id@) == Some(i as int));
            proof {
                lemma_position_prefix(conns@, id@, i + 1);
            }
            return Some(i);
        }
        i = i + 1;
    }
    assert(conns@.take(conns@.len() as int) == conns@);
    None
}

/// Once a prefix holds the first match, the whole sequence answers the same.
pub proof fn lemma_position_prefix(s: Seq<Connection>, id: Seq<char>, k: int)
    requires
        0 <= k <= s.len(),
        position_of_id(s.take(k), id) is Some,
    ensures
        position_of_id(s, id) == position_of_id(s.take(k), id),
    decreases s.len() - k,
{
    if k < s.len() {
        assert(s.drop_last().take(k) == s.take(k));
        lemma_position_prefix(s.drop_last(), id, k);
    } else {
        assert(s.take(k) == s);
    }
}

/// Whether a Connection's id differs from `id`: the ones a removal keeps.
pub open spec fn keeps_id(id: Seq<char>) -> spec_fn(Connection) -> bool {
    |c: Connection| c.id@ != id
}

/// The saved Connections, in the order they were added.
#[derive(Debug, Clone)]
pub struct Config {
    pub connections: Vec<Connection>,
}

impl Default for Config {
    fn default() -> (r: Self)
        ensures
            r.connections@.len() == 0,
    {
        Config { connections: Vec::new() }
    }
}

impl Config {
    /// An empty set.
    pub fn new() -> (r: Self)
        ensures
            r.connections@.len() == 0,
    {
        Config { connections: Vec::new() }
    }

    /// Append `connection` at the end of the set.
    pub fn add_connection(&mut self, connection: Connection)
        ensures
            final(self).connections@ == old(self).connections@.push(connection),
    {
        self.connections.push(connection);
    }

    /// Remove every Connection whose id is `id`; the rest keep their order.
    pub fn remove_connection(&mut self, id: &str)
        ensures
            final(self).connections@ == old(self).connections@.filter(keeps_id(id@)),
    {
        let ghost before = self.connections@;
        let mut kept: Vec<Connection> = Vec::new();
        let mut i: usize = 0;
        while i < self.connections.len()
            invariant
                i <= before.len(),
                self.connections@ == before,
                kept@ == before.take(i as int).filter(keeps_id(id@)),
            decreases before.len() - i,
        {
            proof {
                before.take(i as int).lemma_filter_push(before[i as int], keeps_id(id@));
                assert(before.take(i + 1) == before.take(i as int).push(before[i as int]));
            }
            if !same_text(self.connections[i].id.as_str(), id) {
                kept.push(self.connections[i].copy());
            }
            i = i + 1;
        }
        assert(before.take(before.len() as int) == before);
        self.connections = kept;
    }

    /// Replace the first Connection whose id is `connection.id` with
    /// `connection`. An id the set does not hold changes nothing.
    pub fn update_connection(&mut self, connection: Connection)
        ensures
            final(self).connections@ == match position_of_id(
                old(self).connections@,
                connection.id@,
            ) {
                Some(i) => old(self).connections@.update(i, connection),
                None => old(self).connections@,
            },
    {
        proof {
            lemma_position_of_id(self.connections@, connection.id@);
        }
        match find_id(self.connections.as_slice(), connection.id.as_str()) {
            Some(idx) => {
                self.connections.set(idx, connection);
            },
            None => {},
        }
    }
}

/// What an import into the set did: how many Connections arrived, and how
/// many stanzas of the file could not become one.
#[derive(Debug, Clone, Copy, PartialEq, Eq, Structural)]
pub struct ImportReport {
    pub imported: usize,
    pub skipped: usize,
}

impl ImportReport {
    /// How many stanzas did not cross into the set.
    pub fn failed(&self) -> (r: usize)
        ensures
            r == self.skipped,
    {
        self.skipped
    }
}

// ───────────────────────────── ssh config ─────────────────────────────

/// One `Host` stanza of an ssh config.
#[derive(Debug, Clone)]
pub struct SshConfigEntry {
    pub host: String,
    pub user: Option<String>,
    pub port: Option<u16>,
    pub key_file: Option<String>,
    pub hostname: Option<String>,
}

/// A stanza as text.
pub struct EntryView {
    pub host: Seq<char>,
    pub user: Option<Seq<char>>,
    pub port: Option<u16>,
    pub key_file: Option<Seq<char>>,
    pub hostname: Option<Seq<char>>,
}

impl View for SshConfigEntry {
    type V = EntryView;

    open spec fn view(&self) -> EntryView {
        EntryView {
            host: self.host@,
            user: self.user.deep_view(),
            port: self.port,
            key_file: self.key_file.deep_view(),
            hostname: self.hostname.deep_view(),
        }
    }
}

/// Where a reading of an ssh config has got to: the stanza being read and
/// the stanzas already closed.
pub struct ScanState {
    pub host: Option<Seq<char>>,
    pub user: Option<Seq<char>>,
    pub port: Option<u16>,
    pub key_file: Option<Seq<char>>,
    pub hostname: Option<Seq<char>>,
    pub entries: Seq<EntryView>,
}

/// Nothing read yet.
pub open spec fn scan_start() -> ScanState {
    ScanState {
        host: None,
        user: None,
        port: None,
        key_file: None,
        hostname: None,
        entries: Seq::empty(),
    }
}

/// What a `Port` value sets: the port when it parses as a `u16`, and
/// nothing otherwise.
pub open spec fn port_value(v: Seq<char>) -> Option<u16> {
    match parse_unsigned_spec(v, 65535) {
        Some(n) => Some(n as u16),
        None => None,
    }
}

/// The effect of one line.
///
/// The line is trimmed; blank lines and `#` comments change nothing, nor
/// does a line with fewer than two words. The first word, lower-cased, is
/// the keyword and the second is its value. `Host` closes the stanza being
/// read, if there is one, and opens another: the fields read so far go with
/// the closed stanza and are cleared. Fields read before the first `Host`
/// are not cleared, so they belong to the first stanza. `User`, `Port`,
/// `IdentityFile` and `HostName` set their field; any other keyword is
/// ignored.
pub open spec fn scan_line(st: ScanState, line: Seq<char>) -> ScanState {
    let t = trim(line);
    let w = words(t);
    if t.len() == 0 || t[0] == '#' || w.len() < 2 {
        st
    } else {
        let key = lowercase(w[0]);
        let value = w[1];
        if key == "host"@ {
            match st.host {
                Some(h) => ScanState {
                    host: Some(value),
                    user: None,
                    port: None,
                    key_file: None,
                    hostname: None,
                    entries: st.entries.push(
                        EntryView {
                            host: h,
                            user: st.user,
                            port: st.port,
                            key_file: st.key_file,
                            hostname: st.hostname,
                        },
                    ),
                },
                None => ScanState { host: Some(value), ..st },
            }
        } else if key == "user"@ {
            ScanState { user: Some(value), ..st }
        } else if key == "port"@ {
            ScanState { port: port_value(value), ..st }
        } else if key == "identityfile"@ {
            ScanState { key_file: Some(value), ..st }
        } else if key == "hostname"@ {
            ScanState { hostname: Some(value), ..st }
        } else {
            st
        }
    }
}

/// The reading after `lines`, one after another.
pub open spec fn scan_lines(lines: Seq<Seq<char>>) -> ScanState
    decreases lines.len(),
{
    if lines.len() == 0 {
        scan_start()
    } else {
        scan_line(scan_lines(lines.drop_last()), lines.last())
    }
}

/// The stanzas of an ssh config's text: every `Host` line opens one, in
/// file order, and the one still open at the end is closed too.
pub open spec fn ssh_config_entries(content: Seq<char>) -> Seq<EntryView> {
    let st = scan_lines(pieces(content, '\n'));
    match st.host {
        Some(h) => st.entries.push(
            EntryView {
                host: h,
                user: st.user,
                port: st.port,
                key_file: st.key_file,
                hostname: st.hostname,
            },
        ),
        None => st.entries,
    }
}

// ───────────────────────────── what a stanza holds ─────────────────────────────

/// A line read as a directive: its keyword, lower-cased, and its value, when
/// the trimmed line is not blank, not a `#` comment, and has two words or
/// more.
pub open spec fn directive(line: Seq<char>) -> Option<(Seq<char>, Seq<char>)> {
    let t = trim(line);
    let w = words(t);
    if t.len() == 0 || t[0] == '#' || w.len() < 2 {
        None
    } else {
        Some((lowercase(w[0]), w[1]))
    }
}

/// Whether a line is a `Host` line.
pub open spec fn is_host_line(line: Seq<char>) -> bool {
    directive(line) matches Some(d) && d.0 == "host"@
}

/// The positions of the `Host` lines, in order.
pub open spec fn host_lines(lines: Seq<Seq<char>>) -> Seq<int>
    decreases lines.len(),
{
    if lines.len() == 0 {
        Seq::empty()
    } else {
        let p = host_lines(lines.drop_last());
        if is_host_line(lines.last()) {
            p.push(lines.len() - 1)
        } else {
            p
        }
    }
}

/// The value of the last line in `from..to` whose keyword is `key`, if any.
pub open spec fn last_set(lines: Seq<Seq<char>>, key: Seq<char>, from: int, to: int) -> Option<Seq<char>>
    decreases to - from,
{
    if to <= from {
        None
    } else {
        match directive(lines[to - 1]) {
            Some(d) => if d.0 == key {
                Some(d.1)
            } else {
                last_set(lines, key, from, to - 1)
            },
            None => last_set(lines, key, from, to - 1),
        }
    }
}

/// The stanza named `host` that the lines `from..to` describe: each field is
/// the value of the last of those lines that sets it, and absent when none
/// does; a `Port` that does not parse sets no port.
pub open spec fn stanza_view(lines: Seq<Seq<char>>, host: Seq<char>, from: int, to: int) -> EntryView {
    EntryView {
        host,
        user: last_set(lines, "user"@, from, to),
        port: match last_set(lines, "port"@, from, to) {
            Some(v) => port_value(v),
            None => None,
        },
        key_file: last_set(lines, "identityfile"@, from, to),
        hostname: last_set(lines, "hostname"@, from, to),
    }
}

/// Stanza `k` of a config's lines: named by the value of the `k`-th `Host`
/// line, and made of the lines after it up to the next `Host` line (or the
/// end); the first stanza also takes the lines before its `Host` line.
pub open spec fn stanza_of_lines(lines: Seq<Seq<char>>, k: int) -> EntryView {
    let hs = host_lines(lines);
    let from = if k == 0 {
        0
    } else {
        hs[k] + 1
    };
    let to = if k + 1 < hs.len() {
        hs[k + 1]
    } else {
        lines.len() as int
    };
    stanza_view(lines, (directive(lines[hs[k]])->0).1, from, to)
}

/// Where the stanza still open after `hs` starts.
pub open spec fn open_from(hs: Seq<int>) -> int {
    if hs.len() <= 1 {
        0
    } else {
        hs.last() + 1
    }
}

/// Reading further lines does not change what earlier lines set.
proof fn lemma_last_set_prefix(lines: Seq<Seq<char>>, more: Seq<Seq<char>>, key: Seq<char>, from: int, to: int)
    requires
        0 <= from,
        to <= lines.len(),
        lines.len() <= more.len(),
        forall|j: int| 0 <= j < lines.len() ==> more[j] == lines[j],
    ensures
        last_set(more, key, from, to) == last_set(lines, key, from, to),
    decreases to - from,
{
    if to > from {
        lemma_last_set_prefix(lines, more, key, from, to - 1);
    }
}

/// The keywords a stanza reads are five different words.
proof fn lemma_keywords_differ()
    ensures
        "host"@ != "user"@,
        "host"@ != "port"@,
        "host"@ != "identityfile"@,
        "host"@ != "hostname"@,
        "user"@ != "port"@,
        "user"@ != "identityfile"@,
        "user"@ != "hostname"@,
        "port"@ != "identityfile"@,
        "port"@ != "hostname"@,
        "identityfile"@ != "hostname"@,
{
    reveal_strlit("host");
    reveal_strlit("user");
    reveal_strlit("port");
    reveal_strlit("identityfile");
    reveal_strlit("hostname");
    assert("host"@[0] != "user"@[0]);
    assert("host"@[0] != "port"@[0]);
    assert("host"@[0] != "identityfile"@[0]);
    assert("host"@.len() != "hostname"@.len());
    assert("user"@[0] != "port"@[0]);
    assert("user"@[0] != "identityfile"@[0]);
    assert("user"@[0] != "hostname"@[0]);
    assert("port"@[0] != "identityfile"@[0]);
    assert("port"@[0] != "hostname"@[0]);
    assert("identityfile"@[0] != "hostname"@[0]);
}

/// What the reading holds after any lines: one closed stanza per `Host`
/// line but the last, each as its lines say, and the open stanza's fields
/// as the lines since it opened say.
#[verifier::spinoff_prover]
#[verifier::rlimit(40)]
proof fn lemma_scan_lines_stanzas(lines: Seq<Seq<char>>)
    ensures
        ({
            let st = scan_lines(lines);
            let hs = host_lines(lines);
            let n = lines.len() as int;
            &&& forall|k: int| 0 <= k < hs.len() ==> 0 <= #[trigger] hs[k] < n && is_host_line(lines[hs[k]])
            &&& forall|k: int, j: int| 0 <= k < j < hs.len() ==> #[trigger] hs[k] < #[trigger] hs[j]
            &&& (st.host is None <==> hs.len() == 0)
            &&& hs.len() > 0 ==> st.host == Some((directive(lines[hs.last()])->0).1)
            &&& st.entries.len() == if hs.len() == 0 {
                0
            } else {
                hs.len() - 1
            }
            &&& forall|k: int| 0 <= k < st.entries.len() ==> #[trigger] st.entries[k] == stanza_of_lines(lines, k)
            &&& st.user == last_set(lines, "user"@, open_from(hs), n)
            &&& st.port == match last_set(lines, "port"@, open_from(hs), n) {
                Some(v) => port_value(v),
                None => None,
            }
            &&& st.key_file == last_set(lines, "identityfile"@, open_from(hs), n)
            &&& st.hostname == last_set(lines, "hostname"@, open_from(hs), n)
        }),
    decreases lines.len(),
{
    reveal_strlit("host");
    reveal_strlit("user");
    reveal_strlit("port");
    reveal_strlit("identityfile");
    reveal_strlit("hostname");
    lemma_keywords_differ();
    if lines.len() > 0 {
        let prev = lines.drop_last();
        lemma_scan_lines_stanzas(prev);
        let n = prev.len() as int;
        let l = lines.last();
        let st = scan_lines(prev);
        let hs = host_lines(prev);
        let hs2 = host_lines(lines);
        assert forall|j: int| 0 <= j < prev.len() implies lines[j] == prev[j] by {}
        assert(lines[n] == l);
        assert forall|key: Seq<char>, a: int| 0 <= a <= n implies #[trigger] last_set(lines, key, a, n) == last_set(prev, key, a, n) by {
            lemma_last_set_prefix(prev, lines, key, a, n);
        }
        let from = open_from(hs);
        assert(from <= n);
        assert forall|k: int| 0 <= k < hs.len() implies #[trigger] lines[hs[k]] == prev[hs[k]] by {}
        if is_host_line(l) {
            assert(hs2 == hs.push(n));
            assert forall|k: int| 0 <= k < hs2.len() implies 0 <= #[trigger] hs2[k] < n + 1 && is_host_line(lines[hs2[k]]) by {
                if k < hs.len() {
                    assert(hs2[k] == hs[k]);
                    assert(lines[hs[k]] == prev[hs[k]]);
                }
            }
            assert forall|k: int, j: int| 0 <= k < j < hs2.len() implies #[trigger] hs2[k] < #[trigger] hs2[j] by {
                assert(hs2[k] == hs[k]);
                if j < hs.len() {
                    assert(hs2[j] == hs[j]);
                }
            }
        } else {
            assert(hs2 == hs);
            assert forall|k: int| 0 <= k < hs2.len() implies 0 <= #[trigger] hs2[k] < n + 1 && is_host_line(lines[hs2[k]]) by {
                assert(lines[hs[k]] == prev[hs[k]]);
            }
        }
        match directive(l) {
            Some(d) => {
                if d.0 == "host"@ {
                    assert(hs2 == hs.push(n));
                    match st.host {
                        Some(h) => {
                            let k0 = hs.len() - 1;
                            assert(open_from(hs2) == n + 1);
                            assert forall|k: int| 0 <= k < st.entries.len() implies #[trigger] stanza_of_lines(lines, k) == stanza_of_lines(prev, k) by {
                                assert(hs2[k] == hs[k]);
                                assert(hs2[k + 1] == hs[k + 1]);
                                let a = if k == 0 { 0 } else { hs[k] + 1 };
                                lemma_last_set_prefix(prev, lines, "user"@, a, hs[k + 1]);
                                lemma_last_set_prefix(prev, lines, "port"@, a, hs[k + 1]);
                                lemma_last_set_prefix(prev, lines, "identityfile"@, a, hs[k + 1]);
                                lemma_last_set_prefix(prev, lines, "hostname"@, a, hs[k + 1]);
                            }
                            assert(hs2[k0] == hs[k0]);
                            assert(hs2[k0 + 1] == n);
                            assert(stanza_of_lines(lines, k0) == stanza_view(lines, h, from, n));
                            assert(last_set(lines, "user"@, from, n) == last_set(prev, "user"@, from, n));
                            assert(last_set(lines, "port"@, from, n) == last_set(prev, "port"@, from, n));
                            assert(last_set(lines, "identityfile"@, from, n) == last_set(prev, "identityfile"@, from, n));
                            assert(last_set(lines, "hostname"@, from, n) == last_set(prev, "hostname"@, from, n));
                            let st2 = scan_lines(lines);
                            assert forall|k: int| 0 <= k < st2.entries.len() implies #[trigger] st2.entries[k] == stanza_of_lines(lines, k) by {
                                if k < st.entries.len() {
                                    assert(st2.entries[k] == st.entries[k]);
                                }
                            }
                        },
                        None => {
                            assert(hs.len() == 0);
                            assert(open_from(hs2) == 0);
                            assert(last_set(lines, "user"@, 0, n + 1) == last_set(lines, "user"@, 0, n));
                            assert(last_set(lines, "port"@, 0, n + 1) == last_set(lines, "port"@, 0, n));
                            assert(last_set(lines, "identityfile"@, 0, n + 1) == last_set(lines, "identityfile"@, 0, n));
                            assert(last_set(lines, "hostname"@, 0, n + 1) == last_set(lines, "hostname"@, 0, n));
                        },
                    }
                } else {
                    assert(hs2 == hs);
                    assert forall|k: int| 0 <= k < st.entries.len() implies #[trigger] stanza_of_lines(lines, k) == stanza_of_lines(prev, k) by {
                        let a = if k == 0 { 0 } else { hs[k] + 1 };
                        lemma_last_set_prefix(prev, lines, "user"@, a, hs[k + 1]);
                        lemma_last_set_prefix(prev, lines, "port"@, a, hs[k + 1]);
                        lemma_last_set_prefix(prev, lines, "identityfile"@, a, hs[k + 1]);
                        lemma_last_set_prefix(prev, lines, "hostname"@, a, hs[k + 1]);
                    }
                    assert(last_set(lines, "user"@, from, n) == last_set(prev, "user"@, from, n));
                    assert(last_set(lines, "port"@, from, n) == last_set(prev, "port"@, from, n));
                    assert(last_set(lines, "identityfile"@, from, n) == last_set(prev, "identityfile"@, from, n));
                    assert(last_set(lines, "hostname"@, from, n) == last_set(prev, "hostname"@, from, n));
                }
            },
            None => {
                assert(hs2 == hs);
                assert forall|k: int| 0 <= k < st.entries.len() implies #[trigger] stanza_of_lines(lines, k) == stanza_of_lines(prev, k) by {
                    let a = if k == 0 { 0 } else { hs[k] + 1 };
                    lemma_last_set_prefix(prev, lines, "user"@, a, hs[k + 1]);
                    lemma_last_set_prefix(prev, lines, "port"@, a, hs[k + 1]);
                    lemma_last_set_prefix(prev, lines, "identityfile"@, a, hs[k + 1]);
                    lemma_last_set_prefix(prev, lines, "hostname"@, a, hs[k + 1]);
                }
                assert(last_set(lines, "user"@, from, n) == last_set(prev, "user"@, from, n));
                assert(last_set(lines, "port"@, from, n) == last_set(prev, "port"@, from, n));
                assert(last_set(lines, "identityfile"@, from, n) == last_set(prev, "identityfile"@, from, n));
                assert(last_set(lines, "hostname"@, from, n) == last_set(prev, "hostname"@, from, n));
            },
        }
    }
}

/// The stanzas of an ssh config, as its lines say: one per `Host` line, in
/// file order, named by that line's value; each field of a stanza is the
/// value of the last line inside the stanza that sets it, and absent when no
/// line there does. A stanza runs from its `Host` line to the next one (or
/// the end of the file), so nothing set in one stanza carries into the
/// next; lines before the first `Host` belong to the first stanza.
pub proof fn lemma_stanzas_as_lines_say(content: Seq<char>)
    ensures
        ({
            let lines = pieces(content, '\n');
            let e = ssh_config_entries(content);
            &&& e.len() == host_lines(lines).len()
            &&& forall|k: int| 0 <= k < e.len() ==> #[trigger] e[k] == stanza_of_lines(lines, k)
        }),
{
    let lines = pieces(content, '\n');
    lemma_scan_lines_stanzas(lines);
    let st = scan_lines(lines);
    let hs = host_lines(lines);
    let e = ssh_config_entries(content);
    if hs.len() > 0 {
        let k0 = hs.len() - 1;
        assert(e[k0] == stanza_of_lines(lines, k0));
        assert forall|k: int| 0 <= k < e.len() implies #[trigger] e[k] == stanza_of_lines(lines, k) by {
            if k < k0 {
                assert(e[k] == st.entries[k]);
            }
        }
    }
}

/// The text of a character run as an owned string.
fn text_of(v: &Vec<char>) -> (r: String)
    ensures
        r@ == v@,
{
    string_of(v.as_slice())
}

/// The stanzas of an ssh config, given its text.
///
/// Reading the file is the caller's: an unreadable file has no stanzas.
pub fn parse_ssh_config(content: &str) -> (r: Vec<SshConfigEntry>)
    ensures
        r@.len() == ssh_config_entries(content@).len(),
        forall|i: int| 0 <= i < r@.len() ==> (#[trigger] r@[i])@ == ssh_config_entries(content@)[i],
{
    let chars = chars_of(content);
    let lines = pieces_of(chars.as_slice(), '\n');
    let ghost ls = pieces(content@, '\n');
    let mut entries: Vec<SshConfigEntry> = Vec::new();
    let mut host: Option<String> = None;
    let mut user: Option<String> = None;
    let mut port: Option<u16> = None;
    let mut key_file: Option<String> = None;
    let mut hostname: Option<String> = None;
    let mut n: usize = 0;
    while n < lines.len()
        invariant
            n <= lines@.len(),
            lines@.len() == ls.len(),
            ls == pieces(content@, '\n'),
            forall|i: int| 0 <= i < lines@.len() ==> (#[trigger] lines@[i])@ == ls[i],
            ({
                let st = scan_lines(ls.take(n as int));
                &&& host.deep_view() == st.host
                &&& user.deep_view() == st.user
                &&& port == st.port
                &&& key_file.deep_view() == st.key_file
                &&& hostname.deep_view() == st.hostname
                &&& entries@.len() == st.entries.len()
                &&& forall|i: int| 0 <= i < entries@.len() ==> (#[trigger] entries@[i])@ == st.entries[i]
            }),
        decreases lines.len() - n,
    {
        let ghost before = scan_lines(ls.take(n as int));
        assert(ls.take(n + 1).drop_last() == ls.take(n as int));
        assert(ls.take(n + 1).last() == ls[n as int]);
        let line = &lines[n];
        let t = trim_chars(line.as_slice());
        let w = words_of(t.as_slice());
        if t.len() == 0 || t[0] == '#' || w.len() < 2 {
            n = n + 1;
            continue;
        }
        let first = text_of(&w[0]);
        let key = to_lowercase(first.as_str());
        let value = text_of(&w[1]);
        if same_text(key.as_str(), "host") {
            match host {
                Some(h) => {
                    let ghost old_entries = entries@;
                    entries.push(SshConfigEntry { host: h, user, port, key_file, hostname });
                    assert forall|i: int| 0 <= i < entries@.len() implies (#[trigger] entries@[i])@
                        == scan_lines(ls.take(n + 1)).entries[i] by {
                        if i < old_entries.len() {
                            assert(entries@[i] == old_entries[i]);
                        }
                    }
                    user = None;
                    port = None;
                    key_file = None;
                    hostname = None;
                },
                None => {},
            }
            host = Some(value);
        } else if same_text(key.as_str(), "user") {
            user = Some(value);
        } else if same_text(key.as_str(), "port") {
            port = match parse_unsigned(w[1].as_slice(), 65535) {
                Some(v) => Some(v as u16),
                None => None,
            };
        } else if same_text(key.as_str(), "identityfile") {
            key_file = Some(value);
        } else if same_text(key.as_str(), "hostname") {
            hostname = Some(value);
        }
        n = n + 1;
    }
    assert(ls.take(lines@.len() as int) == ls);
    match host {
        Some(h) => {
            let ghost old_entries = entries@;
            entries.push(SshConfigEntry { host: h, user, port, key_file, hostname });
            assert forall|i: int| 0 <= i < entries@.len() implies (#[trigger] entries@[i])@
                == ssh_config_entries(content@)[i] by {
                if i < old_entries.len() {
                    assert(entries@[i] == old_entries[i]);
                }
            }
        },
        None => {},
    }
    entries
}

/// The Connection a stanza becomes: named after its `Host`, reaching its
/// `HostName` (or the `Host` itself), as its `User` (or nobody), on its
/// `Port` (or 22), with its `IdentityFile` as the key and no folder.
pub open spec fn entry_fields(e: EntryView) -> ConnFields {
    ConnFields {
        alias: e.host,
        host: match e.hostname {
            Some(h) => h,
            None => e.host,
        },
        user: match e.user {
            Some(u) => u,
            None => Seq::empty(),
        },
        port: match e.port {
            Some(p) => p,
            None => 22,
        },
        key_path: e.key_file,
        folder: None,
    }
}

/// Whether some Connection in `cs` already logs in as `user` at `host`.
pub open spec fn holds_login(cs: Seq<ConnFields>, host: Seq<char>, user: Seq<char>) -> bool {
    exists|i: int| 0 <= i < cs.len() && (#[trigger] cs[i]).host == host && cs[i].user == user
}

/// What an import adds to a set holding `existing`, stanza by stanza in file
/// order: each stanza whose login (host and user) is not already held,
/// counting the ones this import has added before it.
pub open spec fn import_plan(existing: Seq<ConnFields>, entries: Seq<EntryView>) -> Seq<ConnFields>
    decreases entries.len(),
{
    if entries.len() == 0 {
        Seq::empty()
    } else {
        let p = import_plan(existing, entries.drop_last());
        let f = entry_fields(entries.last());
        if holds_login(existing + p, f.host, f.user) {
            p
        } else {
            p.push(f)
        }
    }
}

/// The fields of every Connection in a set.
pub open spec fn all_fields(cs: Seq<Connection>) -> Seq<ConnFields> {
    cs.map_values(|c: Connection| fields_of(c))
}

/// Whether `conns` already holds a Connection logging in as `user` at `host`.
fn holds(conns: &Vec<Connection>, host: &String, user: &String) -> (r: bool)
    ensures
        r == holds_login(all_fields(conns@), host@, user@),
{
    let mut i: usize = 0;
    while i < conns.len()
        invariant
            i <= conns@.len(),
            forall|j: int| 0 <= j < i ==> !((#[trigger] conns@[j]).host@ == host@ && conns@[j].user@ == user@),
        decreases conns.len() - i,
    {
        if conns[i].host == *host && conns[i].user == *user {
            assert(all_fields(conns@)[i as int] == fields_of(conns@[i as int]));
            return true;
        }
        i = i + 1;
    }
    proof {
        if holds_login(all_fields(conns@), host@, user@) {
            let k = choose|k: int| 0 <= k < all_fields(conns@).len() && (#[trigger] all_fields(conns@)[k]).host == host@ && all_fields(conns@)[k].user == user@;
            assert(all_fields(conns@)[k] == fields_of(conns@[k]));
        }
    }
    false
}

/// Fold ssh config stanzas into `config`, and say how many Connections were
/// added. A stanza whose login the set already holds is left out, so
/// importing the same stanzas twice adds nothing the second time. What was
/// there stays as it was, and each added Connection gets a fresh id.
pub fn import_from_ssh_config(config: &mut Config, entries: Vec<SshConfigEntry>) -> (imported: usize)
    ensures
        ({
            let plan = import_plan(
                all_fields(old(config).connections@),
                entries@.map_values(|e: SshConfigEntry| e@),
            );
            &&& imported == plan.len()
            &&& final(config).connections@.len() == old(config).connections@.len() + plan.len()
            &&& final(config).connections@.take(old(config).connections@.len() as int)
                == old(config).connections@
            &&& forall|i: int|
                0 <= i < plan.len() ==> fields_of(
                    #[trigger] final(config).connections@[old(config).connections@.len() + i],
                ) == plan[i]
        }),
{
    let ghost start = config.connections@;
    let ghost views = entries@.map_values(|e: SshConfigEntry| e@);
    let mut imported: usize = 0;
    let mut j: usize = 0;
    while j < entries.len()
        invariant
            j <= entries@.len(),
            imported <= j,
            views == entries@.map_values(|e: SshConfigEntry| e@),
            ({
                let plan = import_plan(all_fields(start), views.take(j as int));
                &&& imported == plan.len()
                &&& config.connections@.len() == start.len() + plan.len()
                &&& config.connections@.take(start.len() as int) == start
                &&& all_fields(config.connections@) == all_fields(start) + plan
            }),
        decreases entries.len() - j,
    {
        let ghost plan = import_plan(all_fields(start), views.take(j as int));
        assert(views.take(j + 1).drop_last() == views.take(j as int));
        assert(views.take(j + 1).last() == entries@[j as int]@);
        let entry = &entries[j];
        let target = match &entry.hostname {
            Some(h) => h.clone(),
            None => entry.host.clone(),
        };
        let login = match &entry.user {
            Some(u) => u.clone(),
            None => String::new(),
        };
        if !holds(&config.connections, &target, &login) {
            let mut conn = Connection::new(entry.host.clone(), target, login);
            conn.port = match entry.port {
                Some(p) => p,
                None => 22,
            };
            conn.key_path = copy_opt(&entry.key_file);
            let ghost prev = config.connections@;
            config.connections.push(conn);
            assert(fields_of(conn) == entry_fields(entries@[j as int]@));
            assert(all_fields(config.connections@) == all_fields(prev).push(fields_of(conn)));
            assert(config.connections@.take(start.len() as int) == prev.take(start.len() as int));
            imported = imported + 1;
        }
        j = j + 1;
    }
    assert(views.take(entries@.len() as int) == views);
    let ghost plan = import_plan(all_fields(start), views);
    assert forall|i: int| 0 <= i < plan.len() implies fields_of(
        #[trigger] config.connections@[start.len() + i],
    ) == plan[i] by {
        assert(all_fields(config.connections@)[start.len() + i] == fields_of(config.connections@[start.len() + i]));
        assert((all_fields(start) + plan)[start.len() + i] == plan[i]);
    }
    imported
}

} // verus!
