//! Update checks: what a release version means, and what each answer becomes.
//!
//! Asking GitHub, reading the clock and the cache file, and replacing the
//! binary are the program's work. What is decided here is everything those
//! steps hand back: whether a version is newer, whether the cache is still
//! fresh, what a check reports and what it leaves in the cache, and which
//! note a frame shows.

use vstd::prelude::*;
use crate::text::{
    chars_of, decimal, is_digit, lemma_decimal_round_trip, lemma_piece_scan_extend, parse_unsigned, parse_unsigned_spec,
    piece_scan, pieces, pieces_of, push_char, push_chars, same_chars,
};

verus! {

/// The version of this program.
pub const CURRENT_VERSION: &'static str = "0.1.13";

/// How long a cached answer stays fresh: a day.
pub const CACHE_DURATION_SECS: u64 = 24 * 60 * 60;

/// What Check for Updates found.
#[derive(Debug, Clone)]
pub enum UpdateResult {
    NoUpdate,
    UpdateAvailable { version: String },
    Error(String),
}

/// The outcome of **Apply Update** — the act that replaces the installed
/// binary. A different type from [`UpdateResult`] on purpose: "a newer
/// release exists" and "the installed binary was replaced" are two facts.
#[derive(Debug, Clone, PartialEq, Eq)]
pub enum ApplyResult {
    /// The installed binary was replaced. The next `sshm` to start is `to`.
    Applied { from: String, to: String },
    /// The running binary is already the newest release.
    UpToDate { version: String },
    /// The directory the swap would target cannot be written by this user.
    Unwritable { path: String },
    /// This binary runs from a source checkout and is not sshm's to replace.
    DevBuild { manifest_dir: String },
    /// The check or the swap failed. Nothing was replaced.
    Error(String),
}

/// The two versions an update note names.
#[derive(Debug, Clone)]
pub struct UpdateInfo {
    pub current_version: String,
    pub new_version: String,
}

/// What the update cache file holds: when the last check ran, and the newer
/// version it found, if any.
#[derive(Debug, Clone)]
pub struct CacheData {
    pub last_check: u64,
    pub new_version: Option<String>,
}

/// A dotted version as its three numbers: exactly three `.`-separated
/// parts, each an unsigned 64-bit decimal.
pub open spec fn version_parts(s: Seq<char>) -> Option<(nat, nat, nat)> {
    let p = pieces(s, '.');
    if p.len() != 3 {
        None
    } else {
        match (
            parse_unsigned_spec(p[0], 0xffff_ffff_ffff_ffff),
            parse_unsigned_spec(p[1], 0xffff_ffff_ffff_ffff),
            parse_unsigned_spec(p[2], 0xffff_ffff_ffff_ffff),
        ) {
            (Some(a), Some(b), Some(c)) => Some((a, b, c)),
            _ => None,
        }
    }
}

/// Whether version `a` comes after version `b`: major first, then minor,
/// then patch.
pub open spec fn later(a: (nat, nat, nat), b: (nat, nat, nat)) -> bool {
    ||| a.0 > b.0
    ||| (a.0 == b.0 && a.1 > b.1)
    ||| (a.0 == b.0 && a.1 == b.1 && a.2 > b.2)
}

/// Whether `candidate` is a strictly newer version than `current`. A version
/// that does not parse is never newer, and nothing is newer than one that
/// does not parse.
pub open spec fn newer_version(candidate: Seq<char>, current: Seq<char>) -> bool {
    match (version_parts(candidate), version_parts(current)) {
        (Some(c), Some(d)) => later(c, d),
        _ => false,
    }
}

/// The text of version `a.b.c`, each number in decimal.
pub open spec fn version_text(a: nat, b: nat, c: nat) -> Seq<char> {
    decimal(a) + seq!['.'] + decimal(b) + seq!['.'] + decimal(c)
}

/// A decimal has no `.` in it.
proof fn lemma_decimal_has_no_dot(n: nat)
    ensures
        forall|i: int| 0 <= i < decimal(n).len() ==> decimal(n)[i] != '.',
{
    lemma_decimal_round_trip(n);
    assert forall|i: int| 0 <= i < decimal(n).len() implies decimal(n)[i] != '.' by {
        assert(is_digit(decimal(n)[i]));
    }
}

/// The text of version `a.b.c` reads back as `a`, `b` and `c`.
pub proof fn lemma_version_text_parts(a: nat, b: nat, c: nat)
    requires
        a <= u64::MAX,
        b <= u64::MAX,
        c <= u64::MAX,
    ensures
        version_parts(version_text(a, b, c)) == Some((a, b, c)),
{
    let da = decimal(a);
    let db = decimal(b);
    let dc = decimal(c);
    lemma_decimal_round_trip(a);
    lemma_decimal_round_trip(b);
    lemma_decimal_round_trip(c);
    lemma_decimal_has_no_dot(a);
    lemma_decimal_has_no_dot(b);
    lemma_decimal_has_no_dot(c);
    let e = Seq::<char>::empty();
    lemma_piece_scan_extend(e, da, '.');
    assert(e + da =~= da);
    assert(piece_scan(e, '.') == (Seq::<Seq<char>>::empty(), e));
    assert(e + da =~= da);
    let s1 = da.push('.');
    assert(s1.drop_last() =~= da);
    assert(piece_scan(s1, '.') == (seq![da], e));
    lemma_piece_scan_extend(s1, db, '.');
    assert(e + db =~= db);
    let s2 = (s1 + db).push('.');
    assert(s2.drop_last() =~= s1 + db);
    assert(piece_scan(s2, '.') == (seq![da].push(db), e));
    lemma_piece_scan_extend(s2, dc, '.');
    assert(e + dc =~= dc);
    assert(version_text(a, b, c) =~= s2 + dc);
    let p = pieces(version_text(a, b, c), '.');
    assert(p =~= seq![da, db, dc]);
}

/// Versions are ordered by their numbers, major first: with the same major
/// and minor a larger patch is newer, and only a larger one; with the same
/// major a larger minor is newer and a smaller one is not, whatever the
/// patches; a larger major is newer and a smaller one is not, whatever
/// follows.
pub proof fn lemma_newer_by_numbers(a: nat, b: nat, c: nat, x: nat, y: nat, z: nat)
    requires
        a <= u64::MAX,
        b <= u64::MAX,
        c <= u64::MAX,
        x <= u64::MAX,
        y <= u64::MAX,
        z <= u64::MAX,
    ensures
        a == x && b == y ==> (newer_version(version_text(a, b, c), version_text(x, y, z)) <==> c > z),
        a == x && b > y ==> newer_version(version_text(a, b, c), version_text(x, y, z)),
        a == x && b < y ==> !newer_version(version_text(a, b, c), version_text(x, y, z)),
        a > x ==> newer_version(version_text(a, b, c), version_text(x, y, z)),
        a < x ==> !newer_version(version_text(a, b, c), version_text(x, y, z)),
{
    lemma_version_text_parts(a, b, c);
    lemma_version_text_parts(x, y, z);
}

/// Parse a dotted numeric version like `"0.1.11"` into its three numbers.
pub fn parse_version(s: &str) -> (r: Option<(u64, u64, u64)>)
    ensures
        match r {
            Some((a, b, c)) => version_parts(s@) == Some((a as nat, b as nat, c as nat)),
            None => version_parts(s@) is None,
        },
{
    let chars = chars_of(s);
    let parts = pieces_of(chars.as_slice(), '.');
    if parts.len() != 3 {
        return None;
    }
    let a = parse_unsigned(parts[0].as_slice(), 0xffff_ffff_ffff_ffff);
    let b = parse_unsigned(parts[1].as_slice(), 0xffff_ffff_ffff_ffff);
    let c = parse_unsigned(parts[2].as_slice(), 0xffff_ffff_ffff_ffff);
    match (a, b, c) {
        (Some(a), Some(b), Some(c)) => Some((a, b, c)),
        _ => None,
    }
}

/// Whether `candidate` is strictly newer than `current`. Unparseable
/// versions are never newer: quiet beats a lie.
pub fn is_newer(candidate: &str, current: &str) -> (r: bool)
    ensures
        r == newer_version(candidate@, current@),
{
    match (parse_version(candidate), parse_version(current)) {
        (Some(c), Some(d)) => c.0 > d.0 || (c.0 == d.0 && c.1 > d.1) || (c.0 == d.0 && c.1 == d.1
            && c.2 > d.2),
        _ => false,
    }
}

/// No version is newer than itself.
pub proof fn lemma_newer_irreflexive(v: Seq<char>)
    ensures
        !newer_version(v, v),
{
}

/// Of two versions, at most one is newer than the other.
pub proof fn lemma_newer_asymmetric(a: Seq<char>, b: Seq<char>)
    ensures
        !(newer_version(a, b) && newer_version(b, a)),
{
}

/// Newer than something newer is newer still.
pub proof fn lemma_newer_transitive(a: Seq<char>, b: Seq<char>, c: Seq<char>)
    requires
        newer_version(a, b),
        newer_version(b, c),
    ensures
        newer_version(a, c),
{
}

/// Two parseable versions that differ are ordered one way or the other.
pub proof fn lemma_newer_total(a: Seq<char>, b: Seq<char>)
    requires
        version_parts(a) is Some,
        version_parts(b) is Some,
        version_parts(a) != version_parts(b),
    ensures
        newer_version(a, b) || newer_version(b, a),
{
}

/// Whether a cached answer is stale enough to ask again: it is a day old,
/// or it is stamped after `now`, so that its age cannot be told.
pub open spec fn cache_expired(cache: CacheData, now: u64) -> bool {
    cache.last_check > now || now - cache.last_check >= CACHE_DURATION_SECS
}

/// Whether to ask the network, given whether this is a source checkout, the
/// cache (if any) and the time now: never from a checkout, always without a
/// cache, and otherwise once the cached answer is a day old or stamped in
/// the future.
pub fn should_check_update(dev_build: bool, cache: &Option<CacheData>, now: u64) -> (r: bool)
    ensures
        r == (!dev_build && match cache {
            Some(c) => cache_expired(*c, now),
            None => true,
        }),
{
    if dev_build {
        return false;
    }
    match cache {
        None => true,
        Some(c) => c.last_check > now || now - c.last_check >= CACHE_DURATION_SECS,
    }
}

/// What a fresh cache answers without asking: the version it recorded, or
/// no update.
pub fn cached_result(cache: &Option<CacheData>) -> (r: UpdateResult)
    ensures
        match cache {
            Some(c) => match c.new_version {
                Some(v) => r == UpdateResult::UpdateAvailable { version: v },
                None => r is NoUpdate,
            },
            None => r is NoUpdate,
        },
{
    match cache {
        Some(c) => match &c.new_version {
            Some(v) => UpdateResult::UpdateAvailable { version: v.clone() },
            None => UpdateResult::NoUpdate,
        },
        None => UpdateResult::NoUpdate,
    }
}

/// What a check reports, given the latest release's version (or why it
/// could not be had), and what it leaves in the cache: the release when it
/// is newer than `current`, and nothing otherwise.
pub fn check_latest_version(latest: Result<String, String>, current: &str) -> (r: (
    UpdateResult,
    Option<String>,
))
    ensures
        match latest {
            Ok(v) => if newer_version(v@, current@) {
                r.0 == UpdateResult::UpdateAvailable { version: v } && r.1 == Some(v)
            } else {
                r.0 is NoUpdate && r.1 is None
            },
            Err(e) => r.0 == UpdateResult::Error(e) && r.1 is None,
        },
{
    match latest {
        Ok(version) => {
            if is_newer(version.as_str(), current) {
                let cached = version.clone();
                (UpdateResult::UpdateAvailable { version }, Some(cached))
            } else {
                (UpdateResult::NoUpdate, None)
            }
        },
        Err(e) => (UpdateResult::Error(e), None),
    }
}

/// The version a previous run cached, if it is worth a note: nothing from a
/// source checkout, and nothing unless the cached version is newer than the
/// running one.
pub fn cached_update_version(dev_build: bool, cache: Option<CacheData>, current: &str) -> (r:
    Option<String>)
    ensures
        match r {
            Some(v) => !dev_build && cache is Some && cache->0.new_version == Some(v)
                && newer_version(v@, current@),
            None => dev_build || cache is None || cache->0.new_version is None || !newer_version(
                cache->0.new_version->0@,
                current@,
            ),
        },
{
    if dev_build {
        return None;
    }
    match cache {
        Some(c) => match c.new_version {
            Some(v) => if is_newer(v.as_str(), current) {
                Some(v)
            } else {
                None
            },
            None => None,
        },
        None => None,
    }
}

/// Turn the outcome of an update check into the note a surface shows: the
/// running and the available version, nothing, or the reason the check
/// failed.
pub fn note_from(result: UpdateResult) -> (r: Result<Option<UpdateInfo>, String>)
    ensures
        match result {
            UpdateResult::UpdateAvailable { version } => r is Ok && r->Ok_0 is Some
                && r->Ok_0->0.new_version == version && r->Ok_0->0.current_version@
                == CURRENT_VERSION@,
            UpdateResult::NoUpdate => r == Ok::<Option<UpdateInfo>, String>(None),
            UpdateResult::Error(m) => r == Err::<Option<UpdateInfo>, String>(m),
        },
{
    match result {
        UpdateResult::UpdateAvailable { version } => Ok(
            Some(
                UpdateInfo {
                    current_version: String::from_str(CURRENT_VERSION),
                    new_version: version,
                },
            ),
        ),
        UpdateResult::NoUpdate => Ok(None),
        UpdateResult::Error(message) => Err(message),
    }
}

/// What Check for Updates reports for this build, given the latest
/// release's version or why it could not be had, and what it leaves in the
/// cache.
pub fn force_check_for_update(latest: Result<String, String>) -> (r: (UpdateResult, Option<String>))
    ensures
        match latest {
            Ok(v) => if newer_version(v@, CURRENT_VERSION@) {
                r.0 == UpdateResult::UpdateAvailable { version: v } && r.1 == Some(v)
            } else {
                r.0 is NoUpdate && r.1 is None
            },
            Err(e) => r.0 == UpdateResult::Error(e) && r.1 is None,
        },
{
    check_latest_version(latest, CURRENT_VERSION)
}

/// The release asset built for an operating system and architecture, as
/// `std::env::consts` names them.
pub open spec fn asset_for(os: Seq<char>, arch: Seq<char>) -> Option<Seq<char>> {
    if os == "linux"@ && arch == "x86_64"@ {
        Some("x86_64-unknown-linux-musl"@)
    } else if os == "macos"@ && arch == "x86_64"@ {
        Some("x86_64-apple-darwin"@)
    } else if os == "macos"@ && arch == "aarch64"@ {
        Some("aarch64-apple-darwin"@)
    } else if os == "windows"@ && arch == "x86_64"@ {
        Some("x86_64-pc-windows-msvc"@)
    } else {
        None
    }
}

/// The release asset to download on this platform, or why there is none.
pub fn get_platform_asset_name(os: &str, arch: &str) -> (r: Result<String, String>)
    ensures
        match asset_for(os@, arch@) {
            Some(a) => r is Ok && r->Ok_0@ == a,
            None => r is Err && r->Err_0@ == "Unsupported platform: "@ + os@ + " "@ + arch@,
        },
{
    let asset = if crate::text::same_text(os, "linux") && crate::text::same_text(arch, "x86_64") {
        "x86_64-unknown-linux-musl"
    } else if crate::text::same_text(os, "macos") && crate::text::same_text(arch, "x86_64") {
        "x86_64-apple-darwin"
    } else if crate::text::same_text(os, "macos") && crate::text::same_text(arch, "aarch64") {
        "aarch64-apple-darwin"
    } else if crate::text::same_text(os, "windows") && crate::text::same_text(arch, "x86_64") {
        "x86_64-pc-windows-msvc"
    } else {
        let mut m = crate::text::owned("Unsupported platform: ");
        let o = chars_of(os);
        crate::text::push_chars(&mut m, o.as_slice());
        crate::text::push_char(&mut m, ' ');
        let a = chars_of(arch);
        crate::text::push_chars(&mut m, a.as_slice());
        proof {
            reveal_strlit(" ");
        }
        return Err(m);
    };
    Ok(crate::text::owned(asset))
}


// ───────────────────────────── the binary's path ─────────────────────────────

/// The named components a path walks through, `.` and `..` collapsed by
/// name: a `.` (or an empty piece between slashes) is nothing, a `..` takes
/// back the component before it, and a `..` with nothing before it stays.
pub open spec fn collapsed_parts(parts: Seq<Seq<char>>) -> Seq<Seq<char>>
    decreases parts.len(),
{
    if parts.len() == 0 {
        Seq::empty()
    } else {
        let st = collapsed_parts(parts.drop_last());
        let p = parts.last();
        if p.len() == 0 || p == seq!['.'] {
            st
        } else if p == seq!['.', '.'] {
            if st.len() > 0 {
                st.drop_last()
            } else {
                st.push(p)
            }
        } else {
            st.push(p)
        }
    }
}

/// Components joined with `/`.
pub open spec fn slash_joined(parts: Seq<Seq<char>>) -> Seq<char>
    decreases parts.len(),
{
    if parts.len() == 0 {
        Seq::empty()
    } else if parts.len() == 1 {
        parts[0]
    } else {
        slash_joined(parts.drop_last()) + seq!['/'] + parts.last()
    }
}

/// A path with `.` and `..` collapsed by name, kept absolute when it was.
pub open spec fn collapsed(path: Seq<char>) -> Seq<char> {
    let root: Seq<char> = if path.len() > 0 && path[0] == '/' {
        seq!['/']
    } else {
        Seq::empty()
    };
    root + slash_joined(collapsed_parts(pieces(path, '/')))
}

/// Collapse `.` and `..` in a path by name, resolving no link and asking
/// nothing of the disk, so a diagnostic names one path instead of a walk
/// through it.
pub fn collapse(path: &str) -> (r: String)
    ensures
        r@ == collapsed(path@),
{
    let chars = chars_of(path);
    let parts = pieces_of(chars.as_slice(), '/');
    let ghost ps = pieces(path@, '/');
    let dot = ['.'];
    let dots = ['.', '.'];
    let mut stack: Vec<Vec<char>> = Vec::new();
    let mut i: usize = 0;
    while i < parts.len()
        invariant
            i <= parts@.len(),
            parts@.len() == ps.len(),
            forall|k: int| 0 <= k < parts@.len() ==> (#[trigger] parts@[k])@ == ps[k],
            dot@ == seq!['.'],
            dots@ == seq!['.', '.'],
            stack@.map_values(|v: Vec<char>| v@) == collapsed_parts(ps.take(i as int)),
        decreases parts.len() - i,
    {
        let ghost before = stack@.map_values(|v: Vec<char>| v@);
        assert(ps.take(i + 1).drop_last() =~= ps.take(i as int));
        assert(ps.take(i + 1).last() == ps[i as int]);
        let p = &parts[i];
        if p.len() == 0 || same_chars(p.as_slice(), &dot) {
        } else if same_chars(p.as_slice(), &dots) {
            if stack.len() > 0 {
                stack.pop();
                assert(stack@.map_values(|v: Vec<char>| v@) =~= before.drop_last());
            } else {
                stack.push(p.clone());
                assert(stack@.map_values(|v: Vec<char>| v@) =~= before.push(ps[i as int]));
            }
        } else {
            stack.push(p.clone());
            assert(stack@.map_values(|v: Vec<char>| v@) =~= before.push(ps[i as int]));
        }
        i = i + 1;
    }
    assert(ps.take(ps.len() as int) =~= ps);
    let ghost st = stack@.map_values(|v: Vec<char>| v@);
    let mut out = String::new();
    if chars.len() > 0 && chars[0] == '/' {
        push_char(&mut out, '/');
    }
    let ghost root = out@;
    let mut k: usize = 0;
    while k < stack.len()
        invariant
            k <= stack@.len(),
            st == stack@.map_values(|v: Vec<char>| v@),
            out@ == root + slash_joined(st.take(k as int)),
        decreases stack.len() - k,
    {
        assert(st.take(k + 1).drop_last() =~= st.take(k as int));
        assert(st.take(k + 1).last() == st[k as int]);
        if k > 0 {
            push_char(&mut out, '/');
        } else {
            assert(st.take(k as int) =~= Seq::<Seq<char>>::empty());
        }
        push_chars(&mut out, stack[k].as_slice());
        assert(out@ =~= root + slash_joined(st.take(k + 1)));
        k = k + 1;
    }
    assert(st.take(st.len() as int) =~= st);
    out
}

} // verus!
