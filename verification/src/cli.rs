//! What the command line decides and says.
//!
//! Parsing the arguments, reading the environment, touching the network and
//! the disk, and printing are the program's. What is decided here is which
//! path a command line takes, the words each outcome prints, the shell
//! scripts `sshm init` emits, and the Connection `sshm add` writes.

use vstd::prelude::*;
use crate::config::{copy_opt, Config, Connection, EntryView, SshConfigEntry};
use crate::emit::Emit;
use crate::update::{ApplyResult, UpdateResult};
use crate::text::{chars_of, owned, push_chars};
use vstd::utf8::encode_utf8;

verus! {

// ───────────────────────────── which path a command line takes ─────────────────────────────

/// The subcommand given, if any, as far as the routing reads it.
#[derive(Debug, Clone, Copy, PartialEq, Eq, Structural)]
pub enum CommandKind {
    Add,
    Completions,
    Init,
    CheckUpdate,
    Update,
    Pick,
    Manage,
}

/// The path a command line takes.
#[derive(Debug, Clone, Copy, PartialEq, Eq, Structural)]
pub enum Route {
    /// Print shell completions.
    Completions,
    /// Print the shell init script.
    Init,
    /// Replace the installed binary.
    ApplyUpdate,
    /// Open the frame to insert a pick.
    Pick,
    /// Open the frame to manage the set.
    Manage,
    /// Answer whether a newer release exists.
    CheckUpdate,
    /// Add a Connection from the arguments.
    Add,
    /// Open the frame to connect.
    Connect,
}

/// The path taken: completions and init first, then the update, then the
/// two frame subcommands, then the question `--check-update` asks, then
/// `add`, and the connect frame when nothing else was asked.
pub open spec fn route_of(command: Option<CommandKind>, check_update: bool) -> Route {
    match command {
        Some(CommandKind::Completions) => Route::Completions,
        Some(CommandKind::Init) => Route::Init,
        Some(CommandKind::Update) => Route::ApplyUpdate,
        Some(CommandKind::Pick) => Route::Pick,
        Some(CommandKind::Manage) => Route::Manage,
        Some(CommandKind::CheckUpdate) => Route::CheckUpdate,
        Some(CommandKind::Add) => if check_update {
            Route::CheckUpdate
        } else {
            Route::Add
        },
        None => if check_update {
            Route::CheckUpdate
        } else {
            Route::Connect
        },
    }
}

/// Which path a command line takes.
pub fn route(command: Option<CommandKind>, check_update: bool) -> (r: Route)
    ensures
        r == route_of(command, check_update),
{
    match command {
        Some(CommandKind::Completions) => Route::Completions,
        Some(CommandKind::Init) => Route::Init,
        Some(CommandKind::Update) => Route::ApplyUpdate,
        Some(CommandKind::Pick) => Route::Pick,
        Some(CommandKind::Manage) => Route::Manage,
        Some(CommandKind::CheckUpdate) => Route::CheckUpdate,
        Some(CommandKind::Add) => if check_update {
            Route::CheckUpdate
        } else {
            Route::Add
        },
        None => if check_update {
            Route::CheckUpdate
        } else {
            Route::Connect
        },
    }
}

/// Whether a path reads the cached update note before it runs: every path
/// after the update one does, once.
pub fn reads_note(r: Route) -> (b: bool)
    ensures
        b == !(r is Completions || r is Init || r is ApplyUpdate),
{
    match r {
        Route::Completions | Route::Init | Route::ApplyUpdate => false,
        _ => true,
    }
}

/// The frame a path opens, named by what Enter does in it.
pub open spec fn frame_emit(r: Route) -> Option<Emit> {
    match r {
        Route::Connect => Some(Emit::Execute),
        Route::Pick => Some(Emit::Insert),
        Route::Manage => Some(Emit::Edit),
        _ => None,
    }
}

/// Each command that names a frame opens that frame, whatever
/// `--check-update` says: `sshm pick` the frame whose Enter inserts the
/// alias, `sshm manage` the one whose Enter edits; bare `sshm` without `-c`
/// opens the one whose Enter connects. The other subcommands open no frame.
pub proof fn lemma_each_frame_command_opens_its_frame(check_update: bool, other: CommandKind)
    requires
        other != CommandKind::Pick,
        other != CommandKind::Manage,
    ensures
        route_of(Some(CommandKind::Pick), check_update) == Route::Pick,
        route_of(Some(CommandKind::Manage), check_update) == Route::Manage,
        route_of(None, false) == Route::Connect,
        frame_emit(route_of(Some(CommandKind::Pick), check_update)) == Some(Emit::Insert),
        frame_emit(route_of(Some(CommandKind::Manage), check_update)) == Some(Emit::Edit),
        frame_emit(route_of(None, false)) == Some(Emit::Execute),
        frame_emit(route_of(Some(other), check_update)) is None,
{
}

/// The frame a path opens, named by what Enter does in it: the connect
/// frame runs `ssh`, the pick frame inserts the alias, the manage frame
/// edits; every other path opens no frame.
pub fn emit_of(r: Route) -> (e: Option<Emit>)
    ensures
        e == frame_emit(r),
        e == match r {
            Route::Connect => Some(Emit::Execute),
            Route::Pick => Some(Emit::Insert),
            Route::Manage => Some(Emit::Edit),
            _ => None::<Emit>,
        },
{
    match r {
        Route::Connect => Some(Emit::Execute),
        Route::Pick => Some(Emit::Insert),
        Route::Manage => Some(Emit::Edit),
        _ => None,
    }
}

/// The network is asked only when asked for: the frame paths never reach
/// the update check, and only `sshm update` can replace the binary.
pub proof fn lemma_frames_never_check(command: Option<CommandKind>, check_update: bool)
    ensures
        (route_of(command, check_update) is Pick || route_of(command, check_update) is Manage
            || route_of(command, check_update) is Connect) ==> !check_update || command == Some(CommandKind::Pick)
            || command == Some(CommandKind::Manage),
        route_of(command, check_update) is CheckUpdate ==> check_update || command == Some(CommandKind::CheckUpdate),
        route_of(command, check_update) is ApplyUpdate <==> command == Some(CommandKind::Update),
{
}

// ───────────────────────────── what each outcome says ─────────────────────────────

/// The refusal for an install location this user cannot write: it names
/// the binary and the installer.
pub open spec fn unwritable_message(path: Seq<char>) -> Seq<char> {
    "cannot update: "@ + path + " is not writable by this user.\nNothing was downloaded and nothing was changed. To update, install the latest release with:\n  curl -sL https://raw.githubusercontent.com/titonio/ssh-manager/master/install.sh | bash"@
}

/// The refusal to replace a binary running from a source checkout: it names
/// the variable that marks one.
pub open spec fn dev_build_message(manifest_dir: Seq<char>) -> Seq<char> {
    "refusing to update a Dev Build: CARGO_MANIFEST_DIR is set to "@ + manifest_dir
        + " — this binary is running from a source checkout rather than an installed location.\nsshm never replaces a binary the developer owns."@
}

/// The answer to a failure worth retrying: the reason, and nothing else.
pub open spec fn retryable_message(reason: Seq<char>) -> Seq<char> {
    "update failed: "@ + reason
}

/// The install location cannot be written: name it, and name the way out.
pub fn unwritable_text(path: &str) -> (r: String)
    ensures
        r@ == unwritable_message(path@),
{
    let mut out = owned("cannot update: ");
    let p = chars_of(path);
    push_chars(&mut out, p.as_slice());
    let tail = chars_of(" is not writable by this user.\nNothing was downloaded and nothing was changed. To update, install the latest release with:\n  curl -sL https://raw.githubusercontent.com/titonio/ssh-manager/master/install.sh | bash");
    push_chars(&mut out, tail.as_slice());
    out
}

/// A Dev Build is refused on principle, and the variable is the whole
/// explanation.
pub fn dev_build_text(manifest_dir: &str) -> (r: String)
    ensures
        r@ == dev_build_message(manifest_dir@),
{
    let mut out = owned("refusing to update a Dev Build: CARGO_MANIFEST_DIR is set to ");
    let p = chars_of(manifest_dir);
    push_chars(&mut out, p.as_slice());
    let tail = chars_of(" — this binary is running from a source checkout rather than an installed location.\nsshm never replaces a binary the developer owns.");
    push_chars(&mut out, tail.as_slice());
    out
}

/// Everything else wants a retry: keep the reason, offer nothing else.
pub fn retryable_text(reason: &str) -> (r: String)
    ensures
        r@ == retryable_message(reason@),
{
    let mut out = owned("update failed: ");
    let p = chars_of(reason);
    push_chars(&mut out, p.as_slice());
    out
}

/// What `sshm update` prints on success, or the error it exits with.
pub open spec fn apply_answer(result: ApplyResult) -> Result<Seq<char>, Seq<char>> {
    match result {
        ApplyResult::Applied { from, to } => Ok("sshm "@ + from@ + " → "@ + to@),
        ApplyResult::UpToDate { version } => Ok("sshm "@ + version@ + " is already the latest release."@),
        ApplyResult::Unwritable { path } => Err(unwritable_message(path@)),
        ApplyResult::DevBuild { manifest_dir } => Err(dev_build_message(manifest_dir@)),
        ApplyResult::Error(reason) => Err(retryable_message(reason@)),
    }
}

/// What `sshm update` prints, or the error it exits with: `install.sh` is
/// offered on exactly one failure, the location this user cannot write.
pub fn update_answer(result: &ApplyResult) -> (r: Result<String, String>)
    ensures
        match r {
            Ok(t) => apply_answer(*result) == Ok::<Seq<char>, Seq<char>>(t@),
            Err(t) => apply_answer(*result) == Err::<Seq<char>, Seq<char>>(t@),
        },
{
    match result {
        ApplyResult::Applied { from, to } => {
            let mut out = owned("sshm ");
            let f = chars_of(from.as_str());
            push_chars(&mut out, f.as_slice());
            let arrow = chars_of(" → ");
            push_chars(&mut out, arrow.as_slice());
            let t = chars_of(to.as_str());
            push_chars(&mut out, t.as_slice());
            Ok(out)
        },
        ApplyResult::UpToDate { version } => {
            let mut out = owned("sshm ");
            let v = chars_of(version.as_str());
            push_chars(&mut out, v.as_slice());
            let tail = chars_of(" is already the latest release.");
            push_chars(&mut out, tail.as_slice());
            Ok(out)
        },
        ApplyResult::Unwritable { path } => Err(unwritable_text(path.as_str())),
        ApplyResult::DevBuild { manifest_dir } => Err(dev_build_text(manifest_dir.as_str())),
        ApplyResult::Error(reason) => Err(retryable_text(reason.as_str())),
    }
}

/// The answer Check for Updates prints, or, for a failed check, the reason
/// it exits with instead.
pub open spec fn check_answer(result: UpdateResult) -> Result<Seq<char>, Seq<char>> {
    match result {
        UpdateResult::UpdateAvailable { version } => Ok("Update available: v"@ + version@ + "\nInstall it with: sshm update\n"@),
        UpdateResult::NoUpdate => Ok("No update available.\n"@),
        UpdateResult::Error(reason) => Err("Error checking for updates: "@ + reason@),
    }
}

/// Append the UTF-8 bytes of `s` to `out`.
fn write_bytes(out: &mut Vec<u8>, s: &str)
    ensures
        final(out)@ == old(out)@ + encode_utf8(s@),
{
    let b = s.as_bytes();
    let ghost start = out@;
    let mut i: usize = 0;
    while i < b.len()
        invariant
            i <= b@.len(),
            b@ == encode_utf8(s@),
            out@ == start + b@.take(i as int),
        decreases b.len() - i,
    {
        out.push(b[i]);
        assert(b@.take(i + 1) == b@.take(i as int).push(b@[i as int]));
        i = i + 1;
    }
    assert(b@.take(b@.len() as int) == b@);
}

/// Write the answer Check for Updates gives into `out`, and return the
/// reason when there is no answer; a failed check writes nothing.
pub fn write_check_answer(out: &mut Vec<u8>, result: &UpdateResult) -> (r: Result<(), String>)
    ensures
        match check_answer(*result) {
            Ok(text) => r is Ok && final(out)@ == old(out)@ + encode_utf8(text),
            Err(reason) => r is Err && r->Err_0@ == reason && final(out)@ == old(out)@,
        },
{
    match result {
        UpdateResult::UpdateAvailable { version } => {
            let mut text = owned("Update available: v");
            let v = chars_of(version.as_str());
            push_chars(&mut text, v.as_slice());
            let tail = chars_of("\nInstall it with: sshm update\n");
            push_chars(&mut text, tail.as_slice());
            write_bytes(out, text.as_str());
            Ok(())
        },
        UpdateResult::NoUpdate => {
            write_bytes(out, "No update available.\n");
            Ok(())
        },
        UpdateResult::Error(reason) => {
            let mut text = owned("Error checking for updates: ");
            let v = chars_of(reason.as_str());
            push_chars(&mut text, v.as_slice());
            Err(text)
        },
    }
}

// ───────────────────────────── sshm add ─────────────────────────────

/// The Connection `sshm add` writes from its arguments: an alias and a host
/// are required, the user defaults to empty, and the rest is taken as given.
pub fn add_command_connection(
    alias: Option<String>,
    host: Option<String>,
    user: Option<String>,
    port: u16,
    key_path: Option<String>,
    folder: Option<String>,
) -> (r: Result<Connection, String>)
    ensures
        alias is None ==> r is Err && r->Err_0@ == "Error: --alias is required"@,
        alias is Some && host is None ==> r is Err && r->Err_0@ == "Error: user@host is required"@,
        alias is Some && host is Some ==> r is Ok && ({
            let c = r->Ok_0;
            &&& c.alias == alias->0
            &&& c.host == host->0
            &&& c.user@ == match user {
                Some(u) => u@,
                None => Seq::<char>::empty(),
            }
            &&& c.port == port
            &&& c.key_path == key_path
            &&& c.folder == folder
        }),
{
    let alias = match alias {
        Some(a) => a,
        None => {
            return Err(owned("Error: --alias is required"));
        },
    };
    let host = match host {
        Some(h) => h,
        None => {
            return Err(owned("Error: user@host is required"));
        },
    };
    let user = match user {
        Some(u) => u,
        None => String::new(),
    };
    let mut conn = Connection::new(alias, host, user);
    conn.port = port;
    conn.key_path = key_path;
    conn.folder = folder;
    Ok(conn)
}

// ───────────────────────────── the first-run import offer ─────────────────────────────

/// Whether a `Host` value is a pattern (it holds `*` or `?`): it matches many
/// hosts and names none, so no Connection can be made of it.
pub open spec fn is_host_pattern(h: Seq<char>) -> bool {
    h.contains('*') || h.contains('?')
}

/// The stanzas whose `Host` names one host, in file order.
pub open spec fn named_stanzas(entries: Seq<EntryView>) -> Seq<EntryView>
    decreases entries.len(),
{
    if entries.len() == 0 {
        Seq::empty()
    } else {
        let rest = named_stanzas(entries.drop_last());
        if is_host_pattern(entries.last().host) {
            rest
        } else {
            rest.push(entries.last())
        }
    }
}

/// Whether `host` is a pattern.
fn host_is_pattern(host: &String) -> (r: bool)
    ensures
        r == is_host_pattern(host@),
{
    let cs = chars_of(host.as_str());
    let mut i: usize = 0;
    while i < cs.len()
        invariant
            i <= cs@.len(),
            cs@ == host@,
            forall|j: int| 0 <= j < i ==> cs@[j] != '*' && cs@[j] != '?',
        decreases cs.len() - i,
    {
        if cs[i] == '*' || cs[i] == '?' {
            assert(cs@[i as int] == '*' || cs@[i as int] == '?');
            return true;
        }
        i = i + 1;
    }
    false
}

/// A copy of a stanza, equal to the one it was made from.
fn copy_entry(e: &SshConfigEntry) -> (r: SshConfigEntry)
    ensures
        r@ == e@,
{
    SshConfigEntry {
        host: e.host.clone(),
        user: copy_opt(&e.user),
        port: e.port,
        key_file: copy_opt(&e.key_file),
        hostname: copy_opt(&e.hostname),
    }
}

/// The stanzas of `entries` whose `Host` names one host, in order.
fn named_stanzas_of(entries: &Vec<SshConfigEntry>) -> (r: Vec<SshConfigEntry>)
    ensures
        r@.map_values(|e: SshConfigEntry| e@) == named_stanzas(entries@.map_values(|e: SshConfigEntry| e@)),
{
    let ghost views = entries@.map_values(|e: SshConfigEntry| e@);
    let mut out: Vec<SshConfigEntry> = Vec::new();
    let mut j: usize = 0;
    while j < entries.len()
        invariant
            j <= entries@.len(),
            views == entries@.map_values(|e: SshConfigEntry| e@),
            out@.map_values(|e: SshConfigEntry| e@) == named_stanzas(views.take(j as int)),
        decreases entries.len() - j,
    {
        assert(views.take(j + 1).drop_last() == views.take(j as int));
        assert(views.take(j + 1).last() == entries@[j as int]@);
        if !host_is_pattern(&entries[j].host) {
            let ghost before = out@;
            out.push(copy_entry(&entries[j]));
            assert(out@.map_values(|e: SshConfigEntry| e@) == before.map_values(|e: SshConfigEntry| e@).push(
                entries@[j as int]@,
            ));
        }
        j = j + 1;
    }
    assert(views.take(entries@.len() as int) == views);
    out
}

/// What an import from the ssh config's `entries` would add, if the set is
/// empty and the answer is not nothing: the offer manage opens on. A stanza
/// whose `Host` is a pattern is no Connection and is not counted.
pub fn first_run_import_offer(connections: &[Connection], entries: Vec<SshConfigEntry>) -> (r: Option<usize>)
    ensures
        connections@.len() > 0 ==> r is None,
        connections@.len() == 0 ==> ({
            let n = crate::config::import_plan(
                Seq::empty(),
                named_stanzas(entries@.map_values(|e: SshConfigEntry| e@)),
            ).len();
            &&& n > 0 ==> r == Some(n as usize)
            &&& n == 0 ==> r is None
        }),
{
    if connections.len() > 0 {
        return None;
    }
    let named = named_stanzas_of(&entries);
    let mut scratch = Config::new();
    let ghost empty = scratch.connections@;
    proof {
        assert(crate::config::all_fields(empty) =~= Seq::empty());
    }
    let count = crate::config::import_from_ssh_config(&mut scratch, named);
    if count > 0 {
        Some(count)
    } else {
        None
    }
}

// ───────────────────────────── sshm init ─────────────────────────────

/// The zsh script with its key bindings left out.
pub const ZSH_NO_BIND: &'static str = r###"# sshm init zsh - Inline Picker Widget + **<TAB> completion trigger (no bind)
# Sourced via: eval "$(sshm init zsh)"
# Note: Bind lines suppressed by SSHM_NO_BIND=1

# Shell function wrapper: makes "sshm pick" insert onto the command line
# when run interactively (stdout is a terminal).  For pipe/redirect usage the
# raw binary output is preserved.
sshm() {
    if [[ "$1" == "pick" && -t 1 ]]; then
        local result
        result=$(command sshm pick "${@:2}")
        local ret=$?
        if [[ $ret -eq 0 && -n "$result" ]]; then
            print -z "$result"
        fi
        return $ret
    fi
    command sshm "$@"
}

# ZLE widget function for sshm inline picker (Ctrl+Alt+S)
_sshm_inline_picker() {
    local saved_buffer="$BUFFER"
    
    local result
    result=$(sshm pick --query "$BUFFER")
    local exit_code=$?
    
    if [[ $exit_code -ne 0 ]]; then
        BUFFER="$saved_buffer"
        zle reset-prompt
        return
    fi
    
    if [[ -n "$result" ]]; then
        BUFFER="$result"
        CURSOR=${#BUFFER}
    fi
    
    zle reset-prompt
}

# **<TAB> completion trigger: when LBUFFER ends with **, pressing Tab opens
# the inline picker instead of running normal zsh completion
_sshm_completion_picker() {
    if [[ $LBUFFER == *'**' ]]; then
        local saved_buffer="$BUFFER"
        local stripped="${LBUFFER%'**'}"
        LBUFFER="$stripped"
        
        local result
        result=$(sshm pick --query "$stripped")
        local exit_code=$?
        
        if [[ $exit_code -ne 0 ]]; then
            BUFFER="$saved_buffer"
            zle reset-prompt
            return
        fi
        
        if [[ -n "$result" ]]; then
            BUFFER="$result"
            CURSOR=${#BUFFER}
        fi
        
        zle reset-prompt
    else
        zle expand-or-complete
    fi
}

# Register the ZLE widgets
zle -N _sshm_inline_picker
zle -N _sshm_completion_picker
"###;

/// The zsh script up to the bind key its header names.
pub const ZSH_HEAD: &'static str = r###"# sshm init zsh - Inline Picker Widget + **<TAB> completion trigger
# Sourced via: eval "$(sshm init zsh)"
# Bind key: "###;

/// The zsh script from after the header's bind key to the `bindkey` line's.
pub const ZSH_MIDDLE: &'static str = r###" (override with SSHM_BIND_KEY)

# Shell function wrapper: makes "sshm pick" insert onto the command line
# when run interactively (stdout is a terminal).  For pipe/redirect usage the
# raw binary output is preserved.
sshm() {
    if [[ "$1" == "pick" && -t 1 ]]; then
        local result
        result=$(command sshm pick "${@:2}")
        local ret=$?
        if [[ $ret -eq 0 && -n "$result" ]]; then
            print -z "$result"
        fi
        return $ret
    fi
    command sshm "$@"
}

# ZLE widget function for sshm inline picker (Ctrl+Alt+S)
_sshm_inline_picker() {
    local saved_buffer="$BUFFER"
    
    local result
    result=$(sshm pick --query "$BUFFER")
    local exit_code=$?
    
    if [[ $exit_code -ne 0 ]]; then
        BUFFER="$saved_buffer"
        zle reset-prompt
        return
    fi
    
    if [[ -n "$result" ]]; then
        BUFFER="$result"
        CURSOR=${#BUFFER}
    fi
    
    zle reset-prompt
}

# **<TAB> completion trigger: when LBUFFER ends with **, pressing Tab opens
# the inline picker instead of running normal zsh completion
_sshm_completion_picker() {
    if [[ $LBUFFER == *'**' ]]; then
        local saved_buffer="$BUFFER"
        local stripped="${LBUFFER%'**'}"
        LBUFFER="$stripped"
        
        local result
        result=$(sshm pick --query "$stripped")
        local exit_code=$?
        
        if [[ $exit_code -ne 0 ]]; then
            BUFFER="$saved_buffer"
            zle reset-prompt
            return
        fi
        
        if [[ -n "$result" ]]; then
            BUFFER="$result"
            CURSOR=${#BUFFER}
        fi
        
        zle reset-prompt
    else
        zle expand-or-complete
    fi
}

# Register the ZLE widgets
zle -N _sshm_inline_picker
zle -N _sshm_completion_picker

# Bind the widget to the trigger key (Ctrl+Alt+S)
bindkey '"###;

/// The zsh script after the `bindkey` line's key.
pub const ZSH_TAIL: &'static str = r###"' _sshm_inline_picker

# Bind **<TAB> completion trigger (Tab key)
bindkey '^I' _sshm_completion_picker
"###;

/// The bash script with its key binding left out.
pub const BASH_NO_BIND: &'static str = r###"# sshm init bash - Inline Picker Widget (no bind)
# Sourced via: eval "$(sshm init bash)"
# Note: Bind lines suppressed by SSHM_NO_BIND=1

_sshm_inline_picker() {
    local result exit_code
    result=$(sshm pick --query "$READLINE_LINE")
    exit_code=$?
    if [[ $exit_code -ne 0 ]]; then
        return
    fi
    if [[ -n "$result" ]]; then
        READLINE_LINE="$result"
        READLINE_POINT=${#READLINE_LINE}
    fi
}
"###;

/// The bash script up to the bind key its header names.
pub const BASH_HEAD: &'static str = r###"# sshm init bash - Inline Picker Widget
# Sourced via: eval "$(sshm init bash)"
# Bind key: "###;

/// The bash script from after the header's bind key to the `bind -x` line's.
pub const BASH_MIDDLE: &'static str = r###" (override with SSHM_BIND_KEY)

_sshm_inline_picker() {
    local result exit_code
    result=$(sshm pick --query "$READLINE_LINE")
    exit_code=$?
    if [[ $exit_code -ne 0 ]]; then
        return
    fi
    if [[ -n "$result" ]]; then
        READLINE_LINE="$result"
        READLINE_POINT=${#READLINE_LINE}
    fi
}

# Bind the widget to the trigger key (Ctrl+Alt+S)
bind -x '""###;

/// The bash script after the `bind -x` line's key.
pub const BASH_TAIL: &'static str = r###"":_sshm_inline_picker'
"###;


/// The zsh init script: with `no_bind` the widgets alone; otherwise with
/// the picker bound to `key`.
pub open spec fn zsh_script(no_bind: bool, key: Seq<char>) -> Seq<char> {
    if no_bind {
        ZSH_NO_BIND@
    } else {
        ZSH_HEAD@ + key + ZSH_MIDDLE@ + key + ZSH_TAIL@
    }
}

/// The bash init script: with `no_bind` the widget alone; otherwise with
/// the picker bound to `key`.
pub open spec fn bash_script(no_bind: bool, key: Seq<char>) -> Seq<char> {
    if no_bind {
        BASH_NO_BIND@
    } else {
        BASH_HEAD@ + key + BASH_MIDDLE@ + key + BASH_TAIL@
    }
}

/// The zsh key the picker binds by default: Ctrl+Alt+S.
pub const ZSH_DEFAULT_BIND_KEY: &'static str = "\\e^S";

/// The bash key the picker binds by default: Ctrl+Alt+S.
pub const BASH_DEFAULT_BIND_KEY: &'static str = "\\e\\C-s";

/// `head`, `key`, `middle`, `key`, `tail`, one after the other.
fn bound_script(head: &str, key: &str, middle: &str, tail: &str) -> (r: String)
    ensures
        r@ == head@ + key@ + middle@ + key@ + tail@,
{
    let mut out = owned(head);
    let k = chars_of(key);
    push_chars(&mut out, k.as_slice());
    let m = chars_of(middle);
    push_chars(&mut out, m.as_slice());
    push_chars(&mut out, k.as_slice());
    let t = chars_of(tail);
    push_chars(&mut out, t.as_slice());
    out
}

/// The zsh init script for the inline picker widget. `bind_key` is the
/// user's choice of key, if any; the default is Ctrl+Alt+S.
pub fn generate_init_zsh_script(no_bind: bool, bind_key: Option<&str>) -> (r: String)
    ensures
        r@ == zsh_script(no_bind, match bind_key {
            Some(k) => k@,
            None => ZSH_DEFAULT_BIND_KEY@,
        }),
{
    if no_bind {
        return owned(ZSH_NO_BIND);
    }
    let key = match bind_key {
        Some(k) => k,
        None => ZSH_DEFAULT_BIND_KEY,
    };
    bound_script(ZSH_HEAD, key, ZSH_MIDDLE, ZSH_TAIL)
}

/// The bash init script for the inline picker widget. `bind_key` is the
/// user's choice of key, if any; the default is Ctrl+Alt+S.
pub fn generate_init_bash_script(no_bind: bool, bind_key: Option<&str>) -> (r: String)
    ensures
        r@ == bash_script(no_bind, match bind_key {
            Some(k) => k@,
            None => BASH_DEFAULT_BIND_KEY@,
        }),
{
    if no_bind {
        return owned(BASH_NO_BIND);
    }
    let key = match bind_key {
        Some(k) => k,
        None => BASH_DEFAULT_BIND_KEY,
    };
    bound_script(BASH_HEAD, key, BASH_MIDDLE, BASH_TAIL)
}

} // verus!
