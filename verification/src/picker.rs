//! The standalone picker's decisions (what a key does, what a row says),
//! its outcome, and the literal `ssh` command line for a Connection.

use vstd::prelude::*;
use crate::config::Connection;
use crate::keys::{KeyCode, KeyEvent};
use crate::ssh::{build_ssh_args, ssh_args, views};
use crate::text::{chars_of, owned, push_char, push_chars};

verus! {

/// Outcome of running the picker.
#[derive(Debug, Clone, PartialEq, Eq)]
pub enum PickerOutcome {
    /// The user accepted a Connection.
    Selected(Connection),
    /// The user cancelled (Esc or Ctrl-C).
    Cancel,
}

/// `prefix` followed by each of `parts`, each after a single space.
pub open spec fn spaced(prefix: Seq<char>, parts: Seq<Seq<char>>) -> Seq<char>
    decreases parts.len(),
{
    if parts.len() == 0 {
        prefix
    } else {
        spaced(prefix, parts.drop_last()).push(' ') + parts.last()
    }
}

/// The `ssh` command for a Connection, as one line: `ssh` and its arguments
/// separated by single spaces.
pub fn build_ssh_command(conn: &Connection) -> (r: String)
    ensures
        r@ == spaced("ssh"@, ssh_args(*conn)),
{
    let args = build_ssh_args(conn);
    let mut out = owned("ssh");
    let ghost start = out@;
    let mut i: usize = 0;
    while i < args.len()
        invariant
            i <= args@.len(),
            start == "ssh"@,
            out@ == spaced(start, views(args@).take(i as int)),
        decreases args.len() - i,
    {
        assert(views(args@).take(i + 1).drop_last() == views(args@).take(i as int));
        push_char(&mut out, ' ');
        let a = chars_of(args[i].as_str());
        push_chars(&mut out, a.as_slice());
        i = i + 1;
    }
    assert(views(args@).take(args@.len() as int) == views(args@));
    out
}


/// What a keystroke does to the picker.
#[derive(Debug, Clone, Copy, PartialEq, Eq)]
pub enum PickerStep {
    /// Stay open with the cursor on this row.
    Stay(usize),
    /// Accept the Connection on this row.
    Select(usize),
    /// Close without a pick.
    Cancel,
}

/// What a key does to a picker over `len` rows with the cursor on
/// `selected`: `↑` and `↓` move, stopping at either end; Enter accepts the
/// row under the cursor; `Esc`, whatever the modifiers, or `c` held
/// with Ctrl cancels; anything else
/// leaves it as it is.
pub open spec fn picker_rule(selected: usize, len: usize, key: KeyEvent) -> PickerStep {
    match key.code {
        KeyCode::Up => PickerStep::Stay(if selected > 0 {
            (selected - 1) as usize
        } else {
            selected
        }),
        KeyCode::Down => PickerStep::Stay(if selected + 1 < len {
            (selected + 1) as usize
        } else {
            selected
        }),
        KeyCode::Enter => PickerStep::Select(selected),
        KeyCode::Esc => PickerStep::Cancel,
        KeyCode::Char(c) => if c == 'c' && key.modifiers.control {
            PickerStep::Cancel
        } else {
            PickerStep::Stay(selected)
        },
        _ => PickerStep::Stay(selected),
    }
}

/// What a key does to the picker.
pub fn picker_key(selected: usize, len: usize, key: KeyEvent) -> (r: PickerStep)
    ensures
        r == picker_rule(selected, len, key),
{
    match key.code {
        KeyCode::Up => PickerStep::Stay(if selected > 0 {
            selected - 1
        } else {
            selected
        }),
        KeyCode::Down => PickerStep::Stay(if selected < len && selected + 1 < len {
            selected + 1
        } else {
            selected
        }),
        KeyCode::Enter => PickerStep::Select(selected),
        KeyCode::Esc => PickerStep::Cancel,
        KeyCode::Char(c) => if c == 'c' && key.modifiers.control {
            PickerStep::Cancel
        } else {
            PickerStep::Stay(selected)
        },
        _ => PickerStep::Stay(selected),
    }
}

/// What a picker row says: `alias (host)`.
pub fn picker_row(conn: &Connection) -> (r: String)
    ensures
        r@ == conn.alias@ + " ("@ + conn.host@ + ")"@,
{
    let mut out = owned(conn.alias.as_str());
    let open = chars_of(" (");
    push_chars(&mut out, open.as_slice());
    let host = chars_of(conn.host.as_str());
    push_chars(&mut out, host.as_slice());
    push_char(&mut out, ')');
    proof {
        reveal_strlit(")");
    }
    out
}

} // verus!
