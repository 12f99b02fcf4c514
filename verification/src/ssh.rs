//! The arguments `ssh` is run with for a Connection.

use vstd::prelude::*;
use crate::config::Connection;
use crate::text::{chars_of, decimal, decimal_string, owned, push_char, push_chars};

verus! {

/// The login `ssh` connects as: `user@host`, or the bare host when the
/// Connection names no user.
pub open spec fn ssh_target(c: Connection) -> Seq<char> {
    if c.user@.len() == 0 {
        c.host@
    } else {
        c.user@.push('@') + c.host@
    }
}

/// The arguments for `ssh`: `-i <key>` when a key path is set, `-p <port>`
/// when the port is not 22, and then the target.
pub open spec fn ssh_args(c: Connection) -> Seq<Seq<char>> {
    let key = match c.key_path {
        Some(k) => seq!["-i"@, k@],
        None => Seq::empty(),
    };
    let port = if c.port != 22 {
        seq!["-p"@, decimal(c.port as nat)]
    } else {
        Seq::empty()
    };
    key + port + seq![ssh_target(c)]
}

/// The texts of a list of strings.
pub open spec fn views(v: Seq<String>) -> Seq<Seq<char>> {
    v.map_values(|s: String| s@)
}

/// The `ssh` arguments for a Connection.
pub fn build_ssh_args(conn: &Connection) -> (r: Vec<String>)
    ensures
        views(r@) == ssh_args(*conn),
{
    let mut args: Vec<String> = Vec::new();
    match &conn.key_path {
        Some(key) => {
            args.push(owned("-i"));
            args.push(key.clone());
        },
        None => {},
    }
    if conn.port != 22 {
        args.push(owned("-p"));
        args.push(decimal_string(conn.port as u64));
    }
    let target = if chars_of(conn.user.as_str()).len() == 0 {
        conn.host.clone()
    } else {
        let mut t = conn.user.clone();
        push_char(&mut t, '@');
        let h = chars_of(conn.host.as_str());
        push_chars(&mut t, h.as_slice());
        t
    };
    args.push(target);
    assert(views(args@) == ssh_args(*conn));
    args
}

} // verus!
