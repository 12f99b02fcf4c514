//! The emit axis: what Enter *means*, per command.
//!
//! Bare `sshm`, `sshm pick` and `sshm manage` draw the same inline frame and
//! differ in one thing: what happens to the selected Connection on Enter.
//! [`Emit::resolve`] is that whole policy; running `ssh`, printing the alias
//! or opening the edit path is the caller's, by matching on the [`Action`].

use vstd::prelude::*;
use crate::config::Connection;
use crate::frame::FrameMode;
use crate::inline::InlineOutcome;
use crate::ssh::{build_ssh_args, ssh_args, views};

verus! {

/// What the command was asked to do with the selection.
#[derive(Debug, Clone, Copy, PartialEq, Eq)]
pub enum Emit {
    /// Bare `sshm`: Enter executes `ssh` against the Connection.
    Execute,
    /// `sshm pick`: Enter emits the alias on stdout, for the shell to insert.
    Insert,
    /// `sshm manage`: Enter hands the Connection to the edit path.
    Edit,
}

/// What the runner must now do.
#[derive(Debug, Clone, PartialEq, Eq)]
pub enum Action {
    /// Run `ssh` with these arguments.
    Execute(Vec<String>),
    /// Write this line to stdout: the alias alone.
    Insert(String),
    /// The selected Connection, for the edit path.
    Edit(Connection),
    /// The user cancelled: emit nothing, execute nothing.
    Cancelled,
}

impl Emit {
    /// The frame this command opens: pick and bare share the pick frame;
    /// manage wears the manage header.
    pub fn frame_mode(self) -> (r: FrameMode)
        ensures
            r == match self {
                Emit::Execute | Emit::Insert => FrameMode::Pick,
                Emit::Edit => FrameMode::Manage,
            },
    {
        match self {
            Emit::Execute | Emit::Insert => FrameMode::Pick,
            Emit::Edit => FrameMode::Manage,
        }
    }

    /// Turn the frame's outcome into the action this emit means. A cancel is
    /// `Cancelled` under every emit: leaving the frame never executes,
    /// inserts or edits.
    pub fn resolve(self, outcome: InlineOutcome) -> (r: Action)
        ensures
            match outcome {
                InlineOutcome::Cancelled => r == Action::Cancelled,
                InlineOutcome::Picked(conn) => match self {
                    Emit::Execute => r is Execute && views(r->Execute_0@) == ssh_args(conn),
                    Emit::Insert => r == Action::Insert(conn.alias),
                    Emit::Edit => r == Action::Edit(conn),
                },
            },
    {
        match outcome {
            InlineOutcome::Cancelled => Action::Cancelled,
            InlineOutcome::Picked(conn) => match self {
                Emit::Execute => Action::Execute(build_ssh_args(&conn)),
                Emit::Insert => Action::Insert(conn.alias),
                Emit::Edit => Action::Edit(conn),
            },
        }
    }
}

/// Which stream the live frame draws to.
#[derive(Debug, Clone, Copy, PartialEq, Eq)]
pub enum FrameStream {
    /// stdout is the terminal itself: draw the frame there.
    Stdout,
    /// stdout is captured: draw the frame to `/dev/tty` so the pipe keeps
    /// only the emitted alias.
    Tty,
}

/// Where the frame draws, given whether stdout is a terminal: a terminal
/// stdout keeps it, anything else is a pipe reserved for the emit.
pub fn frame_stream(stdout_is_terminal: bool) -> (r: FrameStream)
    ensures
        r == if stdout_is_terminal {
            FrameStream::Stdout
        } else {
            FrameStream::Tty
        },
{
    if stdout_is_terminal {
        FrameStream::Stdout
    } else {
        FrameStream::Tty
    }
}

} // verus!
