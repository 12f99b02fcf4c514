# sshm

A terminal SSH connection manager that draws an inline frame inside your own
shell: a fuzzy-filtered list of Connections, an add/edit/delete flow in place,
a first-run import from `~/.ssh/config`, shell integration scripts, and an
update check.

The library under `src/` is written in Verus. Its functions carry contracts
that Verus proves:

- `config`, `connections`: the Connection set, edits to it, and the parser
  and importer for `~/.ssh/config`.
- `frame`, `draw`, `paint`, `style`, `theme`: the inline frame as styled
  lines, fuzzy filtering and ranking, fitting to the terminal, and the ANSI
  bytes.
- `inline`, `manage`, `form`, `keys`, `emit`, `picker`: what each keystroke
  does in the frame, the manage flow's state machine, and the row diff and
  bytes a live frame writes.
- `app`: the fullscreen TUI's state and what each key does to it.
- `cli`, `update`, `ssh`, `text`: command routing, the words each outcome
  prints, version comparison, `ssh` arguments, and text helpers.

`app/` is the program around it: argument parsing, the terminal, the disk,
the network and `ssh` itself. It asks the library for every decision.
