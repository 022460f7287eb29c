# tacoshell

A window of its own for a terminal app: a program on this machine, or a
session on a server over SSH with a login screen, reconnects, a kiosk mode
with an on screen keyboard, and a kiosk PIN.

- `src/` is the library, verified with Verus: the terminal grid and what every
  escape sequence does to it (`term`), the bytes keys and the mouse send
  (`term::input`, `term::pointer`), the configuration and its checks
  (`schema`, `config`), saved setups, file locations, the kiosk PIN and the
  window size memory (`state`), password stores (`creds`), the trust policy
  and small decisions of an SSH login (`session`), the command line (`cli`),
  and the window's decisions: status cards, what follows the end of a
  session, menus, the login form and the on screen keyboard (`ui`).
- `app/` is the program around it: egui drawing, the pty and SSH sessions,
  files, and the configuration as TOML.
- `tests/` runs the library on concrete values.

The configuration is read at startup from `$TACOSHELL_CONFIG`, or
`tacoshell.toml` next to the binary; without either a shell is run.
