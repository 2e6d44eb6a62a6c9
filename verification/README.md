# niri_agent

A wallpaper agent for the niri compositor, verified with Verus.

The agent follows the compositor's outputs, workspaces and windows and tells the wallpaper daemon
when to draw an image and where to scroll it. An image moves up and down with the active workspace
of its output and sideways with the active column of that workspace.

- `src/` is the verified library. `model.rs` states what each event and each new configuration does
  to the agent's knowledge and which commands follow; `processor.rs` does it; `session.rs` runs it
  turn by turn; `consistency.rs` and `laws.rs` prove what holds throughout. Positions are exact
  fractions (`percent.rs`).
- `app/` connects the library to niri's socket, a thread and the daemon.
- `tests/` holds examples.
