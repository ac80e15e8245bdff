# zj-agent-state

Which of your coding agents needs you? Hooks push the status of each agent into a
pipe of the terminal multiplexer. A watcher plugin joins the statuses with the panes
and tabs of the session and writes the result to one file per session. A viewer
program and a sidebar plugin show it, the most urgent tab first, and take you to an
agent's pane.

The library in `src/` holds every rule of this and is verified with Verus:

- `status`, `model`: the statuses, and the records that travel between the programs
- `join`: pushed statuses joined with panes and tabs
- `order`, `groups`: rows by tab, the most urgent first
- `paths`, `protocol`: the file of a session, the names of pipes, hooks' reports
- `watcher`, `sidebar`, `viewer`: the three programs as steps from state and event to
  state and action
- `screen`, `sidebar_screen`, `viewer_screen`, `theme`: what is drawn, to the character
- `launch`: the probe for a watcher, and who may spawn one
- `json`, `panes`, `commands`, `keys`: finding, closing and opening the pane of the
  viewer, and moving in it
- `text`: the text functions that all of these rest on

Functions named `law_..` state what holds of several functions together.

Outside the proofs are `serde_json`, behind the functions of `json`, and the programs
in `app/`, which do the input and output: events of the multiplexer, files, locks, the
terminal and its colours. `app/` is the viewer; with `--cfg plugin="watcher"` or
`--cfg plugin="sidebar"` it is one of the plugins.
