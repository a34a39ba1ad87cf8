# pengwm

The state and rules of a tiling window manager, verified with Verus.

- `src/` is the library. Every function in it is proved against its
  contract, except five small trusted wrappers around outside calls (the
  `toml` crate in `toml_doc`, and the wall clock in `state/hidden`), whose
  contracts are believed as their doc comments say.
  - `tree`, `shape` and `workspace`: the node arena and the split tree of one
    workspace (adding, removing, focusing, swapping and moving windows).
  - `state/`: the parts of the daemon's state (displays, routing of apps to
    workspaces, hidden windows, drag tracking, the bar's reserved strip,
    session clean-up).
  - `manager`: `StateManager`, which takes events and commands and returns
    the effects the caller must carry out (`Effect`).
  - `command`, `cli`, `client`, `ipc`, `keybinds`, `settings`, `config`,
    `theme`, `labels`, `text`: commands and their parsing, keybinds,
    configuration, bar themes and what is replayed to a late bar.
  - `toml_doc`: the calls into the `toml` crate, with their contracts.
- `tests/` runs the library on concrete values.
- `app/` is the program around the library: argument handling, configuration
  files, sockets, the event loop that carries out effects, and the
  floating-point layout of windows on screen.
