# shellwright

A keyboard-driven tiling window manager whose decisions are verified with Verus.

- `src/` is the library: layouts, workspaces, keybindings, the reaction to every
  event and action, and what each platform backend makes of its native events.
  Every function states what it returns or changes, and the `*_laws` modules
  prove what holds of several of them together: that tiles divide the screen,
  that no action loses a window or puts one in two places, that identifiers are
  never reused.
- `app/` is the program around it: reading the configuration file, native calls,
  animations, and the loop that hands events to the library and performs the
  steps that come back.
- `tests/` runs the library on concrete values.

An event reaches `manager::state::Manager::handle` together with a snapshot of
the windows. It changes the manager's state and yields a list of steps. Steps
that depend on where windows are at that moment are resolved by
`manager::plan` and `manager::borders` into commands for single windows.
