# hxy

A hex editor. The library under `src/` is written in Verus: what the editor does
to files, tabs, panes, the palette and the console is stated in contracts and
proved. The program under `app/` is ordinary Rust around it: the window, the
disk, the clipboard and the clock.

## Layout

- `text`, `labels`, `settings`: numbers and text, keys of messages, preferences.
- `editor`, `search`, `copy`, `hexview`: a byte buffer with its history, the
  search in it, what is copied from it and how it is laid out.
- `tabs`, `source`, `dock`, `dock_ops`, `panes`, `moves`, `tool_pane`: tabs, where
  they come from, and the tree of panes that `egui_dock` keeps.
- `session`, `opening`, `newfile`, `mounting`, `restoring`, `closing`, `save`,
  `reload`, `kept_edits`, `watching`, `frame`, `dialogs`: the state of the editor and each step
  from one state to the next.
- `palette`, `palette_rows`, `palette_inputs`, `commands`, `dispatch`, `menu`,
  `active`, `panels`, `viewer`: commands and what they do.
- `console`, `plugins`, `compare`, `runtimes`, `template`, `template_panel`,
  `template_runs`: messages, plugins, comparisons and templates.
- `web`, `web_rows`, `web_dispatch`: the editor in a browser.
- `cli`, `queue`, `background`: the command line, and the pool of workers with the
  queue of their jobs.

Public proof functions named `law_..` state what holds across several functions.

Calls into `clap`, `crossbeam-channel`, `egui_dock` and `jiff`, and into the parts
of std that `vstd` does not specify, stand in small functions marked
`external_body`; the comment above each says what it claims.

Splitting a pane is left to the program, because the dock area measures panes in
floating point: a function that needs a new pane returns a `SplitRequest`.
