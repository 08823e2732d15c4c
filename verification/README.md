# layouts

Arrange rearranges the panes of a Herdr tab: presets (columns, rows, grid,
focused pane on a side), expand, balance, rotate, undo, and a visual picker
where panes are dragged or moved with the keyboard.

- `src/` is the verified library. `layout` models the layout tree and its
  edits (swap, dock, replace at a path); `operations` builds target layouts
  and decides undo; `arrange` holds the step-by-step procedures that apply a
  layout (one swap, one rearrange request, or a rebuild through a temporary
  tab, each taken back when it cannot be remembered); `picker`, `geometry` and
  `screen` hold the picker's state, keys, mouse handling and screen layout;
  `herdr`, `cli` and `state` decide what Herdr's answers, the command line and
  the environment mean.
- `app/` runs the program: it talks to Herdr over its socket, reads and
  writes the undo files, draws the picker with ratatui and reads terminal
  events with crossterm, carrying out each request the library's procedures
  ask for.
- `tests/` exercises the library from outside.
