# swtchr

Keyboard layout autoswitcher for Hyprland (English ↔ Russian). It watches what
is typed, notices when a word was entered in the wrong layout, deletes it,
switches the layout and retypes it.

The library under `src/` holds the decisions and is verified with Verus: its
functions state in `requires` and `ensures` what they do, over mathematical
models, and the `laws` and the other public proof functions state what holds of
several of them together.

- `engine`: the word in progress, the dictionaries, the letter statistics and the
  detector that judges a finished word.
- `input`: key events, which devices are keyboards, and the scripts that the
  virtual keyboard carries out.
- `xkb`: the layouts, what a key means in them, and words run through a layout in
  either direction.
- `service`: the state machine that ties these together.
- `selection`, `control`, `hyprland`, `config`, `paths`, `text`: the selection
  swap, the control socket's protocol, Hyprland's protocol, the settings, paths
  that depend on the environment, and text.

`app/` is the program around the library: devices, sockets, files, the keymap
compiler, and the one decision in floating point: whether the letters of the
swapped form of a word outweigh those that were typed. `tests/` runs the library on concrete keystrokes, on
a simulated keyboard with a US and a Russian layout.
