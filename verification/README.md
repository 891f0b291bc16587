# nestvim

A minimal Vim-like terminal editor whose core is verified with Verus.

- `src/` is the verified library: the text buffer over a `ropey` rope and
  its line model, registers (with the system clipboard through `arboard`),
  marks and macros, the undo manager, the modal key handling of the editor
  (normal, insert, visual and command modes), the Emacs keymap and the
  editor commands behind it, the renderer's frame planning, ANSI
  stripping, language detection, syntax highlighting through `syntect`,
  Nix plugin configs and the plugin registry.
- `u` in normal mode (and `Ctrl-/` in Emacs mode) undoes the last edit
  recorded: typing, Backspace, Enter, `dd`, `dw`, `p`/`P`, a visual
  delete, `Ctrl-d`, `Ctrl-k`, `Ctrl-w`, `Ctrl-y` and `Ctrl-t`.  Undo and
  redo count text in chars.
- `p` and `P` put a register that ends in a line break in as whole lines
  below (above) the cursor line, other text at (after) the cursor; visual
  yank and delete take exactly the selected text or lines.
- `laws.rs` states and proves what holds across calls, each law with the
  inputs it covers: undoing and redoing an insertion, a deletion, a
  replacement, a line split or the deletion of a line gives the text back
  (except where a CR and a LF would join into one line break); an undo
  followed by a redo leaves the stacks as they were; a typed char or an
  Enter taken back with Backspace, and a typed char, a paste, a visual
  delete, a line deleted by `dd` or a line cut by `Ctrl-k` taken back with
  undo, restore
  the text and the cursor; registers and marks read back what was stored;
  the Emacs prefix lasts one key; the cursor stays in view, and a frame
  drawn again with nothing changed redraws nothing.
- `app/` is the program around it: command line parsing, the terminal,
  file reading and writing, the event loop, and the plugin loaders (Lua,
  Lisp, JavaScript, native libraries, Nix).
- `tests/` runs the library on concrete values.
