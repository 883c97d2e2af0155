# kitty_copy_pager

A scrollback pager for the kitty terminal: it reads the whole scrollback on
stdin, shows it, and lets you move with vim motions, select with `v`, copy
with `y` or `Enter`, and search with `/`, `n` and `N`.

The library under `src/` is verified with Verus. It never touches the
terminal: every operation takes the pager's state and a key, and returns the
new state and the list of terminal commands (`term::TermCommand`) to carry
out. The contracts state both exactly, over the specification functions of
each module.

- `text`, `utils`: characters, UTF-8 byte positions, and the calls into
  `unicode-width` and `strip-ansi-escapes`.
- `selection`: visual selections and how they follow the cursor.
- `settings`: the settings, and reading colors from command-line text.
- `pager`: the pager itself (motions, viewport, selection, copy, regex search
  with the `regex` crate, drawing and the status line).
- `scrollback`: a plainer buffer with motions and selection only.

`app/main.rs` is the program: argument parsing with `clap`, reading stdin,
and running the commands with `crossterm`.
