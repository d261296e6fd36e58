# comet

A terminal emulator's core, written in Verus: the screen model and the logic
around it carry `requires` / `ensures` contracts that Verus proves.

## Layout

- `src/` — the verified library.
  - Screen state: `cell`, `cursor`, `grid`, `scrollback`, `selection`,
    `terminal` (writing, wrapping, scrolling, history, selection, hyperlinks).
  - Escape sequences: `parser` (the actions a VT state machine decodes,
    applied to a terminal), `keys` (what key presses send to the shell).
  - Rendering decisions: `damage` (damaged regions and their merging),
    `frame_damage` (what changed between two frames), `cursor_renderer`,
    `atlas` (shelf packing of glyphs), `glyph_cache` (least recently used
    eviction), `cpu_backend` (the software backend's buffers and textures),
    `colors`, `font`, `render`, `render_error`.
  - Configuration and sessions: `config`, `pty_config`, `pty_error`, `manager`,
    `workspace` (tabs, panes and their layout), `frontend`, `text`.
  - Frame contents: `frame_cells` (which cells get a selection background
    and which a glyph, in which face and colour).
- `tests/` — tests of the library.
- `app/` — the program around it: the pseudo-terminal and its threads,
  configuration files, clocks, floating-point geometry and the `main` that
  runs a shell.

`smallvec` holds the damage list behind a few trusted wrappers; every other
outside crate is used from `app/` only.

The program draws with the software backend only. The GPU backend (wgpu),
the window and event loop (winit), font discovery and rasterization
(cosmic-text, fontdb, swash), the clipboard (arboard) and the older
alacritty-based front end are not part of this project: they are windowing,
GPU and system-font I/O whose code could only sit in `app/`, so their crates
are not dependencies. `app/glyphs.rs` states the rasterizer the program
expects as a trait (`Rasterizer`) for such a crate to implement.
