# termix

A drop-down terminal for Wayland (KDE): a global shortcut or a tray click
slides a layer-shell surface down from the top of the screen, showing a
terminal that runs zellij.

- `src/` is the verified library (Verus): the colour palette (`palette`),
  compositing of the terminal grid into the ARGB pixel buffer (`raster`),
  key-press encoding (`keys`), the shortcut registration (`shortcut`), the
  tray's bus name (`tray`), the surface's state machine (`surface`) and the
  terminal event handling and backend commands (`term`). Every public
  function has a contract; the `lemma_*` proof functions state the laws.
- `app/` is the program around it: Wayland (smithay-client-toolkit), the
  terminal emulator and PTY (alacritty_terminal, portable-pty), font
  rasterization (fontdue), D-Bus (zbus) and the tokio runtime.
- `tests/` runs the library on concrete values.
