# khudium

An on-screen keyboard overlay for wlroots Wayland compositors: it shows the
keyboard in the active layout, lights the keys being held, and prints the
typing speed above it.

- `src/` is the verified library (Verus):
  - `layout` builds the rows of the standard layouts (qwerty, dvorak,
    colemak, canary); key widths are in hundredths of a key unit.
  - `layout_detect` reads the layout name from `localectl status`, sway's
    input listing, Hyprland's device listing or the XKB environment
    variables, in that order.
  - `stats` counts typed characters and words and formats the rate line.
  - `input` applies keyboard and mouse events to the overlay's state and
    expires the wheel highlights.
  - `cli` turns a placement such as `bottom-right` into screen edges.
  - `render` decides which keys light up, blends glyph pixels with the
    text colour's alpha, and parses the first readable font file.
  - `text` holds the character-level searching and trimming they use.
- `app/` is the program: command line, device and compositor I/O, threads,
  and the floating-point drawing with tiny-skia and fontdue.
- `tests/` runs the library on concrete inputs.
