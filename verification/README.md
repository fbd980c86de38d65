# rs_bar

The logic of a Wayland status bar for the niri compositor, written in
Verus and proved against its contracts.

- `src/` is the verified library. Each module covers one part of the bar:
  parsers for what the widgets read from `/proc`, `/sys` and helper
  programs (`cpu`, `freq`, `power`, `wifi`, `audio`, `pkg`, `indicators`),
  the decisions that turn readings into icons, colour classes and labels
  (`battery`, `bluetooth`, `clock`, `hover`, `section`), and the state the bar keeps
  between updates (`workspaces`, `windows`, `minimap`, `tray`, `input`,
  `bytes`). `text` holds the string helpers and their specifications;
  `json` describes the JSON values read through serde_json.
- `tests/` runs the library on concrete inputs.
- `app/` is a terminal front end: it reads the system, calls the library,
  and prints one status line per tick. Floating-point work (watts, rates,
  colours) stays there.

Laws of the library are public proof functions named `law_*`.
