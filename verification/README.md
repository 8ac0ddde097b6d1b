# goofbind

A global hotkey engine. A controlling process sends the keybind table as JSON on
stdin; the engine watches the keyboard (a low-level hook on Windows, the X11
listener or the desktop portal on Linux) and writes a JSON line for every keybind
that is pressed or released.

- `src/` is the verified library: the key engine (`structs`, with its laws in
  `laws`), the keymaps of the X11 and Windows backends (`keymap`), the decisions of
  the desktop-portal backend (`wayland`), the text form of keybinds (`registry`),
  the chord tracking of the uiohook backends (`chord`), the choice of Linux backend
  (`platform`) and the error texts (`errors`). The backends in `app/` use the key
  engine, the keymaps, the portal decisions and the backend choice; `registry`
  (keybinds given as text such as `shift+alt+m`) and `chord` are library
  interfaces that no backend in `app/` calls.
- `app/` is the program around it: stdin/stdout, JSON, threads and the platform
  hooks.
- `tests/` runs the library on concrete inputs.
